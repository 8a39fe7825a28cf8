//! The packages known to be compromised, and lookups in that list.
use vstd::prelude::*;

use crate::text::{chars_of, eq_string};

verus! {

/// A package release known to carry the malware.
#[derive(Debug, Clone)]
pub struct CompromisedPackage {
    pub name: String,
    pub version: String,
    pub weekly_downloads: String,
}

impl View for CompromisedPackage {
    type V = (Seq<char>, Seq<char>, Seq<char>);

    open spec fn view(&self) -> (Seq<char>, Seq<char>, Seq<char>) {
        (self.name@, self.version@, self.weekly_downloads@)
    }
}

/// The releases compromised on September 8th, 2025, as
/// (name, version, weekly downloads).
pub open spec fn builtin_packages() -> Seq<(Seq<char>, Seq<char>, Seq<char>)> {
    seq![
        ("backslash"@, "0.2.1"@, "0.26m"@),
        ("chalk-template"@, "1.1.1"@, "3.9m"@),
        ("supports-hyperlinks"@, "4.1.1"@, "19.2m"@),
        ("has-ansi"@, "6.0.1"@, "12.1m"@),
        ("simple-swizzle"@, "0.2.3"@, "26.26m"@),
        ("color-string"@, "2.1.1"@, "27.48m"@),
        ("error-ex"@, "1.3.3"@, "47.17m"@),
        ("color-name"@, "2.0.1"@, "191.71m"@),
        ("is-arrayish"@, "0.3.3"@, "73.8m"@),
        ("slice-ansi"@, "7.1.1"@, "59.8m"@),
        ("color-convert"@, "3.1.1"@, "193.5m"@),
        ("wrap-ansi"@, "9.0.1"@, "197.99m"@),
        ("ansi-regex"@, "6.2.1"@, "243.64m"@),
        ("supports-color"@, "10.2.1"@, "287.1m"@),
        ("strip-ansi"@, "7.1.1"@, "261.17m"@),
        ("chalk"@, "5.6.1"@, "299.99m"@),
        ("debug"@, "4.4.2"@, "357.6m"@),
        ("ansi-styles"@, "6.2.2"@, "371.41m"@),
    ]
}

/// No two records of `records` share a name.
pub open spec fn names_distinct(records: Seq<(Seq<char>, Seq<char>, Seq<char>)>) -> bool {
    forall|i: int, j: int|
        0 <= i < records.len() && 0 <= j < records.len() && i != j ==> records[i].0
            != records[j].0
}

/// The set of compromised releases, keyed by package name: each name
/// occurs once.
pub struct CompromisedSet {
    entries: Vec<CompromisedPackage>,
}

impl View for CompromisedSet {
    type V = Seq<(Seq<char>, Seq<char>, Seq<char>)>;

    closed spec fn view(&self) -> Seq<(Seq<char>, Seq<char>, Seq<char>)> {
        self.entries@.map_values(|p: CompromisedPackage| p@)
    }
}

impl CompromisedSet {
    #[verifier::type_invariant]
    spec fn well_formed(self) -> bool {
        names_distinct(self@)
    }

    /// Some record of the set carries `name`.
    pub open spec fn has_name(self, name: Seq<char>) -> bool {
        exists|i: int| 0 <= i < self@.len() && #[trigger] self@[i].0 == name
    }

    /// The release `name` at `version` is in the set.
    pub open spec fn holds(self, name: Seq<char>, version: Seq<char>) -> bool {
        exists|i: int|
            0 <= i < self@.len() && #[trigger] self@[i].0 == name && self@[i].1 == version
    }

    /// The built-in list of compromised releases.
    pub fn builtin() -> (set: Self)
        ensures
            set@ == builtin_packages(),
    {
        let mut entries: Vec<CompromisedPackage> = Vec::new();
        push_record(&mut entries, "backslash", "0.2.1", "0.26m");
        push_record(&mut entries, "chalk-template", "1.1.1", "3.9m");
        push_record(&mut entries, "supports-hyperlinks", "4.1.1", "19.2m");
        push_record(&mut entries, "has-ansi", "6.0.1", "12.1m");
        push_record(&mut entries, "simple-swizzle", "0.2.3", "26.26m");
        push_record(&mut entries, "color-string", "2.1.1", "27.48m");
        push_record(&mut entries, "error-ex", "1.3.3", "47.17m");
        push_record(&mut entries, "color-name", "2.0.1", "191.71m");
        push_record(&mut entries, "is-arrayish", "0.3.3", "73.8m");
        push_record(&mut entries, "slice-ansi", "7.1.1", "59.8m");
        push_record(&mut entries, "color-convert", "3.1.1", "193.5m");
        push_record(&mut entries, "wrap-ansi", "9.0.1", "197.99m");
        push_record(&mut entries, "ansi-regex", "6.2.1", "243.64m");
        push_record(&mut entries, "supports-color", "10.2.1", "287.1m");
        push_record(&mut entries, "strip-ansi", "7.1.1", "261.17m");
        push_record(&mut entries, "chalk", "5.6.1", "299.99m");
        push_record(&mut entries, "debug", "4.4.2", "357.6m");
        push_record(&mut entries, "ansi-styles", "6.2.2", "371.41m");
        proof {
            assert(entries@.map_values(|p: CompromisedPackage| p@) == builtin_packages());
            lemma_builtin_names_distinct();
        }
        CompromisedSet { entries }
    }

    /// Whether the release `name` at `version` is compromised.
    pub fn is_compromised(&self, name: &[char], version: &[char]) -> (res: bool)
        ensures
            res == self.holds(name@, version@),
    {
        let mut i: usize = 0;
        while i < self.entries.len()
            invariant
                i <= self@.len(),
                self@ == self.entries@.map_values(|p: CompromisedPackage| p@),
                forall|j: int| 0 <= j < i ==> !(self@[j].0 == name@ && self@[j].1 == version@),
            decreases self@.len() - i,
        {
            if eq_string(name, &self.entries[i].name) && eq_string(version, &self.entries[i].version) {
                assert(self@[i as int].0 == name@);
                return true;
            }
            i = i + 1;
        }
        false
    }

    /// The weekly download count recorded for the release `name` at
    /// `version`, if it is compromised.
    pub fn weekly_downloads(&self, name: &str, version: &str) -> (res: Option<String>)
        ensures
            res is Some <==> self.holds(name@, version@),
            res matches Some(d) ==> forall|i: int|
                0 <= i < self@.len() && #[trigger] self@[i].0 == name@ ==> self@[i].2 == d@,
    {
        proof {
            use_type_invariant(self);
        }
        let wanted_name = chars_of(name);
        let wanted_version = chars_of(version);
        let mut i: usize = 0;
        while i < self.entries.len()
            invariant
                wanted_name@ == name@,
                wanted_version@ == version@,
                names_distinct(self@),
                i <= self@.len(),
                self@ == self.entries@.map_values(|p: CompromisedPackage| p@),
                forall|j: int| 0 <= j < i ==> !(self@[j].0 == name@ && self@[j].1 == version@),
            decreases self@.len() - i,
        {
            if eq_string(&wanted_name, &self.entries[i].name) && eq_string(
                &wanted_version,
                &self.entries[i].version,
            ) {
                assert(self@[i as int].0 == name@);
                let downloads = self.entries[i].weekly_downloads.clone();
                return Some(downloads);
            }
            i = i + 1;
        }
        None
    }

    /// The number of records (one per name).
    pub fn len(&self) -> (n: usize)
        ensures
            n == self@.len(),
    {
        self.entries.len()
    }

    /// Whether some record carries `name`.
    pub fn contains_key(&self, name: &str) -> (res: bool)
        ensures
            res == self.has_name(name@),
    {
        let wanted = chars_of(name);
        let mut i: usize = 0;
        while i < self.entries.len()
            invariant
                wanted@ == name@,
                i <= self@.len(),
                self@ == self.entries@.map_values(|p: CompromisedPackage| p@),
                forall|j: int| 0 <= j < i ==> self@[j].0 != name@,
            decreases self@.len() - i,
        {
            if eq_string(&wanted, &self.entries[i].name) {
                assert(self@[i as int].0 == name@);
                return true;
            }
            i = i + 1;
        }
        false
    }
}

fn push_record(entries: &mut Vec<CompromisedPackage>, name: &str, version: &str, downloads: &str)
    ensures
        final(entries)@.map_values(|p: CompromisedPackage| p@) == old(entries)@.map_values(
            |p: CompromisedPackage| p@,
        ).push((name@, version@, downloads@)),
{
    entries.push(
        CompromisedPackage {
            name: name.to_string(),
            version: version.to_string(),
            weekly_downloads: downloads.to_string(),
        },
    );
    assert(final(entries)@.map_values(|p: CompromisedPackage| p@) == old(entries)@.map_values(
        |p: CompromisedPackage| p@,
    ).push((name@, version@, downloads@)));
}

/// Every name of the built-in list occurs once.
pub proof fn lemma_builtin_names_distinct()
    ensures
        names_distinct(builtin_packages()),
{
    let b = builtin_packages();
    reveal_strlit("backslash");
    assert("backslash"@.len() == 9 && "backslash"@[0] == 'b' && "backslash"@[1] == 'a');
    reveal_strlit("chalk-template");
    assert("chalk-template"@.len() == 14 && "chalk-template"@[0] == 'c' && "chalk-template"@[1] == 'h');
    reveal_strlit("supports-hyperlinks");
    assert("supports-hyperlinks"@.len() == 19 && "supports-hyperlinks"@[0] == 's' && "supports-hyperlinks"@[1] == 'u');
    reveal_strlit("has-ansi");
    assert("has-ansi"@.len() == 8 && "has-ansi"@[0] == 'h' && "has-ansi"@[1] == 'a');
    reveal_strlit("simple-swizzle");
    assert("simple-swizzle"@.len() == 14 && "simple-swizzle"@[0] == 's' && "simple-swizzle"@[1] == 'i');
    reveal_strlit("color-string");
    assert("color-string"@.len() == 12 && "color-string"@[0] == 'c' && "color-string"@[1] == 'o');
    reveal_strlit("error-ex");
    assert("error-ex"@.len() == 8 && "error-ex"@[0] == 'e' && "error-ex"@[1] == 'r');
    reveal_strlit("color-name");
    assert("color-name"@.len() == 10 && "color-name"@[0] == 'c' && "color-name"@[1] == 'o');
    reveal_strlit("is-arrayish");
    assert("is-arrayish"@.len() == 11 && "is-arrayish"@[0] == 'i' && "is-arrayish"@[1] == 's');
    reveal_strlit("slice-ansi");
    assert("slice-ansi"@.len() == 10 && "slice-ansi"@[0] == 's' && "slice-ansi"@[1] == 'l');
    reveal_strlit("color-convert");
    assert("color-convert"@.len() == 13 && "color-convert"@[0] == 'c' && "color-convert"@[1] == 'o');
    reveal_strlit("wrap-ansi");
    assert("wrap-ansi"@.len() == 9 && "wrap-ansi"@[0] == 'w' && "wrap-ansi"@[1] == 'r');
    reveal_strlit("ansi-regex");
    assert("ansi-regex"@.len() == 10 && "ansi-regex"@[0] == 'a' && "ansi-regex"@[1] == 'n');
    reveal_strlit("supports-color");
    assert("supports-color"@.len() == 14 && "supports-color"@[0] == 's' && "supports-color"@[1] == 'u');
    reveal_strlit("strip-ansi");
    assert("strip-ansi"@.len() == 10 && "strip-ansi"@[0] == 's' && "strip-ansi"@[1] == 't');
    reveal_strlit("chalk");
    assert("chalk"@.len() == 5 && "chalk"@[0] == 'c' && "chalk"@[1] == 'h');
    reveal_strlit("debug");
    assert("debug"@.len() == 5 && "debug"@[0] == 'd' && "debug"@[1] == 'e');
    reveal_strlit("ansi-styles");
    assert("ansi-styles"@.len() == 11 && "ansi-styles"@[0] == 'a' && "ansi-styles"@[1] == 'n');
    assert forall|i: int, j: int| 0 <= i < b.len() && 0 <= j < b.len() && i != j implies b[i].0
        != b[j].0 by {
        if b[i].0 == b[j].0 {
            assert(b[i].0.len() == b[j].0.len());
            assert(b[i].0[0] == b[j].0[0]);
            assert(b[i].0[1] == b[j].0[1]);
        }
    }
}

} // verus!
