//! Detection in pnpm lockfiles (`pnpm-lock.yaml`): from the YAML document
//! when it reads as one, else line by line.
use vstd::prelude::*;

use crate::registry::CompromisedSet;
use crate::scanner::{detections_of, lemma_detections_push, DetectedPackage, Detection, ScanError, Scanner};
use crate::text::{
    chars_of, eq_str, find_char, find_index, lemma_find_char_found, lines, lines_of,
    first_segment, first_segment_slice, second_segment, second_segment_slice, starts_with,
    starts_with_str, string_of, trim, trim_slice, trim_start, trim_start_slice, CharClass,
};
use crate::yarn::texts_of;

verus! {

/// The version of a direct dependency: written as a plain string, or as an
/// object with a `version` field.
#[derive(Debug)]
pub enum PnpmDependencyVersion {
    String(String),
    Object(PnpmDependency),
}

/// A direct dependency written as an object.
#[derive(Debug)]
pub struct PnpmDependency {
    pub version: String,
}

/// What scanning reads of a pnpm lockfile document: its direct
/// dependencies and the keys of its `packages` section, each in the order
/// in which they are handed over.
#[derive(Debug)]
pub struct PnpmLockfile {
    pub dependencies: Option<Vec<(String, PnpmDependencyVersion)>>,
    pub packages: Option<Vec<String>>,
}

pub open spec fn dependency_version(v: PnpmDependencyVersion) -> Seq<char> {
    match v {
        PnpmDependencyVersion::String(s) => s@,
        PnpmDependencyVersion::Object(o) => o.version@,
    }
}

/// The compromised direct dependencies, in order.
pub open spec fn pnpm_dependency_detections(
    set: CompromisedSet,
    deps: Seq<(String, PnpmDependencyVersion)>,
) -> Seq<Detection>
    decreases deps.len(),
{
    if deps.len() == 0 {
        Seq::empty()
    } else {
        let name = deps.last().0@;
        let version = dependency_version(deps.last().1);
        pnpm_dependency_detections(set, deps.drop_last()) + if set.holds(name, version) {
            seq![
                Detection {
                    name: name,
                    version: version,
                    path: name,
                    location: "direct dependency"@,
                },
            ]
        } else {
            Seq::empty()
        }
    }
}

/// The package that a `packages` key names: with leading `/` removed, the
/// first `/`-separated part is the name and the second the version.
pub open spec fn package_key_name(key: Seq<char>) -> Seq<char> {
    first_segment(trim_start(key, CharClass::Exactly('/')), '/')
}

pub open spec fn package_key_version(key: Seq<char>) -> Seq<char> {
    match second_segment(trim_start(key, CharClass::Exactly('/')), '/') {
        Some(v) => v,
        None => "unknown"@,
    }
}

/// The compromised packages among the keys of the `packages` section.
pub open spec fn pnpm_package_detections(set: CompromisedSet, keys: Seq<String>) -> Seq<Detection>
    decreases keys.len(),
{
    if keys.len() == 0 {
        Seq::empty()
    } else {
        let key = keys.last()@;
        pnpm_package_detections(set, keys.drop_last()) + if set.holds(
            package_key_name(key),
            package_key_version(key),
        ) {
            seq![
                Detection {
                    name: package_key_name(key),
                    version: package_key_version(key),
                    path: key,
                    location: "pnpm package"@,
                },
            ]
        } else {
            Seq::empty()
        }
    }
}

/// The compromised releases in a pnpm lockfile document: direct
/// dependencies first, then packages.
pub open spec fn pnpm_document_detections(set: CompromisedSet, document: PnpmLockfile) -> Seq<
    Detection,
> {
    let from_dependencies = match document.dependencies {
        Some(deps) => pnpm_dependency_detections(set, deps@),
        None => Seq::empty(),
    };
    let from_packages = match document.packages {
        Some(keys) => pnpm_package_detections(set, keys@),
        None => Seq::empty(),
    };
    from_dependencies + from_packages
}

/// Which section of the lockfile a line stands in: (`dependencies`,
/// `packages`).
pub open spec fn section_after(section: (bool, bool), line: Seq<char>) -> (bool, bool) {
    if line == "dependencies:"@ {
        (true, false)
    } else if line == "packages:"@ {
        (false, true)
    } else if !starts_with(line, " "@) && line.len() > 0 {
        (false, false)
    } else {
        section
    }
}

pub open spec fn is_section_marker(line: Seq<char>) -> bool {
    line == "dependencies:"@ || line == "packages:"@
}

/// The section in force on line `n - 1`, after it was read.
pub open spec fn section_at(ls: Seq<Seq<char>>, n: int) -> (bool, bool)
    decreases n,
{
    if n <= 0 {
        (false, false)
    } else {
        section_after(section_at(ls, n - 1), ls[n - 1])
    }
}

/// A direct dependency line of the `dependencies` section:
/// `  name: version`, the version maybe quoted.
pub open spec fn fallback_dependency_detections(
    set: CompromisedSet,
    section: (bool, bool),
    line: Seq<char>,
) -> Seq<Detection> {
    if section.0 && starts_with(line, "  "@) && !starts_with(line, "    "@) && find_char(line, ':') is Some {
        let colon = find_char(line, ':')->0;
        let name = trim(line.take(colon), CharClass::WhiteSpace);
        let version = trim(
            trim(trim(line.skip(colon + 1), CharClass::WhiteSpace), CharClass::Exactly('\'')),
            CharClass::Exactly('"'),
        );
        if set.holds(name, version) {
            seq![
                Detection {
                    name: name,
                    version: version,
                    path: name,
                    location: "direct dependency"@,
                },
            ]
        } else {
            Seq::empty()
        }
    } else {
        Seq::empty()
    }
}

/// A package line of the `packages` section that the line reading takes
/// apart: `  /name@version:`.
pub open spec fn is_fallback_package_line(section: (bool, bool), line: Seq<char>) -> bool {
    &&& section.1
    &&& starts_with(line, "  /"@)
    &&& find_char(line, '@') is Some
    &&& find_char(line, ':') is Some
}

/// A package line whose first `:` stands before its first `@`: taking it
/// apart panics (a slice whose start lies after its end).
pub open spec fn fallback_line_panics(section: (bool, bool), line: Seq<char>) -> bool {
    &&& !is_section_marker(line)
    &&& is_fallback_package_line(section, line)
    &&& find_char(line, ':')->0 < find_char(line, '@')->0 + 1
}

pub open spec fn fallback_package_detections(
    set: CompromisedSet,
    section: (bool, bool),
    line: Seq<char>,
) -> Seq<Detection> {
    if is_fallback_package_line(section, line) {
        let at = find_char(line, '@')->0;
        let colon = find_char(line, ':')->0;
        let name = trim(line.subrange(3, at), CharClass::WhiteSpace);
        let version = trim(line.subrange(at + 1, colon), CharClass::WhiteSpace);
        if set.holds(name, version) {
            seq![
                Detection {
                    name: name,
                    version: version,
                    path: "/"@ + name + "@"@ + version,
                    location: "pnpm package"@,
                },
            ]
        } else {
            Seq::empty()
        }
    } else {
        Seq::empty()
    }
}

/// What line `n - 1` gives; section markers give nothing.
pub open spec fn fallback_line_detections(set: CompromisedSet, ls: Seq<Seq<char>>, n: int) -> Seq<
    Detection,
> {
    if is_section_marker(ls[n - 1]) {
        Seq::empty()
    } else {
        fallback_dependency_detections(set, section_at(ls, n), ls[n - 1])
            + fallback_package_detections(set, section_at(ls, n), ls[n - 1])
    }
}

pub open spec fn fallback_detections_upto(set: CompromisedSet, ls: Seq<Seq<char>>, n: int) -> Seq<
    Detection,
>
    decreases n,
{
    if n <= 0 {
        Seq::empty()
    } else {
        fallback_detections_upto(set, ls, n - 1) + fallback_line_detections(set, ls, n)
    }
}

/// The compromised releases that line-by-line reading finds in a pnpm
/// lockfile.
pub open spec fn pnpm_fallback_detections(set: CompromisedSet, content: Seq<char>) -> Seq<
    Detection,
> {
    fallback_detections_upto(set, lines(content), lines(content).len() as int)
}

/// Line-by-line reading of `content` comes on a package line it cannot
/// take apart.
pub open spec fn pnpm_fallback_panics(content: Seq<char>) -> bool {
    exists|i: int|
        0 <= i < lines(content).len() && #[trigger] fallback_line_panics(
            section_at(lines(content), i + 1),
            lines(content)[i],
        )
}

/// The version text of a direct dependency.
fn dependency_version_text(v: &PnpmDependencyVersion) -> (res: &String)
    ensures
        res@ == dependency_version(*v),
{
    match v {
        PnpmDependencyVersion::String(s) => s,
        PnpmDependencyVersion::Object(o) => &o.version,
    }
}

/// The four texts one after another.
fn join4(a: &str, b: &[char], c: &str, d: &[char]) -> (res: String)
    ensures
        res@ == a@ + b@ + c@ + d@,
{
    let mut res = a.to_string();
    let b_text = string_of(b);
    let d_text = string_of(d);
    res.append(b_text.as_str());
    res.append(c);
    res.append(d_text.as_str());
    res
}

/// Whether line `line`, in section `section`, is a package line that the
/// line reading cannot take apart.
fn line_panics(section: (bool, bool), line: &[char]) -> (res: bool)
    ensures
        res == fallback_line_panics(section, line@),
{
    if eq_str(line, "dependencies:") || eq_str(line, "packages:") {
        return false;
    }
    if section.1 && starts_with_str(line, "  /") {
        match (find_index(line, '@'), find_index(line, ':')) {
            (Some(at), Some(colon)) => colon <= at,
            _ => false,
        }
    } else {
        false
    }
}

/// The section after reading `line`.
fn next_section(section: (bool, bool), line: &[char]) -> (res: (bool, bool))
    ensures
        res == section_after(section, line@),
{
    if eq_str(line, "dependencies:") {
        (true, false)
    } else if eq_str(line, "packages:") {
        (false, true)
    } else if !starts_with_str(line, " ") && line.len() > 0 {
        (false, false)
    } else {
        section
    }
}

/// Whether reading `content` line by line comes on a package line it
/// cannot take apart (where the `:` stands before the `@`).
pub fn pnpm_fallback_would_panic(content: &str) -> (res: bool)
    ensures
        res == pnpm_fallback_panics(content@),
{
    let text = chars_of(content);
    let ls = lines_of(&text);
    let ghost texts = texts_of(ls@);
    assert(texts == lines(content@));
    let mut section: (bool, bool) = (false, false);
    let mut i: usize = 0;
    while i < ls.len()
        invariant
            i <= ls@.len(),
            texts == texts_of(ls@),
            texts == lines(content@),
            section == section_at(texts, i as int),
            forall|k: int| 0 <= k < i ==> !#[trigger] fallback_line_panics(section_at(texts, k + 1), texts[k]),
        decreases ls@.len() - i,
    {
        let line = ls[i];
        assert(texts[i as int] == line@);
        section = next_section(section, line);
        if line_panics(section, line) {
            assert(fallback_line_panics(section_at(texts, i + 1), texts[i as int]));
            return true;
        }
        i = i + 1;
    }
    false
}

impl Scanner {
    /// The compromised releases in a pnpm lockfile document.
    pub fn detect_pnpm_packages(&self, document: &PnpmLockfile) -> (res: Vec<DetectedPackage>)
        ensures
            detections_of(res@) == pnpm_document_detections(self.compromised_packages, *document),
    {
        let mut detected: Vec<DetectedPackage> = Vec::new();
        let ghost set = self.compromised_packages;
        match &document.dependencies {
            Some(deps) => {
                let mut i: usize = 0;
                while i < deps.len()
                    invariant
                        i <= deps@.len(),
                        set == self.compromised_packages,
                        detections_of(detected@) == pnpm_dependency_detections(
                            set,
                            deps@.take(i as int),
                        ),
                    decreases deps@.len() - i,
                {
                    let name = &deps[i].0;
                    let version = dependency_version_text(&deps[i].1);
                    if self.compromised_packages.is_compromised(
                        &chars_of(name.as_str()),
                        &chars_of(version.as_str()),
                    ) {
                        let found = DetectedPackage {
                            name: name.clone(),
                            version: version.clone(),
                            path: name.clone(),
                            location: "direct dependency".to_string(),
                        };
                        proof {
                            lemma_detections_push(detected@, found);
                        }
                        detected.push(found);
                    }
                    assert(deps@.take(i + 1).drop_last() == deps@.take(i as int));
                    assert(deps@.take(i + 1).last() == deps@[i as int]);
                    i = i + 1;
                }
                assert(deps@.take(deps@.len() as int) == deps@);
            },
            None => {},
        }
        let ghost after_dependencies = detections_of(detected@);
        match &document.packages {
            Some(keys) => {
                let mut i: usize = 0;
                while i < keys.len()
                    invariant
                        i <= keys@.len(),
                        set == self.compromised_packages,
                        detections_of(detected@) == after_dependencies + pnpm_package_detections(
                            set,
                            keys@.take(i as int),
                        ),
                    decreases keys@.len() - i,
                {
                    let key = &keys[i];
                    let key_chars = chars_of(key.as_str());
                    let trimmed = trim_start_slice(&key_chars, '/');
                    let name = first_segment_slice(trimmed, '/');
                    let version = match second_segment_slice(trimmed, '/') {
                        Some(v) => string_of(v),
                        None => "unknown".to_string(),
                    };
                    if self.compromised_packages.is_compromised(name, &chars_of(version.as_str())) {
                        let found = DetectedPackage {
                            name: string_of(name),
                            version: version,
                            path: key.clone(),
                            location: "pnpm package".to_string(),
                        };
                        proof {
                            lemma_detections_push(detected@, found);
                        }
                        detected.push(found);
                    }
                    assert(keys@.take(i + 1).drop_last() == keys@.take(i as int));
                    assert(keys@.take(i + 1).last() == keys@[i as int]);
                    i = i + 1;
                }
                assert(keys@.take(keys@.len() as int) == keys@);
            },
            None => {
                assert(detections_of(detected@) == after_dependencies + Seq::<Detection>::empty());
            },
        }
        detected
    }

    /// Reads a pnpm lockfile line by line and returns the compromised
    /// releases it finds; never fails.
    pub fn parse_pnpm_lockfile_fallback(&self, content: &str) -> (res: Result<
        Vec<DetectedPackage>,
        ScanError,
    >)
        requires
            !pnpm_fallback_panics(content@),
        ensures
            res matches Ok(found) && detections_of(found@) == pnpm_fallback_detections(
                self.compromised_packages,
                content@,
            ),
    {
        let text = chars_of(content);
        let ls = lines_of(&text);
        let ghost texts = texts_of(ls@);
        let ghost set = self.compromised_packages;
        assert(texts == lines(content@));
        let mut detected: Vec<DetectedPackage> = Vec::new();
        let mut section: (bool, bool) = (false, false);
        let mut i: usize = 0;
        while i < ls.len()
            invariant
                i <= ls@.len(),
                set == self.compromised_packages,
                texts == texts_of(ls@),
                texts == lines(content@),
                !pnpm_fallback_panics(content@),
                section == section_at(texts, i as int),
                detections_of(detected@) == fallback_detections_upto(set, texts, i as int),
            decreases ls@.len() - i,
        {
            let line = ls[i];
            assert(texts[i as int] == line@);
            section = next_section(section, line);
            let ghost before = detections_of(detected@);
            if !(eq_str(line, "dependencies:") || eq_str(line, "packages:")) {
                if section.0 && starts_with_str(line, "  ") && !starts_with_str(line, "    ") {
                    match find_index(line, ':') {
                        Some(colon) => {
                            proof {
                                lemma_find_char_found(line@, ':');
                            }
                            assert(crate::text::is_first_index(line@, ':', colon as int));
                            let n: usize = line.len();
                            let name = trim_slice(&line[0..colon], CharClass::WhiteSpace);
                            let rest = &line[colon + 1..n];
                            assert(rest@ == line@.skip(colon + 1));
                            let version = trim_slice(
                                trim_slice(
                                    trim_slice(rest, CharClass::WhiteSpace),
                                    CharClass::Exactly('\''),
                                ),
                                CharClass::Exactly('"'),
                            );
                            if self.compromised_packages.is_compromised(name, version) {
                                let found = DetectedPackage {
                                    name: string_of(name),
                                    version: string_of(version),
                                    path: string_of(name),
                                    location: "direct dependency".to_string(),
                                };
                                proof {
                                    lemma_detections_push(detected@, found);
                                }
                                detected.push(found);
                            }
                        },
                        None => {},
                    }
                }
                let ghost middle = detections_of(detected@);
                assert(middle == before + fallback_dependency_detections(set, section, line@));
                if section.1 && starts_with_str(line, "  /") {
                    match (find_index(line, '@'), find_index(line, ':')) {
                        (Some(at), Some(colon)) => {
                            proof {
                                lemma_find_char_found(line@, '@');
                                lemma_find_char_found(line@, ':');
                                assert(!fallback_line_panics(section_at(texts, i + 1), texts[i as int]));
                                reveal_strlit("  /");
                                assert("  /"@.len() == 3);
                                assert("  /"@[0] == ' ' && "  /"@[1] == ' ' && "  /"@[2] == '/');
                                assert(line@.take(3) == "  /"@);
                                assert(line@[0] == line@.take(3)[0]);
                                assert(line@[1] == line@.take(3)[1]);
                                assert(line@[2] == line@.take(3)[2]);
                            }
                            let name = trim_slice(&line[3..at], CharClass::WhiteSpace);
                            let version = trim_slice(&line[at + 1..colon], CharClass::WhiteSpace);
                            if self.compromised_packages.is_compromised(name, version) {
                                let found = DetectedPackage {
                                    name: string_of(name),
                                    version: string_of(version),
                                    path: join4("/", name, "@", version),
                                    location: "pnpm package".to_string(),
                                };
                                proof {
                                    lemma_detections_push(detected@, found);
                                }
                                detected.push(found);
                            }
                        },
                        _ => {},
                    }
                }
                assert(detections_of(detected@) == middle + fallback_package_detections(
                    set,
                    section,
                    line@,
                ));
            }
            assert(detections_of(detected@) == before + fallback_line_detections(
                set,
                texts,
                i + 1,
            ));
            i = i + 1;
        }
        Ok(detected)
    }

    /// Returns the compromised releases of a pnpm lockfile: those of
    /// `document`, the YAML document read from `content`, when it read as
    /// one, else those that reading `content` line by line finds. Never
    /// fails.
    pub fn parse_pnpm_lockfile(&self, content: &str, document: Option<&PnpmLockfile>) -> (res: Result<
        Vec<DetectedPackage>,
        ScanError,
    >)
        requires
            document is None ==> !pnpm_fallback_panics(content@),
        ensures
            res matches Ok(found) && detections_of(found@) == match document {
                Some(d) => pnpm_document_detections(self.compromised_packages, *d),
                None => pnpm_fallback_detections(self.compromised_packages, content@),
            },
    {
        match document {
            Some(d) => Ok(self.detect_pnpm_packages(d)),
            None => self.parse_pnpm_lockfile_fallback(content),
        }
    }
}

} // verus!
