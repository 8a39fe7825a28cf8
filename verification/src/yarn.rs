//! Detection in yarn lockfiles (`yarn.lock`), line by line.
use vstd::prelude::*;

use crate::registry::CompromisedSet;
use crate::scanner::{detections_of, lemma_detections_push, DetectedPackage, Detection, ScanError, Scanner};
use crate::text::{
    chars_of, find_char, find_index, lemma_find_char_found, lines, lines_of, second_segment,
    second_segment_slice, starts_with, starts_with_str, string_of, trim, trim_slice, CharClass,
};

verus! {

/// A line that declares a package: it does not start with a space and holds
/// an `@`.
pub open spec fn is_declaration(line: Seq<char>) -> bool {
    !starts_with(line, " "@) && find_char(line, '@') is Some
}

/// The package a declaration line names: the text before its first `@`,
/// without surrounding double and then single quotes.
pub open spec fn declared_name(line: Seq<char>) -> Seq<char> {
    trim(trim(line.take(find_char(line, '@')->0), CharClass::Exactly('"')), CharClass::Exactly('\''))
}

/// The version found from line `j` on, before line `end`: the first quoted
/// text on a line whose trimmed text starts with `version`, unless a line
/// that does not start with a space comes first.
pub open spec fn version_from(ls: Seq<Seq<char>>, j: int, end: int) -> Option<Seq<char>>
    decreases end - j,
{
    if j >= end || j < 0 {
        None
    } else if starts_with(trim(ls[j], CharClass::WhiteSpace), "version"@) && second_segment(
        ls[j],
        '"',
    ) is Some {
        second_segment(ls[j], '"')
    } else if !starts_with(ls[j], " "@) {
        None
    } else {
        version_from(ls, j + 1, end)
    }
}

/// The version of the package declared on line `i`, looked for in the nine
/// lines after it; `"unknown"` when none is found.
pub open spec fn declared_version(ls: Seq<Seq<char>>, i: int) -> Seq<char> {
    let end: int = if ls.len() < i + 10 {
        ls.len() as int
    } else {
        i + 10
    };
    match version_from(ls, i + 1, end) {
        Some(v) => v,
        None => "unknown"@,
    }
}

/// The detection that line `i` gives, if it declares a compromised release.
pub open spec fn yarn_line_detections(set: CompromisedSet, ls: Seq<Seq<char>>, i: int) -> Seq<
    Detection,
> {
    if is_declaration(ls[i]) && set.holds(declared_name(ls[i]), declared_version(ls, i)) {
        seq![
            Detection {
                name: declared_name(ls[i]),
                version: declared_version(ls, i),
                path: declared_name(ls[i]),
                location: "yarn dependency"@,
            },
        ]
    } else {
        Seq::empty()
    }
}

/// The detections of the first `n` lines, in line order.
pub open spec fn yarn_detections_upto(set: CompromisedSet, ls: Seq<Seq<char>>, n: int) -> Seq<
    Detection,
>
    decreases n,
{
    if n <= 0 {
        Seq::empty()
    } else {
        yarn_detections_upto(set, ls, n - 1) + yarn_line_detections(set, ls, n - 1)
    }
}

/// The compromised releases that a yarn lockfile declares.
pub open spec fn yarn_detections(set: CompromisedSet, content: Seq<char>) -> Seq<Detection> {
    yarn_detections_upto(set, lines(content), lines(content).len() as int)
}

/// The texts of a list of line slices.
pub open spec fn texts_of(ls: Seq<&[char]>) -> Seq<Seq<char>> {
    ls.map_values(|l: &[char]| l@)
}

/// The line before which the version of a declaration on line `i` is looked
/// for.
pub open spec fn window_end(len: int, i: int) -> int {
    if len < i + 10 {
        len
    } else {
        i + 10
    }
}

/// The version of the package declared on line `i` (`None` for unknown).
fn find_declared_version<'a>(ls: &Vec<&'a [char]>, i: usize) -> (res: Option<&'a [char]>)
    requires
        i < ls@.len(),
    ensures
        match res {
            Some(v) => version_from(texts_of(ls@), i + 1, window_end(ls@.len() as int, i as int))
                == Some(v@),
            None => version_from(texts_of(ls@), i + 1, window_end(ls@.len() as int, i as int)) is None,
        },
{
    let ghost texts = texts_of(ls@);
    let end: usize = if ls.len() - i < 10 {
        ls.len()
    } else {
        i + 10
    };
    let mut j: usize = i + 1;
    while j < end
        invariant
            i < j <= end + 1,
            end <= ls@.len(),
            texts == texts_of(ls@),
            end == window_end(ls@.len() as int, i as int),
            version_from(texts, i + 1, end as int) == version_from(texts, j as int, end as int),
        decreases end - j,
    {
        let line = ls[j];
        assert(texts[j as int] == line@);
        if starts_with_str(trim_slice(line, CharClass::WhiteSpace), "version") {
            match second_segment_slice(line, '"') {
                Some(v) => {
                    assert(version_from(texts, j as int, end as int) == Some(v@));
                    return Some(v);
                },
                None => {},
            }
        }
        if !starts_with_str(line, " ") {
            assert(version_from(texts, j as int, end as int) is None);
            return None;
        }
        j = j + 1;
    }
    None
}

impl Scanner {
    /// Reads a yarn lockfile and returns the compromised releases it
    /// declares; never fails.
    pub fn parse_yarn_lockfile(&self, content: &str) -> (res: Result<Vec<DetectedPackage>, ScanError>)
        ensures
            res matches Ok(found) && detections_of(found@) == yarn_detections(
                self.compromised_packages,
                content@,
            ),
    {
        let text = chars_of(content);
        let ls = lines_of(&text);
        let ghost texts = texts_of(ls@);
        assert(texts == lines(content@));
        let mut detected: Vec<DetectedPackage> = Vec::new();
        let mut i: usize = 0;
        while i < ls.len()
            invariant
                i <= ls@.len(),
                texts == texts_of(ls@),
                detections_of(detected@) == yarn_detections_upto(
                    self.compromised_packages,
                    texts,
                    i as int,
                ),
            decreases ls@.len() - i,
        {
            let line = ls[i];
            assert(texts[i as int] == line@);
            if !starts_with_str(line, " ") {
                match find_index(line, '@') {
                    Some(at) => {
                        proof {
                            lemma_find_char_found(line@, '@');
                        }
                        let name_chars = trim_slice(
                            trim_slice(&line[0..at], CharClass::Exactly('"')),
                            CharClass::Exactly('\''),
                        );
                        let version = match find_declared_version(&ls, i) {
                            Some(v) => string_of(v),
                            None => "unknown".to_string(),
                        };
                        if self.compromised_packages.is_compromised(
                            name_chars,
                            &chars_of(version.as_str()),
                        ) {
                            let found = DetectedPackage {
                                name: string_of(name_chars),
                                version: version,
                                path: string_of(name_chars),
                                location: "yarn dependency".to_string(),
                            };
                            proof {
                                lemma_detections_push(detected@, found);
                            }
                            detected.push(found);
                        }
                    },
                    None => {},
                }
            }
            i = i + 1;
        }
        Ok(detected)
    }
}

} // verus!
