//! Detection in npm lockfiles (`package-lock.json`), both the nested
//! `dependencies` tree of lockfile version 1 and the flat `packages` table
//! of versions 2 and 3.
use vstd::prelude::*;

use crate::json::{
    field, field_object, field_str, get_field, json_document, json_error_text, lemma_member_is_member, member,
    parse_json, JsonValue,
};
use crate::registry::CompromisedSet;
use crate::scanner::{
    detections_of, lemma_detections_push, DetectedPackage, Detection, ScanError, Scanner,
};
use crate::text::{chars_of, first_segment, first_segment_slice, starts_with, starts_with_str, string_of};

verus! {

/// The version that an npm entry records, `"unknown"` when it records none.
pub open spec fn version_of(info: JsonValue) -> Seq<char> {
    match field_str(info, "version"@) {
        Some(v) => v,
        None => "unknown"@,
    }
}

/// The dependency path of `name` below `parent` (`a > b > c`).
pub open spec fn child_path(parent: Seq<char>, name: Seq<char>) -> Seq<char> {
    if parent.len() == 0 {
        name
    } else {
        parent + " > "@ + name
    }
}

pub open spec fn dependency_location(parent: Seq<char>) -> Seq<char> {
    if parent.len() == 0 {
        "direct dependency"@
    } else {
        "transitive dependency"@
    }
}

/// The compromised releases in the dependency `name`, described by `info`,
/// below `parent`: the entry itself, then what its own `dependencies` hold.
pub open spec fn entry_detections(
    set: CompromisedSet,
    name: Seq<char>,
    info: JsonValue,
    parent: Seq<char>,
) -> Seq<Detection>
    decreases info,
{
    let own = if set.holds(name, version_of(info)) {
        seq![
            Detection {
                name: name,
                version: version_of(info),
                path: child_path(parent, name),
                location: dependency_location(parent),
            },
        ]
    } else {
        Seq::empty()
    };
    let nested = match info {
        JsonValue::Object(members) => match member(members@, "dependencies"@) {
            Some(JsonValue::Object(children)) => {
                proof {
                    lemma_member_is_member(members@, "dependencies"@);
                    let k: int = choose|k: int|
                        0 <= k < members@.len() && #[trigger] members@[k].1 == JsonValue::Object(
                            children,
                        );
                    assert(decreases_to!(info => children@)) by {
                        assert(decreases_to!(info => members));
                        assert(decreases_to!(members => members@));
                        assert(decreases_to!(members@ => members@[k]));
                        assert(decreases_to!(members@[k] => members@[k].1));
                        assert(decreases_to!(members@[k].1 => children));
                        assert(decreases_to!(children => children@));
                    }
                }
                dependency_detections(set, children@, child_path(parent, name))
            },
            _ => Seq::empty(),
        },
        _ => Seq::empty(),
    };
    own + nested
}

/// The compromised releases in a `dependencies` object below `parent`,
/// member by member.
pub open spec fn dependency_detections(
    set: CompromisedSet,
    deps: Seq<(String, JsonValue)>,
    parent: Seq<char>,
) -> Seq<Detection>
    decreases deps,
{
    if deps.len() == 0 {
        Seq::empty()
    } else {
        proof {
            assert(decreases_to!(deps => deps.drop_last())) by {
                assert(deps.drop_last() == deps.subrange(0, deps.len() - 1));
            }
            assert(decreases_to!(deps => deps.last().1)) by {
                assert(decreases_to!(deps => deps[deps.len() - 1]));
                assert(decreases_to!(deps[deps.len() - 1] => deps[deps.len() - 1].1));
            }
        }
        dependency_detections(set, deps.drop_last(), parent) + entry_detections(
            set,
            deps.last().0@,
            deps.last().1,
            parent,
        )
    }
}

/// A `packages` entry found compromised: the package is named by the first
/// path segment after `node_modules/`.
pub open spec fn package_entry_detections(
    set: CompromisedSet,
    package_path: Seq<char>,
    info: JsonValue,
) -> Seq<Detection> {
    if starts_with(package_path, "node_modules/"@) {
        let name = first_segment(package_path.skip("node_modules/"@.len() as int), '/');
        if set.holds(name, version_of(info)) {
            seq![
                Detection {
                    name: name,
                    version: version_of(info),
                    path: package_path,
                    location: "direct or transitive dependency"@,
                },
            ]
        } else {
            Seq::empty()
        }
    } else {
        Seq::empty()
    }
}

/// The compromised releases in a `packages` table, entry by entry.
pub open spec fn package_table_detections(
    set: CompromisedSet,
    packages: Seq<(String, JsonValue)>,
) -> Seq<Detection>
    decreases packages.len(),
{
    if packages.len() == 0 {
        Seq::empty()
    } else {
        package_table_detections(set, packages.drop_last()) + package_entry_detections(
            set,
            packages.last().0@,
            packages.last().1,
        )
    }
}

/// The compromised releases in an npm lockfile document: first those of
/// the `dependencies` tree, then those of the `packages` table.
pub open spec fn npm_detections(set: CompromisedSet, document: JsonValue) -> Seq<Detection> {
    let from_tree = match field_object(document, "dependencies"@) {
        Some(deps) => dependency_detections(set, deps, Seq::empty()),
        None => Seq::empty(),
    };
    let from_table = match field_object(document, "packages"@) {
        Some(packages) => package_table_detections(set, packages),
        None => Seq::empty(),
    };
    from_tree + from_table
}

/// The version an entry records (`"unknown"` when none).
fn version_text(info: &JsonValue) -> (res: String)
    ensures
        res@ == version_of(*info),
{
    match get_field(info, "version") {
        Some(JsonValue::String(v)) => v.clone(),
        _ => "unknown".to_string(),
    }
}

/// The dependency path of `name` below `parent`.
fn child_path_text(parent: &String, name: &String) -> (res: String)
    ensures
        res@ == child_path(parent@, name@),
{
    if parent.as_str().is_empty() {
        name.clone()
    } else {
        let mut path = parent.clone();
        path.append(" > ");
        path.append(name.as_str());
        path
    }
}

impl Scanner {
    /// Appends to `detected` the compromised releases of a `dependencies`
    /// object below `parent_path`, descending into nested `dependencies`.
    pub fn check_npm_dependencies(
        &self,
        deps: &Vec<(String, JsonValue)>,
        detected: &mut Vec<DetectedPackage>,
        parent_path: &String,
    )
        ensures
            detections_of(final(detected)@) == detections_of(old(detected)@)
                + dependency_detections(self.compromised_packages, deps@, parent_path@),
        decreases deps,
    {
        let mut i: usize = 0;
        while i < deps.len()
            invariant
                i <= deps@.len(),
                detections_of(detected@) == detections_of(old(detected)@)
                    + dependency_detections(
                    self.compromised_packages,
                    deps@.take(i as int),
                    parent_path@,
                ),
            decreases deps@.len() - i,
        {
            let name = &deps[i].0;
            let info = &deps[i].1;
            let ghost before = detections_of(detected@);
            let ghost set = self.compromised_packages;
            let version = version_text(info);
            let own = self.compromised_packages.is_compromised(
                &chars_of(name.as_str()),
                &chars_of(version.as_str()),
            );
            if own {
                let location = if parent_path.as_str().is_empty() {
                    "direct dependency".to_string()
                } else {
                    "transitive dependency".to_string()
                };
                let found = DetectedPackage {
                    name: name.clone(),
                    version: version,
                    path: child_path_text(parent_path, name),
                    location: location,
                };
                proof {
                    lemma_detections_push(detected@, found);
                }
                detected.push(found);
            }
            let ghost after_own = detections_of(detected@);
            let ghost own_part: Seq<Detection> = if set.holds(name@, version_of(*info)) {
                seq![
                    Detection {
                        name: name@,
                        version: version_of(*info),
                        path: child_path(parent_path@, name@),
                        location: dependency_location(parent_path@),
                    },
                ]
            } else {
                Seq::empty()
            };
            assert(after_own == before + own_part);
            match get_field(info, "dependencies") {
                Some(JsonValue::Object(children)) => {
                    let new_path = child_path_text(parent_path, name);
                    proof {
                        assert(decreases_to!(deps => children)) by {
                            assert(decreases_to!(deps => deps@));
                            assert(decreases_to!(deps@ => deps@[i as int]));
                            assert(decreases_to!(deps@[i as int] => deps@[i as int].1));
                            lemma_member_field_decreases(deps@[i as int].1, "dependencies"@);
                        }
                    }
                    self.check_npm_dependencies(children, detected, &new_path);
                    assert(detections_of(detected@) == after_own + dependency_detections(
                        set,
                        children@,
                        child_path(parent_path@, name@),
                    ));
                },
                _ => {
                    assert(detections_of(detected@) == after_own + Seq::<Detection>::empty());
                },
            }
            assert(detections_of(detected@) == before + entry_detections(
                set,
                name@,
                *info,
                parent_path@,
            ));
            assert(deps@.take(i + 1).drop_last() == deps@.take(i as int));
            assert(deps@.take(i + 1).last() == deps@[i as int]);
            i = i + 1;
        }
        assert(deps@.take(deps@.len() as int) == deps@);
    }

    /// The compromised releases in an npm lockfile document.
    pub fn detect_npm_packages(&self, document: &JsonValue) -> (res: Vec<DetectedPackage>)
        ensures
            detections_of(res@) == npm_detections(self.compromised_packages, *document),
    {
        let mut detected: Vec<DetectedPackage> = Vec::new();
        match get_field(document, "dependencies") {
            Some(JsonValue::Object(deps)) => {
                let root = String::new();
                self.check_npm_dependencies(deps, &mut detected, &root);
            },
            _ => {},
        }
        match get_field(document, "packages") {
            Some(JsonValue::Object(packages)) => {
                let ghost start = detections_of(detected@);
                let mut i: usize = 0;
                while i < packages.len()
                    invariant
                        i <= packages@.len(),
                        detections_of(detected@) == start + package_table_detections(
                            self.compromised_packages,
                            packages@.take(i as int),
                        ),
                    decreases packages@.len() - i,
                {
                    let package_path = &packages[i].0;
                    let info = &packages[i].1;
                    let path_chars = chars_of(package_path.as_str());
                    if starts_with_str(&path_chars, "node_modules/") {
                        let skip: usize = "node_modules/".unicode_len();
                        let rest = &path_chars[skip..path_chars.len()];
                        assert(rest@ == path_chars@.skip(skip as int));
                        let name_chars = first_segment_slice(rest, '/');
                        let version = version_text(info);
                        if self.compromised_packages.is_compromised(
                            name_chars,
                            &chars_of(version.as_str()),
                        ) {
                            let found = DetectedPackage {
                                name: string_of(name_chars),
                                version: version,
                                path: package_path.clone(),
                                location: "direct or transitive dependency".to_string(),
                            };
                            proof {
                                lemma_detections_push(detected@, found);
                            }
                            detected.push(found);
                        }
                    }
                    assert(packages@.take(i + 1).drop_last() == packages@.take(i as int));
                    assert(packages@.take(i + 1).last() == packages@[i as int]);
                    i = i + 1;
                }
                assert(packages@.take(packages@.len() as int) == packages@);
            },
            _ => {},
        }
        detected
    }

    /// Reads an npm lockfile and returns the compromised releases it holds;
    /// fails when the text is no JSON document.
    pub fn parse_npm_lockfile(&self, content: &str) -> (res: Result<Vec<DetectedPackage>, ScanError>)
        ensures
            match json_document(content@) {
                Some(document) => res matches Ok(found) && detections_of(found@) == npm_detections(
                    self.compromised_packages,
                    document,
                ),
                None => res matches Err(ScanError::Json { message }) && message@ == json_error_text(
                    content@,
                ),
            },
    {
        match parse_json(content) {
            Ok(document) => Ok(self.detect_npm_packages(&document)),
            Err(message) => Err(ScanError::Json { message }),
        }
    }
}

/// A member object found by `field` lies below the value it was found in.
proof fn lemma_member_field_decreases(value: JsonValue, key: Seq<char>)
    ensures
        field(value, key) matches Some(JsonValue::Object(children)) ==> decreases_to!(value => children),
{
    if let JsonValue::Object(members) = value {
        lemma_member_is_member(members@, key);
        if let Some(JsonValue::Object(children)) = member(members@, key) {
            let k: int = choose|k: int|
                0 <= k < members@.len() && #[trigger] members@[k].1 == JsonValue::Object(children);
            assert(decreases_to!(value => children)) by {
                assert(decreases_to!(value => members));
                assert(decreases_to!(members => members@));
                assert(decreases_to!(members@ => members@[k]));
                assert(decreases_to!(members@[k] => members@[k].1));
                assert(decreases_to!(members@[k].1 => children));
            }
        }
    }
}

} // verus!
