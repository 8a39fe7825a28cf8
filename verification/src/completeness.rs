//! What every scan is bound to report: each compromised release that a
//! lockfile lists, wherever it stands, is among the detections; and which
//! reader a pnpm lockfile gets depends only on whether it reads as a YAML
//! document.
use vstd::prelude::*;

use crate::json::{field_object, JsonValue};
use crate::npm::{
    child_path, dependency_detections, dependency_location, entry_detections, npm_detections,
    package_entry_detections, package_table_detections, version_of,
};
use crate::pnpm::{
    dependency_version, fallback_dependency_detections, fallback_detections_upto,
    fallback_line_detections, fallback_package_detections, is_section_marker,
    package_key_name, package_key_version, pnpm_dependency_detections, pnpm_document_detections,
    pnpm_fallback_detections, pnpm_package_detections, section_at, PnpmLockfile,
};
use crate::registry::CompromisedSet;
use crate::scanner::{lockfile_detections, Detection};
use crate::text::{find_char, first_segment, lines, second_segment, starts_with, trim, CharClass};
use crate::yarn::{
    declared_name, declared_version, is_declaration, version_from, yarn_detections,
    yarn_detections_upto, yarn_line_detections,
};

verus! {

proof fn lemma_contains_left(a: Seq<Detection>, b: Seq<Detection>, x: Detection)
    requires
        a.contains(x),
    ensures
        (a + b).contains(x),
{
    let i: int = choose|i: int| 0 <= i < a.len() && a[i] == x;
    assert((a + b)[i] == x);
}

proof fn lemma_contains_right(a: Seq<Detection>, b: Seq<Detection>, x: Detection)
    requires
        b.contains(x),
    ensures
        (a + b).contains(x),
{
    let i: int = choose|i: int| 0 <= i < b.len() && b[i] == x;
    assert((a + b)[a.len() + i] == x);
}

/// The dependency entry that a chain of member positions leads to, through
/// nested `dependencies` objects, starting below `parent`: its name, its
/// description and the dependency path of the object it stands in.
pub open spec fn tree_entry(
    deps: Seq<(String, JsonValue)>,
    parent: Seq<char>,
    chain: Seq<int>,
) -> Option<(Seq<char>, JsonValue, Seq<char>)>
    decreases chain.len(),
{
    if chain.len() == 0 || !(0 <= chain[0] < deps.len()) {
        None
    } else if chain.len() == 1 {
        Some((deps[chain[0]].0@, deps[chain[0]].1, parent))
    } else {
        match field_object(deps[chain[0]].1, "dependencies"@) {
            Some(children) => tree_entry(
                children,
                child_path(parent, deps[chain[0]].0@),
                chain.drop_first(),
            ),
            None => None,
        }
    }
}

/// What the dependency tree reports of an entry `k` is part of what it
/// reports of the object the entry stands in.
proof fn lemma_dependencies_hold_entry(
    set: CompromisedSet,
    deps: Seq<(String, JsonValue)>,
    parent: Seq<char>,
    k: int,
    x: Detection,
)
    requires
        0 <= k < deps.len(),
        entry_detections(set, deps[k].0@, deps[k].1, parent).contains(x),
    ensures
        dependency_detections(set, deps, parent).contains(x),
    decreases deps.len(),
{
    let front = dependency_detections(set, deps.drop_last(), parent);
    let last = entry_detections(set, deps.last().0@, deps.last().1, parent);
    if k == deps.len() - 1 {
        lemma_contains_right(front, last, x);
    } else {
        assert(deps.drop_last()[k] == deps[k]);
        lemma_dependencies_hold_entry(set, deps.drop_last(), parent, k, x);
        lemma_contains_left(front, last, x);
    }
}

/// Completeness of the dependency tree: every entry reached through nested
/// `dependencies` objects whose release is compromised is reported, with its
/// dependency path, whether or not the entries above it are compromised.
pub proof fn lemma_dependency_tree_complete(
    set: CompromisedSet,
    deps: Seq<(String, JsonValue)>,
    parent: Seq<char>,
    chain: Seq<int>,
)
    requires
        tree_entry(deps, parent, chain) is Some,
        ({
            let (name, info, _) = tree_entry(deps, parent, chain)->0;
            set.holds(name, version_of(info))
        }),
    ensures
        ({
            let (name, info, above) = tree_entry(deps, parent, chain)->0;
            dependency_detections(set, deps, parent).contains(
                Detection {
                    name: name,
                    version: version_of(info),
                    path: child_path(above, name),
                    location: dependency_location(above),
                },
            )
        }),
    decreases chain.len(),
{
    let (name, info, above) = tree_entry(deps, parent, chain)->0;
    let x = Detection {
        name: name,
        version: version_of(info),
        path: child_path(above, name),
        location: dependency_location(above),
    };
    let k = chain[0];
    let entry_name = deps[k].0@;
    let entry_info = deps[k].1;
    let own: Seq<Detection> = if set.holds(entry_name, version_of(entry_info)) {
        seq![
            Detection {
                name: entry_name,
                version: version_of(entry_info),
                path: child_path(parent, entry_name),
                location: dependency_location(parent),
            },
        ]
    } else {
        Seq::empty()
    };
    let whole = entry_detections(set, entry_name, entry_info, parent);
    let nested = whole.skip(own.len() as int);
    assert(whole == own + nested);
    if chain.len() == 1 {
        assert(own[0] == x);
        lemma_contains_left(own, nested, x);
    } else {
        let children = field_object(entry_info, "dependencies"@)->0;
        lemma_dependency_tree_complete(
            set,
            children,
            child_path(parent, entry_name),
            chain.drop_first(),
        );
        assert(nested == dependency_detections(set, children, child_path(parent, entry_name)));
        lemma_contains_right(own, nested, x);
    }
    lemma_dependencies_hold_entry(set, deps, parent, k, x);
}

/// Completeness of the npm dependency tree (lockfile version 1): every
/// compromised release reached through the document's nested `dependencies`
/// objects is reported, with its `a > b` path; its location is a direct
/// dependency at the top and a transitive one below.
pub proof fn lemma_npm_tree_complete(set: CompromisedSet, document: JsonValue, chain: Seq<int>)
    requires
        field_object(document, "dependencies"@) is Some,
        tree_entry(field_object(document, "dependencies"@)->0, Seq::empty(), chain) is Some,
        ({
            let (name, info, _) = tree_entry(
                field_object(document, "dependencies"@)->0,
                Seq::empty(),
                chain,
            )->0;
            set.holds(name, version_of(info))
        }),
    ensures
        ({
            let (name, info, above) = tree_entry(
                field_object(document, "dependencies"@)->0,
                Seq::empty(),
                chain,
            )->0;
            npm_detections(set, document).contains(
                Detection {
                    name: name,
                    version: version_of(info),
                    path: child_path(above, name),
                    location: dependency_location(above),
                },
            )
        }),
{
    let deps = field_object(document, "dependencies"@)->0;
    lemma_dependency_tree_complete(set, deps, Seq::empty(), chain);
    let (name, info, above) = tree_entry(deps, Seq::empty(), chain)->0;
    let x = Detection {
        name: name,
        version: version_of(info),
        path: child_path(above, name),
        location: dependency_location(above),
    };
    let table = match field_object(document, "packages"@) {
        Some(packages) => package_table_detections(set, packages),
        None => Seq::empty(),
    };
    lemma_contains_left(dependency_detections(set, deps, Seq::empty()), table, x);
}

proof fn lemma_table_holds_entry(
    set: CompromisedSet,
    packages: Seq<(String, JsonValue)>,
    k: int,
    x: Detection,
)
    requires
        0 <= k < packages.len(),
        package_entry_detections(set, packages[k].0@, packages[k].1).contains(x),
    ensures
        package_table_detections(set, packages).contains(x),
    decreases packages.len(),
{
    let front = package_table_detections(set, packages.drop_last());
    let last = package_entry_detections(set, packages.last().0@, packages.last().1);
    if k == packages.len() - 1 {
        lemma_contains_right(front, last, x);
    } else {
        assert(packages.drop_last()[k] == packages[k]);
        lemma_table_holds_entry(set, packages.drop_last(), k, x);
        lemma_contains_left(front, last, x);
    }
}

/// Completeness of the npm packages table (lockfile versions 2 and 3):
/// every entry `k` whose path starts with `node_modules/` and whose package
/// (the first path segment after it) is compromised at the entry's version
/// is reported, with the entry's path.
pub proof fn lemma_npm_table_complete(set: CompromisedSet, document: JsonValue, k: int)
    requires
        field_object(document, "packages"@) is Some,
        0 <= k < field_object(document, "packages"@)->0.len(),
        ({
            let entry = field_object(document, "packages"@)->0[k];
            &&& starts_with(entry.0@, "node_modules/"@)
            &&& set.holds(
                first_segment(entry.0@.skip("node_modules/"@.len() as int), '/'),
                version_of(entry.1),
            )
        }),
    ensures
        ({
            let entry = field_object(document, "packages"@)->0[k];
            npm_detections(set, document).contains(
                Detection {
                    name: first_segment(entry.0@.skip("node_modules/"@.len() as int), '/'),
                    version: version_of(entry.1),
                    path: entry.0@,
                    location: "direct or transitive dependency"@,
                },
            )
        }),
{
    let packages = field_object(document, "packages"@)->0;
    let entry = packages[k];
    let x = Detection {
        name: first_segment(entry.0@.skip("node_modules/"@.len() as int), '/'),
        version: version_of(entry.1),
        path: entry.0@,
        location: "direct or transitive dependency"@,
    };
    let own = package_entry_detections(set, entry.0@, entry.1);
    assert(own[0] == x);
    lemma_table_holds_entry(set, packages, k, x);
    let tree = match field_object(document, "dependencies"@) {
        Some(deps) => dependency_detections(set, deps, Seq::empty()),
        None => Seq::empty(),
    };
    lemma_contains_right(tree, package_table_detections(set, packages), x);
}

proof fn lemma_yarn_upto_holds_line(
    set: CompromisedSet,
    ls: Seq<Seq<char>>,
    n: int,
    i: int,
    x: Detection,
)
    requires
        0 <= i < n,
        yarn_line_detections(set, ls, i).contains(x),
    ensures
        yarn_detections_upto(set, ls, n).contains(x),
    decreases n,
{
    if i == n - 1 {
        lemma_contains_right(yarn_detections_upto(set, ls, n - 1), yarn_line_detections(set, ls, n - 1), x);
    } else {
        lemma_yarn_upto_holds_line(set, ls, n - 1, i, x);
        lemma_contains_left(yarn_detections_upto(set, ls, n - 1), yarn_line_detections(set, ls, n - 1), x);
    }
}

/// Completeness of the yarn reader: every declaration line `i` whose
/// declared package is compromised at the version found below it is
/// reported, whatever other lines declare, the same package among them.
pub proof fn lemma_yarn_complete(set: CompromisedSet, content: Seq<char>, i: int)
    requires
        0 <= i < lines(content).len(),
        is_declaration(lines(content)[i]),
        set.holds(declared_name(lines(content)[i]), declared_version(lines(content), i)),
    ensures
        yarn_detections(set, content).contains(
            Detection {
                name: declared_name(lines(content)[i]),
                version: declared_version(lines(content), i),
                path: declared_name(lines(content)[i]),
                location: "yarn dependency"@,
            },
        ),
{
    let ls = lines(content);
    let x = Detection {
        name: declared_name(ls[i]),
        version: declared_version(ls, i),
        path: declared_name(ls[i]),
        location: "yarn dependency"@,
    };
    assert(yarn_line_detections(set, ls, i)[0] == x);
    lemma_yarn_upto_holds_line(set, ls, ls.len() as int, i, x);
}

proof fn lemma_pnpm_dependencies_hold(
    set: CompromisedSet,
    deps: Seq<(String, crate::pnpm::PnpmDependencyVersion)>,
    k: int,
)
    requires
        0 <= k < deps.len(),
        set.holds(deps[k].0@, dependency_version(deps[k].1)),
    ensures
        pnpm_dependency_detections(set, deps).contains(
            Detection {
                name: deps[k].0@,
                version: dependency_version(deps[k].1),
                path: deps[k].0@,
                location: "direct dependency"@,
            },
        ),
    decreases deps.len(),
{
    let x = Detection {
        name: deps[k].0@,
        version: dependency_version(deps[k].1),
        path: deps[k].0@,
        location: "direct dependency"@,
    };
    let whole = pnpm_dependency_detections(set, deps);
    let front = pnpm_dependency_detections(set, deps.drop_last());
    let last = whole.skip(front.len() as int);
    assert(whole == front + last);
    if k == deps.len() - 1 {
        assert(last[0] == x);
        lemma_contains_right(front, last, x);
    } else {
        assert(deps.drop_last()[k] == deps[k]);
        lemma_pnpm_dependencies_hold(set, deps.drop_last(), k);
        lemma_contains_left(front, last, x);
    }
}

proof fn lemma_pnpm_packages_hold(set: CompromisedSet, keys: Seq<String>, k: int)
    requires
        0 <= k < keys.len(),
        set.holds(package_key_name(keys[k]@), package_key_version(keys[k]@)),
    ensures
        pnpm_package_detections(set, keys).contains(
            Detection {
                name: package_key_name(keys[k]@),
                version: package_key_version(keys[k]@),
                path: keys[k]@,
                location: "pnpm package"@,
            },
        ),
    decreases keys.len(),
{
    let x = Detection {
        name: package_key_name(keys[k]@),
        version: package_key_version(keys[k]@),
        path: keys[k]@,
        location: "pnpm package"@,
    };
    let whole = pnpm_package_detections(set, keys);
    let front = pnpm_package_detections(set, keys.drop_last());
    let last = whole.skip(front.len() as int);
    assert(whole == front + last);
    if k == keys.len() - 1 {
        assert(last[0] == x);
        lemma_contains_right(front, last, x);
    } else {
        assert(keys.drop_last()[k] == keys[k]);
        lemma_pnpm_packages_hold(set, keys.drop_last(), k);
        lemma_contains_left(front, last, x);
    }
}

/// Completeness of the pnpm document reader, direct dependencies: every
/// direct dependency `k` that is compromised at its version is reported.
pub proof fn lemma_pnpm_dependencies_complete(set: CompromisedSet, document: PnpmLockfile, k: int)
    requires
        document.dependencies is Some,
        0 <= k < document.dependencies->0@.len(),
        set.holds(
            document.dependencies->0@[k].0@,
            dependency_version(document.dependencies->0@[k].1),
        ),
    ensures
        pnpm_document_detections(set, document).contains(
            Detection {
                name: document.dependencies->0@[k].0@,
                version: dependency_version(document.dependencies->0@[k].1),
                path: document.dependencies->0@[k].0@,
                location: "direct dependency"@,
            },
        ),
{
    let deps = document.dependencies->0@;
    lemma_pnpm_dependencies_hold(set, deps, k);
    let b = match document.packages {
        Some(keys) => pnpm_package_detections(set, keys@),
        None => Seq::empty(),
    };
    lemma_contains_left(
        pnpm_dependency_detections(set, deps),
        b,
        Detection {
            name: deps[k].0@,
            version: dependency_version(deps[k].1),
            path: deps[k].0@,
            location: "direct dependency"@,
        },
    );
}

/// Completeness of the pnpm document reader, packages: every key `k` of the
/// `packages` section whose package is compromised at its version is
/// reported, with the key as its path.
pub proof fn lemma_pnpm_packages_complete(set: CompromisedSet, document: PnpmLockfile, k: int)
    requires
        document.packages is Some,
        0 <= k < document.packages->0@.len(),
        set.holds(
            package_key_name(document.packages->0@[k]@),
            package_key_version(document.packages->0@[k]@),
        ),
    ensures
        pnpm_document_detections(set, document).contains(
            Detection {
                name: package_key_name(document.packages->0@[k]@),
                version: package_key_version(document.packages->0@[k]@),
                path: document.packages->0@[k]@,
                location: "pnpm package"@,
            },
        ),
{
    let keys = document.packages->0@;
    lemma_pnpm_packages_hold(set, keys, k);
    let a = match document.dependencies {
        Some(deps) => pnpm_dependency_detections(set, deps@),
        None => Seq::empty(),
    };
    lemma_contains_right(
        a,
        pnpm_package_detections(set, keys),
        Detection {
            name: package_key_name(keys[k]@),
            version: package_key_version(keys[k]@),
            path: keys[k]@,
            location: "pnpm package"@,
        },
    );
}

proof fn lemma_fallback_upto_holds_line(
    set: CompromisedSet,
    ls: Seq<Seq<char>>,
    n: int,
    i: int,
    x: Detection,
)
    requires
        0 <= i < n,
        fallback_line_detections(set, ls, i + 1).contains(x),
    ensures
        fallback_detections_upto(set, ls, n).contains(x),
    decreases n,
{
    if i == n - 1 {
        lemma_contains_right(fallback_detections_upto(set, ls, n - 1), fallback_line_detections(set, ls, n), x);
    } else {
        lemma_fallback_upto_holds_line(set, ls, n - 1, i, x);
        lemma_contains_left(fallback_detections_upto(set, ls, n - 1), fallback_line_detections(set, ls, n), x);
    }
}

/// Completeness of line-by-line pnpm reading, direct dependencies: every
/// line `  name: version` of the `dependencies` section whose release is
/// compromised is reported.
pub proof fn lemma_fallback_dependencies_complete(set: CompromisedSet, content: Seq<char>, i: int)
    requires
        0 <= i < lines(content).len(),
        ({
            let line = lines(content)[i];
            let colon = find_char(line, ':')->0;
            &&& !is_section_marker(line)
            &&& section_at(lines(content), i + 1).0
            &&& starts_with(line, "  "@)
            &&& !starts_with(line, "    "@)
            &&& find_char(line, ':') is Some
            &&& set.holds(
                trim(line.take(colon), CharClass::WhiteSpace),
                trim(
                    trim(trim(line.skip(colon + 1), CharClass::WhiteSpace), CharClass::Exactly('\'')),
                    CharClass::Exactly('"'),
                ),
            )
        }),
    ensures
        ({
            let line = lines(content)[i];
            let colon = find_char(line, ':')->0;
            let name = trim(line.take(colon), CharClass::WhiteSpace);
            pnpm_fallback_detections(set, content).contains(
                Detection {
                    name: name,
                    version: trim(
                        trim(trim(line.skip(colon + 1), CharClass::WhiteSpace), CharClass::Exactly('\'')),
                        CharClass::Exactly('"'),
                    ),
                    path: name,
                    location: "direct dependency"@,
                },
            )
        }),
{
    let ls = lines(content);
    let line = ls[i];
    let section = section_at(ls, i + 1);
    let dep = fallback_dependency_detections(set, section, line);
    let pkg = fallback_package_detections(set, section, line);
    lemma_contains_left(dep, pkg, dep[0]);
    assert(fallback_line_detections(set, ls, i + 1) == dep + pkg);
    lemma_fallback_upto_holds_line(set, ls, ls.len() as int, i, dep[0]);
}

/// Completeness of line-by-line pnpm reading, packages: every line
/// `  /name@version:` of the `packages` section whose release is compromised
/// is reported, with the path `/name@version`.
pub proof fn lemma_fallback_packages_complete(set: CompromisedSet, content: Seq<char>, i: int)
    requires
        0 <= i < lines(content).len(),
        ({
            let line = lines(content)[i];
            let at = find_char(line, '@')->0;
            let colon = find_char(line, ':')->0;
            &&& !is_section_marker(line)
            &&& section_at(lines(content), i + 1).1
            &&& starts_with(line, "  /"@)
            &&& find_char(line, '@') is Some
            &&& find_char(line, ':') is Some
            &&& set.holds(
                trim(line.subrange(3, at), CharClass::WhiteSpace),
                trim(line.subrange(at + 1, colon), CharClass::WhiteSpace),
            )
        }),
    ensures
        ({
            let line = lines(content)[i];
            let at = find_char(line, '@')->0;
            let colon = find_char(line, ':')->0;
            let name = trim(line.subrange(3, at), CharClass::WhiteSpace);
            let version = trim(line.subrange(at + 1, colon), CharClass::WhiteSpace);
            pnpm_fallback_detections(set, content).contains(
                Detection {
                    name: name,
                    version: version,
                    path: "/"@ + name + "@"@ + version,
                    location: "pnpm package"@,
                },
            )
        }),
{
    let ls = lines(content);
    let line = ls[i];
    let section = section_at(ls, i + 1);
    let dep = fallback_dependency_detections(set, section, line);
    let pkg = fallback_package_detections(set, section, line);
    lemma_contains_right(dep, pkg, pkg[0]);
    assert(fallback_line_detections(set, ls, i + 1) == dep + pkg);
    lemma_fallback_upto_holds_line(set, ls, ls.len() as int, i, pkg[0]);
}

/// A pnpm lockfile that reads as a YAML document is scanned by its
/// document: what is reported is what the document lists, and the text
/// plays no further part (two texts that read as the same document are
/// reported alike).
pub proof fn lemma_pnpm_scan_reads_document(
    set: CompromisedSet,
    file_name: Seq<char>,
    content: Seq<char>,
    other_content: Seq<char>,
    document: PnpmLockfile,
)
    requires
        file_name == "pnpm-lock.yaml"@ || file_name == "pnpm-lock.yml"@,
    ensures
        lockfile_detections(set, file_name, content, Some(document)) == Some(
            pnpm_document_detections(set, document),
        ),
        lockfile_detections(set, file_name, content, Some(document)) == lockfile_detections(
            set,
            file_name,
            other_content,
            Some(document),
        ),
{
    reveal_strlit("package-lock.json");
    reveal_strlit("yarn.lock");
    reveal_strlit("pnpm-lock.yaml");
    reveal_strlit("pnpm-lock.yml");
    assert(file_name.len() != "package-lock.json"@.len());
    assert(file_name.len() != "yarn.lock"@.len());
}

/// A pnpm lockfile that does not read as a YAML document is read line by
/// line.
pub proof fn lemma_pnpm_scan_reads_lines(set: CompromisedSet, file_name: Seq<char>, content: Seq<char>)
    requires
        file_name == "pnpm-lock.yaml"@ || file_name == "pnpm-lock.yml"@,
    ensures
        lockfile_detections(set, file_name, content, None) == Some(
            pnpm_fallback_detections(set, content),
        ),
{
    reveal_strlit("package-lock.json");
    reveal_strlit("yarn.lock");
    reveal_strlit("pnpm-lock.yaml");
    reveal_strlit("pnpm-lock.yml");
    assert(file_name.len() != "package-lock.json"@.len());
    assert(file_name.len() != "yarn.lock"@.len());
}

/// The yarn reader reports at most one release per line.
pub proof fn lemma_yarn_at_most_one_per_line(set: CompromisedSet, content: Seq<char>)
    ensures
        yarn_detections(set, content).len() <= lines(content).len(),
{
    lemma_yarn_upto_bounded(set, lines(content), lines(content).len() as int);
}

proof fn lemma_yarn_upto_bounded(set: CompromisedSet, ls: Seq<Seq<char>>, n: int)
    requires
        n >= 0,
    ensures
        yarn_detections_upto(set, ls, n).len() <= n,
    decreases n,
{
    if n > 0 {
        lemma_yarn_upto_bounded(set, ls, n - 1);
    }
}

/// The sections are never both in force.
proof fn lemma_sections_exclusive(ls: Seq<Seq<char>>, n: int)
    ensures
        !(section_at(ls, n).0 && section_at(ls, n).1),
    decreases n,
{
    if n > 0 {
        lemma_sections_exclusive(ls, n - 1);
    }
}

proof fn lemma_fallback_upto_bounded(set: CompromisedSet, ls: Seq<Seq<char>>, n: int)
    requires
        n >= 0,
    ensures
        fallback_detections_upto(set, ls, n).len() <= n,
    decreases n,
{
    if n > 0 {
        lemma_fallback_upto_bounded(set, ls, n - 1);
        lemma_sections_exclusive(ls, n);
    }
}

/// Line-by-line pnpm reading reports at most one release per line.
pub proof fn lemma_fallback_at_most_one_per_line(set: CompromisedSet, content: Seq<char>)
    ensures
        pnpm_fallback_detections(set, content).len() <= lines(content).len(),
{
    lemma_fallback_upto_bounded(set, lines(content), lines(content).len() as int);
}

proof fn lemma_pnpm_dependencies_bounded(
    set: CompromisedSet,
    deps: Seq<(String, crate::pnpm::PnpmDependencyVersion)>,
)
    ensures
        pnpm_dependency_detections(set, deps).len() <= deps.len(),
    decreases deps.len(),
{
    if deps.len() > 0 {
        lemma_pnpm_dependencies_bounded(set, deps.drop_last());
    }
}

proof fn lemma_pnpm_packages_bounded(set: CompromisedSet, keys: Seq<String>)
    ensures
        pnpm_package_detections(set, keys).len() <= keys.len(),
    decreases keys.len(),
{
    if keys.len() > 0 {
        lemma_pnpm_packages_bounded(set, keys.drop_last());
    }
}

/// The pnpm document reader reports at most one release per direct
/// dependency and per package key.
pub proof fn lemma_pnpm_document_at_most_one_per_entry(set: CompromisedSet, document: PnpmLockfile)
    ensures
        pnpm_document_detections(set, document).len() <= (match document.dependencies {
            Some(deps) => deps@.len(),
            None => 0,
        }) + (match document.packages {
            Some(keys) => keys@.len(),
            None => 0,
        }),
{
    if let Some(deps) = document.dependencies {
        lemma_pnpm_dependencies_bounded(set, deps@);
    }
    if let Some(keys) = document.packages {
        lemma_pnpm_packages_bounded(set, keys@);
    }
}

proof fn lemma_table_bounded(set: CompromisedSet, packages: Seq<(String, JsonValue)>)
    ensures
        package_table_detections(set, packages).len() <= packages.len(),
    decreases packages.len(),
{
    if packages.len() > 0 {
        lemma_table_bounded(set, packages.drop_last());
    }
}

/// The npm packages table gives at most one release per entry.
pub proof fn lemma_npm_table_at_most_one_per_entry(
    set: CompromisedSet,
    packages: Seq<(String, JsonValue)>,
)
    ensures
        package_table_detections(set, packages).len() <= packages.len(),
{
    lemma_table_bounded(set, packages);
}

/// A line that gives a declaration's version: its trimmed text starts with
/// `version` and it holds a double quote.
pub open spec fn is_version_line(line: Seq<char>) -> bool {
    starts_with(trim(line, CharClass::WhiteSpace), "version"@) && second_segment(line, '"') is Some
}

proof fn lemma_version_from_finds(ls: Seq<Seq<char>>, from: int, j: int, end: int)
    requires
        0 <= from <= j < end,
        is_version_line(ls[j]),
        forall|m: int| from <= m < j ==> !is_version_line(#[trigger] ls[m]) && starts_with(ls[m], " "@),
    ensures
        version_from(ls, from, end) == second_segment(ls[j], '"'),
    decreases j - from,
{
    if from < j {
        lemma_version_from_finds(ls, from + 1, j, end);
    }
}

/// The version of a yarn declaration on line `i` is the first quoted text of
/// the first `version` line among the nine lines after it, provided only
/// indented lines stand between them.
pub proof fn lemma_yarn_version_found(content: Seq<char>, i: int, j: int)
    requires
        0 <= i < j,
        j < lines(content).len(),
        j < i + 10,
        is_version_line(lines(content)[j]),
        forall|m: int| i < m < j ==> !is_version_line(#[trigger] lines(content)[m]) && starts_with(
            lines(content)[m],
            " "@,
        ),
    ensures
        declared_version(lines(content), i) == second_segment(lines(content)[j], '"')->0,
{
    let ls = lines(content);
    let end = if ls.len() < i + 10 {
        ls.len() as int
    } else {
        i + 10
    };
    lemma_version_from_finds(ls, i + 1, j, end);
}

} // verus!
