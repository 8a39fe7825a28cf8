//! What holds of every scan: only compromised releases are reported, every
//! finding names a known kind of lockfile and holds at least one release,
//! and each scanned lockfile gives at most one finding or one error.
use vstd::prelude::*;

use crate::json::{lemma_member_is_member, member, JsonValue};
use crate::npm::{
    dependency_detections, entry_detections, npm_detections, package_table_detections,
};
use crate::pnpm::{
    fallback_detections_upto, pnpm_dependency_detections, pnpm_document_detections,
    pnpm_fallback_detections, pnpm_package_detections,
};
use crate::registry::CompromisedSet;
use crate::scanner::{
    errors_from, findings_from, is_lockfile_name, lockfile_count, lockfile_detections,
    lockfile_outcome, lockfile_type_of, Detection, LockfileInput,
};
use crate::yarn::{yarn_detections, yarn_detections_upto};

verus! {

/// Every detection names a release that `set` holds.
pub open spec fn all_compromised(set: CompromisedSet, ds: Seq<Detection>) -> bool {
    forall|k: int| 0 <= k < ds.len() ==> set.holds(#[trigger] ds[k].name, ds[k].version)
}

proof fn lemma_concat_compromised(set: CompromisedSet, a: Seq<Detection>, b: Seq<Detection>)
    requires
        all_compromised(set, a),
        all_compromised(set, b),
    ensures
        all_compromised(set, a + b),
{
    assert forall|k: int| 0 <= k < (a + b).len() implies set.holds(
        #[trigger] (a + b)[k].name,
        (a + b)[k].version,
    ) by {
        if k < a.len() {
            assert((a + b)[k] == a[k]);
        } else {
            assert((a + b)[k] == b[k - a.len()]);
        }
    }
}

proof fn lemma_entry_compromised(
    set: CompromisedSet,
    name: Seq<char>,
    info: JsonValue,
    parent: Seq<char>,
)
    ensures
        all_compromised(set, entry_detections(set, name, info, parent)),
    decreases info,
{
    let own = entry_detections(set, name, info, parent);
    if let JsonValue::Object(members) = info {
        if let Some(JsonValue::Object(children)) = member(members@, "dependencies"@) {
            lemma_member_is_member(members@, "dependencies"@);
            let k: int = choose|k: int|
                0 <= k < members@.len() && #[trigger] members@[k].1 == JsonValue::Object(children);
            assert(decreases_to!(info => children@)) by {
                assert(decreases_to!(info => members));
                assert(decreases_to!(members => members@));
                assert(decreases_to!(members@ => members@[k]));
                assert(decreases_to!(members@[k] => members@[k].1));
                assert(decreases_to!(members@[k].1 => children));
                assert(decreases_to!(children => children@));
            }
            lemma_dependencies_compromised(set, children@, crate::npm::child_path(parent, name));
        }
    }
    let first = if set.holds(name, crate::npm::version_of(info)) {
        seq![
            Detection {
                name: name,
                version: crate::npm::version_of(info),
                path: crate::npm::child_path(parent, name),
                location: crate::npm::dependency_location(parent),
            },
        ]
    } else {
        Seq::empty()
    };
    let rest = own.skip(first.len() as int);
    assert(own == first + rest);
    lemma_concat_compromised(set, first, rest);
}

proof fn lemma_dependencies_compromised(
    set: CompromisedSet,
    deps: Seq<(String, JsonValue)>,
    parent: Seq<char>,
)
    ensures
        all_compromised(set, dependency_detections(set, deps, parent)),
    decreases deps,
{
    if deps.len() > 0 {
        assert(decreases_to!(deps => deps.drop_last())) by {
            assert(deps.drop_last() == deps.subrange(0, deps.len() - 1));
        }
        assert(decreases_to!(deps => deps.last().1)) by {
            assert(decreases_to!(deps => deps[deps.len() - 1]));
            assert(decreases_to!(deps[deps.len() - 1] => deps[deps.len() - 1].1));
        }
        lemma_dependencies_compromised(set, deps.drop_last(), parent);
        lemma_entry_compromised(set, deps.last().0@, deps.last().1, parent);
        lemma_concat_compromised(
            set,
            dependency_detections(set, deps.drop_last(), parent),
            entry_detections(set, deps.last().0@, deps.last().1, parent),
        );
    }
}

proof fn lemma_package_table_compromised(set: CompromisedSet, packages: Seq<(String, JsonValue)>)
    ensures
        all_compromised(set, package_table_detections(set, packages)),
    decreases packages.len(),
{
    if packages.len() > 0 {
        lemma_package_table_compromised(set, packages.drop_last());
        lemma_concat_compromised(
            set,
            package_table_detections(set, packages.drop_last()),
            crate::npm::package_entry_detections(set, packages.last().0@, packages.last().1),
        );
    }
}

/// Every release that npm lockfile scanning reports is compromised.
pub proof fn lemma_npm_reports_only_compromised(set: CompromisedSet, document: JsonValue)
    ensures
        all_compromised(set, npm_detections(set, document)),
{
    if let Some(deps) = crate::json::field_object(document, "dependencies"@) {
        lemma_dependencies_compromised(set, deps, Seq::empty());
    }
    if let Some(packages) = crate::json::field_object(document, "packages"@) {
        lemma_package_table_compromised(set, packages);
    }
    let a = match crate::json::field_object(document, "dependencies"@) {
        Some(deps) => dependency_detections(set, deps, Seq::empty()),
        None => Seq::empty(),
    };
    let b = match crate::json::field_object(document, "packages"@) {
        Some(packages) => package_table_detections(set, packages),
        None => Seq::empty(),
    };
    lemma_concat_compromised(set, a, b);
}

/// Every release that yarn lockfile scanning reports is compromised.
pub proof fn lemma_yarn_reports_only_compromised(set: CompromisedSet, content: Seq<char>)
    ensures
        all_compromised(set, yarn_detections(set, content)),
{
    lemma_yarn_upto_compromised(set, crate::text::lines(content), crate::text::lines(content).len() as int);
}

proof fn lemma_yarn_upto_compromised(set: CompromisedSet, ls: Seq<Seq<char>>, n: int)
    ensures
        all_compromised(set, yarn_detections_upto(set, ls, n)),
    decreases n,
{
    if n > 0 {
        lemma_yarn_upto_compromised(set, ls, n - 1);
        lemma_concat_compromised(
            set,
            yarn_detections_upto(set, ls, n - 1),
            crate::yarn::yarn_line_detections(set, ls, n - 1),
        );
    }
}

proof fn lemma_pnpm_dependencies_compromised(
    set: CompromisedSet,
    deps: Seq<(String, crate::pnpm::PnpmDependencyVersion)>,
)
    ensures
        all_compromised(set, pnpm_dependency_detections(set, deps)),
    decreases deps.len(),
{
    if deps.len() > 0 {
        lemma_pnpm_dependencies_compromised(set, deps.drop_last());
        let whole = pnpm_dependency_detections(set, deps);
        let front = pnpm_dependency_detections(set, deps.drop_last());
        lemma_concat_compromised(set, front, whole.skip(front.len() as int));
        assert(whole == front + whole.skip(front.len() as int));
    }
}

proof fn lemma_pnpm_packages_compromised(set: CompromisedSet, keys: Seq<String>)
    ensures
        all_compromised(set, pnpm_package_detections(set, keys)),
    decreases keys.len(),
{
    if keys.len() > 0 {
        lemma_pnpm_packages_compromised(set, keys.drop_last());
        let whole = pnpm_package_detections(set, keys);
        let front = pnpm_package_detections(set, keys.drop_last());
        lemma_concat_compromised(set, front, whole.skip(front.len() as int));
        assert(whole == front + whole.skip(front.len() as int));
    }
}

proof fn lemma_fallback_upto_compromised(set: CompromisedSet, ls: Seq<Seq<char>>, n: int)
    ensures
        all_compromised(set, fallback_detections_upto(set, ls, n)),
    decreases n,
{
    if n > 0 {
        lemma_fallback_upto_compromised(set, ls, n - 1);
        let section = crate::pnpm::section_at(ls, n);
        let line = ls[n - 1];
        lemma_concat_compromised(
            set,
            crate::pnpm::fallback_dependency_detections(set, section, line),
            crate::pnpm::fallback_package_detections(set, section, line),
        );
        lemma_concat_compromised(
            set,
            fallback_detections_upto(set, ls, n - 1),
            crate::pnpm::fallback_line_detections(set, ls, n),
        );
    }
}

/// Every release that pnpm lockfile scanning reports, from the YAML
/// document or line by line, is compromised.
pub proof fn lemma_pnpm_reports_only_compromised(
    set: CompromisedSet,
    document: crate::pnpm::PnpmLockfile,
    content: Seq<char>,
)
    ensures
        all_compromised(set, pnpm_document_detections(set, document)),
        all_compromised(set, pnpm_fallback_detections(set, content)),
{
    let a = match document.dependencies {
        Some(deps) => pnpm_dependency_detections(set, deps@),
        None => Seq::empty(),
    };
    let b = match document.packages {
        Some(keys) => pnpm_package_detections(set, keys@),
        None => Seq::empty(),
    };
    if let Some(deps) = document.dependencies {
        lemma_pnpm_dependencies_compromised(set, deps@);
    }
    if let Some(keys) = document.packages {
        lemma_pnpm_packages_compromised(set, keys@);
    }
    lemma_concat_compromised(set, a, b);
    lemma_fallback_upto_compromised(
        set,
        crate::text::lines(content),
        crate::text::lines(content).len() as int,
    );
}

/// Every finding of a scan names a scanned kind of lockfile and holds at
/// least one release, and every release it holds is compromised.
pub open spec fn sound_findings(
    set: CompromisedSet,
    findings: Seq<(Seq<char>, Seq<char>, Seq<Detection>)>,
) -> bool {
    forall|k: int|
        0 <= k < findings.len() ==> {
            &&& (#[trigger] findings[k]).2.len() > 0
            &&& all_compromised(set, findings[k].2)
            &&& findings[k].1 == "npm"@ || findings[k].1 == "yarn"@ || findings[k].1 == "pnpm"@
        }
}

/// Scanning reports only compromised releases: each finding that scanning
/// `inputs` adds holds at least one release, all of them compromised, and
/// names the kind of lockfile they were found in.
pub proof fn lemma_findings_sound(set: CompromisedSet, inputs: Seq<LockfileInput>)
    ensures
        sound_findings(set, findings_from(set, inputs)),
    decreases inputs.len(),
{
    if inputs.len() > 0 {
        lemma_findings_sound(set, inputs.drop_last());
        let last = inputs.last();
        let front = findings_from(set, inputs.drop_last());
        let whole = findings_from(set, inputs);
        let added = whole.skip(front.len() as int);
        assert(whole == front + added);
        if is_lockfile_name(last.file_name@) {
            if let Some(content) = last.content {
                let name = last.file_name@;
                if let Some(found) = lockfile_detections(set, name, content@, last.pnpm_document) {
                    if name == "package-lock.json"@ {
                        lemma_npm_reports_only_compromised(
                            set,
                            crate::json::json_document(content@)->0,
                        );
                    } else if name == "yarn.lock"@ {
                        lemma_yarn_reports_only_compromised(set, content@);
                    } else {
                        if let Some(d) = last.pnpm_document {
                            lemma_pnpm_reports_only_compromised(set, d, content@);
                        } else {
                            lemma_pnpm_reports_only_compromised(
                                set,
                                crate::pnpm::PnpmLockfile { dependencies: None, packages: None },
                                content@,
                            );
                        }
                    }
                    reveal_strlit("package-lock.json");
                    reveal_strlit("yarn.lock");
                    reveal_strlit("pnpm-lock.yaml");
                    reveal_strlit("pnpm-lock.yml");
                    assert(lockfile_type_of(name) == "npm"@ || lockfile_type_of(name) == "yarn"@
                        || lockfile_type_of(name) == "pnpm"@);
                }
            }
        }
        assert forall|k: int| 0 <= k < whole.len() implies {
            &&& (#[trigger] whole[k]).2.len() > 0
            &&& all_compromised(set, whole[k].2)
            &&& whole[k].1 == "npm"@ || whole[k].1 == "yarn"@ || whole[k].1 == "pnpm"@
        } by {
            if k < front.len() {
                assert(whole[k] == front[k]);
            } else {
                assert(whole[k] == added[k - front.len()]);
            }
        }
    }
}

/// Each scanned lockfile gives at most one finding or one error report.
pub proof fn lemma_scan_accounting(set: CompromisedSet, inputs: Seq<LockfileInput>)
    ensures
        findings_from(set, inputs).len() + errors_from(set, inputs).len() <= lockfile_count(
            inputs,
        ),
    decreases inputs.len(),
{
    if inputs.len() > 0 {
        lemma_scan_accounting(set, inputs.drop_last());
        let last = inputs.last();
        if is_lockfile_name(last.file_name@) {
            match lockfile_outcome(set, last) {
                Ok(f) => assert(f.len() <= 1),
                Err(_) => {},
            }
        }
    }
}

/// Files are scanned independently and in order: scanning `a` then `b`
/// adds what scanning each adds, one after the other.
pub proof fn lemma_scan_in_parts(set: CompromisedSet, a: Seq<LockfileInput>, b: Seq<LockfileInput>)
    ensures
        findings_from(set, a + b) == findings_from(set, a) + findings_from(set, b),
        errors_from(set, a + b) == errors_from(set, a) + errors_from(set, b),
        lockfile_count(a + b) == lockfile_count(a) + lockfile_count(b),
    decreases b.len(),
{
    if b.len() == 0 {
        assert(a + b == a);
        assert(findings_from(set, a) + findings_from(set, b) == findings_from(set, a));
        assert(errors_from(set, a) + errors_from(set, b) == errors_from(set, a));
    } else {
        assert((a + b).drop_last() == a + b.drop_last());
        assert((a + b).last() == b.last());
        lemma_scan_in_parts(set, a, b.drop_last());
    }
}

} // verus!
