//! The scanner: its settings, its results, and the decisions it makes about
//! the files it is shown.
use vstd::prelude::*;

use crate::json::{json_document, json_error_text};
use crate::npm::npm_detections;
use crate::pnpm::{pnpm_document_detections, pnpm_fallback_detections, pnpm_fallback_panics, PnpmLockfile};
use crate::registry::{builtin_packages, CompromisedSet};
use crate::yarn::yarn_detections;
use crate::text::{chars_of, eq_str};

verus! {

/// The settings of a scan.
#[derive(Debug, Default, Clone)]
pub struct Args {
    /// Directory to scan.
    pub directory: String,
    /// Output format (`text` or `json`).
    pub format: String,
    /// Suppress colored output.
    pub no_color: bool,
    /// Show verbose output.
    pub verbose: bool,
}

/// A compromised release found in a lockfile.
#[derive(Debug, Clone)]
pub struct DetectedPackage {
    pub name: String,
    pub version: String,
    /// Where in the lockfile the release was found.
    pub path: String,
    /// How the release enters the project.
    pub location: String,
}

/// What a detected package says, as text.
pub struct Detection {
    pub name: Seq<char>,
    pub version: Seq<char>,
    pub path: Seq<char>,
    pub location: Seq<char>,
}

impl View for DetectedPackage {
    type V = Detection;

    open spec fn view(&self) -> Detection {
        Detection {
            name: self.name@,
            version: self.version@,
            path: self.path@,
            location: self.location@,
        }
    }
}

/// The detections that a list of detected packages holds.
pub open spec fn detections_of(packages: Seq<DetectedPackage>) -> Seq<Detection> {
    packages.map_values(|p: DetectedPackage| p@)
}

/// Appending a package appends its detection.
pub proof fn lemma_detections_push(packages: Seq<DetectedPackage>, p: DetectedPackage)
    ensures
        detections_of(packages.push(p)) == detections_of(packages).push(p@),
{
    assert(detections_of(packages.push(p)) =~= detections_of(packages).push(p@));
}

/// Appending a finding appends its view.
pub proof fn lemma_findings_push(findings: Seq<Finding>, f: Finding)
    ensures
        findings_of(findings.push(f)) == findings_of(findings).push(f@),
{
    assert(findings_of(findings.push(f)) =~= findings_of(findings).push(f@));
}

/// Appending a string appends its text.
pub proof fn lemma_texts_push(strings: Seq<String>, s: String)
    ensures
        texts_of_strings(strings.push(s)) == texts_of_strings(strings).push(s@),
{
    assert(texts_of_strings(strings.push(s)) =~= texts_of_strings(strings).push(s@));
}

/// The compromised releases found in one lockfile.
#[derive(Debug)]
pub struct Finding {
    /// The lockfile's path.
    pub file: String,
    /// `npm`, `yarn` or `pnpm`.
    pub lockfile_type: String,
    pub packages: Vec<DetectedPackage>,
}

impl View for Finding {
    type V = (Seq<char>, Seq<char>, Seq<Detection>);

    open spec fn view(&self) -> (Seq<char>, Seq<char>, Seq<Detection>) {
        (self.file@, self.lockfile_type@, detections_of(self.packages@))
    }
}

pub open spec fn findings_of(findings: Seq<Finding>) -> Seq<(Seq<char>, Seq<char>, Seq<Detection>)> {
    findings.map_values(|f: Finding| f@)
}

pub open spec fn texts_of_strings(strings: Seq<String>) -> Seq<Seq<char>> {
    strings.map_values(|s: String| s@)
}

/// The outcome of a scan so far.
#[derive(Debug)]
pub struct ScanResults {
    /// How many lockfiles were scanned.
    pub scanned_files: usize,
    pub findings: Vec<Finding>,
    /// One message per lockfile that could not be scanned.
    pub errors: Vec<String>,
}

/// Why a lockfile could not be scanned.
#[derive(Debug)]
pub enum ScanError {
    /// The file could not be read.
    Unreadable { path: String },
    /// The file is no JSON document; `serde_json`'s message.
    Json { message: String },
}

/// The text that reports an error.
pub open spec fn error_text(error: ScanError) -> Seq<char> {
    match error {
        ScanError::Unreadable { path } => "Failed to read file: "@ + path@,
        ScanError::Json { message } => message@,
    }
}

impl ScanError {
    /// The text that reports the error.
    pub fn message(&self) -> (res: String)
        ensures
            res@ == error_text(*self),
    {
        match self {
            ScanError::Unreadable { path } => {
                let mut text = "Failed to read file: ".to_string();
                text.append(path.as_str());
                text
            },
            ScanError::Json { message } => message.clone(),
        }
    }
}

/// A file met during a scan, with what was read of it.
#[derive(Debug)]
pub struct LockfileInput {
    /// The file's path, as it is reported.
    pub path: String,
    /// The file's name.
    pub file_name: String,
    /// The file's text; `None` when it could not be read.
    pub content: Option<String>,
    /// For a pnpm lockfile, the YAML document read from its text, when
    /// the text reads as one.
    pub pnpm_document: Option<PnpmLockfile>,
}

/// The compromised releases that a readable lockfile holds, by its name;
/// `None` when the file cannot be scanned (an npm lockfile that is no JSON
/// document).
pub open spec fn lockfile_detections(
    set: CompromisedSet,
    file_name: Seq<char>,
    content: Seq<char>,
    document: Option<PnpmLockfile>,
) -> Option<Seq<Detection>> {
    if file_name == "package-lock.json"@ {
        match json_document(content) {
            Some(d) => Some(npm_detections(set, d)),
            None => None,
        }
    } else if file_name == "yarn.lock"@ {
        Some(yarn_detections(set, content))
    } else if file_name == "pnpm-lock.yaml"@ || file_name == "pnpm-lock.yml"@ {
        Some(
            match document {
                Some(d) => pnpm_document_detections(set, d),
                None => pnpm_fallback_detections(set, content),
            },
        )
    } else {
        Some(Seq::empty())
    }
}

/// Scanning the input panics nowhere: a pnpm lockfile that is read line by
/// line holds no package line that cannot be taken apart.
pub open spec fn input_scannable(input: LockfileInput) -> bool {
    (input.file_name@ == "pnpm-lock.yaml"@ || input.file_name@ == "pnpm-lock.yml"@)
        && input.pnpm_document is None && input.content is Some ==> !pnpm_fallback_panics(
        input.content->0@,
    )
}

/// The outcome of scanning one lockfile: its finding, if it has
/// compromised releases, or the error that stopped it.
pub open spec fn lockfile_outcome(set: CompromisedSet, input: LockfileInput) -> Result<
    Seq<(Seq<char>, Seq<char>, Seq<Detection>)>,
    Seq<char>,
> {
    match input.content {
        None => Err("Failed to read file: "@ + input.path@),
        Some(content) => match lockfile_detections(
            set,
            input.file_name@,
            content@,
            input.pnpm_document,
        ) {
            None => Err(json_error_text(content@)),
            Some(found) => Ok(
                if found.len() == 0 {
                    Seq::empty()
                } else {
                    seq![(input.path@, lockfile_type_of(input.file_name@), found)]
                },
            ),
        },
    }
}

/// The findings that scanning the lockfiles among `inputs` adds, in order.
pub open spec fn findings_from(set: CompromisedSet, inputs: Seq<LockfileInput>) -> Seq<
    (Seq<char>, Seq<char>, Seq<Detection>),
>
    decreases inputs.len(),
{
    if inputs.len() == 0 {
        Seq::empty()
    } else {
        let last = inputs.last();
        findings_from(set, inputs.drop_last()) + if is_lockfile_name(last.file_name@) {
            match lockfile_outcome(set, last) {
                Ok(f) => f,
                Err(_) => Seq::empty(),
            }
        } else {
            Seq::empty()
        }
    }
}

/// The error reports that scanning the lockfiles among `inputs` adds, in
/// order: the path, `": "`, and the error's text.
pub open spec fn errors_from(set: CompromisedSet, inputs: Seq<LockfileInput>) -> Seq<Seq<char>>
    decreases inputs.len(),
{
    if inputs.len() == 0 {
        Seq::empty()
    } else {
        let last = inputs.last();
        errors_from(set, inputs.drop_last()) + if is_lockfile_name(last.file_name@) {
            match lockfile_outcome(set, last) {
                Ok(_) => Seq::empty(),
                Err(e) => seq![last.path@ + ": "@ + e],
            }
        } else {
            Seq::empty()
        }
    }
}

/// How many of `inputs` are lockfiles.
pub open spec fn lockfile_count(inputs: Seq<LockfileInput>) -> nat
    decreases inputs.len(),
{
    if inputs.len() == 0 {
        0
    } else {
        lockfile_count(inputs.drop_last()) + if is_lockfile_name(inputs.last().file_name@) {
            1nat
        } else {
            0nat
        }
    }
}

/// The lockfile scanner.
pub struct Scanner {
    pub compromised_packages: CompromisedSet,
    pub results: ScanResults,
    pub args: Args,
}

/// The file names of the lockfiles that are scanned.
pub open spec fn is_lockfile_name(filename: Seq<char>) -> bool {
    ||| filename == "package-lock.json"@
    ||| filename == "yarn.lock"@
    ||| filename == "pnpm-lock.yaml"@
    ||| filename == "pnpm-lock.yml"@
}

/// The directories that a scan does not enter.
pub open spec fn is_excluded_dir_name(name: Seq<char>) -> bool {
    ||| name == "node_modules"@
    ||| name == ".git"@
    ||| name == "dist"@
    ||| name == "build"@
    ||| name == ".next"@
    ||| name == "target"@
}

/// The kind of lockfile that a file name stands for.
pub open spec fn lockfile_type_of(filename: Seq<char>) -> Seq<char> {
    if filename == "package-lock.json"@ {
        "npm"@
    } else if filename == "yarn.lock"@ {
        "yarn"@
    } else if filename == "pnpm-lock.yaml"@ || filename == "pnpm-lock.yml"@ {
        "pnpm"@
    } else {
        "unknown"@
    }
}

impl Scanner {
    /// A scanner with the built-in list of compromised releases and no
    /// results yet.
    pub fn new(args: Args) -> (scanner: Self)
        ensures
            scanner.compromised_packages@ == builtin_packages(),
            scanner.results.scanned_files == 0,
            scanner.results.findings@.len() == 0,
            scanner.results.errors@.len() == 0,
            scanner.args == args,
    {
        Scanner {
            compromised_packages: CompromisedSet::builtin(),
            results: ScanResults { scanned_files: 0, findings: Vec::new(), errors: Vec::new() },
            args,
        }
    }

    /// Whether a scan enters a directory of this name: it skips dependency,
    /// build and version-control directories.
    pub fn is_excluded_dir(&self, name: &str) -> (res: bool)
        ensures
            res == is_excluded_dir_name(name@),
    {
        let text = chars_of(name);
        eq_str(&text, "node_modules") || eq_str(&text, ".git") || eq_str(&text, "dist") || eq_str(
            &text,
            "build",
        ) || eq_str(&text, ".next") || eq_str(&text, "target")
    }

    /// Whether a file of this name is a lockfile that is scanned.
    pub fn is_lockfile(&self, filename: &str) -> (res: bool)
        ensures
            res == is_lockfile_name(filename@),
    {
        let name = chars_of(filename);
        eq_str(&name, "package-lock.json") || eq_str(&name, "yarn.lock") || eq_str(
            &name,
            "pnpm-lock.yaml",
        ) || eq_str(&name, "pnpm-lock.yml")
    }

    /// Scans one lockfile: counts it, and records a finding when it holds
    /// compromised releases. Fails, after counting it, when the file could
    /// not be read or an npm lockfile is no JSON document.
    pub fn scan_lockfile(&mut self, input: &LockfileInput) -> (res: Result<(), ScanError>)
        requires
            old(self).results.scanned_files < usize::MAX,
            input_scannable(*input),
        ensures
            final(self).results.scanned_files == old(self).results.scanned_files + 1,
            final(self).compromised_packages == old(self).compromised_packages,
            final(self).args == old(self).args,
            texts_of_strings(final(self).results.errors@) == texts_of_strings(old(self).results.errors@),
            match lockfile_outcome(old(self).compromised_packages, *input) {
                Ok(added) => res is Ok && findings_of(final(self).results.findings@) == findings_of(
                    old(self).results.findings@,
                ) + added,
                Err(text) => res matches Err(e) && error_text(e) == text && findings_of(
                    final(self).results.findings@,
                ) == findings_of(old(self).results.findings@),
            },
    {
        self.results.scanned_files = self.results.scanned_files + 1;
        let content = match &input.content {
            Some(c) => c,
            None => {
                return Err(ScanError::Unreadable { path: input.path.clone() });
            },
        };
        let name = chars_of(input.file_name.as_str());
        let found = if eq_str(&name, "package-lock.json") {
            match self.parse_npm_lockfile(content.as_str()) {
                Ok(found) => found,
                Err(e) => {
                    return Err(e);
                },
            }
        } else if eq_str(&name, "yarn.lock") {
            match self.parse_yarn_lockfile(content.as_str()) {
                Ok(found) => found,
                Err(e) => {
                    return Err(e);
                },
            }
        } else if eq_str(&name, "pnpm-lock.yaml") || eq_str(&name, "pnpm-lock.yml") {
            let document = match &input.pnpm_document {
                Some(d) => Some(d),
                None => None,
            };
            match self.parse_pnpm_lockfile(content.as_str(), document) {
                Ok(found) => found,
                Err(e) => {
                    return Err(e);
                },
            }
        } else {
            Vec::new()
        };
        if found.len() > 0 {
            let finding = Finding {
                file: input.path.clone(),
                lockfile_type: self.get_lockfile_type(input.file_name.as_str()),
                packages: found,
            };
            proof {
                lemma_findings_push(self.results.findings@, finding);
            }
            self.results.findings.push(finding);
        }
        Ok(())
    }

    /// Scans the lockfiles among `inputs`, in order; a lockfile that cannot
    /// be scanned is reported as its path, `": "` and the error's text.
    /// Files that are no lockfiles are passed over. Never fails.
    pub fn scan_directory(&mut self, inputs: &Vec<LockfileInput>) -> (res: Result<(), ScanError>)
        requires
            old(self).results.scanned_files + inputs@.len() <= usize::MAX,
            forall|i: int| 0 <= i < inputs@.len() ==> input_scannable(#[trigger] inputs@[i]),
        ensures
            res is Ok,
            final(self).compromised_packages == old(self).compromised_packages,
            final(self).args == old(self).args,
            final(self).results.scanned_files == old(self).results.scanned_files + lockfile_count(
                inputs@,
            ),
            findings_of(final(self).results.findings@) == findings_of(old(self).results.findings@)
                + findings_from(old(self).compromised_packages, inputs@),
            texts_of_strings(final(self).results.errors@) == texts_of_strings(
                old(self).results.errors@,
            ) + errors_from(old(self).compromised_packages, inputs@),
    {
        let ghost set = self.compromised_packages;
        let ghost start = *self;
        let mut i: usize = 0;
        while i < inputs.len()
            invariant
                i <= inputs@.len(),
                self.compromised_packages == set,
                set == start.compromised_packages,
                self.args == start.args,
                start.results.scanned_files + inputs@.len() <= usize::MAX,
                forall|k: int| 0 <= k < inputs@.len() ==> input_scannable(#[trigger] inputs@[k]),
                lockfile_count(inputs@.take(i as int)) <= i,
                self.results.scanned_files == start.results.scanned_files + lockfile_count(
                    inputs@.take(i as int),
                ),
                findings_of(self.results.findings@) == findings_of(start.results.findings@)
                    + findings_from(set, inputs@.take(i as int)),
                texts_of_strings(self.results.errors@) == texts_of_strings(start.results.errors@)
                    + errors_from(set, inputs@.take(i as int)),
            decreases inputs@.len() - i,
        {
            let input = &inputs[i];
            assert(inputs@.take(i + 1).drop_last() == inputs@.take(i as int));
            assert(inputs@.take(i + 1).last() == inputs@[i as int]);
            assert(input_scannable(inputs@[i as int]));
            if self.is_lockfile(input.file_name.as_str()) {
                match self.scan_lockfile(input) {
                    Ok(()) => {},
                    Err(e) => {
                        let mut report = input.path.clone();
                        report.append(": ");
                        let text = e.message();
                        report.append(text.as_str());
                        proof {
                            lemma_texts_push(self.results.errors@, report);
                        }
                        self.results.errors.push(report);
                    },
                }
            }
            i = i + 1;
        }
        assert(inputs@.take(inputs@.len() as int) == inputs@);
        Ok(())
    }

    /// The kind of lockfile that a file name stands for.
    pub fn get_lockfile_type(&self, filename: &str) -> (res: String)
        ensures
            res@ == lockfile_type_of(filename@),
    {
        let name = chars_of(filename);
        if eq_str(&name, "package-lock.json") {
            "npm".to_string()
        } else if eq_str(&name, "yarn.lock") {
            "yarn".to_string()
        } else if eq_str(&name, "pnpm-lock.yaml") || eq_str(&name, "pnpm-lock.yml") {
            "pnpm".to_string()
        } else {
            "unknown".to_string()
        }
    }
}

/// A file is scanned exactly when its name has a known lockfile type.
pub proof fn lemma_lockfile_iff_known_type(filename: Seq<char>)
    ensures
        is_lockfile_name(filename) <==> lockfile_type_of(filename) != "unknown"@,
{
    reveal_strlit("unknown");
    reveal_strlit("npm");
    reveal_strlit("yarn");
    reveal_strlit("pnpm");
    assert("npm"@.len() != "unknown"@.len());
    assert("yarn"@.len() != "unknown"@.len());
    assert("pnpm"@.len() != "unknown"@.len());
}

} // verus!
