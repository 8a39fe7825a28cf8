use toasted::json::JsonValue;
use toasted::pnpm::{PnpmDependency, PnpmDependencyVersion, PnpmLockfile};
use toasted::scanner::{Args, DetectedPackage, LockfileInput, ScanError, Scanner};

fn text_args() -> Args {
    Args {
        directory: ".".to_string(),
        format: "text".to_string(),
        no_color: false,
        verbose: false,
    }
}

fn names(found: &[DetectedPackage]) -> Vec<(String, String, String, String)> {
    found
        .iter()
        .map(|p| (p.name.clone(), p.version.clone(), p.path.clone(), p.location.clone()))
        .collect()
}

fn entry(name: &str, version: &str, path: &str, location: &str) -> (String, String, String, String) {
    (name.to_string(), version.to_string(), path.to_string(), location.to_string())
}

#[test]
fn test_compromised_packages_list() {
    let args = Args {
        directory: ".".to_string(),
        format: "text".to_string(),
        no_color: false,
        verbose: false,
    };
    let scanner = Scanner::new(args);

    assert_eq!(scanner.compromised_packages.len(), 18);
    assert!(scanner.compromised_packages.contains_key("chalk"));
    assert!(scanner.compromised_packages.contains_key("debug"));
    assert!(scanner.compromised_packages.contains_key("ansi-styles"));
}

#[test]
fn test_is_lockfile() {
    let args = Args {
        directory: ".".to_string(),
        format: "text".to_string(),
        no_color: false,
        verbose: false,
    };
    let scanner = Scanner::new(args);

    assert!(scanner.is_lockfile("package-lock.json"));
    assert!(scanner.is_lockfile("yarn.lock"));
    assert!(scanner.is_lockfile("pnpm-lock.yaml"));
    assert!(scanner.is_lockfile("pnpm-lock.yml"));
    assert!(!scanner.is_lockfile("package.json"));
    assert!(!scanner.is_lockfile("README.md"));
}

#[test]
fn new_scanner_starts_empty() {
    let scanner = Scanner::new(text_args());
    assert_eq!(scanner.results.scanned_files, 0);
    assert!(scanner.results.findings.is_empty());
    assert!(scanner.results.errors.is_empty());
    assert_eq!(scanner.args.format, "text");
    assert!(!scanner.compromised_packages.contains_key("chalk@5.6.1"));
    assert!(!scanner.compromised_packages.contains_key("lodash"));
}

#[test]
fn weekly_downloads_only_for_compromised_releases() {
    let scanner = Scanner::new(text_args());
    let set = &scanner.compromised_packages;
    assert_eq!(set.weekly_downloads("chalk", "5.6.1"), Some("299.99m".to_string()));
    assert_eq!(set.weekly_downloads("backslash", "0.2.1"), Some("0.26m".to_string()));
    assert_eq!(set.weekly_downloads("debug", "4.4.2"), Some("357.6m".to_string()));
    assert_eq!(set.weekly_downloads("ansi-styles", "6.2.2"), Some("371.41m".to_string()));
    assert_eq!(set.weekly_downloads("chalk", "5.6.0"), None);
    assert_eq!(set.weekly_downloads("lodash", "4.17.21"), None);
    let name: Vec<char> = "debug".chars().collect();
    let version: Vec<char> = "4.4.2".chars().collect();
    assert!(set.is_compromised(&name, &version));
    let other: Vec<char> = "4.4.1".chars().collect();
    assert!(!set.is_compromised(&name, &other));
}

#[test]
fn lockfile_types_by_name() {
    let scanner = Scanner::new(text_args());
    assert_eq!(scanner.get_lockfile_type("package-lock.json"), "npm");
    assert_eq!(scanner.get_lockfile_type("yarn.lock"), "yarn");
    assert_eq!(scanner.get_lockfile_type("pnpm-lock.yaml"), "pnpm");
    assert_eq!(scanner.get_lockfile_type("pnpm-lock.yml"), "pnpm");
    assert_eq!(scanner.get_lockfile_type("Cargo.lock"), "unknown");
}

#[test]
fn excluded_directories() {
    let scanner = Scanner::new(text_args());
    for name in ["node_modules", ".git", "dist", "build", ".next", "target"] {
        assert!(scanner.is_excluded_dir(name), "{}", name);
    }
    assert!(!scanner.is_excluded_dir("src"));
    assert!(!scanner.is_excluded_dir("node_modules2"));
}

#[test]
fn npm_v1_nested_dependencies() {
    let scanner = Scanner::new(text_args());
    let content = r#"{
        "name": "app",
        "lockfileVersion": 1,
        "dependencies": {
            "chalk": { "version": "5.6.1" },
            "express": {
                "version": "4.18.2",
                "dependencies": {
                    "debug": { "version": "4.4.2" },
                    "lodash": { "version": "4.17.21" }
                }
            },
            "left": { "version": "1.0.0" }
        }
    }"#;
    let found = scanner.parse_npm_lockfile(content).unwrap();
    assert_eq!(
        names(&found),
        vec![
            entry("chalk", "5.6.1", "chalk", "direct dependency"),
            entry("debug", "4.4.2", "express > debug", "transitive dependency"),
        ]
    );
}

#[test]
fn npm_v2_packages_table() {
    let scanner = Scanner::new(text_args());
    let content = r#"{
        "lockfileVersion": 3,
        "packages": {
            "": { "name": "app", "version": "1.0.0" },
            "node_modules/ansi-styles": { "version": "6.2.2" },
            "node_modules/ansi-regex": { "version": "6.2.0" },
            "node_modules/wrap-ansi/node_modules/strip-ansi": { "version": "7.1.1" },
            "node_modules/has-ansi": { "version": 601 }
        }
    }"#;
    let found = scanner.parse_npm_lockfile(content).unwrap();
    assert_eq!(
        names(&found),
        vec![entry(
            "ansi-styles",
            "6.2.2",
            "node_modules/ansi-styles",
            "direct or transitive dependency"
        )]
    );
}

#[test]
fn npm_document_given_directly() {
    let scanner = Scanner::new(text_args());
    let document = JsonValue::Object(vec![(
        "dependencies".to_string(),
        JsonValue::Object(vec![
            (
                "color-name".to_string(),
                JsonValue::Object(vec![("version".to_string(), JsonValue::String("2.0.1".to_string()))]),
            ),
            ("error-ex".to_string(), JsonValue::String("1.3.3".to_string())),
        ]),
    )]);
    let found = scanner.detect_npm_packages(&document);
    assert_eq!(names(&found), vec![entry("color-name", "2.0.1", "color-name", "direct dependency")]);
    assert!(scanner.detect_npm_packages(&JsonValue::Array(vec![])).is_empty());
}

#[test]
fn npm_text_that_is_no_json() {
    let scanner = Scanner::new(text_args());
    match scanner.parse_npm_lockfile("{ not json") {
        Err(ScanError::Json { message }) => assert!(!message.is_empty()),
        other => panic!("expected a JSON error, got {:?}", other.map(|v| v.len())),
    }
    assert!(scanner.parse_npm_lockfile("[1, 2, 3]").unwrap().is_empty());
}

#[test]
fn yarn_declarations() {
    let scanner = Scanner::new(text_args());
    let content = "# yarn lockfile v1\n\n\"chalk@^5.0.0\":\n  version \"5.6.1\"\n  resolved \"https://registry\"\n\ndebug@^4.0.0, debug@^4.3.0:\r\n  version \"4.4.2\"\r\n\nlodash@^4.0.0:\n  version \"4.17.21\"\n\n'strip-ansi'@^7:\n  resolved \"x\"\n  version \"7.1.1\"\n";
    let found = scanner.parse_yarn_lockfile(content).unwrap();
    assert_eq!(
        names(&found),
        vec![
            entry("chalk", "5.6.1", "chalk", "yarn dependency"),
            entry("debug", "4.4.2", "debug", "yarn dependency"),
            entry("strip-ansi", "7.1.1", "strip-ansi", "yarn dependency"),
        ]
    );
}

#[test]
fn yarn_version_search_stops() {
    let scanner = Scanner::new(text_args());
    // The next declaration ends the search: the version is unknown.
    let content = "chalk@^5.0.0:\nwrap-ansi@^9:\n  version \"9.0.1\"\n";
    let found = scanner.parse_yarn_lockfile(content).unwrap();
    assert_eq!(names(&found), vec![entry("wrap-ansi", "9.0.1", "wrap-ansi", "yarn dependency")]);
    // Only nine lines after a declaration are searched.
    let far = "chalk@^5:\n  a\n  b\n  c\n  d\n  e\n  f\n  g\n  h\n  i\n  version \"5.6.1\"\n";
    assert!(scanner.parse_yarn_lockfile(far).unwrap().is_empty());
    let near = "chalk@^5:\n  a\n  b\n  c\n  d\n  e\n  f\n  g\n  h\n  version \"5.6.1\"\n";
    assert_eq!(scanner.parse_yarn_lockfile(near).unwrap().len(), 1);
}

#[test]
fn pnpm_document_detections() {
    let scanner = Scanner::new(text_args());
    let document = PnpmLockfile {
        dependencies: Some(vec![
            ("chalk".to_string(), PnpmDependencyVersion::String("5.6.1".to_string())),
            (
                "debug".to_string(),
                PnpmDependencyVersion::Object(PnpmDependency { version: "4.4.2".to_string() }),
            ),
            ("lodash".to_string(), PnpmDependencyVersion::String("4.17.21".to_string())),
        ]),
        packages: Some(vec![
            "/color-convert/3.1.1".to_string(),
            "/slice-ansi/7.1.0".to_string(),
            "/chalk@5.6.1".to_string(),
        ]),
    };
    let found = scanner.parse_pnpm_lockfile("", Some(&document)).unwrap();
    assert_eq!(
        names(&found),
        vec![
            entry("chalk", "5.6.1", "chalk", "direct dependency"),
            entry("debug", "4.4.2", "debug", "direct dependency"),
            entry("color-convert", "3.1.1", "/color-convert/3.1.1", "pnpm package"),
        ]
    );
}

#[test]
fn pnpm_line_reading() {
    let scanner = Scanner::new(text_args());
    let content = "lockfileVersion: 5.4\n\ndependencies:\n  chalk: '5.6.1'\n  lodash: 4.17.21\n    nested: 1\n\npackages:\n\n  /debug@4.4.2:\n    resolution: {integrity: sha}\n  /ansi-regex@6.2.0:\n    dev: false\n\nspecifiers:\n  /chalk@5.6.1:\n";
    assert!(!toasted::pnpm::pnpm_fallback_would_panic(content));
    let found = scanner.parse_pnpm_lockfile(content, None).unwrap();
    assert_eq!(
        names(&found),
        vec![
            entry("chalk", "5.6.1", "chalk", "direct dependency"),
            entry("debug", "4.4.2", "/debug@4.4.2", "pnpm package"),
        ]
    );
}

#[test]
fn pnpm_line_reading_panic_is_foreseen() {
    let content = "packages:\n  /odd:key@1\n";
    assert!(toasted::pnpm::pnpm_fallback_would_panic(content));
    assert!(!toasted::pnpm::pnpm_fallback_would_panic("dependencies:\n  /odd:key@1\n"));
}

fn input(path: &str, file_name: &str, content: Option<&str>) -> LockfileInput {
    LockfileInput {
        path: path.to_string(),
        file_name: file_name.to_string(),
        content: content.map(|c| c.to_string()),
        pnpm_document: None,
    }
}

#[test]
fn scan_directory_records_findings_and_errors() {
    let mut scanner = Scanner::new(text_args());
    let inputs = vec![
        input("a/package-lock.json", "package-lock.json", Some(r#"{"dependencies":{"chalk":{"version":"5.6.1"}}}"#)),
        input("b/yarn.lock", "yarn.lock", Some("lodash@^4:\n  version \"4.17.21\"\n")),
        input("c/package-lock.json", "package-lock.json", Some("oops")),
        input("d/pnpm-lock.yaml", "pnpm-lock.yaml", None),
        input("e/README.md", "README.md", Some("chalk@5.6.1")),
        input("f/pnpm-lock.yml", "pnpm-lock.yml", Some("dependencies:\n  ansi-styles: 6.2.2\n")),
    ];
    scanner.scan_directory(&inputs).unwrap();
    let results = &scanner.results;
    assert_eq!(results.scanned_files, 5);
    assert_eq!(results.findings.len(), 2);
    assert_eq!(results.findings[0].file, "a/package-lock.json");
    assert_eq!(results.findings[0].lockfile_type, "npm");
    assert_eq!(names(&results.findings[0].packages), vec![entry("chalk", "5.6.1", "chalk", "direct dependency")]);
    assert_eq!(results.findings[1].file, "f/pnpm-lock.yml");
    assert_eq!(results.findings[1].lockfile_type, "pnpm");
    assert_eq!(results.errors.len(), 2);
    assert!(results.errors[0].starts_with("c/package-lock.json: "));
    assert!(results.errors[0].len() > "c/package-lock.json: ".len());
    assert_eq!(results.errors[1], "d/pnpm-lock.yaml: Failed to read file: d/pnpm-lock.yaml");
    assert!(results.findings.len() + results.errors.len() <= results.scanned_files);
    for finding in &results.findings {
        for package in &finding.packages {
            assert!(scanner
                .compromised_packages
                .weekly_downloads(&package.name, &package.version)
                .is_some());
        }
    }
}

#[test]
fn scan_lockfile_errors() {
    let mut scanner = Scanner::new(text_args());
    let unreadable = input("x/yarn.lock", "yarn.lock", None);
    match scanner.scan_lockfile(&unreadable) {
        Err(e) => assert_eq!(e.message(), "Failed to read file: x/yarn.lock"),
        Ok(()) => panic!("expected an error"),
    }
    assert_eq!(scanner.results.scanned_files, 1);
    let clean = input("y/yarn.lock", "yarn.lock", Some(""));
    assert!(scanner.scan_lockfile(&clean).is_ok());
    assert_eq!(scanner.results.scanned_files, 2);
    assert!(scanner.results.findings.is_empty());
}

#[test]
fn scanning_in_parts_matches_scanning_at_once() {
    let make = || {
        vec![
            input("1/yarn.lock", "yarn.lock", Some("chalk@^5:\n  version \"5.6.1\"\n")),
            input("2/package-lock.json", "package-lock.json", Some("[")),
            input("3/pnpm-lock.yaml", "pnpm-lock.yaml", Some("packages:\n  /debug@4.4.2:\n")),
        ]
    };
    let all = make();
    let mut at_once = Scanner::new(text_args());
    at_once.scan_directory(&all).unwrap();

    let mut parts = make();
    let second: Vec<LockfileInput> = parts.split_off(1);
    let mut in_parts = Scanner::new(text_args());
    in_parts.scan_directory(&parts).unwrap();
    in_parts.scan_directory(&second).unwrap();

    assert_eq!(at_once.results.scanned_files, 3);
    assert_eq!(in_parts.results.scanned_files, at_once.results.scanned_files);
    assert_eq!(in_parts.results.errors, at_once.results.errors);
    assert_eq!(in_parts.results.findings.len(), 2);
    assert_eq!(in_parts.results.findings.len(), at_once.results.findings.len());
    for (a, b) in in_parts.results.findings.iter().zip(at_once.results.findings.iter()) {
        assert_eq!(a.file, b.file);
        assert_eq!(a.lockfile_type, b.lockfile_type);
        assert_eq!(names(&a.packages), names(&b.packages));
    }
}
