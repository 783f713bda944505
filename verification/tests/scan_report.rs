use outdated::deps::{Dependency, ReqDecl, SourceKind};
use outdated::registry::{latest_from_body, select_latest, FetchError, VersionRecord};
use outdated::report::{group_findings, run_report, OutdatedReport};
use outdated::scan::{
    dedup_findings, evaluate_dependency, scan_all, OutdatedFinding, PackageDeps, RegistryResponse,
};
use outdated::versions::is_up_to_date;

fn record(num: &str, yanked: bool, updated_at: &str) -> VersionRecord {
    VersionRecord {
        crate_name: String::from("demo"),
        num: String::from(num),
        yanked,
        updated_at: String::from(updated_at),
    }
}

fn dep(name: &str, req: &str, kind: SourceKind) -> Dependency {
    Dependency::new(String::from(name), &ReqDecl::Explicit(String::from(req)), kind)
        .expect("well-formed requirement")
}

fn response(name: &str, nums: &[(&str, bool)]) -> RegistryResponse {
    let mut records = Vec::new();
    for (num, yanked) in nums {
        records.push(record(num, *yanked, "2024-01-02T03:04:05.678901Z"));
    }
    RegistryResponse { name: String::from(name), records: Some(records) }
}

#[test]
fn normalize_any_gives_wildcard() {
    let d = Dependency::new(
        String::from("anything"),
        &ReqDecl::Any,
        SourceKind::Registry,
    )
    .unwrap();
    assert_eq!(d.version_req, "*");
}

#[test]
fn normalize_explicit_canonicalizes() {
    assert_eq!(dep("regex", "0.1", SourceKind::Registry).version_req, "^0.1");
    assert_eq!(dep("serde", "1.0", SourceKind::Registry).version_req, "^1.0");
    assert_eq!(dep("exact", "=1.2.3", SourceKind::Registry).version_req, "=1.2.3");
}

#[test]
fn normalize_locked_keeps_requirement() {
    let d = Dependency::new(
        String::from("serde"),
        &ReqDecl::Locked(String::from("1.0.5")),
        SourceKind::Registry,
    )
    .unwrap();
    assert_eq!(d.version_req, "^1.0.5");
}

#[test]
fn normalize_rejects_malformed() {
    let d = Dependency::new(
        String::from("broken"),
        &ReqDecl::Explicit(String::from("not a requirement")),
        SourceKind::Registry,
    );
    assert!(d.is_none());
}

#[test]
fn up_to_date_follows_semver_matching() {
    assert_eq!(is_up_to_date("^1.0", "1.0.5"), Some(true));
    assert_eq!(is_up_to_date("^0.1", "1.3.0"), Some(false));
    assert_eq!(is_up_to_date("*", "0.0.1"), Some(true));
    assert_eq!(is_up_to_date("not a req", "1.0.0"), None);
    assert_eq!(is_up_to_date("^1.0", "not a version"), None);
}

#[test]
fn withdrawn_release_never_selected() {
    let records = vec![record("2.0.0", true, "b.1"), record("1.0.0", false, "a.1")];
    let info = select_latest(&records).unwrap();
    assert_eq!(info.latest_version, "1.0.0");
    assert_eq!(info.crate_name, "demo");
    assert_eq!(info.last_updated, "a");
}

#[test]
fn all_withdrawn_selects_default() {
    let records = vec![record("2.0.0", true, "b.1"), record("1.0.0", true, "a.1")];
    let info = select_latest(&records).unwrap();
    assert_eq!(info.latest_version, "0.0.0");
    assert_eq!(info.crate_name, "");
    assert_eq!(info.last_updated, "");
}

#[test]
fn most_recent_eligible_wins() {
    let records = vec![
        record("3.0.0", true, "c.1"),
        record("2.0.0", false, "b.1"),
        record("1.0.0", false, "a.1"),
    ];
    let info = select_latest(&records).unwrap();
    assert_eq!(info.latest_version, "2.0.0");
}

#[test]
fn malformed_version_fails_the_query() {
    let records = vec![record("1.0.0", false, "a.1"), record("oops", false, "b.1")];
    match select_latest(&records) {
        Err(FetchError::ParseError(_)) => {},
        _ => panic!("expected a parse failure"),
    }
}

#[test]
fn timestamp_loses_fractional_seconds() {
    let records = vec![record("1.2.3", false, "2024-05-01T10:00:00.123456Z")];
    let info = select_latest(&records).unwrap();
    assert_eq!(info.last_updated, "2024-05-01T10:00:00");
}

#[test]
fn empty_record_list_selects_default() {
    let records: Vec<VersionRecord> = Vec::new();
    let info = select_latest(&records).unwrap();
    assert_eq!(info.latest_version, "0.0.0");
}

#[test]
fn response_body_is_decoded_and_selected() {
    let mut body = String::from("{\"versions\":[");
    body.push_str("{\"crate\":\"demo\",\"num\":\"2.0.0\",\"yanked\":true,");
    body.push_str("\"updated_at\":\"2024-01-02T03:04:05.678Z\",\"downloads\":10},");
    body.push_str("{\"crate\":\"demo\",\"num\":\"1.0.0\",\"yanked\":false,");
    body.push_str("\"updated_at\":\"2023-01-02T03:04:05.678Z\"}");
    body.push_str("]}");
    let info = latest_from_body(&body).unwrap();
    assert_eq!(info.crate_name, "demo");
    assert_eq!(info.latest_version, "1.0.0");
    assert_eq!(info.last_updated, "2023-01-02T03:04:05");
}

#[test]
fn malformed_body_is_a_parse_failure() {
    assert!(matches!(latest_from_body("not json"), Err(FetchError::ParseError(_))));
    assert!(matches!(latest_from_body("{}"), Err(FetchError::ParseError(_))));
    assert!(matches!(
        latest_from_body("{\"versions\":[{\"num\":\"1.0.0\"}]}"),
        Err(FetchError::ParseError(_))
    ));
}

#[test]
fn up_to_date_dependency_yields_no_finding() {
    let pkgs = vec![PackageDeps {
        name: String::from("app"),
        deps: vec![dep("serde", "1.0", SourceKind::Registry)],
    }];
    let resps = vec![response("serde", &[("1.0.5", false)])];
    let findings = scan_all(&pkgs, &resps);
    assert!(findings.is_empty());
    assert_eq!(run_report(&pkgs, &resps), "All dependencies are up-to-date!");
}

#[test]
fn stale_dependency_is_reported() {
    let pkgs = vec![PackageDeps {
        name: String::from("app"),
        deps: vec![dep("regex", "0.1", SourceKind::Registry)],
    }];
    let resps = vec![response("regex", &[("1.3.0", false)])];
    let findings = scan_all(&pkgs, &resps);
    assert_eq!(findings.len(), 1);
    assert_eq!(findings[0].owning_package, "app");
    assert_eq!(findings[0].dependency_name, "regex");
    assert_eq!(findings[0].version_in_toml, "^0.1");
    assert_eq!(findings[0].latest_version, "1.3.0");
}

#[test]
fn local_path_dependency_is_never_reported() {
    let pkgs = vec![PackageDeps {
        name: String::from("lib"),
        deps: vec![dep("local-util", "0.1", SourceKind::LocalPath)],
    }];
    let resps = vec![response("local-util", &[("9.9.9", false)])];
    let findings = scan_all(&pkgs, &resps);
    assert!(findings.is_empty());
}

#[test]
fn local_path_dependency_is_not_evaluated() {
    let d = dep("local-util", "0.1", SourceKind::LocalPath);
    let resps = vec![response("local-util", &[("9.9.9", false)])];
    assert!(evaluate_dependency(&String::from("lib"), &d, &resps).is_none());
}

#[test]
fn fetch_failure_drops_the_dependency() {
    let pkgs = vec![PackageDeps {
        name: String::from("app"),
        deps: vec![
            dep("gone", "0.1", SourceKind::Registry),
            dep("broken", "0.1", SourceKind::Registry),
            dep("regex", "0.1", SourceKind::Registry),
        ],
    }];
    let resps = vec![
        RegistryResponse { name: String::from("broken"), records: None },
        response("regex", &[("1.3.0", false)]),
    ];
    let findings = scan_all(&pkgs, &resps);
    assert_eq!(findings.len(), 1);
    assert_eq!(findings[0].dependency_name, "regex");
}

#[test]
fn empty_report_renders_fixed_message() {
    let report = OutdatedReport::new();
    assert_eq!(report.render(), "All dependencies are up-to-date!");
}

#[test]
fn two_findings_render_tee_then_corner() {
    let pkgs = vec![PackageDeps {
        name: String::from("app"),
        deps: vec![
            dep("regex", "0.1", SourceKind::Registry),
            dep("serde_yaml", "0.8", SourceKind::Registry),
        ],
    }];
    let resps = vec![
        response("regex", &[("1.3.0", false)]),
        response("serde_yaml", &[("9.0.0", false)]),
    ];
    let rendered = run_report(&pkgs, &resps);
    assert_eq!(
        rendered,
        "app\n\t├── regex: ^0.1 -> 1.3.0\n\t└── serde_yaml: ^0.8 -> 9.0.0\n"
    );
}

#[test]
fn single_finding_renders_corner() {
    let pkgs = vec![PackageDeps {
        name: String::from("app"),
        deps: vec![dep("regex", "0.1", SourceKind::Registry)],
    }];
    let resps = vec![response("regex", &[("1.3.0", false)])];
    assert_eq!(run_report(&pkgs, &resps), "app\n\t└── regex: ^0.1 -> 1.3.0\n");
}

#[test]
fn scan_twice_is_identical() {
    let pkgs = vec![
        PackageDeps {
            name: String::from("app"),
            deps: vec![
                dep("regex", "0.1", SourceKind::Registry),
                dep("serde", "1.0", SourceKind::Registry),
            ],
        },
        PackageDeps {
            name: String::from("lib"),
            deps: vec![dep("local-util", "0.1", SourceKind::LocalPath)],
        },
    ];
    let resps = vec![
        response("regex", &[("1.3.0", false)]),
        response("serde", &[("1.0.5", false)]),
        response("local-util", &[("9.9.9", false)]),
    ];
    let first = scan_all(&pkgs, &resps);
    let second = scan_all(&pkgs, &resps);
    assert_eq!(first.len(), second.len());
    for (a, b) in first.iter().zip(second.iter()) {
        assert_eq!(a.owning_package, b.owning_package);
        assert_eq!(a.dependency_name, b.dependency_name);
        assert_eq!(a.version_in_toml, b.version_in_toml);
        assert_eq!(a.latest_version, b.latest_version);
    }
    assert_eq!(run_report(&pkgs, &resps), run_report(&pkgs, &resps));
}

#[test]
fn adjacent_duplicate_findings_collapse() {
    let f = |name: &str| OutdatedFinding {
        owning_package: String::from("app"),
        dependency_name: String::from(name),
        version_in_toml: String::from("^0.1"),
        latest_version: String::from("1.3.0"),
    };
    let raw = vec![f("a"), f("a"), f("b"), f("a")];
    let deduped = dedup_findings(&raw);
    assert_eq!(deduped.len(), 3);
    assert_eq!(deduped[0].dependency_name, "a");
    assert_eq!(deduped[1].dependency_name, "b");
    assert_eq!(deduped[2].dependency_name, "a");
}

#[test]
fn duplicate_declarations_collapse_in_scan() {
    let mut pkg = PackageDeps::new(String::from("app"));
    pkg.add(dep("regex", "0.1", SourceKind::Registry));
    pkg.add(dep("regex", "0.1", SourceKind::Registry));
    assert_eq!(pkg.deps.len(), 1);
    // Two distinct declarations of the same name still produce adjacent
    // identical findings, which the scan collapses into one.
    pkg.add(dep("regex", "0.1", SourceKind::Other));
    assert_eq!(pkg.deps.len(), 2);
    let pkgs = vec![pkg];
    let resps = vec![response("regex", &[("1.3.0", false)])];
    let findings = scan_all(&pkgs, &resps);
    assert_eq!(findings.len(), 1);
}

#[test]
fn findings_group_by_package_in_first_seen_order() {
    let f = |pkg: &str, name: &str| OutdatedFinding {
        owning_package: String::from(pkg),
        dependency_name: String::from(name),
        version_in_toml: String::from("^0.1"),
        latest_version: String::from("1.3.0"),
    };
    let findings = vec![f("app", "x"), f("lib", "y"), f("app", "z")];
    let report = group_findings(&findings);
    assert_eq!(report.entries.len(), 2);
    assert_eq!(report.entries[0].name, "app");
    assert_eq!(report.entries[0].findings.len(), 2);
    assert_eq!(report.entries[0].findings[0].dependency_name, "x");
    assert_eq!(report.entries[0].findings[1].dependency_name, "z");
    assert_eq!(report.entries[1].name, "lib");
    assert_eq!(report.entries[1].findings.len(), 1);
    assert_eq!(report.entries[1].findings[0].dependency_name, "y");
}

#[test]
fn default_outcome_is_the_empty_value() {
    let info = outdated::registry::RegistryVersionInfo::default();
    assert_eq!(info.crate_name, "");
    assert_eq!(info.latest_version, "0.0.0");
    assert_eq!(info.last_updated, "");
}

#[test]
fn all_withdrawn_reports_zero_version() {
    let pkgs = vec![PackageDeps {
        name: String::from("app"),
        deps: vec![dep("ghost", "1.0", SourceKind::Registry)],
    }];
    let resps = vec![response("ghost", &[("2.0.0", true), ("1.0.0", true)])];
    let findings = scan_all(&pkgs, &resps);
    assert_eq!(findings.len(), 1);
    assert_eq!(findings[0].latest_version, "0.0.0");
}
