use zpr_dev::build::gates::{PinOccurrence, RefKind};
use zpr_dev::build::emitted::{emit, format_utc, host_stamps, sha256_hex, stamp_manifest, Binary};
use zpr_dev::build::plan::{
    built_from_manifest, real_build_problem, report_dry_run, test_flag_problem, tip_repositories,
    tip_scan_names, tip_set,
};
use zpr_dev::build::report::{docker_probe, gate_report_lines, netns_probe};
use zpr_dev::build::gates::{Finding, Severity};
use zpr_dev::build::{check_build_set, validate_against, PinDrift, Resolved};
use zpr_dev::config::{default_branch, AgentConfig, Documentation, Manifest, Repo, RepoContext, WorkspaceMeta};
use zpr_dev::order::StrMap;

fn manifest_of(repos: &[(&str, &str)]) -> Manifest {
    Manifest {
        version: 1,
        workspace: WorkspaceMeta::default(),
        repositories: repos
            .iter()
            .map(|(name, branch)| Repo {
                name: name.to_string(),
                url: format!("git@github.com:org/{name}.git"),
                default_branch: if branch.is_empty() { default_branch() } else { branch.to_string() },
                context: RepoContext::default(),
            })
            .collect(),
        documentation: Documentation::default(),
        agent: AgentConfig::default(),
    }
}

#[test]
fn only_test_none_is_accepted_at_this_stage() {
    assert_eq!(test_flag_problem(None), None);
    assert_eq!(test_flag_problem(Some("none")), None);
    assert_eq!(
        test_flag_problem(Some("unit")),
        Some("--test unit is not available yet: tiers land in B4/B5; only --test none is accepted".to_string())
    );
    assert_eq!(real_build_problem(Some("none")), None);
    assert!(real_build_problem(None).unwrap().contains("--test none"));
}

#[test]
fn tip_takes_the_declared_build_order_repositories_and_reports_the_rest() {
    let manifest = manifest_of(&[("zl-zpr-core", "dev"), ("zl-zpr-compiler", ""), ("zl-zpr-common", "")]);
    let (found, skipped) = tip_repositories(&manifest).unwrap();
    assert_eq!(
        found,
        vec![("zl-zpr-compiler".to_string(), "main".to_string()), ("zl-zpr-core".to_string(), "dev".to_string())]
    );
    assert_eq!(skipped, vec!["zl-zpr-visaservice", "zl-zpr-coredns", "zl-zpr-demo"]);
    assert_eq!(tip_scan_names(&manifest).unwrap(), vec!["zl-zpr-compiler", "zl-zpr-core"]);

    let set = tip_set(&found);
    assert_eq!(set.version, 1);
    assert_eq!(set.name, "tip");
    assert_eq!(set.repositories.get("zl-zpr-core").unwrap(), "origin/dev");
    assert_eq!(set.repositories.get("zl-zpr-compiler").unwrap(), "origin/main");
    assert!(set.allow_pin_drift.is_empty());
}

#[test]
fn tip_with_no_build_order_repository_is_an_error() {
    let manifest = manifest_of(&[("zl-zpr-common", "")]);
    assert_eq!(
        tip_repositories(&manifest).unwrap_err(),
        "--tip found none of the build-set repositories in workspace.yaml"
    );
    assert!(tip_scan_names(&manifest).is_err());
}

#[test]
fn the_manifest_records_its_input_or_tip() {
    assert_eq!(built_from_manifest(true, "/ctx/build-sets/x.yaml"), "--tip");
    assert_eq!(built_from_manifest(false, "/ctx/build-sets/x.yaml"), "/ctx/build-sets/x.yaml");
}

#[test]
fn the_dry_run_report_lists_refs_order_tiers_and_dist() {
    let resolved = vec![
        Resolved { repo: "zl-zpr-core".to_string(), reference: "v0.3.1".to_string(), sha: "aaaa".to_string() },
        Resolved { repo: "zl-zpr-common".to_string(), reference: "main".to_string(), sha: "bbbb".to_string() },
    ];
    let lines = report_dry_run("2026-09-17", &resolved, &["zl-zpr-demo".to_string()], None, "/ws", true, false, true, true, false);
    assert_eq!(
        lines,
        vec![
            "build set 2026-09-17 (dry-run)",
            "",
            "resolved refs:",
            "  zl-zpr-core    v0.3.1 -> aaaa",
            "  zl-zpr-common  main -> bbbb",
            "  zl-zpr-demo: not in workspace.yaml, skipped",
            "",
            "build order: zl-zpr-core",
            "  (resolved but no build recipe: zl-zpr-common)",
            "",
            "tiers (planned):",
            "  unit    would run",
            "  netns   not requested (--test netns); missing: passwordless sudo",
            "  docker  not requested (--test docker); missing: docker",
            "",
            "dist: /ws/.zpr-build/2026-09-17/dist",
            "dry-run: nothing was created, and nothing was fetched",
        ]
    );
}

#[test]
fn the_probe_texts_name_each_missing_prerequisite() {
    assert_eq!(netns_probe(true, true, true, true), "prerequisites present");
    assert_eq!(netns_probe(false, false, false, false), "missing: linux, passwordless sudo, valkey-server, python3");
    assert_eq!(docker_probe(true), "prerequisites present");
    assert_eq!(docker_probe(false), "missing: docker");
}

#[test]
fn the_gates_report_counts_errors_and_indents_continuations() {
    let findings = vec![
        Finding::new(Severity::Pass, "gate 1: 2 crates agree".to_string()),
        Finding::new(Severity::Warn, "stale pin\n  details".to_string()),
        Finding::new(Severity::Error, "pin disagreement".to_string()),
    ];
    let (lines, errors) = gate_report_lines("s", &findings);
    assert_eq!(errors, 1);
    assert_eq!(
        lines,
        vec![
            "compatibility gates: build set s",
            "",
            "[OK]    gate 1: 2 crates agree",
            "[WARN]  stale pin",
            "          details",
            "[ERROR] pin disagreement",
            "",
            "Gates failed with 1 error and 1 warning.",
        ]
    );
}

#[test]
fn utc_formatting_counts_days_across_leap_years() {
    assert_eq!(format_utc(0), "1970-01-01T00:00:00Z");
    assert_eq!(format_utc(951_782_400), "2000-02-29T00:00:00Z");
    assert_eq!(format_utc(1_700_000_000), "2023-11-14T22:13:20Z");
    assert_eq!(format_utc(4_102_444_799), "2099-12-31T23:59:59Z");
}

#[test]
fn sha256_digest_is_lowercase_hex() {
    assert_eq!(sha256_hex(b""), "e3b0c44298fc1c149afbf4c8996fb92427ae41e4649b934ca495991b7852b855");
    assert_eq!(sha256_hex(b"abc"), "ba7816bf8f01cfea414140de5dae2223b00361a396177a9cb410ff61f20015ad");
}

#[test]
fn emit_replaces_refs_with_shas_and_keeps_name_and_drift() {
    let mut repositories = StrMap::new();
    repositories.insert("zl-zpr-core", "main".to_string());
    let set = zpr_dev::build::BuildSet {
        version: 1,
        name: "2026-09-17".to_string(),
        repositories,
        allow_pin_drift: vec![PinDrift { crate_name: "rcu".to_string(), reason: "r".to_string() }],
    };
    let resolved = vec![Resolved { repo: "zl-zpr-core".to_string(), reference: "main".to_string(), sha: "f".repeat(40) }];
    let m = emit(&set, &resolved, false).unwrap();
    assert_eq!(m.version, 1);
    assert_eq!(m.name, "2026-09-17");
    assert_eq!(m.repositories.get("zl-zpr-core").unwrap(), &"f".repeat(40));
    assert_eq!(m.allow_pin_drift.len(), 1);
    assert_eq!(m.allow_pin_drift[0].crate_name, "rcu");
    assert_eq!(m.resolved.built_at.len(), "1970-01-01T00:00:00Z".len());
    assert!(m.resolved.built_at.ends_with('Z'));
    assert!(!m.resolved.built_from.tip);
    assert!(m.resolved.binaries.is_empty());
}

#[test]
fn an_emitted_manifest_passes_the_build_set_checks() {
    let mut repositories = StrMap::new();
    repositories.insert("zl-zpr-core", "v0.3.1".to_string());
    repositories.insert("zl-zpr-compiler", "main".to_string());
    let set = zpr_dev::build::BuildSet {
        version: 1,
        name: "2026-09-17".to_string(),
        repositories,
        allow_pin_drift: vec![PinDrift { crate_name: "rcu".to_string(), reason: "known".to_string() }],
    };
    let set = check_build_set(set).unwrap();
    let resolved = vec![
        Resolved { repo: "zl-zpr-compiler".to_string(), reference: "main".to_string(), sha: "c".repeat(40) },
        Resolved { repo: "zl-zpr-core".to_string(), reference: "v0.3.1".to_string(), sha: "a".repeat(40) },
    ];
    let m = emit(&set, &resolved, false).unwrap();
    let again = zpr_dev::build::BuildSet {
        version: m.version,
        name: m.name,
        repositories: m.repositories,
        allow_pin_drift: m.allow_pin_drift,
    };
    let again = check_build_set(again).unwrap();
    let manifest = manifest_of(&[("zl-zpr-core", ""), ("zl-zpr-compiler", "")]);
    assert!(validate_against(&set, &manifest).is_ok());
    assert!(validate_against(&again, &manifest).is_ok());
    assert_eq!(again.name, "2026-09-17");
    assert_eq!(again.repositories.get("zl-zpr-core").unwrap(), &"a".repeat(40));
    assert_eq!(again.repositories.get("zl-zpr-compiler").unwrap(), &"c".repeat(40));
    assert_eq!(again.allow_pin_drift[0].reason, "known");
}

#[test]
fn a_real_build_stamps_its_provenance_into_the_manifest() {
    let mut repositories = StrMap::new();
    repositories.insert("zl-zpr-core", "main".to_string());
    let set = zpr_dev::build::BuildSet { version: 1, name: "t".to_string(), repositories, allow_pin_drift: vec![] };
    let resolved = vec![Resolved { repo: "zl-zpr-core".to_string(), reference: "main".to_string(), sha: "a".repeat(40) }];
    let mut m = emit(&set, &resolved, false).unwrap();
    let tools = vec![
        ("rustc".to_string(), Some("rustc 1.90.0 (abc 2025-09-14)\nextra".to_string())),
        ("go".to_string(), None),
    ];
    let host = host_stamps("linux", "x86_64", &tools);
    let binaries = vec![Binary { name: "bin1".to_string(), sha256: "0".repeat(64), bytes: 5, from: "zl-zpr-core".to_string() }];
    stamp_manifest(&mut m, "test-set.yaml", "deadbee", host, vec![], Some("0.18.0"), None, binaries);
    assert_eq!(m.resolved.built_from.manifest, "test-set.yaml");
    assert_eq!(m.resolved.built_from.context, "deadbee");
    assert_eq!(m.resolved.host.get("os").unwrap(), "linux");
    assert_eq!(m.resolved.host.get("arch").unwrap(), "x86_64");
    assert_eq!(m.resolved.host.get("rustc").unwrap(), "rustc 1.90.0 (abc 2025-09-14)");
    assert!(m.resolved.host.get("go").is_none());
    assert_eq!(m.resolved.versions.get("zplc").unwrap(), "0.18.0");
    assert!(m.resolved.versions.get("vs_policy_min_compiler").is_none());
    assert_eq!(m.resolved.binaries[0].from, "zl-zpr-core");
}

fn occurrence(crate_name: &str, reference: &str, kind: RefKind, file: &str) -> PinOccurrence {
    PinOccurrence {
        crate_name: crate_name.to_string(),
        url: "https://github.com/mkolehmainen/zl-zpr-common.git".to_string(),
        reference: reference.to_string(),
        kind,
        file: file.to_string(),
        line: 3,
        inherited: false,
    }
}

#[test]
fn agreed_pins_enter_the_manifest_with_the_newest_tag() {
    let pins = vec![
        occurrence("rcu", "rcu-v0.1.2", RefKind::Tag, "a/Cargo.toml"),
        occurrence("rcu", "rcu-v0.1.2", RefKind::Tag, "b/Cargo.toml"),
    ];
    let out = zpr_dev::build::emitted::pins_for_manifest(&pins, |url: &str| {
        assert!(url.ends_with("zl-zpr-common.git"));
        Some(vec!["rcu-v0.1.3".to_string(), "cslab-v0.9.0".to_string()])
    });
    assert_eq!(out.len(), 1);
    assert_eq!(out[0].crate_name, "rcu");
    assert_eq!(out[0].tag, "rcu-v0.1.2");
    assert_eq!(out[0].pinned_by, vec!["a/Cargo.toml".to_string(), "b/Cargo.toml".to_string()]);
    assert_eq!(out[0].newest_available, Some("rcu-v0.1.3".to_string()));
}

#[test]
fn a_tag_and_a_branch_of_the_same_name_disagree_and_are_left_out() {
    let pins = vec![
        occurrence("rcu", "zipline", RefKind::Tag, "a/Cargo.toml"),
        occurrence("rcu", "zipline", RefKind::Branch, "b/Cargo.toml"),
    ];
    let out = zpr_dev::build::emitted::pins_for_manifest(&pins, |_url: &str| None);
    assert!(out.is_empty());
}
