use zpr_dev::build::tiers::prime_with;
use std::cell::{Cell, RefCell};

use zpr_dev::build::recipes::{recipes, Command, Recipe};
use zpr_dev::build::tiers::{
    check_gate, dist_ph_is_clean, docker_gate, docker_plan, docker_runner_floor,
    find_in_path_value, known, label, netns_dry_run_text, netns_gate, netns_plan,
    netns_tier_header, prime_sudo, run_docker, run_netns, run_unit, select_netns_runner,
    should_prime_sudo, unit_plan, NetnsPlan, NetnsRunner, NetnsScript, PrepStep, PrimeOutcome,
    Probes, RepoPlan, Selection, SudoProvenance, SudoRunner, TierGate, TierStep,
};

#[test]
fn absent_flag_selects_the_implemented_tiers() {
    let selection = Selection::parse(None).unwrap();
    assert!(!selection.is_empty());
    for tier in ["unit", "netns", "docker"] {
        assert!(selection.contains(tier), "{tier} missing from default");
        assert!(!selection.is_explicit(tier), "{tier} must not be explicit under the default selection");
    }
}

#[test]
fn a_listed_tier_is_explicit() {
    let selection = Selection::parse(Some("docker")).unwrap();
    assert!(selection.contains("docker"));
    assert!(selection.is_explicit("docker"));
    assert!(!selection.contains("unit"));
    assert!(!selection.contains("netns"));
    assert!(!selection.is_explicit("unit"));
}

#[test]
fn all_selects_every_tier_explicitly() {
    let selection = Selection::parse(Some("all")).unwrap();
    for tier in ["unit", "netns", "docker"] {
        assert!(selection.contains(tier), "{tier} missing from all");
        assert!(selection.is_explicit(tier), "{tier} must be explicit");
    }
}

#[test]
fn netns_and_docker_are_selectable_by_name() {
    for flag in ["netns", "docker", "unit,netns,docker"] {
        let selection = Selection::parse(Some(flag)).unwrap();
        assert!(!selection.is_empty(), "{flag}");
    }
    let selection = Selection::parse(Some("unit,docker")).unwrap();
    assert!(selection.contains("unit"));
    assert!(selection.contains("docker"));
    assert!(!selection.contains("netns"));
}

#[test]
fn sudo_priming_is_gated_on_the_netns_tier_being_selected() {
    for flag in [Some("netns"), Some("unit,netns,docker"), None, Some("all")] {
        let selection = Selection::parse(flag).unwrap();
        assert!(should_prime_sudo(true, &selection), "flag {flag:?} selects netns, so the prime must run");
    }
    for flag in [Some("docker"), Some("unit,docker"), Some("unit"), Some("none")] {
        let selection = Selection::parse(flag).unwrap();
        assert!(!should_prime_sudo(true, &selection), "flag {flag:?} does not select netns, so the prime must not run");
    }
    let selection = Selection::parse(Some("netns")).unwrap();
    assert!(!should_prime_sudo(false, &selection));
}

#[test]
fn default_matches_the_absent_flag() {
    assert_eq!(Selection::parse(Some("default")).unwrap(), Selection::parse(None).unwrap());
}

#[test]
fn selection_records_the_requested_text() {
    assert_eq!(Selection::parse(None).unwrap().requested(), "default");
    assert_eq!(Selection::parse(Some("unit")).unwrap().requested(), "unit");
    assert_eq!(Selection::parse(Some("all")).unwrap().requested(), "all");
    assert_eq!(Selection::parse(Some("none")).unwrap().requested(), "none");
    assert_eq!(Selection::parse(Some("unit,docker")).unwrap().requested(), "unit,docker");
}

#[test]
fn every_known_tier_has_a_label() {
    assert_eq!(known(), vec!["unit", "netns", "docker"]);
    assert_eq!(label("unit"), "unit tests");
    assert_eq!(label("netns"), "netns integration tests");
    assert_eq!(label("docker"), "docker end-to-end tests");
}

#[test]
fn none_selects_nothing() {
    let selection = Selection::parse(Some("none")).unwrap();
    assert!(selection.is_empty());
    assert!(!selection.contains("unit"));
}

#[test]
fn unit_selects_exactly_unit() {
    let selection = Selection::parse(Some("unit")).unwrap();
    assert!(selection.contains("unit"));
    assert!(!selection.is_empty());
}

#[test]
fn comma_list_of_implemented_tiers_is_accepted() {
    let selection = Selection::parse(Some("unit, unit")).unwrap();
    assert!(selection.contains("unit"));
}

#[test]
fn unknown_tier_is_rejected_listing_the_valid_names() {
    for flag in ["bogus", "unit,bogus", ""] {
        let error = Selection::parse(Some(flag)).unwrap_err();
        assert!(error.contains("unit"), "{flag}: {error}");
        assert!(error.contains("none"), "{flag}: {error}");
    }
}

#[test]
fn special_words_in_a_list_are_rejected() {
    for flag in ["unit,none", "none,unit", "unit,default", "unit,all"] {
        assert!(Selection::parse(Some(flag)).is_err(), "{flag}");
    }
}

/// A probe result with everything present.
fn all_present() -> Probes {
    Probes {
        linux: true,
        passwordless_sudo: true,
        valkey_server: Some("/usr/bin/valkey-server".to_string()),
        python3: true,
        docker: true,
        docker_compose: true,
        docker_daemon: true,
        sudo_prime: None,
    }
}

#[test]
fn probes_carry_docker_daemon_reachability() {
    let probes = all_present();
    assert!(probes.docker_daemon);
    let probes = Probes { docker_daemon: false, ..all_present() };
    assert!(!probes.docker_daemon);
}

#[test]
fn gates_run_when_every_prerequisite_is_present() {
    let probes = all_present();
    assert!(matches!(netns_gate(&probes), TierGate::Run));
    assert!(matches!(docker_gate(&probes), TierGate::Run));
}

#[test]
fn netns_gate_names_each_missing_prerequisite() {
    let mut probes = all_present();
    probes.passwordless_sudo = false;
    probes.valkey_server = None;
    probes.docker_daemon = false;
    let TierGate::Skip(reason) = netns_gate(&probes) else {
        panic!("netns must skip without sudo");
    };
    assert!(reason.contains("passwordless sudo (or pass --prompt-for-sudo)"), "{reason}");
    assert!(reason.contains("valkey-server"), "{reason}");
    assert!(!reason.contains("python3"), "{reason}");
}

#[test]
fn netns_gate_requires_linux() {
    let mut probes = all_present();
    probes.linux = false;
    let TierGate::Skip(reason) = netns_gate(&probes) else {
        panic!("netns must skip off linux");
    };
    assert!(reason.to_lowercase().contains("linux"), "{reason}");
}

#[test]
fn netns_dry_run_text_reports_the_prompt_instead_of_missing_sudo() {
    let mut probes = all_present();
    probes.passwordless_sudo = false;
    probes.docker_daemon = false;
    let text = netns_dry_run_text(&probes, true);
    assert_eq!(text, "would prompt for sudo (--prompt-for-sudo)");

    probes.valkey_server = None;
    let text = netns_dry_run_text(&probes, true);
    assert!(text.contains("would prompt for sudo (--prompt-for-sudo)"), "{text}");
    assert!(text.contains("valkey-server"), "{text}");
    assert!(!text.contains("passwordless sudo"), "{text}");

    let mut probes = all_present();
    probes.passwordless_sudo = false;
    probes.docker_daemon = false;
    let text = netns_dry_run_text(&probes, false);
    assert!(text.contains("passwordless sudo"), "{text}");
    assert!(!text.contains("would prompt"), "{text}");

    let text = netns_dry_run_text(&all_present(), true);
    assert_eq!(text, "prerequisites present");
}

#[test]
fn netns_dry_run_text_reports_a_container_selection_without_overstating() {
    let probes = Probes { passwordless_sudo: false, ..all_present() };
    assert_eq!(
        netns_dry_run_text(&probes, false),
        "would run in docker (host route unavailable: missing: passwordless sudo (or pass --prompt-for-sudo))"
    );
    let probes = Probes { valkey_server: None, ..all_present() };
    let text = netns_dry_run_text(&probes, false);
    assert_eq!(text, "would run in docker (host route unavailable: missing: valkey-server)");
}

#[test]
fn netns_dry_run_text_prompt_flag_names_the_docker_fallback() {
    let probes = Probes { passwordless_sudo: false, ..all_present() };
    assert_eq!(
        netns_dry_run_text(&probes, true),
        "would prompt for sudo (--prompt-for-sudo); on failure would fall back to docker"
    );
}

/// A scripted sudo: probe answers consumed in order, a fixed prime answer,
/// and a count of prime calls.
struct FakeSudo {
    probe_answers: RefCell<Vec<bool>>,
    prime_answer: bool,
    prime_calls: Cell<usize>,
}

impl FakeSudo {
    fn new(probe_answers: &[bool], prime_answer: bool) -> FakeSudo {
        FakeSudo {
            probe_answers: RefCell::new(probe_answers.to_vec()),
            prime_answer,
            prime_calls: Cell::new(0),
        }
    }
}

impl SudoRunner for FakeSudo {
    fn probe(&self) -> bool {
        let mut answers = self.probe_answers.borrow_mut();
        assert!(!answers.is_empty(), "unexpected extra sudo -n true probe");
        answers.remove(0)
    }
    fn prime(&self) -> bool {
        self.prime_calls.set(self.prime_calls.get() + 1);
        self.prime_answer
    }
    fn refresh(&self) -> bool {
        true
    }
}

#[test]
fn prime_sudo_skips_the_prompt_when_already_passwordless() {
    let sudo = FakeSudo::new(&[true], true);
    let outcome = prime_sudo(&sudo, true);
    assert!(matches!(outcome, PrimeOutcome::AlreadyPasswordless));
    assert_eq!(sudo.prime_calls.get(), 0, "no prompt when none is needed");
}

#[test]
fn prime_sudo_refuses_without_a_tty_and_never_prompts() {
    let sudo = FakeSudo::new(&[false], true);
    let outcome = prime_sudo(&sudo, false);
    assert!(matches!(outcome, PrimeOutcome::NoTty));
    assert_eq!(sudo.prime_calls.get(), 0, "a prompt without a tty hangs");
}

#[test]
fn prime_sudo_primes_and_reprobes() {
    let sudo = FakeSudo::new(&[false, true], true);
    let outcome = prime_sudo(&sudo, true);
    assert!(matches!(outcome, PrimeOutcome::Primed));
    assert_eq!(sudo.prime_calls.get(), 1);
}

#[test]
fn prime_sudo_detects_a_disabled_credential_cache() {
    let sudo = FakeSudo::new(&[false, false], true);
    let outcome = prime_sudo(&sudo, true);
    assert!(matches!(outcome, PrimeOutcome::CacheDisabled));
    assert_eq!(sudo.prime_calls.get(), 1);
}

#[test]
fn prime_sudo_reports_a_failed_prime() {
    let sudo = FakeSudo::new(&[false], false);
    let outcome = prime_sudo(&sudo, true);
    assert!(matches!(outcome, PrimeOutcome::PrimeFailed));
    assert_eq!(sudo.prime_calls.get(), 1);
}

#[test]
fn netns_gate_notes_a_disabled_credential_cache() {
    let mut probes = all_present();
    probes.passwordless_sudo = false;
    probes.sudo_prime = Some(PrimeOutcome::CacheDisabled);
    probes.docker_daemon = false;
    let TierGate::Skip(reason) = netns_gate(&probes) else {
        panic!("netns must still skip when the prime bought nothing");
    };
    assert!(reason.contains("sudo -v succeeded but credentials did not cache (timestamp_timeout=0?)"), "{reason}");
    assert!(reason.contains("passwordless sudo"), "{reason}");
}

#[test]
fn docker_gate_names_the_missing_prerequisite() {
    let mut probes = all_present();
    probes.docker = false;
    let TierGate::Skip(reason) = docker_gate(&probes) else {
        panic!("docker must skip without docker");
    };
    assert!(reason.contains("docker not found"), "{reason}");

    let mut probes = all_present();
    probes.docker_compose = false;
    let TierGate::Skip(reason) = docker_gate(&probes) else {
        panic!("docker must skip without compose");
    };
    assert!(reason.contains("docker compose"), "{reason}");
}

#[test]
fn docker_gate_requires_a_reachable_daemon() {
    let mut probes = all_present();
    probes.docker_daemon = false;
    let TierGate::Skip(reason) = docker_gate(&probes) else {
        panic!("docker must skip when the daemon is unreachable");
    };
    assert_eq!(reason, "docker daemon not reachable");
}

#[test]
fn path_probe_skips_non_executable_candidates() {
    // `/tmp/decoy/valkey-server` is a regular file without an execute bit;
    // `/tmp/real/valkey-server` is executable.
    let executable = |p: &str| p == "/tmp/real/valkey-server";
    assert_eq!(find_in_path_value("/tmp/decoy", "valkey-server", &executable), None);
    assert_eq!(
        find_in_path_value("/tmp/decoy:/tmp/real", "valkey-server", &executable),
        Some("/tmp/real/valkey-server".to_string())
    );
}

#[test]
fn selector_picks_the_host_when_both_routes_work() {
    let runner = select_netns_runner(&all_present()).unwrap();
    assert_eq!(runner, NetnsRunner::Host(SudoProvenance::Nopasswd));
}

#[test]
fn selector_carries_the_primed_provenance() {
    let probes = Probes { sudo_prime: Some(PrimeOutcome::Primed), ..all_present() };
    let runner = select_netns_runner(&probes).unwrap();
    assert_eq!(runner, NetnsRunner::Host(SudoProvenance::Primed));
}

#[test]
fn selector_falls_to_the_container_when_sudo_is_missing() {
    let probes = Probes { passwordless_sudo: false, ..all_present() };
    let NetnsRunner::Container { host_reason } = select_netns_runner(&probes).unwrap() else {
        panic!("missing sudo with a reachable daemon must select the container");
    };
    assert_eq!(host_reason, "missing: passwordless sudo (or pass --prompt-for-sudo)");
}

#[test]
fn selector_falls_to_the_container_when_valkey_is_missing() {
    let probes = Probes { valkey_server: None, ..all_present() };
    let NetnsRunner::Container { host_reason } = select_netns_runner(&probes).unwrap() else {
        panic!("missing valkey with a reachable daemon must select the container");
    };
    assert_eq!(host_reason, "missing: valkey-server");
}

#[test]
fn selector_requires_a_reachable_daemon_not_merely_a_client() {
    let probes = Probes { passwordless_sudo: false, docker_daemon: false, ..all_present() };
    let reason = select_netns_runner(&probes).unwrap_err();
    assert_eq!(
        reason,
        "missing: passwordless sudo (or pass --prompt-for-sudo); docker fallback unavailable: docker daemon not reachable"
    );
}

#[test]
fn selector_names_a_missing_docker_client() {
    let probes = Probes {
        passwordless_sudo: false,
        docker: false,
        docker_compose: false,
        docker_daemon: false,
        ..all_present()
    };
    let reason = select_netns_runner(&probes).unwrap_err();
    assert!(reason.contains("passwordless sudo"), "{reason}");
    assert!(reason.contains("docker fallback unavailable: docker not found"), "{reason}");
}

#[test]
fn selector_errors_off_linux() {
    let probes = Probes { linux: false, ..all_present() };
    let reason = select_netns_runner(&probes).unwrap_err();
    assert!(reason.to_lowercase().contains("linux"), "{reason}");
}

#[test]
fn selector_falls_to_the_container_after_a_failed_prime() {
    let probes = Probes {
        passwordless_sudo: false,
        sudo_prime: Some(PrimeOutcome::PrimeFailed),
        ..all_present()
    };
    let NetnsRunner::Container { host_reason } = select_netns_runner(&probes).unwrap() else {
        panic!("a failed prime with a reachable daemon must select the container");
    };
    assert!(host_reason.contains("passwordless sudo"), "{host_reason}");
}

#[test]
fn selector_retains_the_cache_disabled_note() {
    let probes = Probes {
        passwordless_sudo: false,
        sudo_prime: Some(PrimeOutcome::CacheDisabled),
        ..all_present()
    };
    let NetnsRunner::Container { host_reason } = select_netns_runner(&probes).unwrap() else {
        panic!("CacheDisabled with a reachable daemon must select the container");
    };
    assert!(
        host_reason.contains("sudo -v succeeded but credentials did not cache (timestamp_timeout=0?)"),
        "{host_reason}"
    );

    let probes = Probes {
        passwordless_sudo: false,
        sudo_prime: Some(PrimeOutcome::CacheDisabled),
        docker_daemon: false,
        ..all_present()
    };
    let reason = select_netns_runner(&probes).unwrap_err();
    assert!(reason.contains("credentials did not cache"), "{reason}");
    assert!(reason.contains("docker daemon not reachable"), "{reason}");
}

#[test]
fn netns_gate_runs_a_container_selection() {
    let probes = Probes { passwordless_sudo: false, ..all_present() };
    assert!(matches!(select_netns_runner(&probes), Ok(NetnsRunner::Container { .. })));
    assert!(matches!(netns_gate(&probes), TierGate::Run));
}

#[test]
fn gate_check_skips_by_default_and_errors_when_explicit() {
    let gate = TierGate::Skip("docker not found".to_string());
    let skipped = check_gate("docker", gate, false).unwrap();
    assert_eq!(skipped, Some("docker not found".to_string()));
    let gate = TierGate::Skip("docker not found".to_string());
    let error = check_gate("docker", gate, true).unwrap_err();
    assert!(error.contains("docker not found"), "{error}");
    assert!(error.contains("docker"), "{error}");
    assert_eq!(check_gate("docker", TierGate::Run, true).unwrap(), None);
    assert_eq!(check_gate("docker", TierGate::Run, false).unwrap(), None);
}

#[test]
fn netns_tier_header_names_the_docker_fallback_with_the_host_reason() {
    assert_eq!(netns_tier_header(&NetnsRunner::Host(SudoProvenance::Nopasswd)), "netns tier:");
    assert_eq!(
        netns_tier_header(&NetnsRunner::Container { host_reason: "missing: valkey-server".to_string() }),
        "netns tier (docker fallback; host route unavailable: missing: valkey-server):"
    );
}

#[test]
fn docker_runner_floor_passes_a_makefile_with_forward_env() {
    let read = |p: &str| -> Result<String, String> {
        if p == "/wt/core/integration-test/Makefile" {
            Ok("FORWARD_ENV := PH_BIN VS_BIN\ndocker-test:\n\ttrue\n".to_string())
        } else {
            Err("No such file or directory (os error 2)".to_string())
        }
    };
    assert_eq!(docker_runner_floor("/wt/core", "c0ffee1", &read), Ok(()));
}

#[test]
fn docker_runner_floor_names_the_sha_and_the_floor_commit() {
    let expected = "zl-zpr-core @ c0ffee1 predates the Docker runner \
                    (integration-test/Makefile with FORWARD_ENV, zl-zpr-core c163628)";
    let missing = |_: &str| -> Result<String, String> { Err("No such file or directory (os error 2)".to_string()) };
    assert_eq!(docker_runner_floor("/wt/core", "c0ffee1", &missing), Err(expected.to_string()));
    let old = |_: &str| -> Result<String, String> { Ok("docker-test:\n\ttrue\n".to_string()) };
    assert_eq!(docker_runner_floor("/wt/core", "c0ffee1", &old), Err(expected.to_string()));
}

/// One env lookup in a planned script.
fn env_of<'a>(script: &'a NetnsScript, key: &str) -> Option<&'a str> {
    script.env.iter().find(|(name, _)| name == key).map(|(_, value)| value.as_str())
}

#[test]
fn netns_plan_container_route_runs_make_docker_test_per_script() {
    let runner = NetnsRunner::Container {
        host_reason: "missing: passwordless sudo (or pass --prompt-for-sudo)".to_string(),
    };
    let plan = netns_plan("/wt/zl-zpr-core", "/b/dist", "/usr/bin/valkey-server", false, &runner, "/b");
    assert_eq!(plan.dir, "/wt/zl-zpr-core");
    for script in &plan.scripts {
        assert_eq!(script.program, "make", "{}", script.script);
        assert_eq!(
            script.args,
            [
                "-C".to_string(),
                "/wt/zl-zpr-core/integration-test".to_string(),
                "docker-test".to_string(),
                format!("TEST={}", script.script),
                "WORKSPACE=/b".to_string(),
            ],
            "{}",
            script.script
        );
        assert_eq!(env_of(script, "VALKEY_SERVER_BIN"), None, "{}", script.script);
        assert!(script.env_remove.contains(&"VALKEY_SERVER_BIN"), "{} must remove VALKEY_SERVER_BIN", script.script);
        assert_eq!(env_of(script, "PH_DEBUG_BIN"), Some("/b/dist/ph-cli"));
        assert_eq!(env_of(script, "VS_BIN"), Some("/b/dist/vs"));
        assert_eq!(env_of(script, "VS_ADMIN_BIN"), Some("/b/dist/vs-admin"));
        if script.script == "a2a-pubkey-test.sh" {
            let prep = script.prep.as_ref().expect("a2a needs a prep build");
            assert_eq!(prep.program, "cargo");
            assert_eq!(env_of(script, "PH_BIN"), Some("/wt/zl-zpr-core/target/debug/ph"));
        } else {
            assert!(script.prep.is_none(), "{} must not prep", script.script);
            assert_eq!(env_of(script, "PH_BIN"), Some("/b/dist/ph"));
        }
    }
}

#[test]
fn netns_plan_host_route_shape_is_unchanged() {
    let plan = netns_plan(
        "/wt/zl-zpr-core",
        "/b/dist",
        "/usr/bin/valkey-server",
        false,
        &NetnsRunner::Host(SudoProvenance::Nopasswd),
        "/b",
    );
    assert_eq!(plan.dir, "/wt/zl-zpr-core/integration-test");
    for script in &plan.scripts {
        assert_eq!(script.program, format!("/wt/zl-zpr-core/integration-test/{}", script.script));
        assert!(script.args.is_empty(), "{}", script.script);
        assert!(script.env_remove.is_empty(), "{}", script.script);
    }
    assert_eq!(env_of(&plan.scripts[0], "VALKEY_SERVER_BIN"), Some("/usr/bin/valkey-server"));
}

#[test]
fn netns_plan_container_route_keeps_verbose_export() {
    let runner = NetnsRunner::Container { host_reason: "missing: valkey-server".to_string() };
    let plan = netns_plan("/wt/zl-zpr-core", "/b/dist", "/usr/bin/valkey-server", true, &runner, "/b");
    for script in &plan.scripts {
        assert_eq!(env_of(script, "ZPR_TEST_VERBOSE"), Some("1"), "{}", script.script);
    }
}

#[test]
fn netns_plan_lists_the_seven_scripts_in_order() {
    let plan = netns_plan(
        "/wt/zl-zpr-core",
        "/b/dist",
        "/usr/bin/valkey-server",
        false,
        &NetnsRunner::Host(SudoProvenance::Nopasswd),
        "/b",
    );
    let names: Vec<&str> = plan.scripts.iter().map(|script| script.script).collect();
    assert_eq!(
        names,
        [
            "one-node-test.sh",
            "one-node-v6-test.sh",
            "one-node-oidc-test.sh",
            "capture-test.sh",
            "oidc-file-interplay-test.sh",
            "fake-idp-smoke-test.sh",
            "a2a-pubkey-test.sh",
        ]
    );
    assert_eq!(plan.dir, "/wt/zl-zpr-core/integration-test");
}

#[test]
fn netns_plan_points_the_bin_overrides_at_dist() {
    let plan = netns_plan(
        "/wt/zl-zpr-core",
        "/b/dist",
        "/usr/bin/valkey-server",
        false,
        &NetnsRunner::Host(SudoProvenance::Nopasswd),
        "/b",
    );
    let one_node = &plan.scripts[0];
    assert_eq!(env_of(one_node, "PH_BIN"), Some("/b/dist/ph"));
    assert_eq!(env_of(one_node, "PH_DEBUG_BIN"), Some("/b/dist/ph-cli"));
    assert_eq!(env_of(one_node, "VS_BIN"), Some("/b/dist/vs"));
    assert_eq!(env_of(one_node, "VS_ADMIN_BIN"), Some("/b/dist/vs-admin"));
    assert_eq!(env_of(one_node, "VALKEY_SERVER_BIN"), Some("/usr/bin/valkey-server"));
    assert_eq!(env_of(one_node, "ZPR_TEST_VERBOSE"), None);
}

#[test]
fn netns_plan_host_route_removes_nothing_from_the_environment() {
    let plan = netns_plan(
        "/wt/zl-zpr-core",
        "/b/dist",
        "/usr/bin/valkey-server",
        false,
        &NetnsRunner::Host(SudoProvenance::Nopasswd),
        "/b",
    );
    for script in &plan.scripts {
        assert!(script.env_remove.is_empty(), "{}", script.script);
    }
}

#[test]
fn netns_plan_sets_test_verbose_only_under_verbose() {
    let plan = netns_plan(
        "/wt/zl-zpr-core",
        "/b/dist",
        "/usr/bin/valkey-server",
        true,
        &NetnsRunner::Host(SudoProvenance::Nopasswd),
        "/b",
    );
    for script in &plan.scripts {
        assert_eq!(env_of(script, "ZPR_TEST_VERBOSE"), Some("1"), "{}", script.script);
    }
}

#[test]
fn netns_plan_gives_a2a_its_own_security_testing_ph() {
    let plan = netns_plan(
        "/wt/zl-zpr-core",
        "/b/dist",
        "/usr/bin/valkey-server",
        false,
        &NetnsRunner::Host(SudoProvenance::Nopasswd),
        "/b",
    );
    for script in &plan.scripts {
        if script.script == "a2a-pubkey-test.sh" {
            let prep = script.prep.as_ref().expect("a2a needs a prep build");
            assert_eq!(prep.program, "cargo");
            assert_eq!(prep.args, ["build", "-p", "ph", "--features", "enable-security-testing"]);
            assert_eq!(prep.dir, "/wt/zl-zpr-core");
            assert_eq!(env_of(script, "PH_BIN"), Some("/wt/zl-zpr-core/target/debug/ph"));
        } else {
            assert!(script.prep.is_none(), "{} must not prep", script.script);
            assert_eq!(env_of(script, "PH_BIN"), Some("/b/dist/ph"));
        }
    }
}

#[test]
fn no_staged_source_is_a_debug_build() {
    for recipe in recipes() {
        for staged in &recipe.staged {
            assert!(!staged.source.contains("debug"), "{}: staged source {} is a debug path", recipe.repo, staged.source);
        }
    }
}

#[test]
fn dist_ph_clean_check_rejects_a_security_testing_build() {
    let none = |_: &str| false;
    let help_unused = |_: &str| -> Result<String, String> { panic!("no ph to run") };
    assert!(dist_ph_is_clean("/b/dist", &none, &help_unused).is_ok());

    let present = |p: &str| p == "/b/dist/ph";
    let clean = |_: &str| -> Result<String, String> { Ok("usage: ph node [--config PATH]\n".to_string()) };
    assert!(dist_ph_is_clean("/b/dist", &present, &clean).is_ok());

    let testing = |_: &str| -> Result<String, String> {
        Ok("usage: ph node [--security-testing-mangle-forwarded-pings]\n".to_string())
    };
    let error = dist_ph_is_clean("/b/dist", &present, &testing).unwrap_err();
    assert!(error.contains("enable-security-testing"), "{error}");
}

/// A runner that fails the commands whose program is in `failing`, with
/// the error wording of a failed step, and records every command it ran.
fn scripted_run<'a>(failing: &'a [&'a str], ran: &'a RefCell<Vec<String>>) -> impl Fn(&Command) -> Result<(), String> + 'a {
    move |c: &Command| {
        ran.borrow_mut().push(format!("{}:{}", c.label, c.name));
        if failing.contains(&c.program.as_str()) {
            Err(format!(
                "{}: step `{}` failed (exit status: 1); full output in /logs/{}-{}.log",
                c.label, c.name, c.label, c.name
            ))
        } else {
            Ok(())
        }
    }
}

#[test]
fn run_netns_continues_after_failure_and_prep_failure_hits_one_script() {
    let plan = NetnsPlan {
        dir: "/it".to_string(),
        scripts: vec![
            NetnsScript { script: "ok.sh", program: "/it/ok.sh".to_string(), args: vec![], env: vec![], env_remove: vec![], prep: None },
            NetnsScript { script: "bad.sh", program: "/it/bad.sh".to_string(), args: vec![], env: vec![], env_remove: vec![], prep: None },
            NetnsScript {
                script: "prepped.sh",
                program: "/it/prepped.sh".to_string(),
                args: vec![],
                env: vec![],
                env_remove: vec![],
                prep: Some(PrepStep {
                    name: "security-ph",
                    program: "sh",
                    args: vec!["-c".to_string(), "exit 1".to_string()],
                    dir: "/t".to_string(),
                }),
            },
        ],
    };
    let ran = RefCell::new(Vec::new());
    let run = scripted_run(&["/it/bad.sh", "sh"], &ran);
    let outcome = run_netns(&plan, true, &run, &|_: &str| {});
    assert!(!outcome.passed);
    assert_eq!(outcome.repos.get("ok.sh").unwrap(), "passed");
    let bad = outcome.repos.get("bad.sh").unwrap();
    assert!(bad.starts_with("failed"), "{bad}");
    assert!(bad.contains("netns-bad.sh.log"), "log not named: {bad}");
    let prepped = outcome.repos.get("prepped.sh").unwrap();
    assert!(prepped.starts_with("failed"), "{prepped}");
    assert!(prepped.contains("security-ph"), "{prepped}");
    assert!(!ran.borrow().contains(&"netns:prepped.sh".to_string()), "the script ran after its prep failed");
}

#[test]
fn docker_plan_stages_deploys_tests_and_tears_down() {
    let plan = docker_plan("/wt/zl-zpr-demo", "/b/dist");
    assert_eq!(plan.dist, "/b/dist");
    assert_eq!(plan.bin, "/wt/zl-zpr-demo/dns-demo/bin");
    assert_eq!(plan.deploy.name, "deploy");
    assert!(plan.deploy.program.ends_with("local-compute/deploy-docker.sh"), "{}", plan.deploy.program);
    assert_eq!(plan.test.name, "test");
    assert!(plan.test.program.ends_with("local-compute/test-dns.sh"), "{}", plan.test.program);
    assert_eq!(plan.teardown.name, "teardown");
    assert_eq!(plan.teardown.program, "docker");
    assert_eq!(
        plan.teardown.args,
        ["compose", "-f", "/wt/zl-zpr-demo/dns-demo/docker-compose.yml", "down", "-v"]
    );
}

#[test]
fn run_docker_tears_down_unconditionally_after_a_test_failure() {
    let plan = docker_plan("/wt/zl-zpr-demo", "/b/dist");
    let ran = RefCell::new(Vec::new());
    let run = scripted_run(&["/wt/zl-zpr-demo/dns-demo/local-compute/test-dns.sh"], &ran);
    let stage = |_: &str, _: &str| -> Result<(), String> { Ok(()) };
    let outcome = run_docker(&plan, true, &stage, &run, &|_: &str| {});
    assert!(!outcome.passed);
    assert_eq!(outcome.repos.get("stage").unwrap(), "passed");
    assert_eq!(outcome.repos.get("deploy").unwrap(), "passed");
    assert!(outcome.repos.get("test").unwrap().starts_with("failed"));
    assert_eq!(outcome.repos.get("teardown").unwrap(), "passed");
    assert!(ran.borrow().contains(&"docker:teardown".to_string()), "teardown did not run after the test failed");
}

#[test]
fn run_docker_records_a_teardown_failure_separately() {
    let plan = docker_plan("/wt/zl-zpr-demo", "/b/dist");
    let ran = RefCell::new(Vec::new());
    let run = scripted_run(&["docker"], &ran);
    let stage = |_: &str, _: &str| -> Result<(), String> { Ok(()) };
    let outcome = run_docker(&plan, true, &stage, &run, &|_: &str| {});
    assert!(!outcome.passed, "a teardown failure must fail the tier");
    assert_eq!(outcome.repos.get("test").unwrap(), "passed");
    assert!(outcome.repos.get("teardown").unwrap().starts_with("failed"));
}

#[test]
fn run_docker_skips_deploy_and_test_after_a_stage_failure() {
    let plan = docker_plan("/wt/zl-zpr-demo", "/b/dist");
    let ran = RefCell::new(Vec::new());
    let run = scripted_run(&[], &ran);
    let stage = |_: &str, _: &str| -> Result<(), String> {
        Err("dist/ is missing ph (expected at /b/dist/ph); cannot stage the demo".to_string())
    };
    let outcome = run_docker(&plan, true, &stage, &run, &|_: &str| {});
    assert!(!outcome.passed);
    assert!(outcome.repos.get("stage").unwrap().starts_with("failed"));
    assert!(outcome.repos.get("deploy").unwrap().starts_with("skipped"));
    assert!(outcome.repos.get("test").unwrap().starts_with("skipped"));
    assert_eq!(*ran.borrow(), vec!["docker:teardown".to_string()], "teardown must run even after a stage failure");
}

/// Worktrees for the named recipe-table repositories, each in a fake
/// directory named after its repository.
fn fixture_worktrees<'a>(table: &'a [Recipe], repos: &[&str]) -> Vec<(&'a Recipe, String)> {
    repos
        .iter()
        .map(|name| {
            let recipe = table.iter().find(|recipe| recipe.repo == *name).expect("fixture names a recipe-table repository");
            (recipe, format!("/wt/{name}"))
        })
        .collect()
}

#[test]
fn unit_plan_runs_make_test_with_pregen_first_in_the_visa_service() {
    let table = recipes();
    let worktrees = fixture_worktrees(&table, &["zl-zpr-compiler", "zl-zpr-visaservice"]);
    let plans = unit_plan(&table, &worktrees, "/build/dist");
    assert_eq!(plans.len(), 2);
    let RepoPlan::Run { repo, steps, .. } = &plans[0] else {
        panic!("compiler must run, not skip: {:?}", plans[0]);
    };
    assert_eq!(repo, "zl-zpr-compiler");
    assert_eq!(steps.len(), 1);
    assert_eq!(steps[0].name, "test");
    assert_eq!(steps[0].program, "make");
    assert_eq!(steps[0].args, ["test"]);
    let RepoPlan::Run { repo, worktree, steps } = &plans[1] else {
        panic!("visa service must run, not skip: {:?}", plans[1]);
    };
    assert_eq!(repo, "zl-zpr-visaservice");
    assert_eq!(worktree, "/wt/zl-zpr-visaservice");
    assert_eq!(steps.len(), 2);
    assert_eq!(steps[0].name, "pregen");
    assert_eq!(steps[0].program, "make");
    assert_eq!(steps[0].args, ["pregen", "ZPLC=/build/dist/zplc"]);
    assert_eq!(steps[1].name, "test");
    assert_eq!(steps[1].args, ["test"]);
}

#[test]
fn unit_plan_skips_a_repository_that_builds_nothing_with_a_reason() {
    let table = recipes();
    let worktrees = fixture_worktrees(&table, &["zl-zpr-demo"]);
    let plans = unit_plan(&table, &worktrees, "/build/dist");
    assert_eq!(plans.len(), 1);
    let RepoPlan::Skip { repo, reason } = &plans[0] else {
        panic!("demo must skip, not run: {:?}", plans[0]);
    };
    assert_eq!(repo, "zl-zpr-demo");
    assert!(reason.contains("no unit tests"), "{reason}");
    assert!(reason.contains("docker"), "{reason}");
}

#[test]
fn unit_plan_is_in_build_order_regardless_of_input_order() {
    let table = recipes();
    let worktrees = fixture_worktrees(&table, &["zl-zpr-coredns", "zl-zpr-compiler"]);
    let plans = unit_plan(&table, &worktrees, "/d");
    let repos: Vec<&str> = plans
        .iter()
        .map(|plan| match plan {
            RepoPlan::Run { repo, .. } | RepoPlan::Skip { repo, .. } => repo.as_str(),
        })
        .collect();
    assert_eq!(repos, ["zl-zpr-compiler", "zl-zpr-coredns"]);
}

/// A one-step run plan.
fn fixture_plan(repo: &str, name: &'static str, program: &'static str) -> RepoPlan {
    RepoPlan::Run {
        repo: repo.to_string(),
        worktree: "/t".to_string(),
        steps: vec![TierStep { name, program, args: vec![] }],
    }
}

#[test]
fn run_unit_records_passes_and_writes_logs() {
    let ran = RefCell::new(Vec::new());
    let run = scripted_run(&[], &ran);
    let plans = vec![fixture_plan("repo-a", "test", "true")];
    let outcome = run_unit(&plans, true, &run, &|_: &str| {});
    assert!(outcome.passed);
    assert_eq!(outcome.repos.get("repo-a").unwrap(), "passed");
    assert_eq!(*ran.borrow(), vec!["repo-a:test".to_string()]);
}

#[test]
fn run_unit_keeps_going_after_a_failure_and_names_the_step() {
    let ran = RefCell::new(Vec::new());
    let run = scripted_run(&["false"], &ran);
    let plans = vec![fixture_plan("repo-bad", "pregen", "false"), fixture_plan("repo-good", "test", "true")];
    let outcome = run_unit(&plans, true, &run, &|_: &str| {});
    assert!(!outcome.passed);
    let bad = outcome.repos.get("repo-bad").unwrap();
    assert!(bad.starts_with("failed"), "{bad}");
    assert!(bad.contains("pregen"), "failing step not named: {bad}");
    assert!(bad.contains("repo-bad-pregen.log"), "log not named: {bad}");
    assert_eq!(outcome.repos.get("repo-good").unwrap(), "passed");
}

#[test]
fn run_unit_stops_a_repository_at_its_first_failing_step() {
    let ran = RefCell::new(Vec::new());
    let run = scripted_run(&["false"], &ran);
    let plans = vec![RepoPlan::Run {
        repo: "repo-vs".to_string(),
        worktree: "/t".to_string(),
        steps: vec![
            TierStep { name: "pregen", program: "false", args: vec![] },
            TierStep { name: "test", program: "true", args: vec![] },
        ],
    }];
    let outcome = run_unit(&plans, true, &run, &|_: &str| {});
    assert!(!outcome.passed);
    assert!(outcome.repos.get("repo-vs").unwrap().contains("pregen"));
    assert!(!ran.borrow().contains(&"repo-vs:test".to_string()), "test step ran after pregen failed");
}

#[test]
fn run_unit_reports_skips_without_failing_the_tier() {
    let ran = RefCell::new(Vec::new());
    let run = scripted_run(&[], &ran);
    let plans = vec![
        fixture_plan("repo-a", "test", "true"),
        RepoPlan::Skip { repo: "zl-zpr-demo".to_string(), reason: "no unit tests (docker tier covers it)".to_string() },
    ];
    let outcome = run_unit(&plans, true, &run, &|_: &str| {});
    assert!(outcome.passed, "a skip must not fail the tier");
    assert_eq!(outcome.repos.get("zl-zpr-demo").unwrap(), "skipped: no unit tests (docker tier covers it)");
}

#[test]
fn prime_with_asks_each_sudo_call_in_turn() {
    let never = || -> bool { panic!("must not be asked") };
    assert_eq!(prime_with(&|| true, &never, &never, true), PrimeOutcome::AlreadyPasswordless);
    assert_eq!(prime_with(&|| false, &never, &never, false), PrimeOutcome::NoTty);
    assert_eq!(prime_with(&|| false, &|| false, &never, true), PrimeOutcome::PrimeFailed);
    assert_eq!(prime_with(&|| false, &|| true, &|| true, true), PrimeOutcome::Primed);
    assert_eq!(prime_with(&|| false, &|| true, &|| false, true), PrimeOutcome::CacheDisabled);
}

#[test]
fn the_host_route_names_what_it_misses() {
    let mut p = all_present();
    assert_eq!(zpr_dev::build::tiers::host_route_reason(&p), None);
    p.passwordless_sudo = false;
    p.python3 = false;
    assert_eq!(
        zpr_dev::build::tiers::host_route_reason(&p),
        Some("missing: passwordless sudo (or pass --prompt-for-sudo), python3".to_string())
    );
}
