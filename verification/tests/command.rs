use zpr_dev::build::command::{BuildCommand, CommandAction, CommandEvent};
use zpr_dev::build::{BuildArgs, BuildSet, PinDrift, Resolved};
use zpr_dev::config::{default_branch, AgentConfig, Documentation, Manifest, Repo, RepoContext, WorkspaceMeta};
use zpr_dev::order::StrMap;

fn args() -> BuildArgs {
    BuildArgs {
        manifest: None,
        tip: false,
        test: None,
        repo: None,
        build_dir: None,
        keep: false,
        gates_only: false,
        allow_pin_drift: false,
        no_tarball: false,
    }
}

fn workspace_manifest(names: &[&str]) -> Manifest {
    Manifest {
        version: 1,
        workspace: WorkspaceMeta::default(),
        repositories: names
            .iter()
            .map(|name| Repo {
                name: name.to_string(),
                url: format!("git@github.com:org/{name}.git"),
                default_branch: default_branch(),
                context: RepoContext::default(),
            })
            .collect(),
        documentation: Documentation::default(),
        agent: AgentConfig::default(),
    }
}

fn one_repo_set(name: &str) -> BuildSet {
    let mut repositories = StrMap::new();
    repositories.insert("zl-zpr-core", "v0.3.1".to_string());
    BuildSet { version: 1, name: name.to_string(), repositories, allow_pin_drift: Vec::<PinDrift>::new() }
}

fn resolved() -> Vec<Resolved> {
    vec![Resolved { repo: "zl-zpr-core".to_string(), reference: "v0.3.1".to_string(), sha: "a".repeat(40) }]
}

fn is_mutation(a: &CommandAction) -> bool {
    matches!(a, CommandAction::PrepareBuildDir(_) | CommandAction::Build { .. })
}

#[test]
fn a_test_flag_other_than_none_is_refused_before_anything_is_read() {
    let mut a = args();
    a.test = Some("unit".to_string());
    let mut cmd = BuildCommand::new(a, "/ws", "/ws/zl-zpr-dev-context", false, false, false, false);
    match cmd.step(CommandEvent::Done) {
        CommandAction::Fail(e) => assert!(e.starts_with("--test unit is not available yet")),
        other => panic!("unexpected {other:?}"),
    }
}

#[test]
fn the_repo_flag_is_noted_first() {
    let mut a = args();
    a.repo = Some("zl-zpr-core".to_string());
    let mut cmd = BuildCommand::new(a, "/ws", "/ctx", false, false, false, false);
    match cmd.step(CommandEvent::Done) {
        CommandAction::Say(l) => assert_eq!(l, "note: --repo parses but is inert until its stage lands"),
        other => panic!("unexpected {other:?}"),
    }
    match cmd.step(CommandEvent::Done) {
        CommandAction::LoadManifest(p) => assert_eq!(p, "/ctx/workspace.yaml"),
        other => panic!("unexpected {other:?}"),
    }
}

#[test]
fn a_dry_run_of_the_newest_set_reads_resolves_reports_and_mutates_nothing() {
    let mut cmd = BuildCommand::new(args(), "/ws", "/ctx", true, false, true, false);
    let mut actions = Vec::new();
    let a = cmd.step(CommandEvent::Done);
    assert!(matches!(a, CommandAction::LoadManifest(_)));
    let a = cmd.step(CommandEvent::Manifest(workspace_manifest(&["zl-zpr-core"])));
    match &a {
        CommandAction::ListBuildSets(d) => assert_eq!(d, "/ctx/build-sets"),
        other => panic!("unexpected {other:?}"),
    }
    let listing = vec![("2026-01-01.yaml".to_string(), true), ("2026-09-17.yaml".to_string(), true)];
    let a = cmd.step(CommandEvent::Listing(Some(listing)));
    match &a {
        CommandAction::ReadBuildSet(p) => assert_eq!(p, "/ctx/build-sets/2026-09-17.yaml"),
        other => panic!("unexpected {other:?}"),
    }
    let a = cmd.step(CommandEvent::SetRead(one_repo_set("2026-09-17")));
    match &a {
        CommandAction::Resolve(w) => assert_eq!(w, &vec![("zl-zpr-core".to_string(), "v0.3.1".to_string())]),
        other => panic!("unexpected {other:?}"),
    }
    actions.push(cmd.step(CommandEvent::Resolved(resolved())));
    assert!(matches!(actions[0], CommandAction::DryRunReport));
    let lines = cmd.dry_run_report(true, true, true, true, true);
    assert_eq!(lines[0], "build set 2026-09-17 (dry-run)");
    actions.push(cmd.step(CommandEvent::Done));
    assert!(matches!(actions[1], CommandAction::ShowEmitted));
    let emitted = cmd.emitted().unwrap();
    assert_eq!(emitted.repositories.get("zl-zpr-core").unwrap(), &"a".repeat(40));
    actions.push(cmd.step(CommandEvent::Done));
    assert!(matches!(actions[2], CommandAction::Finish(0)));
    assert!(!actions.iter().any(is_mutation));
}

#[test]
fn a_set_naming_an_undeclared_repository_is_refused_naming_it() {
    let mut a = args();
    a.manifest = Some("/sets/x.yaml".to_string());
    let mut cmd = BuildCommand::new(a, "/ws", "/ctx", false, false, false, false);
    cmd.step(CommandEvent::Done);
    match cmd.step(CommandEvent::Manifest(workspace_manifest(&["zl-zpr-compiler"]))) {
        CommandAction::ReadBuildSet(p) => assert_eq!(p, "/sets/x.yaml"),
        other => panic!("unexpected {other:?}"),
    }
    match cmd.step(CommandEvent::SetRead(one_repo_set("x"))) {
        CommandAction::Fail(e) => {
            assert_eq!(e, "build set names `zl-zpr-core`, which is not a repository in workspace.yaml")
        }
        other => panic!("unexpected {other:?}"),
    }
}

#[test]
fn a_resolution_failure_is_reported_and_exits_one() {
    let mut a = args();
    a.tip = true;
    let mut cmd = BuildCommand::new(a, "/ws", "/ctx", false, false, false, false);
    cmd.step(CommandEvent::Done);
    match cmd.step(CommandEvent::Manifest(workspace_manifest(&["zl-zpr-core"]))) {
        CommandAction::Resolve(w) => assert_eq!(w, vec![("zl-zpr-core".to_string(), "origin/main".to_string())]),
        other => panic!("unexpected {other:?}"),
    }
    match cmd.step(CommandEvent::Failed("repository zl-zpr-core: unknown ref".to_string())) {
        CommandAction::Warn(l) => assert_eq!(l, "error: repository zl-zpr-core: unknown ref"),
        other => panic!("unexpected {other:?}"),
    }
    assert!(matches!(cmd.step(CommandEvent::Done), CommandAction::Finish(1)));
}

#[test]
fn gates_only_scans_the_set_and_exits_by_the_error_count() {
    let mut a = args();
    a.gates_only = true;
    a.manifest = Some("/sets/x.yaml".to_string());
    let mut cmd = BuildCommand::new(a, "/ws", "/ctx", false, false, false, false);
    cmd.step(CommandEvent::Done);
    cmd.step(CommandEvent::Manifest(workspace_manifest(&["zl-zpr-core", "zl-zpr-common"])));
    match cmd.step(CommandEvent::SetRead(one_repo_set("x"))) {
        CommandAction::RunGates { scan, drift, name } => {
            assert_eq!(
                scan,
                vec![
                    ("zl-zpr-core".to_string(), "/ws/zl-zpr-core".to_string()),
                    ("zl-zpr-common".to_string(), "/ws/zl-zpr-common".to_string()),
                ]
            );
            assert!(drift.is_empty());
            assert_eq!(name, "x");
        }
        other => panic!("unexpected {other:?}"),
    }
    assert!(matches!(cmd.step(CommandEvent::Gates(2)), CommandAction::Finish(1)));
}

#[test]
fn a_real_build_notes_skips_prepares_and_builds() {
    let mut a = args();
    a.tip = true;
    a.test = Some("none".to_string());
    let mut cmd = BuildCommand::new(a, "/ws", "/ctx", false, false, false, false);
    cmd.step(CommandEvent::Done);
    cmd.step(CommandEvent::Manifest(workspace_manifest(&["zl-zpr-core"])));
    match cmd.step(CommandEvent::Resolved(vec![Resolved {
        repo: "zl-zpr-core".to_string(),
        reference: "origin/main".to_string(),
        sha: "b".repeat(40),
    }])) {
        CommandAction::Say(l) => assert!(l.ends_with(": not in workspace.yaml, skipped")),
        other => panic!("unexpected {other:?}"),
    }
    let mut next = cmd.step(CommandEvent::Done);
    while let CommandAction::Say(_) = next {
        next = cmd.step(CommandEvent::Done);
    }
    match next {
        CommandAction::PrepareBuildDir(d) => assert_eq!(d, "/ws/.zpr-build/tip"),
        other => panic!("unexpected {other:?}"),
    }
    assert!(matches!(cmd.step(CommandEvent::Done), CommandAction::ContextSha));
    match cmd.step(CommandEvent::Text("deadbee".to_string())) {
        CommandAction::Build { dir, manifest_path, context_sha } => {
            assert_eq!(dir, "/ws/.zpr-build/tip");
            assert_eq!(manifest_path, "--tip");
            assert_eq!(context_sha, "deadbee");
        }
        other => panic!("unexpected {other:?}"),
    }
    match cmd.step(CommandEvent::Built(false)) {
        CommandAction::Say(l) => assert_eq!(l, "dist: /ws/.zpr-build/tip/dist"),
        other => panic!("unexpected {other:?}"),
    }
    match cmd.step(CommandEvent::Done) {
        CommandAction::Say(l) => assert_eq!(l, "tests: none run (--test none; tiers land in B4/B5)"),
        other => panic!("unexpected {other:?}"),
    }
    assert!(matches!(cmd.step(CommandEvent::Done), CommandAction::Finish(1)));
}
