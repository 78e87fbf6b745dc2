use zpr_dev::build::execute::{BuildAction, BuildEvent, BuildRun};
use zpr_dev::build::recipes::{Recipe, Staged, Step};
use zpr_dev::build::Resolved;

/// A one-step recipe for `zl-zpr-core` staging `bin1`.
fn fixture_recipe() -> Recipe {
    Recipe {
        repo: "zl-zpr-core".to_string(),
        steps: vec![Step { name: "build".to_string(), program: "sh".to_string(), args: vec![] }],
        staged: vec![Staged { name: "bin1".to_string(), source: "out/bin1".to_string() }],
    }
}

fn resolved(repo: &str) -> Resolved {
    Resolved { repo: repo.to_string(), reference: "main".to_string(), sha: "0123456789abcdef0123456789abcdef01234567".to_string() }
}

/// Drives a build to its end, answering each action with `answer`, and
/// returns every action issued.
fn drive(run: &mut BuildRun, answer: impl Fn(&BuildAction) -> BuildEvent) -> Vec<BuildAction> {
    let mut actions = Vec::new();
    let mut event = BuildEvent::Done;
    for _ in 0..1000 {
        let action = run.step(&event);
        let done = matches!(action, BuildAction::Finish(_) | BuildAction::Fail(_));
        event = answer(&action);
        actions.push(action);
        if done {
            return actions;
        }
    }
    panic!("the build never finished: {actions:?}");
}

/// Everything succeeds and the gates report no errors.
fn all_well(action: &BuildAction) -> BuildEvent {
    match action {
        BuildAction::RunGates => BuildEvent::Gates(0),
        _ => BuildEvent::Done,
    }
}

fn index_of(actions: &[BuildAction], pred: impl Fn(&BuildAction) -> bool) -> Option<usize> {
    actions.iter().position(pred)
}

#[test]
fn execute_build_success_round_trips_digests_and_prunes() {
    let mut run = BuildRun::new(&[resolved("zl-zpr-core")], &[fixture_recipe()], "/ws", "/b/t", "t", true, false, true);
    let actions = drive(&mut run, all_well);
    let order: Vec<String> = actions.iter().map(|a| format!("{a:?}")).collect();
    assert!(matches!(actions.last(), Some(BuildAction::Finish(true))), "{order:?}");
    assert!(matches!(&actions[0], BuildAction::CreateDir(p) if p == "/b/t/src"), "{order:?}");
    assert!(actions.iter().any(|a| matches!(a, BuildAction::AddWorktree { repo, dest, sha }
        if repo == "/ws/zl-zpr-core" && dest == "/b/t/src/zl-zpr-core" && sha.len() == 40)), "{order:?}");
    assert!(actions.iter().any(|a| matches!(a, BuildAction::VerifyDist(names) if names == &vec!["bin1".to_string()])), "{order:?}");
    assert!(actions.iter().any(|a| matches!(a, BuildAction::WriteManifest(p) if p == "/b/t/dist/zpr-set-t.yaml")), "{order:?}");
    assert!(actions.iter().any(|a| matches!(a, BuildAction::RemoveWorktree { dest, .. } if dest == "/b/t/src/zl-zpr-core")), "{order:?}");
    assert!(!actions.iter().any(|a| matches!(a, BuildAction::Tarball)), "--no-tarball: {order:?}");
}

#[test]
fn execute_build_writes_manifest_even_when_a_recipe_fails() {
    let mut run = BuildRun::new(&[resolved("zl-zpr-core")], &[fixture_recipe()], "/ws", "/b/t", "t", true, false, true);
    let actions = drive(&mut run, |a| match a {
        BuildAction::RunGates => BuildEvent::Gates(0),
        BuildAction::RunStep { .. } => BuildEvent::Failed("zl-zpr-core: step `build` failed (exit status: 3); full output in /b/t/logs/zl-zpr-core-build.log".to_string()),
        _ => BuildEvent::Done,
    });
    let order: Vec<String> = actions.iter().map(|a| format!("{a:?}")).collect();
    assert!(matches!(actions.last(), Some(BuildAction::Finish(false))), "{order:?}");
    assert!(actions.iter().any(|a| matches!(a, BuildAction::WriteManifest(_))), "{order:?}");
    assert!(!actions.iter().any(|a| matches!(a, BuildAction::RemoveWorktree { .. })), "worktrees stay for debugging: {order:?}");
    assert!(!actions.iter().any(|a| matches!(a, BuildAction::Stage { .. } | BuildAction::VerifyDist(_))), "{order:?}");
    assert!(actions.iter().any(|a| matches!(a, BuildAction::Warn(m) if m.starts_with("error: zl-zpr-core: step `build` failed"))), "{order:?}");
}

#[test]
fn execute_build_keep_leaves_worktrees() {
    let mut run = BuildRun::new(&[resolved("zl-zpr-core")], &[fixture_recipe()], "/ws", "/b/t", "t", true, true, true);
    let actions = drive(&mut run, all_well);
    assert!(matches!(actions.last(), Some(BuildAction::Finish(true))));
    assert!(!actions.iter().any(|a| matches!(a, BuildAction::RemoveWorktree { .. })));
}

#[test]
fn execute_build_writes_tarball_unless_disabled() {
    let mut run = BuildRun::new(&[resolved("zl-zpr-core")], &[fixture_recipe()], "/ws", "/b/t", "t", true, false, false);
    let actions = drive(&mut run, all_well);
    let tar = index_of(&actions, |a| matches!(a, BuildAction::Tarball)).expect("a tarball");
    let manifest = index_of(&actions, |a| matches!(a, BuildAction::WriteManifest(_))).unwrap();
    assert!(manifest < tar, "the manifest goes inside the tarball");
}

#[test]
fn nothing_is_compiled_before_the_gates_pass() {
    let mut run = BuildRun::new(&[resolved("zl-zpr-core")], &[fixture_recipe()], "/ws", "/b/t", "t", false, false, true);
    let actions = drive(&mut run, all_well);
    let gates = index_of(&actions, |a| matches!(a, BuildAction::RunGates)).unwrap();
    let first_step = index_of(&actions, |a| matches!(a, BuildAction::RunStep { .. })).unwrap();
    assert!(gates < first_step);
    assert!(actions.iter().any(|a| matches!(a, BuildAction::Say(m) if m == "building zl-zpr-core...")));
}

#[test]
fn a_gate_failure_emits_no_manifest_and_removes_the_worktrees() {
    let mut run = BuildRun::new(&[resolved("zl-zpr-core")], &[fixture_recipe()], "/ws", "/b/t", "t", true, false, false);
    let actions = drive(&mut run, |a| match a {
        BuildAction::RunGates => BuildEvent::Gates(2),
        _ => BuildEvent::Done,
    });
    let order: Vec<String> = actions.iter().map(|a| format!("{a:?}")).collect();
    assert!(matches!(actions.last(), Some(BuildAction::Finish(false))), "{order:?}");
    assert!(!actions.iter().any(|a| matches!(a, BuildAction::WriteManifest(_) | BuildAction::RunStep { .. } | BuildAction::Tarball)), "{order:?}");
    assert!(actions.iter().any(|a| matches!(a, BuildAction::RemoveWorktree { .. })), "{order:?}");
    assert!(actions.iter().any(|a| matches!(a, BuildAction::RemoveEmptyDir(p) if p == "/b/t/src")), "{order:?}");
}

#[test]
fn a_repository_without_a_recipe_is_reported_and_skipped() {
    let mut run = BuildRun::new(
        &[resolved("zl-zpr-common"), resolved("zl-zpr-core")],
        &[fixture_recipe()],
        "/ws",
        "/b/t",
        "t",
        false,
        false,
        true,
    );
    let actions = drive(&mut run, all_well);
    assert!(matches!(&actions[1], BuildAction::Say(m) if m == "zl-zpr-common: no build recipe, skipped"));
    let adds = actions.iter().filter(|a| matches!(a, BuildAction::AddWorktree { .. })).count();
    assert_eq!(adds, 1);
    assert_eq!(run.gate_scan(), vec![("zl-zpr-core".to_string(), "/b/t/src/zl-zpr-core".to_string())]);
}

#[test]
fn a_worktree_that_cannot_be_added_stops_the_build() {
    let mut run = BuildRun::new(&[resolved("zl-zpr-core")], &[fixture_recipe()], "/ws", "/b/t", "t", true, false, true);
    let actions = drive(&mut run, |a| match a {
        BuildAction::AddWorktree { dest, .. } => BuildEvent::Failed(format!("worktree destination {dest} already exists and is not empty; remove it or build with --force")),
        _ => BuildEvent::Done,
    });
    assert!(matches!(actions.last(), Some(BuildAction::Fail(m)) if m.contains("already exists")));
    assert!(!actions.iter().any(|a| matches!(a, BuildAction::RunGates)));
}

#[test]
fn a_gate_run_answered_without_a_report_stops_the_build() {
    let recipes = vec![fixture_recipe()];
    let mut run = BuildRun::new(&[resolved("zl-zpr-core")], &recipes, "/ws", "/b/t", "t", false, false, false);
    let actions = drive(&mut run, |_| BuildEvent::Done);
    assert!(!actions.iter().any(|a| matches!(a, BuildAction::RunStep { .. } | BuildAction::WriteManifest(_))));
    match actions.last().unwrap() {
        BuildAction::Fail(e) => assert_eq!(e, "the gates answered without a report"),
        other => panic!("unexpected {other:?}"),
    }
}
