use std::cell::RefCell;

use zpr_dev::build::recipes::{build_order, recipe_for, recipes, run_step, step_log_path, Command, Step};
use zpr_dev::build::staging::{stage_dist_into_demo, stage_into};

#[test]
fn recipes_cover_build_order_in_order() {
    let recipe_repos: Vec<String> = recipes().iter().map(|r| r.repo.clone()).collect();
    assert_eq!(recipe_repos, build_order());
}

#[test]
fn staged_names_are_exactly_the_ten_binaries() {
    let mut names: Vec<String> = recipes().iter().flat_map(|r| r.staged.iter().map(|s| s.name.clone())).collect();
    names.sort_unstable();
    let mut expected = vec![
        "coredns", "ph", "ph-cli", "vs", "vs-admin", "vsapikey", "zpdump", "zplc", "zpr-dashboard", "zpt",
    ];
    expected.sort_unstable();
    assert_eq!(names, expected);
}

#[test]
fn recipe_commands_and_staging_match_contract_4() {
    let table = recipes();
    let by_repo = |name: &str| table.iter().find(|r| r.repo == name).unwrap();

    let compiler = by_repo("zl-zpr-compiler");
    assert_eq!(compiler.steps.len(), 1);
    assert_eq!(compiler.steps[0].program, "cargo");
    assert_eq!(compiler.steps[0].args, ["build", "--release"]);
    assert!(compiler.staged.iter().all(|s| s.source.starts_with("target/release/")));

    let vs = by_repo("zl-zpr-visaservice");
    assert_eq!(vs.steps.len(), 1);
    assert_eq!(vs.steps[0].program, "make");
    assert_eq!(vs.steps[0].args, ["release"]);
    assert!(vs.staged.iter().all(|s| s.source.starts_with("build-release/")));
    assert_eq!(vs.staged.len(), 5);

    let core = by_repo("zl-zpr-core");
    assert_eq!(core.steps[0].program, "cargo");
    assert_eq!(core.steps[0].args, ["build", "--release"]);

    let coredns = by_repo("zl-zpr-coredns");
    assert_eq!(coredns.steps[0].program, "make");
    assert_eq!(coredns.steps[0].args, ["build"]);
    assert_eq!(coredns.staged[0].source, "bin/coredns");

    let demo = by_repo("zl-zpr-demo");
    assert!(demo.steps.is_empty());
    assert!(demo.staged.is_empty());
}

#[test]
fn staging_sources_are_worktree_relative() {
    for recipe in recipes() {
        for staged in &recipe.staged {
            assert!(!staged.source.starts_with('/') && !staged.source.contains(".."), "{}: {}", recipe.repo, staged.source);
        }
    }
}

#[test]
fn recipe_for_finds_the_table_row_or_nothing() {
    assert_eq!(recipe_for("zl-zpr-coredns").unwrap().staged[0].name, "coredns");
    assert!(recipe_for("zl-zpr-common").is_none());
}

#[test]
fn run_step_logs_output_and_succeeds() {
    let seen: RefCell<Vec<(String, String, String, Vec<String>, String)>> = RefCell::new(vec![]);
    let run = |c: &Command| -> Result<(), String> {
        seen.borrow_mut().push((c.label.clone(), c.name.clone(), c.program.clone(), c.args.clone(), c.dir.clone()));
        Ok(())
    };
    let step = Step {
        name: "hello".to_string(),
        program: "sh".to_string(),
        args: vec!["-c".to_string(), "echo out; echo err >&2".to_string()],
    };
    run_step("fixture", &step, "/wt", &run).unwrap();
    let seen = seen.borrow();
    assert_eq!(seen.len(), 1);
    assert_eq!(seen[0].0, "fixture");
    assert_eq!(seen[0].1, "hello");
    assert_eq!(seen[0].2, "sh");
    assert_eq!(seen[0].3, ["-c", "echo out; echo err >&2"]);
    assert_eq!(seen[0].4, "/wt");
    assert_eq!(step_log_path("/b/logs", "fixture", "hello"), "/b/logs/fixture-hello.log");
}

#[test]
fn run_step_failure_names_repo_step_and_log() {
    let run = |c: &Command| -> Result<(), String> {
        Err(format!("{}: step `{}` failed (exit status: 3); full output in /b/logs/{}-{}.log", c.label, c.name, c.label, c.name))
    };
    let step = Step { name: "boom".to_string(), program: "sh".to_string(), args: vec![] };
    let error = run_step("fixture", &step, "/wt", &run).unwrap_err();
    assert!(error.contains("fixture"), "{error}");
    assert!(error.contains("boom"), "{error}");
    assert!(error.contains("fixture-boom.log"), "{error}");
}

#[test]
fn stage_into_copies_listed_binaries_executably() {
    let copies: RefCell<Vec<(String, String)>> = RefCell::new(vec![]);
    let is_file = |p: &str| p == "/wt/target/release/zplc" || p == "/wt/target/release/zpdump";
    let copy = |from: &str, to: &str| -> Result<(), String> {
        copies.borrow_mut().push((from.to_string(), to.to_string()));
        Ok(())
    };
    let recipe = recipe_for("zl-zpr-compiler").unwrap();
    stage_into(&recipe, "/wt", "/b/dist", &is_file, &copy).unwrap();
    assert_eq!(
        *copies.borrow(),
        vec![
            ("/wt/target/release/zplc".to_string(), "/b/dist/zplc".to_string()),
            ("/wt/target/release/zpdump".to_string(), "/b/dist/zpdump".to_string()),
        ]
    );
}

#[test]
fn stage_into_missing_source_errors_naming_it() {
    let is_file = |p: &str| p == "/wt/target/release/zplc";
    let copy = |_: &str, _: &str| -> Result<(), String> { Ok(()) };
    let recipe = recipe_for("zl-zpr-compiler").unwrap();
    let error = stage_into(&recipe, "/wt", "/b/dist", &is_file, &copy).unwrap_err();
    assert!(error.contains("zl-zpr-compiler"), "{error}");
    assert!(error.contains("zpdump"), "{error}");
    assert_eq!(
        error,
        "zl-zpr-compiler: build did not produce target/release/zpdump (expected at /wt/target/release/zpdump)"
    );
}

#[test]
fn stage_into_reports_a_failed_copy() {
    let is_file = |_: &str| true;
    let copy = |_: &str, _: &str| -> Result<(), String> { Err("Permission denied (os error 13)".to_string()) };
    let recipe = recipe_for("zl-zpr-coredns").unwrap();
    let error = stage_into(&recipe, "/wt", "/b/dist", &is_file, &copy).unwrap_err();
    assert_eq!(error, "zl-zpr-coredns: cannot stage bin/coredns into /b/dist: Permission denied (os error 13)");
}

#[test]
fn stage_dist_into_demo_copies_the_staged_names() {
    let names: Vec<String> = recipes().iter().flat_map(|r| r.staged.iter().map(|s| s.name.clone())).collect();
    let made: RefCell<Vec<String>> = RefCell::new(vec![]);
    let copies: RefCell<Vec<(String, String)>> = RefCell::new(vec![]);
    let make_dirs = |p: &str| -> Result<(), String> {
        made.borrow_mut().push(p.to_string());
        Ok(())
    };
    let is_file = |_: &str| true;
    let copy = |from: &str, to: &str| -> Result<(), String> {
        copies.borrow_mut().push((from.to_string(), to.to_string()));
        Ok(())
    };
    stage_dist_into_demo("/b/dist", "/demo/dns-demo/bin", &make_dirs, &is_file, &copy).unwrap();
    assert_eq!(*made.borrow(), vec!["/demo/dns-demo/bin".to_string()]);
    let expected: Vec<(String, String)> =
        names.iter().map(|n| (format!("/b/dist/{n}"), format!("/demo/dns-demo/bin/{n}"))).collect();
    assert_eq!(*copies.borrow(), expected);

    let missing_coredns = |p: &str| p != "/b/dist/coredns";
    let error = stage_dist_into_demo("/b/dist", "/demo/dns-demo/bin", &make_dirs, &missing_coredns, &copy).unwrap_err();
    assert!(error.contains("coredns"), "{error}");
}
