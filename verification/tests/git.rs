use std::cell::RefCell;

use zpr_dev::git::{
    ahead_behind, branch, clone, fetch, ff_merge, git_failure, head_short, is_dirty, is_repo,
    rev_parse, tag_list, worktree_add, worktree_remove,
};

/// A git that answers from a table of (directory, arguments) rows and
/// records every call; anything else fails as git would.
struct FakeGit {
    rows: Vec<(&'static str, Vec<&'static str>, Result<&'static str, &'static str>)>,
    calls: RefCell<Vec<(String, Vec<String>)>>,
}

impl FakeGit {
    fn new(rows: Vec<(&'static str, Vec<&'static str>, Result<&'static str, &'static str>)>) -> FakeGit {
        FakeGit { rows, calls: RefCell::new(vec![]) }
    }

    fn run(&self, dir: &str, args: &Vec<String>) -> Result<String, String> {
        self.calls.borrow_mut().push((dir.to_string(), args.clone()));
        for (d, a, answer) in &self.rows {
            if *d == dir && a.len() == args.len() && a.iter().zip(args.iter()).all(|(x, y)| *x == y) {
                return match answer {
                    Ok(s) => Ok(s.to_string()),
                    Err(e) => Err(e.to_string()),
                };
            }
        }
        Err(format!("git {} failed in {dir}: fatal: not a git repository", args.join(" ")))
    }
}

#[test]
fn is_repo_false_for_plain_directory() {
    let fake = FakeGit::new(vec![]);
    let canonical = |p: &str| -> Result<String, String> { Ok(p.to_string()) };
    assert!(!is_repo("/tmp/plain", &|d: &str, a: &Vec<String>| fake.run(d, a), &canonical));
}

#[test]
fn is_repo_true_after_init() {
    let fake = FakeGit::new(vec![
        ("/tmp/repo", vec!["rev-parse", "--show-toplevel"], Ok("/tmp/repo")),
        ("/tmp/repo/nested", vec!["rev-parse", "--show-toplevel"], Ok("/tmp/repo")),
    ]);
    let canonical = |p: &str| -> Result<String, String> { Ok(p.to_string()) };
    let git = |d: &str, a: &Vec<String>| fake.run(d, a);
    assert!(is_repo("/tmp/repo", &git, &canonical));
    assert!(!is_repo("/tmp/repo/nested", &git, &canonical));
}

#[test]
fn head_short_returns_seven_or_more_hex_chars() {
    let fake = FakeGit::new(vec![("/r", vec!["rev-parse", "--short", "HEAD"], Ok("a1b2c3d"))]);
    let sha = head_short("/r", &|d: &str, a: &Vec<String>| fake.run(d, a)).unwrap();
    assert!(sha.len() >= 7, "unexpectedly short sha: {sha:?}");
    assert!(sha.chars().all(|c| c.is_ascii_hexdigit()), "not hex: {sha:?}");
}

#[test]
fn branch_returns_name_on_branch() {
    let fake = FakeGit::new(vec![("/r", vec!["rev-parse", "--abbrev-ref", "HEAD"], Ok("main"))]);
    assert_eq!(branch("/r", &|d: &str, a: &Vec<String>| fake.run(d, a)).unwrap().as_deref(), Some("main"));
}

#[test]
fn branch_returns_none_when_detached() {
    let fake = FakeGit::new(vec![("/r", vec!["rev-parse", "--abbrev-ref", "HEAD"], Ok("HEAD"))]);
    assert_eq!(branch("/r", &|d: &str, a: &Vec<String>| fake.run(d, a)).unwrap(), None);
}

#[test]
fn is_dirty_false_when_clean_true_after_edit() {
    let clean = FakeGit::new(vec![("/r", vec!["status", "--porcelain", "--untracked-files=no"], Ok(""))]);
    assert!(!is_dirty("/r", &|d: &str, a: &Vec<String>| clean.run(d, a)).unwrap());
    let edited = FakeGit::new(vec![("/r", vec!["status", "--porcelain", "--untracked-files=no"], Ok("M README.md"))]);
    assert!(is_dirty("/r", &|d: &str, a: &Vec<String>| edited.run(d, a)).unwrap());
}

#[test]
fn ahead_behind_none_without_upstream() {
    let fake = FakeGit::new(vec![]);
    assert_eq!(ahead_behind("/r", &|d: &str, a: &Vec<String>| fake.run(d, a)).unwrap(), None);
}

#[test]
fn ahead_behind_counts_after_origin_advances() {
    let fake = FakeGit::new(vec![("/w", vec!["rev-list", "--left-right", "--count", "HEAD...@{u}"], Ok("0\t1"))]);
    assert_eq!(ahead_behind("/w", &|d: &str, a: &Vec<String>| fake.run(d, a)).unwrap(), Some((0, 1)));
}

#[test]
fn ahead_behind_rejects_output_that_is_not_two_counts() {
    let fake = FakeGit::new(vec![("/w", vec!["rev-list", "--left-right", "--count", "HEAD...@{u}"], Ok("3"))]);
    let error = ahead_behind("/w", &|d: &str, a: &Vec<String>| fake.run(d, a)).unwrap_err();
    assert_eq!(error, "unexpected git rev-list output: \"3\"");
}

#[test]
fn ff_merge_true_when_behind() {
    let fake = FakeGit::new(vec![("/w", vec!["merge", "--ff-only", "@{u}"], Ok("Fast-forward"))]);
    assert!(ff_merge("/w", &|d: &str, a: &Vec<String>| fake.run(d, a)).unwrap());
}

#[test]
fn ff_merge_false_on_divergence() {
    let fake = FakeGit::new(vec![("/w", vec!["merge", "--ff-only", "@{u}"], Err("fatal: Not possible to fast-forward, aborting."))]);
    assert!(!ff_merge("/w", &|d: &str, a: &Vec<String>| fake.run(d, a)).unwrap());
}

#[test]
fn fetch_runs_git_fetch() {
    let fake = FakeGit::new(vec![("/w", vec!["fetch"], Ok(""))]);
    fetch("/w", &|d: &str, a: &Vec<String>| fake.run(d, a)).unwrap();
    assert_eq!(*fake.calls.borrow(), vec![("/w".to_string(), vec!["fetch".to_string()])]);
}

#[test]
fn rev_parse_resolves_tag_branch_short_and_full_sha_identically() {
    let full = "89abcdef0123456789abcdef0123456789abcdef";
    let fake = FakeGit::new(vec![
        ("/r", vec!["rev-parse", "--verify", "--quiet", "v1.0.0^{commit}"], Ok(full)),
        ("/r", vec!["rev-parse", "--verify", "--quiet", "release-line^{commit}"], Ok(full)),
        ("/r", vec!["rev-parse", "--verify", "--quiet", "89abcde^{commit}"], Ok(full)),
        ("/r", vec!["rev-parse", "--verify", "--quiet", "89abcdef0123456789abcdef0123456789abcdef^{commit}"], Ok(full)),
    ]);
    let git = |d: &str, a: &Vec<String>| fake.run(d, a);
    for rev in ["v1.0.0", "release-line", &full[..7], full] {
        assert_eq!(rev_parse("/r", rev, &git).unwrap(), full, "rev {rev}");
    }
}

#[test]
fn rev_parse_unknown_ref_errors_naming_it() {
    let fake = FakeGit::new(vec![]);
    let error = rev_parse("/r", "no-such-tag", &|d: &str, a: &Vec<String>| fake.run(d, a)).unwrap_err();
    assert!(error.contains("no-such-tag"), "{error}");
    assert_eq!(error, "unknown ref no-such-tag in /r (refs are resolved locally; zpr-dev never fetches)");
}

#[test]
fn tag_list_returns_tags_or_empty() {
    let none = FakeGit::new(vec![("/r", vec!["tag", "--list"], Ok(""))]);
    assert!(tag_list("/r", &|d: &str, a: &Vec<String>| none.run(d, a)).unwrap().is_empty());
    let two = FakeGit::new(vec![("/r", vec!["tag", "--list"], Ok("v0.1.0\nv0.2.0"))]);
    let mut tags = tag_list("/r", &|d: &str, a: &Vec<String>| two.run(d, a)).unwrap();
    tags.sort();
    assert_eq!(tags, vec!["v0.1.0", "v0.2.0"]);
}

#[test]
fn worktree_add_is_detached_at_sha_and_leaves_source_untouched() {
    let fake = FakeGit::new(vec![("/repo", vec!["worktree", "add", "--detach", "/wt", "abc1234"], Ok(""))]);
    let occupied = |_: &str| -> Result<bool, String> { Ok(false) };
    worktree_add("/repo", "/wt", "abc1234", &|d: &str, a: &Vec<String>| fake.run(d, a), &occupied).unwrap();
    let calls = fake.calls.borrow();
    assert_eq!(calls.len(), 1, "only the detached add may run: {calls:?}");
    assert_eq!(calls[0].1, ["worktree", "add", "--detach", "/wt", "abc1234"]);
}

#[test]
fn worktree_remove_leaves_no_entry() {
    let fake = FakeGit::new(vec![
        ("/repo", vec!["worktree", "remove", "--force", "/wt"], Ok("")),
        ("/repo", vec!["worktree", "prune"], Ok("")),
    ]);
    worktree_remove("/repo", "/wt", &|d: &str, a: &Vec<String>| fake.run(d, a)).unwrap();
    let calls: Vec<Vec<String>> = fake.calls.borrow().iter().map(|c| c.1.clone()).collect();
    assert_eq!(calls, vec![vec!["worktree", "remove", "--force", "/wt"], vec!["worktree", "prune"]]);
}

#[test]
fn worktree_add_refuses_nonempty_destination_naming_it() {
    let fake = FakeGit::new(vec![]);
    let occupied = |_: &str| -> Result<bool, String> { Ok(true) };
    let error = worktree_add("/repo", "/tmp/occupied", "abc1234", &|d: &str, a: &Vec<String>| fake.run(d, a), &occupied)
        .unwrap_err();
    assert!(error.contains("occupied"), "path not named in error: {error}");
    assert!(fake.calls.borrow().is_empty(), "git must not run over an occupied destination");
}

#[test]
fn worktree_remove_forces_out_a_dirty_worktree() {
    let fake = FakeGit::new(vec![
        ("/repo", vec!["worktree", "remove", "--force", "/wt"], Ok("")),
        ("/repo", vec!["worktree", "prune"], Ok("")),
    ]);
    worktree_remove("/repo", "/wt", &|d: &str, a: &Vec<String>| fake.run(d, a)).unwrap();
    assert!(fake.calls.borrow()[0].1.contains(&"--force".to_string()));
}

#[test]
fn clone_creates_the_parent_and_passes_the_branch() {
    let fake = FakeGit::new(vec![("/ws", vec!["clone", "--branch", "dev", "git@h:o/r.git", "/ws/r"], Ok(""))]);
    let made: RefCell<Vec<String>> = RefCell::new(vec![]);
    let make_dirs = |p: &str| -> Result<(), String> {
        made.borrow_mut().push(p.to_string());
        Ok(())
    };
    clone("git@h:o/r.git", "/ws/r", Some("dev"), &|d: &str, a: &Vec<String>| fake.run(d, a), &make_dirs).unwrap();
    assert_eq!(*made.borrow(), vec!["/ws".to_string()]);
}

#[test]
fn a_failed_command_names_arguments_directory_and_stderr() {
    let args = vec!["fetch".to_string(), "--all".to_string()];
    assert_eq!(git_failure(&args, "/w", "fatal: boom"), "git fetch --all failed in /w: fatal: boom");
}
