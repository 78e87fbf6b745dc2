use zpr_dev::build::dist::{build_dir_for, default_manifest_path, verify_dist};
use zpr_dev::build::{check_build_set, resolve_set, resolve_tip, validate_against, BuildSet, Checkout, PinDrift};
use zpr_dev::config::{default_branch, AgentConfig, Documentation, Manifest, Repo, RepoContext, WorkspaceMeta};
use zpr_dev::order::StrMap;

/// The valid fixture set: both fixture repositories and one tolerated drift.
fn valid() -> BuildSet {
    let mut repositories = StrMap::new();
    repositories.insert("zl-zpr-core", "v0.3.1".to_string());
    repositories.insert("zl-zpr-common", "main".to_string());
    BuildSet {
        version: 1,
        name: "2026-09-17".to_string(),
        repositories,
        allow_pin_drift: vec![PinDrift {
            crate_name: "rcu".to_string(),
            reason: "zl-zpr-common pins zpr-utils-v0.1.0, ph pins rcu-v0.1.2; zipline#18".to_string(),
        }],
    }
}

/// A workspace manifest declaring exactly the two fixture repositories.
fn workspace_manifest() -> Manifest {
    let repo = |name: &str, url: &str| Repo {
        name: name.to_string(),
        url: url.to_string(),
        default_branch: default_branch(),
        context: RepoContext::default(),
    };
    Manifest {
        version: 1,
        workspace: WorkspaceMeta::default(),
        repositories: vec![repo("zl-zpr-core", "a"), repo("zl-zpr-common", "b")],
        documentation: Documentation::default(),
        agent: AgentConfig::default(),
    }
}

#[test]
fn valid_build_set_parses() {
    let set = check_build_set(valid()).unwrap();
    assert_eq!(set.version, 1);
    assert_eq!(set.name, "2026-09-17");
    assert_eq!(set.repositories.get("zl-zpr-core").unwrap(), "v0.3.1");
    assert_eq!(set.repositories.get("zl-zpr-common").unwrap(), "main");
    assert_eq!(set.allow_pin_drift.len(), 1);
    assert_eq!(set.allow_pin_drift[0].crate_name, "rcu");
}

#[test]
fn version_two_is_rejected() {
    let mut set = valid();
    set.version = 2;
    let error = check_build_set(set).unwrap_err();
    assert!(error.contains("version"), "{error}");
}

#[test]
fn empty_name_is_rejected() {
    let mut set = valid();
    set.name = String::new();
    assert!(check_build_set(set).is_err());
}

#[test]
fn mod_empty_repositories_is_rejected() {
    let set = BuildSet { version: 1, name: "x".to_string(), repositories: StrMap::new(), allow_pin_drift: vec![] };
    assert!(check_build_set(set).is_err());
}

#[test]
fn traversal_names_are_rejected_naming_the_rule() {
    for name in ["..", ".", "../evil", "/abs", "a/b", "a\\b"] {
        let mut set = valid();
        set.name = name.to_string();
        let error = check_build_set(set).unwrap_err();
        assert!(error.contains("path component"), "{name}: {error}");
    }
}

#[test]
fn unknown_repository_is_rejected_naming_it() {
    let mut repositories = StrMap::new();
    repositories.insert("zl-zpr-nonesuch", "v0.3.1".to_string());
    repositories.insert("zl-zpr-common", "main".to_string());
    let set = check_build_set(BuildSet { repositories, ..valid() }).unwrap();
    let error = validate_against(&set, &workspace_manifest()).unwrap_err();
    assert!(error.contains("zl-zpr-nonesuch"), "{error}");
}

#[test]
fn known_repositories_validate() {
    let set = check_build_set(valid()).unwrap();
    assert!(validate_against(&set, &workspace_manifest()).is_ok());
}

#[test]
fn pin_drift_without_reason_is_rejected() {
    let mut set = valid();
    set.allow_pin_drift[0].reason = String::new();
    let error = check_build_set(set).unwrap_err();
    assert!(error.contains("rcu"), "{error}");
    assert!(error.contains("reason"), "{error}");
}

#[test]
fn empty_ref_is_rejected_naming_the_repository() {
    let mut repositories = StrMap::new();
    repositories.insert("zl-zpr-core", "  ".to_string());
    let set = BuildSet { repositories, ..valid() };
    assert_eq!(check_build_set(set).unwrap_err(), "repository zl-zpr-core has an empty ref");
}

#[test]
fn default_manifest_is_newest_by_name() {
    let listing = vec![
        ("2026-08-01.yaml".to_string(), true),
        ("2026-09-17.yaml".to_string(), true),
        ("zzz.txt".to_string(), true),
        ("2027-01-01.yml".to_string(), false),
    ];
    assert_eq!(default_manifest_path("/ctx", Some(&listing)).unwrap(), "/ctx/build-sets/2026-09-17.yaml");
}

#[test]
fn absent_build_sets_directory_is_a_clear_error() {
    let error = default_manifest_path("/ctx", None).unwrap_err();
    assert!(error.contains("build-sets"), "{error}");
    assert!(error.contains("--manifest") && error.contains("--tip"), "remedy not named: {error}");
}

#[test]
fn empty_build_sets_directory_is_a_clear_error() {
    let error = default_manifest_path("/ctx", Some(&vec![])).unwrap_err();
    assert!(error.contains("build-sets"), "{error}");
}

/// The one-repository set the resolution tests use.
fn one_repo_set(reference: &str) -> BuildSet {
    let mut repositories = StrMap::new();
    repositories.insert("zl-zpr-core", reference.to_string());
    BuildSet { version: 1, name: "t".to_string(), repositories, allow_pin_drift: vec![] }
}

const SEED: &str = "0123456789abcdef0123456789abcdef01234567";

/// A git that knows the refs `v0.1.0`, `main`, `origin/main`, `0123456`
/// and the full seed sha, all naming the seed commit.
fn fake_git(_dir: &str, args: &Vec<String>) -> Result<String, String> {
    let known = ["v0.1.0^{commit}", "main^{commit}", "0123456^{commit}", "origin/main^{commit}"];
    let last = args.last().cloned().unwrap_or_default();
    if args.first().map(|a| a == "rev-parse").unwrap_or(false)
        && (known.contains(&last.as_str()) || last == format!("{SEED}^{{commit}}"))
    {
        Ok(SEED.to_string())
    } else {
        Err(String::new())
    }
}

#[test]
fn resolve_set_handles_tag_branch_short_and_full_sha() {
    let probe = |_: &str| Checkout::Repo;
    for reference in ["v0.1.0", "main", "0123456", SEED] {
        let resolved = resolve_set("/ws", &one_repo_set(reference), &probe, &fake_git).unwrap();
        assert_eq!(resolved.len(), 1);
        assert_eq!(resolved[0].repo, "zl-zpr-core");
        assert_eq!(resolved[0].reference, reference);
        assert_eq!(resolved[0].sha, SEED);
    }
}

#[test]
fn resolve_set_unknown_ref_names_repository_and_ref() {
    let probe = |_: &str| Checkout::Repo;
    let error = resolve_set("/ws", &one_repo_set("nonesuch"), &probe, &fake_git).unwrap_err();
    assert!(error.contains("zl-zpr-core"), "{error}");
    assert!(error.contains("nonesuch"), "{error}");
}

#[test]
fn resolve_set_missing_repository_directory_errors_naming_it() {
    let probe = |_: &str| Checkout::Missing;
    let error = resolve_set("/ws", &one_repo_set("main"), &probe, &fake_git).unwrap_err();
    assert!(error.contains("zl-zpr-core"), "{error}");
}

#[test]
fn resolve_set_non_git_directory_errors_naming_it() {
    let probe = |_: &str| Checkout::NotRepo;
    let error = resolve_set("/ws", &one_repo_set("main"), &probe, &fake_git).unwrap_err();
    assert!(error.contains("zl-zpr-core"), "{error}");
    assert!(error.contains("not a git repository"), "{error}");
}

#[test]
fn resolve_tip_uses_origin_default_branch_not_local_head() {
    let probe = |_: &str| Checkout::Repo;
    let resolved = resolve_tip("/ws", &[("zl-zpr-core", "main")], &probe, &fake_git).unwrap();
    assert_eq!(resolved.len(), 1);
    assert_eq!(resolved[0].reference, "origin/main");
    assert_eq!(resolved[0].sha, SEED);
}

#[test]
fn build_dir_defaults_under_the_workspace() {
    assert_eq!(build_dir_for(None, "/ws", "2026-09-17"), "/ws/.zpr-build/2026-09-17");
    assert_eq!(build_dir_for(Some("/elsewhere"), "/ws", "2026-09-17"), "/elsewhere");
}

/// A stat answering from a fixed table of files and modes.
fn stat_of<'a>(files: &'a [(&'a str, u32)]) -> impl Fn(&str) -> Result<Option<u32>, String> + 'a {
    move |p: &str| Ok(files.iter().find(|(f, _)| *f == p).map(|(_, m)| *m))
}

#[test]
fn verify_dist_passes_when_all_names_present_and_executable() {
    let stat = stat_of(&[("/b/dist/zplc", 0o755), ("/b/dist/zpdump", 0o755)]);
    verify_dist("/b/dist", &["zplc", "zpdump"], &stat).unwrap();
}

#[test]
fn verify_dist_names_missing_binaries() {
    let stat = stat_of(&[("/b/dist/zplc", 0o755)]);
    let error = verify_dist("/b/dist", &["zplc", "zpdump", "vs"], &stat).unwrap_err();
    assert!(error.contains("zpdump"), "{error}");
    assert!(error.contains("vs"), "{error}");
    assert!(!error.contains("zplc"), "present binary named: {error}");
}

#[test]
fn verify_dist_names_non_executable_binaries() {
    let stat = stat_of(&[("/b/dist/zplc", 0o644)]);
    let error = verify_dist("/b/dist", &["zplc"], &stat).unwrap_err();
    assert!(error.contains("zplc"), "{error}");
    assert!(error.contains("executable"), "{error}");
}

use std::cell::RefCell;
use zpr_dev::build::dist::prepare_build_dir;

/// A filesystem and git stand-in for the build-directory tests: which paths
/// exist, what `src/` lists, which checkouts are repositories, and a log of
/// every effect.
struct FakeDirs {
    existing: RefCell<Vec<String>>,
    src_entries: Option<Vec<String>>,
    repos: Vec<String>,
    effects: RefCell<Vec<String>>,
}

impl FakeDirs {
    fn new(existing: &[&str], src_entries: Option<Vec<String>>, repos: &[&str]) -> FakeDirs {
        FakeDirs {
            existing: RefCell::new(existing.iter().map(|s| s.to_string()).collect()),
            src_entries,
            repos: repos.iter().map(|s| s.to_string()).collect(),
            effects: RefCell::new(vec![]),
        }
    }

    fn prepare(&self, dir: &str, force: bool, workspace: &str) -> Result<(), String> {
        let present = |p: &str| self.existing.borrow().iter().any(|e| e == p || e.starts_with(&format!("{p}/")));
        let list = |_: &str| self.src_entries.clone();
        let git = |d: &str, a: &Vec<String>| -> Result<String, String> {
            self.effects.borrow_mut().push(format!("git {} in {d}", a.join(" ")));
            if a[0] == "rev-parse" && self.repos.iter().any(|r| r == d) {
                Ok(d.to_string())
            } else if a[0] == "worktree" {
                Ok(String::new())
            } else {
                Err("fatal: not a git repository".to_string())
            }
        };
        let canonical = |p: &str| -> Result<String, String> { Ok(p.to_string()) };
        let remove_all = |p: &str| -> Result<(), String> {
            self.effects.borrow_mut().push(format!("remove {p}"));
            self.existing.borrow_mut().retain(|e| !(e == p || e.starts_with(&format!("{p}/"))));
            Ok(())
        };
        let make_dirs = |p: &str| -> Result<(), String> {
            self.effects.borrow_mut().push(format!("mkdir {p}"));
            self.existing.borrow_mut().push(p.to_string());
            Ok(())
        };
        prepare_build_dir(dir, force, workspace, &present, &list, &git, &canonical, &remove_all, &make_dirs)
    }
}

#[test]
fn prepare_build_dir_creates_logs_and_dist() {
    let fs = FakeDirs::new(&[], None, &[]);
    fs.prepare("/tmp/x/tip", false, "/tmp/x").unwrap();
    assert_eq!(*fs.effects.borrow(), vec!["mkdir /tmp/x/tip/logs", "mkdir /tmp/x/tip/dist"]);
}

#[test]
fn prepare_build_dir_refuses_preexisting_naming_force() {
    let fs = FakeDirs::new(&["/tmp/x/tip/dist/stale-binary"], None, &[]);
    let error = fs.prepare("/tmp/x/tip", false, "/tmp/x").unwrap_err();
    assert!(error.contains("tip"), "path not named: {error}");
    assert!(error.contains("--force"), "remedy not named: {error}");
    assert!(fs.effects.borrow().is_empty(), "nothing may be touched");
}

#[test]
fn prepare_build_dir_force_removes_and_recreates() {
    let fs = FakeDirs::new(&["/tmp/x/tip/dist/stale-binary"], None, &[]);
    fs.prepare("/tmp/x/tip", true, "/tmp/x").unwrap();
    assert!(!fs.existing.borrow().contains(&"/tmp/x/tip/dist/stale-binary".to_string()));
    assert_eq!(*fs.effects.borrow(), vec!["remove /tmp/x/tip", "mkdir /tmp/x/tip/logs", "mkdir /tmp/x/tip/dist"]);
}

#[test]
fn prepare_build_dir_force_unregisters_retained_worktrees() {
    let fs = FakeDirs::new(
        &["/ws/.zpr-build/t/src/zl-zpr-core/README.md"],
        Some(vec!["zl-zpr-core".to_string(), "stray".to_string()]),
        &["/ws/zl-zpr-core"],
    );
    fs.prepare("/ws/.zpr-build/t", true, "/ws").unwrap();
    let effects = fs.effects.borrow();
    let remove = effects
        .iter()
        .position(|e| e == "git worktree remove --force /ws/.zpr-build/t/src/zl-zpr-core in /ws/zl-zpr-core")
        .expect("the retained worktree is unregistered");
    let wipe = effects.iter().position(|e| e == "remove /ws/.zpr-build/t").unwrap();
    assert!(remove < wipe, "{effects:?}");
    assert!(!effects.iter().any(|e| e.contains("worktree remove") && e.contains("stray")), "{effects:?}");
}
