use zpr_dev::config::{
    check_manifest, default_branch, default_documentation_root, default_generated_context,
    default_local_context, resolve_context, resolve_workspace, AgentConfig, Documentation,
    Manifest, Repo, RepoContext, WorkspaceMeta,
};

/// A repository entry with only a name and a url, the rest defaulted.
fn entry(name: &str, url: &str) -> Repo {
    Repo {
        name: name.to_string(),
        url: url.to_string(),
        default_branch: default_branch(),
        context: RepoContext::default(),
    }
}

/// A manifest at `version` listing `repositories`, everything else defaulted.
fn manifest(version: u32, repositories: Vec<Repo>) -> Manifest {
    Manifest {
        version,
        workspace: WorkspaceMeta::default(),
        repositories,
        documentation: Documentation::default(),
        agent: AgentConfig::default(),
    }
}

/// The minimal manifest: version 1 and one three-line repository entry.
fn minimal() -> Manifest {
    manifest(1, vec![entry("zpr-core", "git@github.com:org-zpr/zpr-core.git")])
}

#[test]
fn minimal_repo_entry_gets_defaults() {
    let manifest = check_manifest(minimal()).unwrap();
    let repo = &manifest.repositories[0];
    assert_eq!(repo.default_branch, "main");
    assert_eq!(repo.context.local, "AGENTS.repo.md");
    assert_eq!(repo.context.generated, "AGENTS.md");
    assert_eq!(manifest.documentation.root, "docs");
}

#[test]
fn version_other_than_one_is_rejected() {
    let mut m = minimal();
    m.version = 2;
    let error = check_manifest(m).unwrap_err();
    assert_eq!(error, "unsupported manifest version 2 (expected 1)");
}

#[test]
fn config_empty_repositories_is_rejected() {
    let error = check_manifest(manifest(1, vec![])).unwrap_err();
    assert_eq!(error, "manifest lists no repositories");
}

#[test]
fn duplicate_repository_names_are_rejected() {
    let mut m = minimal();
    m.repositories.push(entry("zpr-core", "other"));
    let error = check_manifest(m).unwrap_err();
    assert_eq!(error, "duplicate repository name: zpr-core");
}

#[test]
fn empty_repository_name_is_rejected() {
    let m = manifest(1, vec![entry("", "git@github.com:org-zpr/zpr-core.git")]);
    let error = check_manifest(m).unwrap_err();
    assert_eq!(error, "manifest contains a repository with an empty name");
}

#[test]
fn whitespace_only_repository_name_is_rejected() {
    let m = manifest(1, vec![entry("a", "x"), entry("  \t", "y")]);
    assert!(check_manifest(m).is_err());
}

#[test]
fn workspace_resolution_prefers_flag_then_env_then_home_default() {
    let home = "/home/dev";
    assert_eq!(resolve_workspace(Some("/flag/ws"), Some("/env/ws"), home), "/flag/ws");
    assert_eq!(resolve_workspace(None, Some("/env/ws"), home), "/env/ws");
    assert_eq!(resolve_workspace(None, None, home), "/home/dev/src/zl_zpr");
}

#[test]
fn context_resolution_prefers_flag_then_workspace_child() {
    let workspace = "/home/dev/src/zl_zpr";
    assert_eq!(resolve_context(Some("/elsewhere/ctx"), workspace), "/elsewhere/ctx");
    assert_eq!(resolve_context(None, workspace), "/home/dev/src/zl_zpr/zl-zpr-dev-context");
}

#[test]
fn the_defaults_are_the_documented_names() {
    assert_eq!(default_branch(), "main");
    assert_eq!(default_local_context(), "AGENTS.repo.md");
    assert_eq!(default_generated_context(), "AGENTS.md");
    assert_eq!(default_documentation_root(), "docs");
}

#[test]
fn repo_lookup_finds_the_first_entry_of_a_name() {
    let m = manifest(1, vec![entry("a", "first"), entry("b", "x"), entry("a", "second")]);
    assert_eq!(m.repo("a").unwrap().url, "first");
    assert!(m.repo("c").is_none());
}
