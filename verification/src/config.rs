//! The workspace manifest (`workspace.yaml`): its shape, the defaults an
//! omitted field takes, the structural checks every command relies on, and
//! the rules for locating the workspace and the context checkout. Reading
//! and deserializing the file is the caller's; what it must satisfy is here.

use vstd::prelude::*;

use crate::text::{decimal, join_path, owned, path_join, str_eq, str_trim, to_chars, trim, u64_to_string};

verus! {

/// Directory name of the context checkout inside the workspace.
pub const CONTEXT_DIR_NAME: &'static str = "zl-zpr-dev-context";

/// The manifest's file name inside the context checkout.
pub const MANIFEST_FILE: &'static str = "workspace.yaml";

/// `workspace.yaml` in full. Unknown keys are ignored on purpose, so the
/// manifest can grow ahead of the tool.
#[derive(Debug)]
pub struct Manifest {
    pub version: u32,
    /// Informational only; nothing acts on the workspace name.
    pub workspace: WorkspaceMeta,
    pub repositories: Vec<Repo>,
    pub documentation: Documentation,
    pub agent: AgentConfig,
}

/// Informational only; nothing acts on it.
#[derive(Debug, Default)]
pub struct WorkspaceMeta {
    pub name: Option<String>,
}

/// One repository to clone into the workspace.
#[derive(Debug)]
pub struct Repo {
    pub name: String,
    pub url: String,
    pub default_branch: String,
    pub context: RepoContext,
}

/// Per-repository context file names.
#[derive(Debug)]
pub struct RepoContext {
    /// Hand-written, repository-specific context, merged in when present.
    pub local: String,
    /// The file `zpr-dev` generates and owns.
    pub generated: String,
}

/// Where the shared documentation tree lives inside the context checkout.
#[derive(Debug)]
pub struct Documentation {
    pub root: String,
}

/// Agent-specific settings. Parsed and validated for existence only.
#[derive(Debug, Default)]
pub struct AgentConfig {
    pub hermes: Option<HermesConfig>,
}

#[derive(Debug)]
pub struct HermesConfig {
    pub shared_skills: Option<String>,
}

/// The branch a repository entry without `default_branch` gets.
pub fn default_branch() -> (r: String)
    ensures
        r@ == "main"@,
{
    owned("main")
}

/// The hand-written context file name an entry without one gets.
pub fn default_local_context() -> (r: String)
    ensures
        r@ == "AGENTS.repo.md"@,
{
    owned("AGENTS.repo.md")
}

/// The generated context file name an entry without one gets.
pub fn default_generated_context() -> (r: String)
    ensures
        r@ == "AGENTS.md"@,
{
    owned("AGENTS.md")
}

/// The documentation root a manifest without one gets.
pub fn default_documentation_root() -> (r: String)
    ensures
        r@ == "docs"@,
{
    owned("docs")
}

impl Default for RepoContext {
    /// An omitted `context:` block gets both file-name defaults.
    fn default() -> (r: RepoContext)
        ensures
            r.local@ == "AGENTS.repo.md"@,
            r.generated@ == "AGENTS.md"@,
    {
        RepoContext { local: default_local_context(), generated: default_generated_context() }
    }
}

impl Default for Documentation {
    /// An omitted `documentation:` block gets the default root.
    fn default() -> (r: Documentation)
        ensures
            r.root@ == "docs"@,
    {
        Documentation { root: default_documentation_root() }
    }
}

/// The only manifest version this tool understands.
pub open spec fn supported_version() -> u32 {
    1
}

/// The names of a manifest's repositories.
pub open spec fn repo_names(repos: Seq<Repo>) -> Seq<Seq<char>> {
    repos.map_values(|r: Repo| r.name@)
}

/// Index `i` repeats an earlier repository name.
pub open spec fn repeats_earlier(names: Seq<Seq<char>>, i: int) -> bool {
    exists|j: int| 0 <= j < i && names[j] == #[trigger] names[i]
}

/// The first structural problem among the first `n` repositories, checked in
/// order: an empty (after trimming) name, then a name seen before.
pub open spec fn repo_problem(names: Seq<Seq<char>>, n: int) -> Option<Seq<char>>
    decreases n,
{
    if n <= 0 {
        None
    } else {
        match repo_problem(names, n - 1) {
            Some(p) => Some(p),
            None => if trim(names[n - 1]).len() == 0 {
                Some("manifest contains a repository with an empty name"@)
            } else if repeats_earlier(names, n - 1) {
                Some("duplicate repository name: "@ + names[n - 1])
            } else {
                None
            },
        }
    }
}

/// Once a problem is found, it is the first problem of any longer prefix.
proof fn lemma_problem_sticks(names: Seq<Seq<char>>, k: int, n: int)
    requires
        0 < k <= n,
        repo_problem(names, k) is Some,
    ensures
        repo_problem(names, n) == repo_problem(names, k),
    decreases n - k,
{
    if n > k {
        lemma_problem_sticks(names, k, n - 1);
    }
}

/// The manifest's first structural problem: an unsupported version, no
/// repositories, then the first bad repository entry.
pub open spec fn manifest_problem(version: u32, names: Seq<Seq<char>>) -> Option<Seq<char>> {
    if version != supported_version() {
        Some(
            "unsupported manifest version "@ + decimal(version as nat) + " (expected "@ + decimal(
                supported_version() as nat,
            ) + ")"@,
        )
    } else if names.len() == 0 {
        Some("manifest lists no repositories"@)
    } else {
        repo_problem(names, names.len() as int)
    }
}

/// Applies the manifest's structural checks, handing the manifest back when
/// it passes: version 1, at least one repository, and every repository name
/// non-empty after trimming and unique. The first failing check is the
/// error.
pub fn check_manifest(manifest: Manifest) -> (r: Result<Manifest, String>)
    ensures
        match r {
            Ok(m) => m == manifest && manifest_problem(manifest.version, repo_names(manifest.repositories@)) is None,
            Err(e) => manifest_problem(manifest.version, repo_names(manifest.repositories@)) == Some(e@),
        },
{
    let ghost names = repo_names(manifest.repositories@);
    if manifest.version != 1 {
        let mut e = owned("unsupported manifest version ");
        let v = u64_to_string(manifest.version as u64);
        e.append(v.as_str());
        e.append(" (expected ");
        e.append("1");
        e.append(")");
        proof {
            reveal_strlit("1");
            assert(decimal(1nat) =~= "1"@);
        }
        return Err(e);
    }
    if manifest.repositories.len() == 0 {
        return Err(owned("manifest lists no repositories"));
    }
    let mut i: usize = 0;
    while i < manifest.repositories.len()
        invariant
            i <= manifest.repositories.len(),
            names == repo_names(manifest.repositories@),
            repo_problem(names, i as int) is None,
            manifest.version == 1,
            names.len() == manifest.repositories.len(),
            names.len() > 0,
        decreases manifest.repositories.len() - i,
    {
        let name = manifest.repositories[i].name.as_str();
        assert(names[i as int] == name@);
        if to_chars(str_trim(name)).len() == 0 {
            proof {
                assert(repo_problem(names, i + 1) is Some);
                lemma_problem_sticks(names, i + 1, names.len() as int);
            }
            return Err(owned("manifest contains a repository with an empty name"));
        }
        let mut j: usize = 0;
        while j < i
            invariant
                j <= i < manifest.repositories.len(),
                names == repo_names(manifest.repositories@),
                name@ == names[i as int],
                forall|k: int| 0 <= k < j ==> names[k] != names[i as int],
                repo_problem(names, i as int) is None,
                trim(names[i as int]).len() != 0,
                manifest.version == 1,
                names.len() == manifest.repositories.len(),
            decreases i - j,
        {
            assert(names[j as int] == manifest.repositories@[j as int].name@);
            if str_eq(manifest.repositories[j].name.as_str(), name) {
                assert(repeats_earlier(names, i as int));
                let mut e = owned("duplicate repository name: ");
                e.append(name);
                proof {
                    lemma_problem_sticks(names, i + 1, names.len() as int);
                }
                return Err(e);
            }
            j = j + 1;
        }
        assert(!repeats_earlier(names, i as int));
        i = i + 1;
    }
    Ok(manifest)
}

impl Manifest {
    /// The first repository named `name`.
    pub fn repo(&self, name: &str) -> (r: Option<&Repo>)
        ensures
            match r {
                Some(repo) => repo.name@ == name@ && exists|i: int|
                    0 <= i < self.repositories@.len() && self.repositories@[i] == *repo && (forall|
                        j: int,
                    | 0 <= j < i ==> #[trigger] self.repositories@[j].name@ != name@),
                None => forall|i: int|
                    0 <= i < self.repositories@.len() ==> #[trigger] self.repositories@[i].name@
                        != name@,
            },
    {
        let mut i: usize = 0;
        while i < self.repositories.len()
            invariant
                i <= self.repositories.len(),
                forall|j: int| 0 <= j < i ==> #[trigger] self.repositories@[j].name@ != name@,
            decreases self.repositories.len() - i,
        {
            if str_eq(self.repositories[i].name.as_str(), name) {
                return Some(&self.repositories[i]);
            }
            i = i + 1;
        }
        None
    }
}

/// The workspace a flag, `$ZPR_WORKSPACE` and the home directory pick.
pub open spec fn workspace_choice(flag: Option<Seq<char>>, env: Option<Seq<char>>, home: Seq<char>) -> Seq<
    char,
> {
    match (flag, env) {
        (Some(path), _) => path,
        (None, Some(value)) => value,
        (None, None) => path_join(path_join(home, "src"@), "zl_zpr"@),
    }
}

/// The view of an optional string.
pub open spec fn opt_view(o: Option<&str>) -> Option<Seq<char>> {
    match o {
        Some(s) => Some(s@),
        None => None,
    }
}

/// Picks the workspace directory: explicit flag, then `$ZPR_WORKSPACE`, then
/// `<home>/src/zl_zpr`.
pub fn resolve_workspace(flag: Option<&str>, env: Option<&str>, home: &str) -> (r: String)
    ensures
        r@ == workspace_choice(opt_view(flag), opt_view(env), home@),
{
    match (flag, env) {
        (Some(path), _) => owned(path),
        (None, Some(value)) => owned(value),
        (None, None) => {
            let src = join_path(home, "src");
            join_path(src.as_str(), "zl_zpr")
        },
    }
}

/// Picks the context checkout: explicit flag, else the conventional child of
/// the workspace.
pub fn resolve_context(flag: Option<&str>, workspace: &str) -> (r: String)
    ensures
        r@ == match flag {
            Some(path) => path@,
            None => path_join(workspace@, "zl-zpr-dev-context"@),
        },
{
    match flag {
        Some(path) => owned(path),
        None => join_path(workspace, CONTEXT_DIR_NAME),
    }
}

} // verus!
