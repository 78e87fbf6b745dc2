//! The git operations the tool relies on, over a runner that executes
//! `git <args>` in a directory and answers with its trimmed standard output
//! or its failure text. Which arguments each operation passes, and how its
//! answer is read, is decided and proved here; running `git` is the
//! runner's. Nothing here resets, rebases, stashes, switches branches or
//! pushes.

use vstd::prelude::*;

use crate::build::recipes::{strings_of, strings_view};
use crate::text::{
    join, lines, owned, parse_u64, str_eq, str_lines, str_parse_u64, to_chars, u64_parse_error,
    u64_parse_error_text,
};

verus! {

/// The view of a runner's answer.
pub open spec fn answer_view(r: Result<String, String>) -> Result<Seq<char>, Seq<char>> {
    match r {
        Ok(s) => Ok(s@),
        Err(e) => Err(e@),
    }
}

/// `git` answered `result` to `args` run in `dir`.
pub open spec fn git_ran<G: Fn(&str, &Vec<String>) -> Result<String, String>>(
    git: G,
    dir: Seq<char>,
    args: Seq<Seq<char>>,
    result: Result<Seq<char>, Seq<char>>,
) -> bool {
    exists|d: &str, a: &Vec<String>, r: Result<String, String>|
        #[trigger] call_ensures(git, (d, a), r) && d@ == dir && strings_view(a@) == args
            && answer_view(r) == result
}

/// `git rev-parse --short HEAD`.
pub open spec fn short_head_args() -> Seq<Seq<char>> {
    seq!["rev-parse"@, "--short"@, "HEAD"@]
}

/// `git rev-parse --abbrev-ref HEAD`.
pub open spec fn abbrev_ref_args() -> Seq<Seq<char>> {
    seq!["rev-parse"@, "--abbrev-ref"@, "HEAD"@]
}

/// `git status --porcelain --untracked-files=no`.
pub open spec fn status_args() -> Seq<Seq<char>> {
    seq!["status"@, "--porcelain"@, "--untracked-files=no"@]
}

/// `git rev-list --left-right --count HEAD...@{u}`.
pub open spec fn rev_list_args() -> Seq<Seq<char>> {
    seq!["rev-list"@, "--left-right"@, "--count"@, "HEAD...@{u}"@]
}

/// `git fetch`.
pub open spec fn fetch_args() -> Seq<Seq<char>> {
    seq!["fetch"@]
}

/// `git merge --ff-only @{u}`.
pub open spec fn ff_merge_args() -> Seq<Seq<char>> {
    seq!["merge"@, "--ff-only"@, "@{u}"@]
}

/// `git rev-parse --verify --quiet <rev>^{commit}`.
pub open spec fn rev_parse_args(rev: Seq<char>) -> Seq<Seq<char>> {
    seq!["rev-parse"@, "--verify"@, "--quiet"@, rev + "^{commit}"@]
}

/// `git tag --list`.
pub open spec fn tag_list_args() -> Seq<Seq<char>> {
    seq!["tag"@, "--list"@]
}

/// `git worktree remove --force <dest>`.
pub open spec fn worktree_remove_args(dest: Seq<char>) -> Seq<Seq<char>> {
    seq!["worktree"@, "remove"@, "--force"@, dest]
}

/// `git worktree prune`.
pub open spec fn prune_args() -> Seq<Seq<char>> {
    seq!["worktree"@, "prune"@]
}

/// Runs one git command through the runner.
fn run_git<G: Fn(&str, &Vec<String>) -> Result<String, String>>(
    git: &G,
    dir: &str,
    args: Vec<&str>,
) -> (r: Result<String, String>)
    requires
        forall|d: &str, a: &Vec<String>| call_requires(*git, (d, a)),
    ensures
        git_ran(*git, dir@, args@.map_values(|s: &str| s@), answer_view(r)),
{
    let owned_args = strings_of(&args);
    let r = git(dir, &owned_args);
    assert(call_ensures(*git, (dir, &owned_args), r));
    r
}

/// The text a failed git command reports: the arguments, the directory and
/// git's own error output.
pub fn git_failure(args: &Vec<String>, dir: &str, stderr: &str) -> (r: String)
    ensures
        r@ == "git "@ + join(strings_view(args@), " "@) + " failed in "@ + dir@ + ": "@ + stderr@,
{
    let mut r = owned("git ");
    let joined = crate::text::join_strings(args, " ");
    r.append(joined.as_str());
    r.append(" failed in ");
    r.append(dir);
    r.append(": ");
    r.append(stderr);
    r
}

/// The abbreviated commit hash of `HEAD`: what `git rev-parse --short HEAD`
/// answers.
pub fn head_short<G: Fn(&str, &Vec<String>) -> Result<String, String>>(dir: &str, git: &G) -> (r: Result<
    String,
    String,
>)
    requires
        forall|d: &str, a: &Vec<String>| call_requires(*git, (d, a)),
    ensures
        git_ran(*git, dir@, short_head_args(), answer_view(r)),
{
    let args = vec!["rev-parse", "--short", "HEAD"];
    assert(args@.map_values(|s: &str| s@) =~= short_head_args());
    run_git(git, dir, args)
}

/// The branch `git rev-parse --abbrev-ref HEAD` names, `None` for the
/// literal `HEAD` it reports when detached.
pub open spec fn branch_of(name: Seq<char>) -> Option<Seq<char>> {
    if name == "HEAD"@ {
        None
    } else {
        Some(name)
    }
}

/// The current branch name, or `None` when `HEAD` is detached.
pub fn branch<G: Fn(&str, &Vec<String>) -> Result<String, String>>(dir: &str, git: &G) -> (r: Result<
    Option<String>,
    String,
>)
    requires
        forall|d: &str, a: &Vec<String>| call_requires(*git, (d, a)),
    ensures
        exists|answer: Result<Seq<char>, Seq<char>>|
            #[trigger] git_ran(*git, dir@, abbrev_ref_args(), answer) && match (
                answer,
                r,
            ) {
                (Ok(name), Ok(b)) => branch_of(name) == match b {
                    Some(s) => Some(s@),
                    None => None::<Seq<char>>,
                },
                (Err(e), Err(f)) => e == f@,
                _ => false,
            },
{
    let args = vec!["rev-parse", "--abbrev-ref", "HEAD"];
    assert(args@.map_values(|s: &str| s@) =~= abbrev_ref_args());
    let r = run_git(git, dir, args);
    proof {
        reveal_strlit("HEAD");
    }
    match r {
        Ok(name) => {
            if str_eq(name.as_str(), "HEAD") {
                Ok(None)
            } else {
                Ok(Some(name))
            }
        },
        Err(e) => Err(e),
    }
}

/// True when the working tree has staged or unstaged changes to tracked
/// files: `git status --porcelain --untracked-files=no` printed anything.
/// Untracked files do not count, because the generated context files are
/// deliberately left untracked.
pub fn is_dirty<G: Fn(&str, &Vec<String>) -> Result<String, String>>(dir: &str, git: &G) -> (r: Result<
    bool,
    String,
>)
    requires
        forall|d: &str, a: &Vec<String>| call_requires(*git, (d, a)),
    ensures
        exists|answer: Result<Seq<char>, Seq<char>>|
            #[trigger] git_ran(
                *git,
                dir@,
                status_args(),
                answer,
            ) && match (answer, r) {
                (Ok(out), Ok(dirty)) => dirty == (out.len() > 0),
                (Err(e), Err(f)) => e == f@,
                _ => false,
            },
{
    let args = vec!["status", "--porcelain", "--untracked-files=no"];
    assert(args@.map_values(|s: &str| s@) =~= status_args());
    match run_git(git, dir, args) {
        Ok(out) => Ok(to_chars(out.as_str()).len() > 0),
        Err(e) => Err(e),
    }
}

/// `usize::from_str`.
pub open spec fn parse_usize(s: Seq<char>) -> Option<usize> {
    match parse_u64(s) {
        Some(n) => if n <= usize::MAX {
            Some(n as usize)
        } else {
            None
        },
        None => None,
    }
}

/// The text of the error `usize::from_str` reports for `s`.
pub uninterp spec fn usize_parse_error(s: Seq<char>) -> Seq<char>;

/// The display text of the `ParseIntError` that `s.parse::<usize>()`
/// returns for a string it rejects. Claims only that the text is a function
/// of `s`, named [`usize_parse_error`].
#[verifier::external_body]
fn usize_parse_error_text(s: &str) -> (r: String)
    requires
        parse_usize(s@) is None,
    ensures
        r@ == usize_parse_error(s@),
{
    match s.parse::<usize>() {
        Ok(_) => String::new(),
        Err(e) => e.to_string(),
    }
}

/// `usize::from_str`, with the error's text.
fn str_parse_usize(s: &str) -> (r: Result<usize, String>)
    ensures
        match r {
            Ok(n) => parse_usize(s@) == Some(n),
            Err(e) => parse_usize(s@) is None && e@ == usize_parse_error(s@),
        },
{
    match str_parse_u64(s) {
        Some(n) => {
            if n <= usize::MAX as u64 {
                Ok(n as usize)
            } else {
                Err(usize_parse_error_text(s))
            }
        },
        None => Err(usize_parse_error_text(s)),
    }
}

/// The whitespace-separated fields of `s`, as `str::split_whitespace`.
pub open spec fn fields(s: Seq<char>) -> Seq<Seq<char>>
    decreases s.len(),
{
    if s.len() == 0 {
        seq![]
    } else {
        let rest = fields(s.drop_last());
        if crate::text::is_ws(s.last()) {
            rest
        } else if s.len() >= 2 && !crate::text::is_ws(s[s.len() - 2]) && rest.len() > 0 {
            rest.update(rest.len() - 1, rest.last().push(s.last()))
        } else {
            rest.push(seq![s.last()])
        }
    }
}

/// How `git rev-list --left-right --count HEAD...@{u}` output reads: the
/// first two fields as (ahead, behind).
pub open spec fn counts_of(out: Seq<char>) -> Result<(usize, usize), Seq<char>> {
    let f = fields(out);
    if f.len() < 2 {
        Err("unexpected git rev-list output: "@ + crate::text::str_debug(out))
    } else {
        match parse_usize(f[0]) {
            None => Err(usize_parse_error(f[0])),
            Some(ahead) => match parse_usize(f[1]) {
                None => Err(usize_parse_error(f[1])),
                Some(behind) => Ok((ahead, behind)),
            },
        }
    }
}

/// The whitespace-separated fields of a string.
fn split_fields(s: &str) -> (r: Vec<String>)
    ensures
        strings_view(r@) == fields(s@),
{
    let v = to_chars(s);
    let mut r: Vec<String> = Vec::new();
    let mut i: usize = 0;
    assert(v@.take(0) =~= Seq::<char>::empty());
    while i < v.len()
        invariant
            i <= v.len(),
            v@ == s@,
            strings_view(r@) == fields(v@.take(i as int)),
        decreases v.len() - i,
    {
        let c = v[i];
        let ghost before = strings_view(r@);
        assert(v@.take(i + 1).drop_last() =~= v@.take(i as int));
        assert(v@.take(i + 1).last() == c);
        if crate::text::char_is_ws(c) {
        } else if i >= 1 && !crate::text::char_is_ws(v[i - 1]) && r.len() > 0 {
            assert(v@.take(i + 1)[i - 1] == v@[i - 1]);
            let last = r.len() - 1;
            let mut piece = owned(r[last].as_str());
            let one = s.substring_char(i, i + 1);
            assert(one@ =~= seq![c]);
            piece.append(one);
            assert(before[last as int] == r@[last as int]@);
            assert(piece@ =~= before.last().push(c));
            r.set(last, piece);
            assert(strings_view(r@) =~= before.update(before.len() - 1, before.last().push(c)));
        } else {
            if i >= 1 {
                assert(v@.take(i + 1)[i - 1] == v@[i - 1]);
            }
            let one = s.substring_char(i, i + 1);
            assert(one@ =~= seq![c]);
            r.push(owned(one));
            assert(strings_view(r@) =~= before.push(seq![c]));
        }
        i = i + 1;
    }
    assert(v@.take(v.len() as int) =~= v@);
    r
}

/// Commits ahead of, and behind, the upstream of the current branch. `None`
/// when git cannot compare (no upstream, or a detached `HEAD`), so callers
/// report "no upstream" rather than an error. Output that is not two counts
/// is an error.
pub fn ahead_behind<G: Fn(&str, &Vec<String>) -> Result<String, String>>(dir: &str, git: &G) -> (r:
    Result<Option<(usize, usize)>, String>)
    requires
        forall|d: &str, a: &Vec<String>| call_requires(*git, (d, a)),
    ensures
        exists|answer: Result<Seq<char>, Seq<char>>|
            #[trigger] git_ran(
                *git,
                dir@,
                rev_list_args(),
                answer,
            ) && match answer {
                Err(_) => r == Ok::<Option<(usize, usize)>, String>(None),
                Ok(out) => match (counts_of(out), r) {
                    (Ok(c), Ok(Some(d))) => c == d,
                    (Err(e), Err(f)) => e == f@,
                    _ => false,
                },
            },
{
    let args = vec!["rev-list", "--left-right", "--count", "HEAD...@{u}"];
    assert(args@.map_values(|s: &str| s@) =~= rev_list_args());
    let counts = match run_git(git, dir, args) {
        Ok(out) => out,
        Err(_) => return Ok(None),
    };
    let f = split_fields(counts.as_str());
    if f.len() < 2 {
        let mut e = owned("unexpected git rev-list output: ");
        let shown = crate::text::debug_str(counts.as_str());
        e.append(shown.as_str());
        return Err(e);
    }
    let ahead = match str_parse_usize(f[0].as_str()) {
        Ok(n) => n,
        Err(e) => return Err(e),
    };
    let behind = match str_parse_usize(f[1].as_str()) {
        Ok(n) => n,
        Err(e) => return Err(e),
    };
    Ok(Some((ahead, behind)))
}

/// Fetches from the default remote. Does not modify the working tree.
pub fn fetch<G: Fn(&str, &Vec<String>) -> Result<String, String>>(dir: &str, git: &G) -> (r: Result<
    (),
    String,
>)
    requires
        forall|d: &str, a: &Vec<String>| call_requires(*git, (d, a)),
    ensures
        exists|answer: Result<Seq<char>, Seq<char>>|
            #[trigger] git_ran(*git, dir@, fetch_args(), answer) && match (answer, r) {
                (Ok(_), Ok(_)) => true,
                (Err(e), Err(f)) => e == f@,
                _ => false,
            },
{
    let args = vec!["fetch"];
    assert(args@.map_values(|s: &str| s@) =~= fetch_args());
    match run_git(git, dir, args) {
        Ok(_) => Ok(()),
        Err(e) => Err(e),
    }
}

/// Fast-forwards the current branch onto its upstream. `false` when a
/// fast-forward is not possible, an expected outcome for a diverged branch
/// rather than a failure.
pub fn ff_merge<G: Fn(&str, &Vec<String>) -> Result<String, String>>(dir: &str, git: &G) -> (r: Result<
    bool,
    String,
>)
    requires
        forall|d: &str, a: &Vec<String>| call_requires(*git, (d, a)),
    ensures
        exists|answer: Result<Seq<char>, Seq<char>>|
            #[trigger] git_ran(*git, dir@, ff_merge_args(), answer) && r
                == Ok::<bool, String>(answer is Ok),
{
    let args = vec!["merge", "--ff-only", "@{u}"];
    assert(args@.map_values(|s: &str| s@) =~= ff_merge_args());
    let r = run_git(git, dir, args);
    Ok(r.is_ok())
}

/// The error for a ref the local repository cannot resolve: it names the
/// ref, because "unknown ref" with no ref is undiagnosable from a report.
pub open spec fn unknown_ref_message(rev: Seq<char>, dir: Seq<char>) -> Seq<char> {
    "unknown ref "@ + rev + " in "@ + dir + " (refs are resolved locally; zpr-dev never fetches)"@
}

/// Resolves `rev` (a tag, branch, short or full sha) to the full sha of the
/// commit it names, without fetching: `git rev-parse --verify --quiet
/// <rev>^{commit}`, which peels annotated tags. An unknown rev is an error
/// naming it.
pub fn rev_parse<G: Fn(&str, &Vec<String>) -> Result<String, String>>(dir: &str, rev: &str, git: &G) -> (r:
    Result<String, String>)
    requires
        forall|d: &str, a: &Vec<String>| call_requires(*git, (d, a)),
    ensures
        exists|answer: Result<Seq<char>, Seq<char>>|
            #[trigger] git_ran(
                *git,
                dir@,
                rev_parse_args(rev@),
                answer,
            ) && match (answer, r) {
                (Ok(sha), Ok(s)) => sha == s@,
                (Err(_), Err(e)) => e@ == unknown_ref_message(rev@, dir@),
                _ => false,
            },
{
    let mut target = owned(rev);
    target.append("^{commit}");
    let args = vec![owned("rev-parse"), owned("--verify"), owned("--quiet"), target];
    assert(strings_view(args@) =~= rev_parse_args(rev@));
    let r = git(dir, &args);
    assert(call_ensures(*git, (dir, &args), r));
    assert(git_ran(*git, dir@, strings_view(args@), answer_view(r)));
    match r {
        Ok(sha) => Ok(sha),
        Err(_) => {
            let mut e = owned("unknown ref ");
            e.append(rev);
            e.append(" in ");
            e.append(dir);
            e.append(" (refs are resolved locally; zpr-dev never fetches)");
            Err(e)
        },
    }
}

/// The non-empty lines of `out`, in order.
pub open spec fn nonempty_lines(ls: Seq<Seq<char>>) -> Seq<Seq<char>>
    decreases ls.len(),
{
    if ls.len() == 0 {
        seq![]
    } else {
        let rest = nonempty_lines(ls.drop_last());
        if ls.last().len() > 0 {
            rest.push(ls.last())
        } else {
            rest
        }
    }
}

/// The repository's tags, one per line from `git tag --list`; empty when
/// there are none.
pub fn tag_list<G: Fn(&str, &Vec<String>) -> Result<String, String>>(dir: &str, git: &G) -> (r: Result<
    Vec<String>,
    String,
>)
    requires
        forall|d: &str, a: &Vec<String>| call_requires(*git, (d, a)),
    ensures
        exists|answer: Result<Seq<char>, Seq<char>>|
            #[trigger] git_ran(*git, dir@, tag_list_args(), answer) && match (answer, r) {
                (Ok(out), Ok(tags)) => strings_view(tags@) == nonempty_lines(lines(out)),
                (Err(e), Err(f)) => e == f@,
                _ => false,
            },
{
    let args = vec!["tag", "--list"];
    assert(args@.map_values(|s: &str| s@) =~= tag_list_args());
    let out = match run_git(git, dir, args) {
        Ok(out) => out,
        Err(e) => return Err(e),
    };
    let all = str_lines(out.as_str());
    let ghost ls = all@.map_values(|l: &str| l@);
    let mut tags: Vec<String> = Vec::new();
    let mut i: usize = 0;
    while i < all.len()
        invariant
            i <= all.len(),
            ls == all@.map_values(|l: &str| l@),
            strings_view(tags@) == nonempty_lines(ls.take(i as int)),
        decreases all.len() - i,
    {
        assert(ls.take(i + 1).drop_last() =~= ls.take(i as int));
        assert(ls.take(i + 1).last() == all@[i as int]@);
        if to_chars(all[i]).len() > 0 {
            let ghost before = strings_view(tags@);
            let t = owned(all[i]);
            tags.push(t);
            assert(strings_view(tags@) =~= before.push(t@));
        }
        i = i + 1;
    }
    assert(ls.take(all.len() as int) =~= ls);
    Ok(tags)
}

/// Removes the worktree of `repo` at `dest` (`--force`: build worktrees are
/// throwaways) and then prunes stale administrative entries; the first
/// failure is the error.
pub fn worktree_remove<G: Fn(&str, &Vec<String>) -> Result<String, String>>(
    repo: &str,
    dest: &str,
    git: &G,
) -> (r: Result<(), String>)
    requires
        forall|d: &str, a: &Vec<String>| call_requires(*git, (d, a)),
    ensures
        exists|first: Result<Seq<char>, Seq<char>>|
            #[trigger] git_ran(*git, repo@, worktree_remove_args(dest@), first)
                && match first {
                Err(e) => r matches Err(f) && e == f@,
                Ok(_) => exists|second: Result<Seq<char>, Seq<char>>|
                    #[trigger] git_ran(*git, repo@, prune_args(), second) && match (
                        second,
                        r,
                    ) {
                        (Ok(_), Ok(_)) => true,
                        (Err(e), Err(f)) => e == f@,
                        _ => false,
                    },
            },
{
    let args = vec![owned("worktree"), owned("remove"), owned("--force"), owned(dest)];
    assert(strings_view(args@) =~= worktree_remove_args(dest@));
    let r1 = git(repo, &args);
    assert(call_ensures(*git, (repo, &args), r1));
    assert(git_ran(*git, repo@, strings_view(args@), answer_view(r1)));
    match r1 {
        Err(e) => return Err(e),
        Ok(_) => {},
    }
    let prune = vec!["worktree", "prune"];
    assert(prune@.map_values(|s: &str| s@) =~= prune_args());
    match run_git(git, repo, prune) {
        Ok(_) => Ok(()),
        Err(e) => Err(e),
    }
}


/// `git rev-parse --show-toplevel`.
pub open spec fn toplevel_args() -> Seq<Seq<char>> {
    seq!["rev-parse"@, "--show-toplevel"@]
}

/// `canonicalize` answered `result` for `path`: the canonical form of the
/// path, or the error resolving it.
pub open spec fn canonical_ran<C: Fn(&str) -> Result<String, String>>(
    canonicalize: C,
    path: Seq<char>,
    result: Result<Seq<char>, Seq<char>>,
) -> bool {
    exists|p: &str, r: Result<String, String>|
        #[trigger] call_ensures(canonicalize, (p,), r) && p@ == path && answer_view(r) == result
}

/// Whether two canonicalization answers name the same path.
pub open spec fn same_canonical(top: Result<Seq<char>, Seq<char>>, here: Result<Seq<char>, Seq<char>>) -> bool {
    match (top, here) {
        (Ok(a), Ok(b)) => a == b,
        _ => false,
    }
}

/// True when `dir` is itself the root of a Git working tree: git reports a
/// top level, and it resolves to the same canonical path as `dir`. A plain
/// directory inside a repository answers false, because its top level is
/// elsewhere; so does any directory git fails in.
pub fn is_repo<G: Fn(&str, &Vec<String>) -> Result<String, String>, C: Fn(&str) -> Result<String, String>>(
    dir: &str,
    git: &G,
    canonicalize: &C,
) -> (r: bool)
    requires
        forall|d: &str, a: &Vec<String>| call_requires(*git, (d, a)),
        forall|p: &str| call_requires(*canonicalize, (p,)),
    ensures
        (!r && exists|e: Seq<char>|
            #[trigger] git_ran(*git, dir@, toplevel_args(), Err(e))) || exists|
            t: Seq<char>,
            top: Result<Seq<char>, Seq<char>>,
            here: Result<Seq<char>, Seq<char>>,
        |
            #![trigger git_ran(*git, dir@, toplevel_args(), Ok(t)), canonical_ran(*canonicalize, t, top), canonical_ran(*canonicalize, dir@, here)]
            git_ran(*git, dir@, toplevel_args(), Ok(t)) && canonical_ran(*canonicalize, t, top)
                && canonical_ran(*canonicalize, dir@, here) && r == same_canonical(top, here),
{
    let args = vec!["rev-parse", "--show-toplevel"];
    assert(args@.map_values(|s: &str| s@) =~= toplevel_args());
    let toplevel = match run_git(git, dir, args) {
        Ok(t) => t,
        Err(e) => {
            assert(git_ran(*git, dir@, toplevel_args(), Err(e@)));
            return false;
        },
    };
    assert(git_ran(*git, dir@, toplevel_args(), Ok(toplevel@)));
    let tp = toplevel.as_str();
    let top = canonicalize(tp);
    assert(call_ensures(*canonicalize, (tp,), top));
    let ghost topv = answer_view(top);
    assert(canonical_ran(*canonicalize, toplevel@, topv));
    let here = canonicalize(dir);
    assert(call_ensures(*canonicalize, (dir,), here));
    let ghost herev = answer_view(here);
    assert(canonical_ran(*canonicalize, dir@, herev));
    match (top, here) {
        (Ok(a), Ok(b)) => str_eq(a.as_str(), b.as_str()),
        _ => false,
    }
}

/// The directory part of a path as `Path::parent` gives it; `None` for a
/// root or an empty path.
pub uninterp spec fn parent_path(p: Seq<char>) -> Option<Seq<char>>;

/// The view of an optional string.
pub open spec fn opt_string_view(o: Option<String>) -> Option<Seq<char>> {
    match o {
        Some(s) => Some(s@),
        None => None,
    }
}

/// `std::path::Path::parent`, as text. Claims only that the answer is a
/// function of the path, named [`parent_path`]; which directory that is for
/// a given path is left to the standard library.
#[verifier::external_body]
fn path_parent(p: &str) -> (r: Option<String>)
    ensures
        opt_string_view(r) == parent_path(p@),
{
    match std::path::Path::new(p).parent() {
        Some(d) => Some(d.to_string_lossy().into_owned()),
        None => None,
    }
}

/// The directory a clone into `dest` runs in: `dest`'s parent, or `.` when
/// it has none.
pub open spec fn clone_parent(dest: Seq<char>) -> Seq<char> {
    match parent_path(dest) {
        Some(d) => d,
        None => "."@,
    }
}

/// `git clone [--branch <branch>] <url> <dest>`.
pub open spec fn clone_args(url: Seq<char>, dest: Seq<char>, branch: Option<Seq<char>>) -> Seq<Seq<char>> {
    seq!["clone"@] + match branch {
        Some(b) => seq!["--branch"@, b],
        None => Seq::<Seq<char>>::empty(),
    } + seq![url, dest]
}

/// `f` answered `result` for `path`, where `f` reports only success or the
/// error text.
pub open spec fn done_ran<F: Fn(&str) -> Result<(), String>>(
    f: F,
    path: Seq<char>,
    result: Result<(), Seq<char>>,
) -> bool {
    exists|p: &str, r: Result<(), String>|
        #[trigger] call_ensures(f, (p,), r) && p@ == path && match (r, result) {
            (Ok(_), Ok(_)) => true,
            (Err(e), Err(f)) => e@ == f,
            _ => false,
        }
}

/// Clones `url` into `dest`, optionally at a specific branch. The parent
/// directory is created first (`make_dirs`), since a clone may target a
/// workspace that does not exist yet; git runs in that parent. The first
/// failure is the error.
pub fn clone<G: Fn(&str, &Vec<String>) -> Result<String, String>, M: Fn(&str) -> Result<(), String>>(
    url: &str,
    dest: &str,
    branch: Option<&str>,
    git: &G,
    make_dirs: &M,
) -> (r: Result<(), String>)
    requires
        forall|d: &str, a: &Vec<String>| call_requires(*git, (d, a)),
        forall|p: &str| call_requires(*make_dirs, (p,)),
    ensures
        exists|made: Result<(), Seq<char>>|
            #[trigger] done_ran(*make_dirs, clone_parent(dest@), made) && match made {
                Err(e) => r matches Err(f) && f@ == e,
                Ok(_) => exists|answer: Result<Seq<char>, Seq<char>>|
                    #[trigger] git_ran(
                        *git,
                        clone_parent(dest@),
                        clone_args(url@, dest@, crate::config::opt_view(branch)),
                        answer,
                    ) && match (answer, r) {
                        (Ok(_), Ok(_)) => true,
                        (Err(e), Err(f)) => e == f@,
                        _ => false,
                    },
            },
{
    let parent = match path_parent(dest) {
        Some(d) => d,
        None => owned("."),
    };
    proof {
        reveal_strlit(".");
    }
    assert(parent@ == clone_parent(dest@));
    let pp = parent.as_str();
    let made = make_dirs(pp);
    assert(call_ensures(*make_dirs, (pp,), made));
    match made {
        Err(e) => {
            assert(done_ran(*make_dirs, clone_parent(dest@), Err::<(), Seq<char>>(e@)));
            return Err(e);
        },
        Ok(_) => {
            assert(done_ran(*make_dirs, clone_parent(dest@), Ok::<(), Seq<char>>(())));
        },
    }
    let mut args: Vec<&str> = vec!["clone"];
    match branch {
        Some(b) => {
            args.push("--branch");
            args.push(b);
        },
        None => {},
    }
    args.push(url);
    args.push(dest);
    assert(args@.map_values(|s: &str| s@) =~= clone_args(url@, dest@, crate::config::opt_view(branch)));
    match run_git(git, parent.as_str(), args) {
        Ok(_) => Ok(()),
        Err(e) => Err(e),
    }
}

/// `git worktree add --detach <dest> <sha>`.
pub open spec fn worktree_add_args(dest: Seq<char>, sha: Seq<char>) -> Seq<Seq<char>> {
    seq!["worktree"@, "add"@, "--detach"@, dest, sha]
}

/// `occupied` answered `result` for `path`: whether something non-empty is
/// already there, or the error looking.
pub open spec fn occupied_ran<O: Fn(&str) -> Result<bool, String>>(
    occupied: O,
    path: Seq<char>,
    result: Result<bool, Seq<char>>,
) -> bool {
    exists|p: &str, r: Result<bool, String>|
        #[trigger] call_ensures(occupied, (p,), r) && p@ == path && match (r, result) {
            (Ok(a), Ok(b)) => a == b,
            (Err(e), Err(f)) => e@ == f,
            _ => false,
        }
}

/// The refusal for a worktree destination that already holds something.
pub open spec fn occupied_message(dest: Seq<char>) -> Seq<char> {
    "worktree destination "@ + dest + " already exists and is not empty; remove it or build with --force"@
}

/// Adds a detached worktree of `repo` at `dest`, checked out at `sha`: the
/// source checkout's branch, `HEAD` and working tree are untouched. A `dest`
/// that already exists and is not empty (as `occupied` reports) is refused
/// naming the path, before git is asked.
pub fn worktree_add<G: Fn(&str, &Vec<String>) -> Result<String, String>, O: Fn(&str) -> Result<bool, String>>(
    repo: &str,
    dest: &str,
    sha: &str,
    git: &G,
    occupied: &O,
) -> (r: Result<(), String>)
    requires
        forall|d: &str, a: &Vec<String>| call_requires(*git, (d, a)),
        forall|p: &str| call_requires(*occupied, (p,)),
    ensures
        exists|state: Result<bool, Seq<char>>|
            #[trigger] occupied_ran(*occupied, dest@, state) && match state {
                Err(e) => r matches Err(f) && f@ == e,
                Ok(true) => r matches Err(f) && f@ == occupied_message(dest@),
                Ok(false) => exists|answer: Result<Seq<char>, Seq<char>>|
                    #[trigger] git_ran(*git, repo@, worktree_add_args(dest@, sha@), answer) && match (
                        answer,
                        r,
                    ) {
                        (Ok(_), Ok(_)) => true,
                        (Err(e), Err(f)) => e == f@,
                        _ => false,
                    },
            },
{
    let state = occupied(dest);
    assert(call_ensures(*occupied, (dest,), state));
    match state {
        Err(e) => {
            assert(occupied_ran(*occupied, dest@, Err::<bool, Seq<char>>(e@)));
            return Err(e);
        },
        Ok(true) => {
            assert(occupied_ran(*occupied, dest@, Ok::<bool, Seq<char>>(true)));
            let mut m = owned("worktree destination ");
            m.append(dest);
            m.append(" already exists and is not empty; remove it or build with --force");
            return Err(m);
        },
        Ok(false) => {
            assert(occupied_ran(*occupied, dest@, Ok::<bool, Seq<char>>(false)));
        },
    }
    let args = vec!["worktree", "add", "--detach", dest, sha];
    assert(args@.map_values(|s: &str| s@) =~= worktree_add_args(dest@, sha@));
    match run_git(git, repo, args) {
        Ok(_) => Ok(()),
        Err(e) => Err(e),
    }
}

} // verus!
