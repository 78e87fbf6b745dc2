//! The build directory, the check of `dist/`, and the default build set.

use vstd::prelude::*;

use crate::build::gates::{
    Finding, GateError, ManifestSource, PinOccurrence, PinView, Severity, Version3, asks_tags,
    chain_text, compiler_version_finding, extract_pins, extract_pins_spec, findings_view,
    freshness_findings, gate_compiler_version, gate_freshness, gate_pin_agreement,
    gate_pin_agreement_spec, listed, package_version, package_version_from, pins_view,
    policy_min_compiler, policy_min_compiler_spec, sources_view, version3_display, version3_text,
};
use crate::build::recipes::strings_view;
use crate::build::{PinDrift, drift_view};
use crate::config::Manifest;
use crate::text::{decimal, join_path, owned, path_join, str_eq, to_chars, u64_to_string};
use crate::toml_tree::{TomlValue, parse_toml, table_get, toml_document, toml_get};

verus! {

// ---------------------------------------------------------------------------
// The build directory and dist/
// ---------------------------------------------------------------------------

/// The build directory: the one given, or `<workspace>/.zpr-build/<name>`.
pub open spec fn build_dir_spec(given: Option<Seq<char>>, workspace: Seq<char>, name: Seq<char>) -> Seq<char> {
    match given {
        Some(d) => d,
        None => path_join(path_join(workspace, ".zpr-build"@), name),
    }
}

/// The build directory: the one given, or `<workspace>/.zpr-build/<name>`.
pub fn build_dir_for(given: Option<&str>, workspace: &str, name: &str) -> (r: String)
    ensures
        r@ == build_dir_spec(crate::config::opt_view(given), workspace@, name@),
{
    match given {
        Some(d) => owned(d),
        None => {
            let root = join_path(workspace, ".zpr-build");
            join_path(root.as_str(), name)
        },
    }
}

/// `present` answered `answer` for whether something is at `path`.
pub open spec fn exists_probed<E: Fn(&str) -> bool>(present: E, path: Seq<char>, answer: bool) -> bool {
    exists|p: &str| #[trigger] call_ensures(present, (p,), answer) && p@ == path
}

/// The refusal of a build directory left over from a previous run.
pub open spec fn leftover_message(dir: Seq<char>) -> Seq<char> {
    "build directory "@ + dir + " already exists from a previous run; rerun with --force to remove and rebuild it"@
}

/// What preparing the build directory reports, given whether it existed,
/// what removing it answered (asked only under `force`), and what creating
/// `logs/` then `dist/` answered (each asked only when everything before it
/// succeeded).
pub open spec fn prepare_verdict(
    dir: Seq<char>,
    force: bool,
    existed: bool,
    removed: Result<(), Seq<char>>,
    logs: Result<(), Seq<char>>,
    dist: Result<(), Seq<char>>,
) -> Result<(), Seq<char>> {
    if existed && !force {
        Err(leftover_message(dir))
    } else if existed && removed is Err {
        Err("cannot remove "@ + dir + ": "@ + removed->Err_0)
    } else {
        match logs {
            Err(e) => Err("cannot create "@ + dir + "/logs: "@ + e),
            Ok(_) => match dist {
                Err(e) => Err("cannot create "@ + dir + "/dist: "@ + e),
                Ok(_) => Ok(()),
            },
        }
    }
}

/// Unregisters the worktrees a failed run retained under `<dir>/src`, best
/// effort: each entry naming a workspace repository has its worktree removed,
/// and when that fails the repository's stale registrations are pruned.
fn unregister_worktrees<
    L: Fn(&str) -> Option<Vec<String>>,
    G: Fn(&str, &Vec<String>) -> Result<String, String>,
    C: Fn(&str) -> Result<String, String>,
>(dir: &str, workspace: &str, list: &L, git: &G, canonicalize: &C)
    requires
        forall|p: &str| call_requires(*list, (p,)),
        forall|d: &str, a: &Vec<String>| call_requires(*git, (d, a)),
        forall|p: &str| call_requires(*canonicalize, (p,)),
{
    let src = join_path(dir, "src");
    let entries = match list(src.as_str()) {
        Some(entries) => entries,
        None => return,
    };
    let mut i: usize = 0;
    while i < entries.len()
        invariant
            i <= entries.len(),
            forall|d: &str, a: &Vec<String>| call_requires(*git, (d, a)),
            forall|p: &str| call_requires(*canonicalize, (p,)),
        decreases entries.len() - i,
    {
        let repo = join_path(workspace, entries[i].as_str());
        if crate::git::is_repo(repo.as_str(), git, canonicalize) {
            let dest = join_path(src.as_str(), entries[i].as_str());
            match crate::git::worktree_remove(repo.as_str(), dest.as_str(), git) {
                Ok(_) => {},
                Err(_) => {
                    let prune = vec![owned("worktree"), owned("prune")];
                    let _ = git(repo.as_str(), &prune);
                },
            }
        }
        i = i + 1;
    }
}

/// Creates the build directory with `logs/` and `dist/` inside. A directory
/// left over from a previous run is refused naming the path and `--force`,
/// because reusing half-built state is how silent staleness gets shipped;
/// with `force` it is removed entirely (after the worktrees a failed run
/// retained under `src/` are unregistered from their repositories, so the
/// next `git worktree add` is not refused) and recreated fresh.
pub fn prepare_build_dir<
    E: Fn(&str) -> bool,
    L: Fn(&str) -> Option<Vec<String>>,
    G: Fn(&str, &Vec<String>) -> Result<String, String>,
    C: Fn(&str) -> Result<String, String>,
    R: Fn(&str) -> Result<(), String>,
    M: Fn(&str) -> Result<(), String>,
>(
    dir: &str,
    force: bool,
    workspace: &str,
    present: &E,
    list: &L,
    git: &G,
    canonicalize: &C,
    remove_all: &R,
    make_dirs: &M,
) -> (r: Result<(), String>)
    requires
        forall|p: &str| call_requires(*present, (p,)),
        forall|p: &str| call_requires(*list, (p,)),
        forall|d: &str, a: &Vec<String>| call_requires(*git, (d, a)),
        forall|p: &str| call_requires(*canonicalize, (p,)),
        forall|p: &str| call_requires(*remove_all, (p,)),
        forall|p: &str| call_requires(*make_dirs, (p,)),
    ensures
        exists|
            existed: bool,
            removed: Result<(), Seq<char>>,
            logs: Result<(), Seq<char>>,
            dist: Result<(), Seq<char>>,
        |
            #![trigger prepare_verdict(dir@, force, existed, removed, logs, dist)]
            exists_probed(*present, dir@, existed) && (existed && force ==> crate::git::done_ran(
                *remove_all,
                dir@,
                removed,
            )) && (!(existed && (!force || removed is Err)) ==> crate::git::done_ran(
                *make_dirs,
                path_join(dir@, "logs"@),
                logs,
            )) && (!(existed && (!force || removed is Err)) && logs is Ok ==> crate::git::done_ran(
                *make_dirs,
                path_join(dir@, "dist"@),
                dist,
            )) && crate::build::staging::unit_view(r) == prepare_verdict(
                dir@,
                force,
                existed,
                removed,
                logs,
                dist,
            ),
{
    let existed = present(dir);
    assert(call_ensures(*present, (dir,), existed));
    assert(exists_probed(*present, dir@, existed));
    let ghost ok: Result<(), Seq<char>> = Ok(());
    let ghost mut removed: Result<(), Seq<char>> = Ok(());
    if existed {
        if !force {
            let mut m = owned("build directory ");
            m.append(dir);
            m.append(" already exists from a previous run; rerun with --force to remove and rebuild it");
            assert(crate::build::staging::unit_view(Err::<(), String>(m)) == prepare_verdict(dir@, force, existed, ok, ok, ok));
            return Err(m);
        }
        unregister_worktrees(dir, workspace, list, git, canonicalize);
        let done = remove_all(dir);
        assert(call_ensures(*remove_all, (dir,), done));
        proof {
            removed = crate::build::staging::unit_view(done);
        }
        assert(crate::git::done_ran(*remove_all, dir@, removed));
        match done {
            Err(e) => {
                let mut m = owned("cannot remove ");
                m.append(dir);
                m.append(": ");
                m.append(e.as_str());
                assert(crate::build::staging::unit_view(Err::<(), String>(m)) == prepare_verdict(dir@, force, existed, removed, ok, ok));
                return Err(m);
            },
            Ok(_) => {},
        }
    }
    let logs = join_path(dir, "logs");
    let lp = logs.as_str();
    let made_logs = make_dirs(lp);
    assert(call_ensures(*make_dirs, (lp,), made_logs));
    let ghost lv = crate::build::staging::unit_view(made_logs);
    assert(crate::git::done_ran(*make_dirs, path_join(dir@, "logs"@), lv));
    match made_logs {
        Err(e) => {
            let mut m = owned("cannot create ");
            m.append(dir);
            m.append("/logs: ");
            m.append(e.as_str());
            assert(crate::build::staging::unit_view(Err::<(), String>(m)) == prepare_verdict(dir@, force, existed, removed, lv, ok));
            return Err(m);
        },
        Ok(_) => {},
    }
    let dist = join_path(dir, "dist");
    let dp = dist.as_str();
    let made_dist = make_dirs(dp);
    assert(call_ensures(*make_dirs, (dp,), made_dist));
    let ghost dv = crate::build::staging::unit_view(made_dist);
    assert(crate::git::done_ran(*make_dirs, path_join(dir@, "dist"@), dv));
    match made_dist {
        Err(e) => {
            let mut m = owned("cannot create ");
            m.append(dir);
            m.append("/dist: ");
            m.append(e.as_str());
            assert(crate::build::staging::unit_view(Err::<(), String>(m)) == prepare_verdict(dir@, force, existed, removed, lv, dv));
            Err(m)
        },
        Ok(_) => {
            assert(crate::build::staging::unit_view(Ok::<(), String>(())) == prepare_verdict(dir@, force, existed, removed, lv, dv));
            Ok(())
        },
    }
}

/// `stat_mode` answered `result` for `path`: `Ok(None)` when no regular
/// file is there, its permission bits, or the error reading them.
pub open spec fn mode_statted<S: Fn(&str) -> Result<Option<u32>, String>>(
    stat_mode: S,
    path: Seq<char>,
    result: Result<Option<u32>, Seq<char>>,
) -> bool {
    exists|p: &str, r: Result<Option<u32>, String>|
        #[trigger] call_ensures(stat_mode, (p,), r) && p@ == path && match (r, result) {
            (Ok(a), Ok(b)) => a == b,
            (Err(e), Err(f)) => e@ == f,
            _ => false,
        }
}

/// The views of a list of names.
pub open spec fn names_view(v: Seq<&str>) -> Seq<Seq<char>> {
    v.map_values(|e: &str| e@)
}

/// The view of a `stat_mode` answer.
pub open spec fn mode_view(r: Result<Option<u32>, String>) -> Result<Option<u32>, Seq<char>> {
    match r {
        Ok(m) => Ok(m),
        Err(e) => Err(e@),
    }
}

/// The problems the first `n` expected binaries show, given what statting
/// them answered, or the first stat error.
pub open spec fn dist_problems(
    dist: Seq<char>,
    expected: Seq<Seq<char>>,
    answers: Seq<Result<Option<u32>, Seq<char>>>,
    n: int,
) -> Result<Seq<Seq<char>>, Seq<char>>
    decreases n,
{
    if n <= 0 {
        Ok(seq![])
    } else {
        match dist_problems(dist, expected, answers, n - 1) {
            Err(e) => Err(e),
            Ok(ps) => match answers[n - 1] {
                Err(e) => Err("cannot stat "@ + path_join(dist, expected[n - 1]) + ": "@ + e),
                Ok(None) => Ok(ps.push(expected[n - 1] + ": missing from "@ + dist)),
                Ok(Some(mode)) => if mode & 0o111u32 == 0 {
                    Ok(ps.push(expected[n - 1] + ": present but not executable"@))
                } else {
                    Ok(ps)
                },
            },
        }
    }
}

/// What verifying `dist/` reports for these problems.
pub open spec fn dist_verdict(problems: Result<Seq<Seq<char>>, Seq<char>>) -> Result<(), Seq<char>> {
    match problems {
        Err(e) => Err(e),
        Ok(ps) => if ps.len() == 0 {
            Ok(())
        } else {
            Err("dist/ verification failed:\n  "@ + crate::text::join(ps, "\n  "@))
        },
    }
}

/// Verifies that every expected binary exists in `dist/` and is executable.
/// All missing or non-executable names are collected into one error, so a
/// run with two broken recipes reports both; a file whose permissions cannot
/// be read ends the check with that error.
pub fn verify_dist<S: Fn(&str) -> Result<Option<u32>, String>>(
    dist: &str,
    expected: &[&str],
    stat_mode: &S,
) -> (r: Result<(), String>)
    requires
        forall|p: &str| call_requires(*stat_mode, (p,)),
    ensures
        exists|answers: Seq<Result<Option<u32>, Seq<char>>>|
            answers.len() <= expected@.len() && (forall|k: int|
                0 <= k < answers.len() ==> mode_statted(
                    *stat_mode,
                    path_join(dist@, expected@[k]@),
                    #[trigger] answers[k],
                )) && (answers.len() < expected@.len() ==> dist_problems(
                dist@,
                names_view(expected@),
                answers,
                answers.len() as int,
            ) is Err) && dist_verdict(
                #[trigger] dist_problems(
                    dist@,
                    names_view(expected@),
                    answers,
                    answers.len() as int,
                ),
            ) == match r {
                Ok(_) => Ok::<(), Seq<char>>(()),
                Err(e) => Err(e@),
            },
{
    let ghost ev = names_view(expected@);
    let ghost mut answers: Seq<Result<Option<u32>, Seq<char>>> = seq![];
    let mut problems: Vec<String> = Vec::new();
    let mut i: usize = 0;
    assert(strings_view(problems@) =~= Seq::<Seq<char>>::empty());
    while i < expected.len()
        invariant
            i <= expected.len(),
            ev == names_view(expected@),
            forall|p: &str| call_requires(*stat_mode, (p,)),
            answers.len() == i,
            forall|k: int|
                0 <= k < i ==> mode_statted(*stat_mode, path_join(dist@, expected@[k]@), #[trigger] answers[k]),
            dist_problems(dist@, ev, answers, i as int) == Ok::<Seq<Seq<char>>, Seq<char>>(
                strings_view(problems@),
            ),
        decreases expected.len() - i,
    {
        let name = expected[i];
        assert(ev[i as int] == name@);
        let path = join_path(dist, name);
        let p = path.as_str();
        let answer = stat_mode(p);
        assert(call_ensures(*stat_mode, (p,), answer));
        let ghost old_answers = answers;
        let ghost av = mode_view(answer);
        proof {
            answers = answers.push(av);
            assert(mode_statted(*stat_mode, path_join(dist@, expected@[i as int]@), answers[i as int]));
            lemma_dist_prefix(dist@, ev, answers, old_answers, i as int);
        }
        let ghost before = strings_view(problems@);
        match answer {
            Err(e) => {
                let mut m = owned("cannot stat ");
                m.append(p);
                m.append(": ");
                m.append(e.as_str());
                proof {
                    assert(answers[i as int] == Err::<Option<u32>, Seq<char>>(e@));
                    assert(path@ == path_join(dist@, ev[i as int]));
                    assert(dist_problems(dist@, ev, answers, i + 1) == Err::<Seq<Seq<char>>, Seq<char>>(m@));
                    assert(dist_verdict(dist_problems(dist@, names_view(expected@), answers, answers.len() as int)) == Err::<(), Seq<char>>(m@));
                }
                return Err(m);
            },
            Ok(None) => {
                let mut m = owned(name);
                m.append(": missing from ");
                m.append(dist);
                problems.push(m);
                assert(strings_view(problems@) =~= before.push(m@));
            },
            Ok(Some(mode)) => {
                if mode & 0o111u32 == 0 {
                    let mut m = owned(name);
                    m.append(": present but not executable");
                    problems.push(m);
                    assert(strings_view(problems@) =~= before.push(m@));
                }
            },
        }
        i = i + 1;
    }
    if problems.len() > 0 {
        let mut m = owned("dist/ verification failed:\n  ");
        let joined = crate::text::join_strings(&problems, "\n  ");
        m.append(joined.as_str());
        return Err(m);
    }
    Ok(())
}

/// The problems after `n` binaries read only the first `n` answers.
proof fn lemma_dist_prefix(
    dist: Seq<char>,
    expected: Seq<Seq<char>>,
    a: Seq<Result<Option<u32>, Seq<char>>>,
    b: Seq<Result<Option<u32>, Seq<char>>>,
    n: int,
)
    requires
        0 <= n <= a.len(),
        n <= b.len(),
        forall|k: int| 0 <= k < n ==> a[k] == b[k],
    ensures
        dist_problems(dist, expected, a, n) == dist_problems(dist, expected, b, n),
    decreases n,
{
    if n > 0 {
        lemma_dist_prefix(dist, expected, a, b, n - 1);
    }
}

/// Just past the last `.` of `s`, or 0 when it has none.
pub open spec fn last_dot_end(s: Seq<char>) -> int
    decreases s.len(),
{
    if s.len() == 0 {
        0
    } else if s.last() == '.' {
        s.len() as int
    } else {
        last_dot_end(s.drop_last())
    }
}

/// A file name's extension as `Path::extension` gives it: what follows the
/// last `.`, unless that dot starts the name or there is none.
pub open spec fn extension(name: Seq<char>) -> Option<Seq<char>> {
    let k = last_dot_end(name);
    if k <= 1 {
        None
    } else {
        Some(name.skip(k))
    }
}

/// A directory entry is a build-set candidate: a regular file named
/// `*.yaml` or `*.yml`.
pub open spec fn is_candidate(entry: (Seq<char>, bool)) -> bool {
    entry.1 && (extension(entry.0) == Some("yaml"@) || extension(entry.0) == Some("yml"@))
}

/// The extension of a file name.
fn extension_of(name: &str) -> (r: Option<&str>)
    ensures
        match r {
            Some(e) => extension(name@) == Some(e@),
            None => extension(name@) is None,
        },
{
    let v = to_chars(name);
    let mut k: usize = v.len();
    assert(v@.take(k as int) =~= v@);
    while k > 0 && v[k - 1] != '.'
        invariant
            k <= v.len(),
            v@ == name@,
            last_dot_end(name@) == last_dot_end(v@.take(k as int)),
        decreases k,
    {
        assert(v@.take(k as int).drop_last() =~= v@.take(k - 1));
        k = k - 1;
    }
    if k <= 1 {
        None
    } else {
        let e = name.substring_char(k, v.len());
        assert(e@ =~= name@.skip(k as int));
        Some(e)
    }
}

/// The newest build set among a `build-sets/` listing: the candidate whose
/// name sorts last. Set names are dates, so the newest name is the newest
/// set, and a rename cannot silently change which set builds.
pub open spec fn newest_candidate(entries: Seq<(Seq<char>, bool)>, n: int) -> Option<Seq<char>>
    decreases n,
{
    if n <= 0 {
        None
    } else {
        let rest = newest_candidate(entries, n - 1);
        if !is_candidate(entries[n - 1]) {
            rest
        } else {
            match rest {
                Some(best) => if crate::order::str_lt(best, entries[n - 1].0) {
                    Some(entries[n - 1].0)
                } else {
                    Some(best)
                },
                None => Some(entries[n - 1].0),
            }
        }
    }
}

/// Picks the default build set from the listing of `<context>/build-sets/`
/// (file name and whether it is a regular file; `None` when the directory
/// cannot be read): the newest `.yaml`/`.yml` file by name.
pub fn default_manifest_path(context: &str, listing: Option<&Vec<(String, bool)>>) -> (r: Result<String, String>)
    ensures
        match listing {
            None => r matches Err(e) && e@ == "no build-sets/ directory in "@ + context@
                + "; pass --manifest <path> or --tip"@,
            Some(entries) => {
                let ev = entries@.map_values(|e: (String, bool)| (e.0@, e.1));
                match newest_candidate(ev, ev.len() as int) {
                    Some(name) => r matches Ok(p) && p@ == path_join(
                        path_join(context@, "build-sets"@),
                        name,
                    ),
                    None => r matches Err(e) && e@ == "build-sets/ in "@ + context@
                        + " is empty; pass --manifest <path> or --tip"@,
                }
            },
        },
{
    proof {
        reveal_strlit("yaml");
        reveal_strlit("yml");
    }
    let entries = match listing {
        None => {
            let mut e = owned("no build-sets/ directory in ");
            e.append(context);
            e.append("; pass --manifest <path> or --tip");
            return Err(e);
        },
        Some(entries) => entries,
    };
    let ghost ev = entries@.map_values(|e: (String, bool)| (e.0@, e.1));
    let mut best: Option<&String> = None;
    let mut i: usize = 0;
    while i < entries.len()
        invariant
            i <= entries.len(),
            ev == entries@.map_values(|e: (String, bool)| (e.0@, e.1)),
            match best {
                Some(b) => newest_candidate(ev, i as int) == Some(b@),
                None => newest_candidate(ev, i as int) is None,
            },
        decreases entries.len() - i,
    {
        let (name, is_file) = (&entries[i].0, entries[i].1);
        assert(ev[i as int] == (name@, is_file));
        let candidate = is_file && match extension_of(name.as_str()) {
            Some(e) => str_eq(e, "yaml") || str_eq(e, "yml"),
            None => false,
        };
        if candidate {
            let better = match best {
                Some(b) => crate::order::str_less(b.as_str(), name.as_str()),
                None => true,
            };
            if better {
                best = Some(name);
            }
        }
        i = i + 1;
    }
    match best {
        Some(name) => {
            let dir = join_path(context, "build-sets");
            Ok(join_path(dir.as_str(), name.as_str()))
        },
        None => {
            let mut e = owned("build-sets/ in ");
            e.append(context);
            e.append(" is empty; pass --manifest <path> or --tip");
            Err(e)
        },
    }
}

} // verus!
