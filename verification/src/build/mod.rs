//! The `build` command's logic: build sets and their checks, ref resolution,
//! the emitted manifest, and the gates, recipes and test tiers below.

use vstd::prelude::*;

use crate::build::gates::{
    Finding, GateError, ManifestSource, PinOccurrence, PinView, Severity, Version3, chain_text,
    compiler_version_finding, extract_pins, extract_pins_spec, findings_view, freshness_findings,
    gate_compiler_version, gate_freshness, gate_pin_agreement, gate_pin_agreement_spec,
    package_version, package_version_from, pins_view, policy_min_compiler, policy_min_compiler_spec,
    asks_tags, listed, sources_view, version3_display, version3_text,
};
use crate::build::recipes::strings_view;
use crate::config::Manifest;
use crate::toml_tree::{TomlValue, parse_toml, table_get, toml_document, toml_get};
use crate::git::{git_ran, rev_parse, rev_parse_args, unknown_ref_message};
use crate::order::StrMap;
use crate::text::{
    contains, decimal, join_path, owned, path_join, str_contains, str_debug, str_eq, str_trim,
    to_chars, trim, u64_to_string,
};

pub mod command;
pub mod dist;
pub mod emitted;
pub mod execute;
pub mod plan;
pub mod gates;
pub mod recipes;
pub mod report;
pub mod scan;
pub mod staging;
pub mod tiers;

verus! {

/// The only build-set version this tool understands.
pub open spec fn build_set_version() -> u32 {
    1
}

/// One tolerated pin disagreement. The reason is mandatory: it is the
/// approved record of why the divergence is acceptable.
#[derive(Debug, Clone)]
pub struct PinDrift {
    pub crate_name: String,
    pub reason: String,
}

/// The views of drift entries: crate and reason.
pub open spec fn drift_view(drift: Seq<PinDrift>) -> Seq<(Seq<char>, Seq<char>)> {
    drift.map_values(|d: PinDrift| (d.crate_name@, d.reason@))
}

/// A build set: the input manifest of a build. Unknown keys are ignored on
/// purpose, which is also what makes an emitted manifest valid input.
#[derive(Debug)]
pub struct BuildSet {
    pub version: u32,
    /// Names the build and its dist directory.
    pub name: String,
    /// Repository name to tag, branch or sha, in name order.
    pub repositories: StrMap,
    /// Known pin divergences, each with its approved reason.
    pub allow_pin_drift: Vec<PinDrift>,
}

/// A build-set name that could escape the build root: it holds a path
/// separator, or is `.` or `..`.
pub open spec fn unsafe_name(name: Seq<char>) -> bool {
    contains(name, "/"@) || contains(name, "\\"@) || name == "."@ || name == ".."@
}

/// The first entry among the first `n` whose ref is empty after trimming.
pub open spec fn empty_ref(entries: Seq<(Seq<char>, Seq<char>)>, n: int) -> Option<Seq<char>>
    decreases n,
{
    if n <= 0 {
        None
    } else {
        match empty_ref(entries, n - 1) {
            Some(k) => Some(k),
            None => if trim(entries[n - 1].1).len() == 0 {
                Some(entries[n - 1].0)
            } else {
                None
            },
        }
    }
}

/// The first drift entry among the first `n` without a reason.
pub open spec fn reasonless(drift: Seq<(Seq<char>, Seq<char>)>, n: int) -> Option<Seq<char>>
    decreases n,
{
    if n <= 0 {
        None
    } else {
        match reasonless(drift, n - 1) {
            Some(c) => Some(c),
            None => if trim(drift[n - 1].1).len() == 0 {
                Some(drift[n - 1].0)
            } else {
                None
            },
        }
    }
}

/// The build set's first structural problem, checked in order: the version,
/// an empty name, a name that is not one safe path component, no
/// repositories, an empty ref (in name order), a drift entry without a
/// reason.
pub open spec fn build_set_problem(
    version: u32,
    name: Seq<char>,
    entries: Seq<(Seq<char>, Seq<char>)>,
    drift: Seq<(Seq<char>, Seq<char>)>,
) -> Option<Seq<char>> {
    if version != build_set_version() {
        Some(
            "unsupported build-set version "@ + decimal(version as nat) + " (expected "@ + decimal(
                build_set_version() as nat,
            ) + ")"@,
        )
    } else if trim(name).len() == 0 {
        Some("build set has an empty name; the name labels the build and its dist directory"@)
    } else if unsafe_name(name) {
        Some(
            "build set name "@ + str_debug(name)
                + " is not a single safe path component; it names the build directory, so it must contain no path separators and must not be `.` or `..`"@,
        )
    } else if entries.len() == 0 {
        Some("build set lists no repositories"@)
    } else if empty_ref(entries, entries.len() as int) is Some {
        Some("repository "@ + empty_ref(entries, entries.len() as int)->Some_0 + " has an empty ref"@)
    } else if reasonless(drift, drift.len() as int) is Some {
        Some(
            "allow_pin_drift entry for crate `"@ + reasonless(drift, drift.len() as int)->Some_0
                + "` has no reason; every entry must say why"@,
        )
    } else {
        None
    }
}

/// Whether `s` is empty after trimming.
fn blank(s: &str) -> (r: bool)
    ensures
        r == (trim(s@).len() == 0),
{
    to_chars(str_trim(s)).len() == 0
}

/// Applies the build set's structural checks that need no workspace
/// manifest, handing the set back when it passes. The name becomes a
/// filesystem path and `--force` removes that directory wholesale, so it must
/// be one plain path component. The first failing check is the error.
pub fn check_build_set(set: BuildSet) -> (r: Result<BuildSet, String>)
    ensures
        match r {
            Ok(s) => s == set && build_set_problem(
                set.version,
                set.name@,
                set.repositories.entry_seq(),
                drift_view(set.allow_pin_drift@),
            ) is None,
            Err(e) => build_set_problem(
                set.version,
                set.name@,
                set.repositories.entry_seq(),
                drift_view(set.allow_pin_drift@),
            ) == Some(e@),
        },
{
    proof {
        reveal_strlit("1");
        reveal_strlit("/");
        reveal_strlit("\\");
        reveal_strlit(".");
        reveal_strlit("..");
        assert(decimal(1nat) =~= "1"@);
    }
    let ghost entries = set.repositories.entry_seq();
    let ghost dv = drift_view(set.allow_pin_drift@);
    if set.version != 1 {
        let mut e = owned("unsupported build-set version ");
        let v = u64_to_string(set.version as u64);
        e.append(v.as_str());
        e.append(" (expected ");
        e.append("1");
        e.append(")");
        return Err(e);
    }
    if blank(set.name.as_str()) {
        return Err(
            owned("build set has an empty name; the name labels the build and its dist directory"),
        );
    }
    let name = set.name.as_str();
    if str_contains(name, "/") || str_contains(name, "\\") || str_eq(name, ".") || str_eq(name, "..") {
        let mut e = owned("build set name ");
        let shown = crate::text::debug_str(name);
        e.append(shown.as_str());
        e.append(
            " is not a single safe path component; it names the build directory, so it must contain no path separators and must not be `.` or `..`",
        );
        return Err(e);
    }
    let n = set.repositories.len();
    if n == 0 {
        return Err(owned("build set lists no repositories"));
    }
    let mut i: usize = 0;
    while i < n
        invariant
            i <= n,
            n == set.repositories.entry_seq().len(),
            n == set.repositories.key_seq().len(),
            entries == set.repositories.entry_seq(),
            empty_ref(entries, i as int) is None,
            set.version == 1,
            trim(set.name@).len() != 0,
            !unsafe_name(set.name@),
            n > 0,
        decreases n - i,
    {
        let (key, reference) = set.repositories.entry_at(i);
        if blank(reference.as_str()) {
            proof {
                lemma_first_sticks_refs(entries, i + 1, n as int);
            }
            let mut e = owned("repository ");
            e.append(key.as_str());
            e.append(" has an empty ref");
            return Err(e);
        }
        i = i + 1;
    }
    let mut j: usize = 0;
    while j < set.allow_pin_drift.len()
        invariant
            j <= set.allow_pin_drift.len(),
            dv == drift_view(set.allow_pin_drift@),
            reasonless(dv, j as int) is None,
            entries == set.repositories.entry_seq(),
            empty_ref(entries, entries.len() as int) is None,
            set.version == 1,
            trim(set.name@).len() != 0,
            !unsafe_name(set.name@),
            entries.len() > 0,
        decreases set.allow_pin_drift.len() - j,
    {
        let drift = &set.allow_pin_drift[j];
        assert(dv[j as int] == (drift.crate_name@, drift.reason@));
        if blank(drift.reason.as_str()) {
            proof {
                lemma_first_sticks_drift(dv, j + 1, dv.len() as int);
            }
            let mut e = owned("allow_pin_drift entry for crate `");
            e.append(drift.crate_name.as_str());
            e.append("` has no reason; every entry must say why");
            return Err(e);
        }
        j = j + 1;
    }
    Ok(set)
}

proof fn lemma_first_sticks_refs(entries: Seq<(Seq<char>, Seq<char>)>, k: int, n: int)
    requires
        0 < k <= n,
        empty_ref(entries, k) is Some,
    ensures
        empty_ref(entries, n) == empty_ref(entries, k),
    decreases n - k,
{
    if n > k {
        lemma_first_sticks_refs(entries, k, n - 1);
    }
}

proof fn lemma_first_sticks_drift(drift: Seq<(Seq<char>, Seq<char>)>, k: int, n: int)
    requires
        0 < k <= n,
        reasonless(drift, k) is Some,
    ensures
        reasonless(drift, n) == reasonless(drift, k),
    decreases n - k,
{
    if n > k {
        lemma_first_sticks_drift(drift, k, n - 1);
    }
}

/// `workspace.yaml` declares a repository named `k`.
pub open spec fn declared(repos: Seq<crate::config::Repo>, k: Seq<char>) -> bool {
    exists|i: int| 0 <= i < repos.len() && repos[i].name@ == k
}

/// The first of the first `n` keys that `workspace.yaml` does not declare.
pub open spec fn first_unknown(keys: Seq<Seq<char>>, repos: Seq<crate::config::Repo>, n: int) -> Option<Seq<char>>
    decreases n,
{
    if n <= 0 {
        None
    } else {
        match first_unknown(keys, repos, n - 1) {
            Some(k) => Some(k),
            None => if declared(repos, keys[n - 1]) {
                None
            } else {
                Some(keys[n - 1])
            },
        }
    }
}

/// The refusal of a build set naming an undeclared repository.
pub open spec fn unknown_repo_message(k: Seq<char>) -> Seq<char> {
    "build set names `"@ + k + "`, which is not a repository in workspace.yaml"@
}

proof fn lemma_first_unknown_sticks(keys: Seq<Seq<char>>, repos: Seq<crate::config::Repo>, k: int, n: int)
    requires
        0 < k <= n,
        first_unknown(keys, repos, k) is Some,
    ensures
        first_unknown(keys, repos, n) == first_unknown(keys, repos, k),
    decreases n - k,
{
    if n > k {
        lemma_first_unknown_sticks(keys, repos, k, n - 1);
    }
}

/// Validates the build set against `workspace.yaml`: every repository key
/// must name a repository the workspace manifest declares, because `url` and
/// `default_branch` come from there. The first unknown key, in name order,
/// is the error.
pub fn validate_against(set: &BuildSet, manifest: &Manifest) -> (r: Result<(), String>)
    ensures
        match r {
            Ok(_) => forall|k: Seq<char>|
                #[trigger] set.repositories.view().contains_key(k) ==> exists|i: int|
                    0 <= i < manifest.repositories@.len() && manifest.repositories@[i].name@ == k,
            Err(e) => exists|k: int|
                0 <= k < set.repositories.key_seq().len() && (forall|i: int|
                    0 <= i < manifest.repositories@.len() ==> manifest.repositories@[i].name@
                        != set.repositories.key_seq()[k]) && e@ == "build set names `"@
                    + set.repositories.key_seq()[k]
                    + "`, which is not a repository in workspace.yaml"@,
        },
        match first_unknown(
            set.repositories.key_seq(),
            manifest.repositories@,
            set.repositories.key_seq().len() as int,
        ) {
            None => r is Ok,
            Some(k) => r matches Err(e) && e@ == unknown_repo_message(k),
        },
{
    let n = set.repositories.len();
    let mut i: usize = 0;
    while i < n
        invariant
            i <= n,
            n == set.repositories.key_seq().len(),
            n == set.repositories.entry_seq().len(),
            forall|j: int| 0 <= j < n ==> (#[trigger] set.repositories.entry_seq()[j]).0 == set.repositories.key_seq()[j],
            forall|k: Seq<char>| set.repositories.view().contains_key(k) <==> set.repositories.key_seq().contains(k),
            forall|j: int|
                0 <= j < i ==> exists|m: int|
                    0 <= m < manifest.repositories@.len() && manifest.repositories@[m].name@
                        == #[trigger] set.repositories.key_seq()[j],
            first_unknown(set.repositories.key_seq(), manifest.repositories@, i as int) is None,
        decreases n - i,
    {
        let (name, _) = set.repositories.entry_at(i);
        assert(set.repositories.entry_seq()[i as int].0 == set.repositories.key_seq()[i as int]);
        match manifest.repo(name.as_str()) {
            Some(_) => {
                proof {
                    let ks = set.repositories.key_seq();
                    assert(declared(manifest.repositories@, ks[i as int]));
                    assert(first_unknown(ks, manifest.repositories@, i + 1) is None);
                }
            },
            None => {
                proof {
                    let ks = set.repositories.key_seq();
                    assert(!declared(manifest.repositories@, ks[i as int]));
                    assert(first_unknown(ks, manifest.repositories@, i + 1) == Some(ks[i as int]));
                    lemma_first_unknown_sticks(ks, manifest.repositories@, i + 1, n as int);
                }
                let mut e = owned("build set names `");
                e.append(name.as_str());
                e.append("`, which is not a repository in workspace.yaml");
                return Err(e);
            },
        }
        i = i + 1;
    }
    proof {
        assert forall|k: Seq<char>| #[trigger] set.repositories.view().contains_key(k) implies exists|
            i: int,
        | 0 <= i < manifest.repositories@.len() && manifest.repositories@[i].name@ == k by {
            assert(set.repositories.key_seq().contains(k));
            let j = choose|j: int|
                0 <= j < set.repositories.key_seq().len() && set.repositories.key_seq()[j] == k;
            assert(exists|m: int|
                0 <= m < manifest.repositories@.len() && manifest.repositories@[m].name@
                    == #[trigger] set.repositories.key_seq()[j]);
        }
    }
    Ok(())
}

/// One repository's resolution: the ref asked for and the sha it names.
#[derive(Debug, PartialEq)]
pub struct Resolved {
    pub repo: String,
    /// What was asked for: the manifest value, or `origin/<default_branch>`
    /// under `--tip`.
    pub reference: String,
    /// The full commit sha.
    pub sha: String,
}

/// What a workspace directory holds.
#[derive(Debug, Clone, Copy, PartialEq, Eq, Structural)]
pub enum Checkout {
    /// No directory there.
    Missing,
    /// A directory that is not the root of a git working tree.
    NotRepo,
    /// The root of a git working tree.
    Repo,
}

/// `probe` answered `state` for `dir`.
pub open spec fn probed<P: Fn(&str) -> Checkout>(probe: P, dir: Seq<char>, state: Checkout) -> bool {
    exists|d: &str| #[trigger] call_ensures(probe, (d,), state) && d@ == dir
}

/// Repository `name` at `reference` resolved to `sha`: its checkout is a git
/// repository, and `git rev-parse` named `sha`.
pub open spec fn resolved_ok<P: Fn(&str) -> Checkout, G: Fn(&str, &Vec<String>) -> Result<String, String>>(
    probe: P,
    git: G,
    workspace: Seq<char>,
    name: Seq<char>,
    reference: Seq<char>,
    sha: Seq<char>,
) -> bool {
    let dir = path_join(workspace, name);
    probed(probe, dir, Checkout::Repo) && git_ran(git, dir, rev_parse_args(reference), Ok(sha))
}

/// Repository `name` at `reference` failed to resolve with error `e`: a
/// missing directory, a non-git directory, or an unknown ref, each named.
pub open spec fn resolve_failed<P: Fn(&str) -> Checkout, G: Fn(&str, &Vec<String>) -> Result<String, String>>(
    probe: P,
    git: G,
    workspace: Seq<char>,
    name: Seq<char>,
    reference: Seq<char>,
    e: Seq<char>,
) -> bool {
    let dir = path_join(workspace, name);
    ||| probed(probe, dir, Checkout::Missing) && e == "repository "@ + name
        + " is not checked out at "@ + dir + " (run: zpr-dev setup)"@
    ||| probed(probe, dir, Checkout::NotRepo) && e == "repository "@ + name + " at "@ + dir
        + " is not a git repository"@
    ||| probed(probe, dir, Checkout::Repo) && (exists|a: Seq<char>|
        #[trigger] git_ran(git, dir, rev_parse_args(reference), Err(a))) && e == "repository "@
        + name + ": "@ + unknown_ref_message(reference, dir)
}

/// Resolves one ref in one workspace checkout, with the directory checks that
/// make the failure modes diagnosable: a missing directory and a non-git
/// directory each name the repository rather than surfacing a raw git error.
/// No fetch: resolution sees only what the local repository has.
pub fn resolve_one<P: Fn(&str) -> Checkout, G: Fn(&str, &Vec<String>) -> Result<String, String>>(
    workspace: &str,
    name: &str,
    reference: &str,
    probe: &P,
    git: &G,
) -> (r: Result<Resolved, String>)
    requires
        forall|d: &str| call_requires(*probe, (d,)),
        forall|d: &str, a: &Vec<String>| call_requires(*git, (d, a)),
    ensures
        match r {
            Ok(res) => res.repo@ == name@ && res.reference@ == reference@ && resolved_ok(
                *probe,
                *git,
                workspace@,
                name@,
                reference@,
                res.sha@,
            ),
            Err(e) => resolve_failed(*probe, *git, workspace@, name@, reference@, e@),
        },
{
    let dir = join_path(workspace, name);
    let d = dir.as_str();
    let state = probe(d);
    assert(call_ensures(*probe, (d,), state));
    match state {
        Checkout::Missing => {
            let mut e = owned("repository ");
            e.append(name);
            e.append(" is not checked out at ");
            e.append(d);
            e.append(" (run: zpr-dev setup)");
            Err(e)
        },
        Checkout::NotRepo => {
            let mut e = owned("repository ");
            e.append(name);
            e.append(" at ");
            e.append(d);
            e.append(" is not a git repository");
            Err(e)
        },
        Checkout::Repo => match rev_parse(d, reference, git) {
            Ok(sha) => Ok(Resolved { repo: owned(name), reference: owned(reference), sha }),
            Err(error) => {
                let mut e = owned("repository ");
                e.append(name);
                e.append(": ");
                e.append(error.as_str());
                Err(e)
            },
        },
    }
}

/// Repository and ref `w` resolve to some sha.
pub open spec fn resolves<P: Fn(&str) -> Checkout, G: Fn(&str, &Vec<String>) -> Result<String, String>>(
    probe: P,
    git: G,
    workspace: Seq<char>,
    w: (Seq<char>, Seq<char>),
) -> bool {
    exists|sha: Seq<char>| #[trigger] resolved_ok(probe, git, workspace, w.0, w.1, sha)
}

/// Every resolution of a list of (name, ref) pairs, in order, or the first
/// failure.
pub open spec fn resolutions<P: Fn(&str) -> Checkout, G: Fn(&str, &Vec<String>) -> Result<String, String>>(
    probe: P,
    git: G,
    workspace: Seq<char>,
    wanted: Seq<(Seq<char>, Seq<char>)>,
    r: Result<Seq<(Seq<char>, Seq<char>, Seq<char>)>, Seq<char>>,
) -> bool {
    match r {
        Ok(v) => v.len() == wanted.len() && forall|i: int|
            0 <= i < wanted.len() ==> (#[trigger] v[i]).0 == wanted[i].0 && v[i].1 == wanted[i].1
                && resolved_ok(probe, git, workspace, wanted[i].0, wanted[i].1, v[i].2),
        Err(e) => exists|k: int|
            0 <= k < wanted.len() && (forall|i: int|
                0 <= i < k ==> #[trigger] resolves(probe, git, workspace, wanted[i]))
                && resolve_failed(probe, git, workspace, wanted[k].0, wanted[k].1, e),
    }
}

/// The views of resolutions.
pub open spec fn resolved_view(v: Seq<Resolved>) -> Seq<(Seq<char>, Seq<char>, Seq<char>)> {
    v.map_values(|r: Resolved| (r.repo@, r.reference@, r.sha@))
}

/// Resolves a list of (name, ref) pairs in order, stopping at the first
/// failure.
pub fn resolve_all<P: Fn(&str) -> Checkout, G: Fn(&str, &Vec<String>) -> Result<String, String>>(
    workspace: &str,
    wanted: &Vec<(String, String)>,
    probe: &P,
    git: &G,
) -> (r: Result<Vec<Resolved>, String>)
    requires
        forall|d: &str| call_requires(*probe, (d,)),
        forall|d: &str, a: &Vec<String>| call_requires(*git, (d, a)),
    ensures
        resolutions(
            *probe,
            *git,
            workspace@,
            crate::build::recipes::pairs_view(wanted@),
            match r {
                Ok(v) => Ok(resolved_view(v@)),
                Err(e) => Err(e@),
            },
        ),
{
    let ghost wv = crate::build::recipes::pairs_view(wanted@);
    let mut out: Vec<Resolved> = Vec::new();
    let mut i: usize = 0;
    while i < wanted.len()
        invariant
            i <= wanted.len(),
            wv == crate::build::recipes::pairs_view(wanted@),
            forall|d: &str| call_requires(*probe, (d,)),
            forall|d: &str, a: &Vec<String>| call_requires(*git, (d, a)),
            out@.len() == i,
            forall|j: int|
                0 <= j < i ==> (#[trigger] resolved_view(out@)[j]).0 == wv[j].0 && resolved_view(
                    out@,
                )[j].1 == wv[j].1 && resolved_ok(
                    *probe,
                    *git,
                    workspace@,
                    wv[j].0,
                    wv[j].1,
                    resolved_view(out@)[j].2,
                ),
        decreases wanted.len() - i,
    {
        assert(wv[i as int] == (wanted@[i as int].0@, wanted@[i as int].1@));
        match resolve_one(workspace, wanted[i].0.as_str(), wanted[i].1.as_str(), probe, git) {
            Ok(res) => {
                let ghost before = resolved_view(out@);
                out.push(res);
                assert(resolved_view(out@) =~= before.push((res.repo@, res.reference@, res.sha@)));
            },
            Err(e) => {
                proof {
                    assert forall|j: int| 0 <= j < i implies #[trigger] resolves(*probe, *git, workspace@, wv[j]) by {
                        assert(resolved_ok(
                            *probe,
                            *git,
                            workspace@,
                            wv[j].0,
                            wv[j].1,
                            resolved_view(out@)[j].2,
                        ));
                    }
                }
                return Err(e);
            },
        }
        i = i + 1;
    }
    Ok(out)
}

/// Resolves every entry of the build set, in name order, to a sha against
/// the workspace checkouts. No fetch. A missing or non-git directory and an
/// unknown ref are errors naming the repository (and the ref); the first one
/// ends the resolution.
pub fn resolve_set<P: Fn(&str) -> Checkout, G: Fn(&str, &Vec<String>) -> Result<String, String>>(
    workspace: &str,
    set: &BuildSet,
    probe: &P,
    git: &G,
) -> (r: Result<Vec<Resolved>, String>)
    requires
        forall|d: &str| call_requires(*probe, (d,)),
        forall|d: &str, a: &Vec<String>| call_requires(*git, (d, a)),
    ensures
        resolutions(
            *probe,
            *git,
            workspace@,
            set.repositories.entry_seq(),
            match r {
                Ok(v) => Ok(resolved_view(v@)),
                Err(e) => Err(e@),
            },
        ),
{
    let n = set.repositories.len();
    let mut wanted: Vec<(String, String)> = Vec::new();
    let mut i: usize = 0;
    while i < n
        invariant
            i <= n,
            n == set.repositories.entry_seq().len(),
            n == set.repositories.key_seq().len(),
            crate::build::recipes::pairs_view(wanted@) == set.repositories.entry_seq().take(i as int),
        decreases n - i,
    {
        let (k, v) = set.repositories.entry_at(i);
        let ghost before = crate::build::recipes::pairs_view(wanted@);
        let p = (owned(k.as_str()), owned(v.as_str()));
        wanted.push(p);
        assert(crate::build::recipes::pairs_view(wanted@) =~= before.push((p.0@, p.1@)));
        assert(set.repositories.entry_seq().take(i + 1) =~= set.repositories.entry_seq().take(
            i as int,
        ).push(set.repositories.entry_seq()[i as int]));
        i = i + 1;
    }
    assert(set.repositories.entry_seq().take(n as int) =~= set.repositories.entry_seq());
    resolve_all(workspace, &wanted, probe, git)
}

/// `origin/<branch>` for each named repository.
pub open spec fn tip_refs(repos: Seq<(&str, &str)>) -> Seq<(Seq<char>, Seq<char>)> {
    repos.map_values(|p: (&str, &str)| (p.0@, "origin/"@ + p.1@))
}

/// Resolves `origin/<default_branch>` for every named repository, in order:
/// the `--tip` path, which ignores manifest refs entirely.
pub fn resolve_tip<P: Fn(&str) -> Checkout, G: Fn(&str, &Vec<String>) -> Result<String, String>>(
    workspace: &str,
    repos: &[(&str, &str)],
    probe: &P,
    git: &G,
) -> (r: Result<Vec<Resolved>, String>)
    requires
        forall|d: &str| call_requires(*probe, (d,)),
        forall|d: &str, a: &Vec<String>| call_requires(*git, (d, a)),
    ensures
        resolutions(
            *probe,
            *git,
            workspace@,
            tip_refs(repos@),
            match r {
                Ok(v) => Ok(resolved_view(v@)),
                Err(e) => Err(e@),
            },
        ),
{
    let mut wanted: Vec<(String, String)> = Vec::new();
    let mut i: usize = 0;
    while i < repos.len()
        invariant
            i <= repos.len(),
            crate::build::recipes::pairs_view(wanted@) == tip_refs(repos@).take(i as int),
        decreases repos.len() - i,
    {
        let (name, branch) = repos[i];
        let mut reference = owned("origin/");
        reference.append(branch);
        let ghost before = crate::build::recipes::pairs_view(wanted@);
        let p = (owned(name), reference);
        wanted.push(p);
        assert(crate::build::recipes::pairs_view(wanted@) =~= before.push((p.0@, p.1@)));
        assert(tip_refs(repos@).take(i + 1) =~= tip_refs(repos@).take(i as int).push(
            tip_refs(repos@)[i as int],
        ));
        i = i + 1;
    }
    assert(tip_refs(repos@).take(repos.len() as int) =~= tip_refs(repos@));
    resolve_all(workspace, &wanted, probe, git)
}

/// Everything `zpr-dev build` takes from the command line, threaded as one
/// struct.
#[derive(Debug)]
pub struct BuildArgs {
    pub manifest: Option<String>,
    pub tip: bool,
    pub test: Option<String>,
    pub repo: Option<String>,
    pub build_dir: Option<String>,
    pub keep: bool,
    pub gates_only: bool,
    pub allow_pin_drift: bool,
    pub no_tarball: bool,
}


} // verus!
