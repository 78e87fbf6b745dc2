//! What the `build` command decides before any work starts: which flags it
//! refuses, which repositories a `--tip` build takes from the workspace
//! manifest and the build set it synthesizes for them, and the `--dry-run`
//! report.

use vstd::prelude::*;

use crate::build::dist::{build_dir_for, build_dir_spec};
use crate::build::recipes::{build_order, build_order_spec, strings_view};
use crate::build::report::{docker_probe, netns_probe, netns_probe_text};
use crate::build::{BuildSet, PinDrift, Resolved};
use crate::config::{Manifest, Repo, opt_view};
use crate::order::StrMap;
use crate::text::{join, join_path, join_strings, owned, path_join, str_eq, to_chars};

verus! {

// ---------------------------------------------------------------------------
// Flags the command refuses
// ---------------------------------------------------------------------------

/// The refusal of a `--test` value other than `none`.
pub open spec fn test_flag_refusal(test: Option<Seq<char>>) -> Option<Seq<char>> {
    match test {
        Some(t) => if t != "none"@ {
            Some(
                "--test "@ + t
                    + " is not available yet: tiers land in B4/B5; only --test none is accepted"@,
            )
        } else {
            None
        },
        None => None,
    }
}

/// The usage error for a `--test` value other than `none`, which this stage
/// does not accept; `None` when the flag is absent or `none`.
pub fn test_flag_problem(test: Option<&str>) -> (r: Option<String>)
    ensures
        opt_string(r) == test_flag_refusal(opt_view(test)),
{
    proof {
        reveal_strlit("none");
    }
    match test {
        Some(t) => {
            if str_eq(t, "none") {
                None
            } else {
                let mut m = owned("--test ");
                m.append(t);
                m.append(" is not available yet: tiers land in B4/B5; only --test none is accepted");
                Some(m)
            }
        },
        None => None,
    }
}

/// The view of an optional string.
pub open spec fn opt_string(o: Option<String>) -> Option<Seq<char>> {
    match o {
        Some(s) => Some(s@),
        None => None,
    }
}

/// The refusal of a real build without `--test`.
pub open spec fn real_build_refusal() -> Seq<char> {
    "a real build requires an explicit --test none until the test tiers land (B4/B5)"@
}

/// A real build must state `--test none`, so nobody runs one believing tests
/// ran: the error when the flag is absent.
pub fn real_build_problem(test: Option<&str>) -> (r: Option<String>)
    ensures
        match test {
            Some(_) => r is None,
            None => r matches Some(m) && m@ == real_build_refusal(),
        },
{
    match test {
        Some(_) => None,
        None => Some(
            owned("a real build requires an explicit --test none until the test tiers land (B4/B5)"),
        ),
    }
}

// ---------------------------------------------------------------------------
// The --tip build set
// ---------------------------------------------------------------------------

/// Index `i` is the first repository named `name`.
pub open spec fn first_named(repos: Seq<Repo>, name: Seq<char>, i: int) -> bool {
    0 <= i < repos.len() && repos[i].name@ == name && forall|j: int|
        0 <= j < i ==> #[trigger] repos[j].name@ != name
}

/// The first repository named `name`, as `(name, default branch)`.
pub open spec fn lookup(repos: Seq<Repo>, name: Seq<char>) -> Option<(Seq<char>, Seq<char>)> {
    if exists|i: int| #[trigger] first_named(repos, name, i) {
        let i = choose|i: int| #[trigger] first_named(repos, name, i);
        Some((repos[i].name@, repos[i].default_branch@))
    } else {
        None
    }
}

/// At most one index is the first with a name.
proof fn lemma_first_named_unique(repos: Seq<Repo>, name: Seq<char>, i: int, j: int)
    requires
        first_named(repos, name, i),
        first_named(repos, name, j),
    ensures
        i == j,
{
    if i < j {
        assert(repos[i].name@ != name);
    } else if j < i {
        assert(repos[j].name@ != name);
    }
}

/// Looks `name` up the way [`Manifest::repo`] does.
fn lookup_repo(manifest: &Manifest, name: &str) -> (r: Option<(String, String)>)
    ensures
        match r {
            Some(p) => lookup(manifest.repositories@, name@) == Some((p.0@, p.1@)),
            None => lookup(manifest.repositories@, name@) is None,
        },
{
    match manifest.repo(name) {
        Some(repo) => {
            proof {
                let repos = manifest.repositories@;
                let i = choose|i: int|
                    0 <= i < repos.len() && repos[i] == *repo && (forall|j: int|
                        0 <= j < i ==> #[trigger] repos[j].name@ != name@);
                assert(first_named(repos, name@, i));
                let c = choose|c: int| #[trigger] first_named(repos, name@, c);
                lemma_first_named_unique(repos, name@, i, c);
            }
            Some((repo.name.clone(), repo.default_branch.clone()))
        },
        None => {
            proof {
                let repos = manifest.repositories@;
                assert forall|i: int| !#[trigger] first_named(repos, name@, i) by {
                    if 0 <= i < repos.len() {
                        assert(repos[i].name@ != name@);
                    }
                }
            }
            None
        },
    }
}

/// The build-order repositories among the first `n` that the manifest
/// declares, as `(name, default branch)`, in build order.
pub open spec fn tip_found(repos: Seq<Repo>, order: Seq<Seq<char>>, n: int) -> Seq<(Seq<char>, Seq<char>)>
    decreases n,
{
    if n <= 0 {
        seq![]
    } else {
        match lookup(repos, order[n - 1]) {
            Some(p) => tip_found(repos, order, n - 1).push(p),
            None => tip_found(repos, order, n - 1),
        }
    }
}

/// The build-order repositories among the first `n` that the manifest does
/// not declare, in build order.
pub open spec fn tip_missing(repos: Seq<Repo>, order: Seq<Seq<char>>, n: int) -> Seq<Seq<char>>
    decreases n,
{
    if n <= 0 {
        seq![]
    } else {
        match lookup(repos, order[n - 1]) {
            Some(_) => tip_missing(repos, order, n - 1),
            None => tip_missing(repos, order, n - 1).push(order[n - 1]),
        }
    }
}

/// The error when a `--tip` build finds none of its repositories.
pub open spec fn tip_empty_message() -> Seq<char> {
    "--tip found none of the build-set repositories in workspace.yaml"@
}

/// The views of a list of string pairs.
pub open spec fn pair_views(v: Seq<(String, String)>) -> Seq<(Seq<char>, Seq<char>)> {
    v.map_values(|p: (String, String)| (p.0@, p.1@))
}

/// The repositories a `--tip` build resolves: each build-order repository the
/// workspace manifest declares, with its default branch, in build order; and,
/// reported rather than silently dropped, the build-order repositories it
/// does not declare. Finding none is an error.
pub fn tip_repositories(manifest: &Manifest) -> (r: Result<(Vec<(String, String)>, Vec<String>), String>)
    ensures
        match r {
            Ok((found, skipped)) => pair_views(found@) == tip_found(
                manifest.repositories@,
                build_order_spec(),
                5,
            ) && strings_view(skipped@) == tip_missing(manifest.repositories@, build_order_spec(), 5)
                && found@.len() > 0,
            Err(e) => e@ == tip_empty_message() && tip_found(
                manifest.repositories@,
                build_order_spec(),
                5,
            ).len() == 0,
        },
{
    let order = build_order();
    let ghost ov = order@.map_values(|s: &'static str| s@);
    let ghost repos = manifest.repositories@;
    let mut found: Vec<(String, String)> = Vec::new();
    let mut skipped: Vec<String> = Vec::new();
    let mut i: usize = 0;
    while i < order.len()
        invariant
            i <= order.len(),
            ov == order@.map_values(|s: &'static str| s@),
            ov == build_order_spec(),
            repos == manifest.repositories@,
            pair_views(found@) == tip_found(repos, ov, i as int),
            strings_view(skipped@) == tip_missing(repos, ov, i as int),
        decreases order.len() - i,
    {
        let wanted = order[i];
        assert(ov[i as int] == wanted@);
        match lookup_repo(manifest, wanted) {
            Some(p) => {
                let ghost before = found@;
                let ghost pv = (p.0@, p.1@);
                found.push(p);
                assert(pair_views(found@) =~= pair_views(before).push(pv));
            },
            None => {
                let ghost before = skipped@;
                let w = owned(wanted);
                skipped.push(w);
                assert(strings_view(skipped@) =~= strings_view(before).push(w@));
            },
        }
        i = i + 1;
    }
    assert(ov.len() == order@.len());
    assert(build_order_spec().len() == 5);
    assert(i == 5);
    if found.len() == 0 {
        assert(pair_views(found@).len() == 0);
        return Err(owned("--tip found none of the build-set repositories in workspace.yaml"));
    }
    Ok((found, skipped))
}

/// The names a `--tip` gate run scans: the build-order repositories the
/// workspace manifest declares, in build order. Finding none is an error.
pub fn tip_scan_names(manifest: &Manifest) -> (r: Result<Vec<String>, String>)
    ensures
        match r {
            Ok(names) => strings_view(names@) == tip_found(
                manifest.repositories@,
                build_order_spec(),
                5,
            ).map_values(|p: (Seq<char>, Seq<char>)| p.0) && names@.len() > 0,
            Err(e) => e@ == tip_empty_message() && tip_found(
                manifest.repositories@,
                build_order_spec(),
                5,
            ).len() == 0,
        },
{
    let (found, _) = match tip_repositories(manifest) {
        Ok(t) => t,
        Err(e) => return Err(e),
    };
    let ghost fv = pair_views(found@);
    let mut names: Vec<String> = Vec::new();
    let mut i: usize = 0;
    while i < found.len()
        invariant
            i <= found.len(),
            fv == pair_views(found@),
            strings_view(names@) == fv.take(i as int).map_values(|p: (Seq<char>, Seq<char>)| p.0),
        decreases found.len() - i,
    {
        let ghost before = names@;
        let n = found[i].0.clone();
        names.push(n);
        assert(strings_view(names@) =~= strings_view(before).push(n@));
        assert(fv.take(i + 1) =~= fv.take(i as int).push(fv[i as int]));
        assert(strings_view(names@) =~= fv.take(i + 1).map_values(|p: (Seq<char>, Seq<char>)| p.0));
        i = i + 1;
    }
    assert(fv.take(i as int) =~= fv);
    Ok(names)
}

/// The repositories of the synthesized `--tip` set after the first `n`
/// pairs: each name to `origin/<default branch>`.
pub open spec fn tip_refs(found: Seq<(Seq<char>, Seq<char>)>, n: int) -> Map<Seq<char>, Seq<char>>
    decreases n,
{
    if n <= 0 {
        Map::empty()
    } else {
        tip_refs(found, n - 1).insert(found[n - 1].0, "origin/"@ + found[n - 1].1)
    }
}

/// The build set a `--tip` build synthesizes, so the emitted manifest has one
/// code path: version 1, named `tip`, each repository at
/// `origin/<default branch>`, no drift entries.
pub fn tip_set(found: &Vec<(String, String)>) -> (r: BuildSet)
    ensures
        r.version == 1,
        r.name@ == "tip"@,
        r.repositories.view() == tip_refs(pair_views(found@), found@.len() as int),
        r.allow_pin_drift@.len() == 0,
{
    let ghost fv = pair_views(found@);
    let mut repositories = StrMap::new();
    let mut i: usize = 0;
    while i < found.len()
        invariant
            i <= found.len(),
            fv == pair_views(found@),
            repositories.view() == tip_refs(fv, i as int),
        decreases found.len() - i,
    {
        let mut reference = owned("origin/");
        reference.append(found[i].1.as_str());
        repositories.insert(found[i].0.as_str(), reference);
        i = i + 1;
    }
    let drift: Vec<PinDrift> = Vec::new();
    BuildSet { version: 1, name: owned("tip"), repositories, allow_pin_drift: drift }
}

/// What the emitted manifest records as the input it was built from: the
/// build-set path, or `--tip`.
pub fn built_from_manifest(tip: bool, path: &str) -> (r: String)
    ensures
        r@ == if tip {
            "--tip"@
        } else {
            path@
        },
{
    if tip {
        owned("--tip")
    } else {
        owned(path)
    }
}

// ---------------------------------------------------------------------------
// The --dry-run report
// ---------------------------------------------------------------------------

/// The longest of the first `n` names, in characters.
pub open spec fn widest(names: Seq<Seq<char>>, n: int) -> nat
    decreases n,
{
    if n <= 0 {
        0
    } else {
        let w = widest(names, n - 1);
        if names[n - 1].len() > w {
            names[n - 1].len()
        } else {
            w
        }
    }
}

/// `n` spaces.
pub open spec fn spaces(n: int) -> Seq<char> {
    Seq::new(if n > 0 { n as nat } else { 0 }, |i: int| ' ')
}

/// `s` padded with spaces on the right to `width` characters, as `{:width$}`
/// formats a string.
pub open spec fn pad_right(s: Seq<char>, width: nat) -> Seq<char> {
    s + spaces(width - s.len())
}

/// The views of resolutions: repository, ref, sha.
pub open spec fn resolutions_view(v: Seq<Resolved>) -> Seq<(Seq<char>, Seq<char>, Seq<char>)> {
    v.map_values(|r: Resolved| (r.repo@, r.reference@, r.sha@))
}

/// The report line of one resolution.
pub open spec fn resolved_line(entry: (Seq<char>, Seq<char>, Seq<char>), width: nat) -> Seq<char> {
    "  "@ + pad_right(entry.0, width) + "  "@ + entry.1 + " -> "@ + entry.2
}

/// The build-order repositories among the first `n` that some resolution
/// names.
pub open spec fn ordered_resolved(
    order: Seq<Seq<char>>,
    repos: Seq<Seq<char>>,
    n: int,
) -> Seq<Seq<char>>
    decreases n,
{
    if n <= 0 {
        seq![]
    } else if repos.contains(order[n - 1]) {
        ordered_resolved(order, repos, n - 1).push(order[n - 1])
    } else {
        ordered_resolved(order, repos, n - 1)
    }
}

/// The resolved repositories among the first `n` that have no build recipe.
pub open spec fn recipeless(order: Seq<Seq<char>>, repos: Seq<Seq<char>>, n: int) -> Seq<Seq<char>>
    decreases n,
{
    if n <= 0 {
        seq![]
    } else if order.contains(repos[n - 1]) {
        recipeless(order, repos, n - 1)
    } else {
        recipeless(order, repos, n - 1).push(repos[n - 1])
    }
}

/// The inputs the dry-run report is made of.
pub struct DryRunView {
    pub name: Seq<char>,
    pub resolved: Seq<(Seq<char>, Seq<char>, Seq<char>)>,
    pub skipped: Seq<Seq<char>>,
    pub build_dir: Seq<char>,
    pub netns: Seq<char>,
    pub docker: Seq<char>,
}

/// The resolved-refs lines, the repository names padded to the widest.
pub open spec fn resolved_section(resolved: Seq<(Seq<char>, Seq<char>, Seq<char>)>) -> Seq<Seq<char>> {
    let repos = resolved.map_values(|e: (Seq<char>, Seq<char>, Seq<char>)| e.0);
    let width = widest(repos, repos.len() as int);
    resolved.map_values(|e: (Seq<char>, Seq<char>, Seq<char>)| resolved_line(e, width))
}

/// The lines naming the skipped repositories.
pub open spec fn skipped_section(skipped: Seq<Seq<char>>) -> Seq<Seq<char>> {
    skipped.map_values(|s: Seq<char>| "  "@ + s + ": not in workspace.yaml, skipped"@)
}

/// The build-order lines: a blank line, the build order, and any resolved
/// repository without a recipe.
pub open spec fn order_section(repos: Seq<Seq<char>>) -> Seq<Seq<char>> {
    let ordered = ordered_resolved(build_order_spec(), repos, 5);
    let orphans = recipeless(build_order_spec(), repos, repos.len() as int);
    seq![Seq::<char>::empty(), "build order: "@ + join(ordered, ", "@)] + if orphans.len() > 0 {
        seq!["  (resolved but no build recipe: "@ + join(orphans, ", "@) + ")"@]
    } else {
        Seq::<Seq<char>>::empty()
    }
}

/// The closing lines: the planned tiers and the dist/ target.
pub open spec fn tail_section(netns: Seq<char>, docker: Seq<char>, build_dir: Seq<char>) -> Seq<Seq<char>> {
    seq![
        Seq::<char>::empty(),
        "tiers (planned):"@,
        "  unit    would run"@,
        "  netns   not requested (--test netns); "@ + netns,
        "  docker  not requested (--test docker); "@ + docker,
        Seq::<char>::empty(),
        "dist: "@ + path_join(build_dir, "dist"@),
        "dry-run: nothing was created, and nothing was fetched"@,
    ]
}

/// The dry-run report, line by line: the resolved refs (names padded to the
/// widest), the skipped repositories, the build order and any resolved
/// repository without a recipe, the planned tiers with their probe results,
/// and the dist/ target.
pub open spec fn dry_run_report(d: DryRunView) -> Seq<Seq<char>> {
    seq!["build set "@ + d.name + " (dry-run)"@, Seq::<char>::empty(), "resolved refs:"@]
        + resolved_section(d.resolved) + skipped_section(d.skipped) + order_section(
        d.resolved.map_values(|e: (Seq<char>, Seq<char>, Seq<char>)| e.0),
    ) + tail_section(d.netns, d.docker, d.build_dir)
}

/// `n` spaces, as a string.
fn space_string(n: usize) -> (r: String)
    ensures
        r@ == spaces(n as int),
{
    let mut r = owned("");
    let mut i: usize = 0;
    proof {
        reveal_strlit("");
    }
    assert(r@ =~= spaces(0));
    while i < n
        invariant
            i <= n,
            r@ == spaces(i as int),
        decreases n - i,
    {
        proof {
            reveal_strlit(" ");
        }
        r.append(" ");
        assert(r@ =~= spaces(i + 1));
        i = i + 1;
    }
    r
}

/// Whether `names` holds `name`.
fn holds(names: &Vec<&str>, name: &str) -> (r: bool)
    ensures
        r == names@.map_values(|s: &str| s@).contains(name@),
{
    let ghost nv = names@.map_values(|s: &str| s@);
    let mut i: usize = 0;
    while i < names.len()
        invariant
            i <= names.len(),
            nv == names@.map_values(|s: &str| s@),
            forall|j: int| 0 <= j < i ==> nv[j] != name@,
        decreases names.len() - i,
    {
        if str_eq(names[i], name) {
            assert(nv[i as int] == name@);
            return true;
        }
        i = i + 1;
    }
    false
}

/// The resolved-refs lines.
fn resolved_lines(resolved: &[Resolved]) -> (out: Vec<String>)
    ensures
        strings_view(out@) == resolved_section(resolutions_view(resolved@)),
{
    let ghost rv = resolutions_view(resolved@);
    let ghost repos = rv.map_values(|e: (Seq<char>, Seq<char>, Seq<char>)| e.0);
    let mut width: usize = 0;
    let mut i: usize = 0;
    while i < resolved.len()
        invariant
            i <= resolved.len(),
            rv == resolutions_view(resolved@),
            repos == rv.map_values(|e: (Seq<char>, Seq<char>, Seq<char>)| e.0),
            width == widest(repos, i as int),
        decreases resolved.len() - i,
    {
        let n = to_chars(resolved[i].repo.as_str()).len();
        assert(repos[i as int] == resolved@[i as int].repo@);
        if n > width {
            width = n;
        }
        i = i + 1;
    }
    let mut out: Vec<String> = Vec::new();
    let mut i: usize = 0;
    while i < resolved.len()
        invariant
            i <= resolved.len(),
            rv == resolutions_view(resolved@),
            repos == rv.map_values(|e: (Seq<char>, Seq<char>, Seq<char>)| e.0),
            width == widest(repos, resolved@.len() as int),
            strings_view(out@) == rv.take(i as int).map_values(
                |e: (Seq<char>, Seq<char>, Seq<char>)| resolved_line(e, width as nat),
            ),
        decreases resolved.len() - i,
    {
        let entry = &resolved[i];
        assert(rv[i as int] == (entry.repo@, entry.reference@, entry.sha@));
        proof {
            lemma_widest_bound(repos, resolved@.len() as int, i as int);
        }
        let len = to_chars(entry.repo.as_str()).len();
        let mut line = owned("  ");
        line.append(entry.repo.as_str());
        let pad = space_string(width - len);
        line.append(pad.as_str());
        line.append("  ");
        line.append(entry.reference.as_str());
        line.append(" -> ");
        line.append(entry.sha.as_str());
        assert(line@ =~= resolved_line(rv[i as int], width as nat));
        let ghost lv = line@;
        push_line(&mut out, line);
        assert(rv.take(i + 1) =~= rv.take(i as int).push(rv[i as int]));
        assert(strings_view(out@) =~= rv.take(i + 1).map_values(
            |e: (Seq<char>, Seq<char>, Seq<char>)| resolved_line(e, width as nat),
        ));
        i = i + 1;
    }
    assert(rv.take(resolved@.len() as int) =~= rv);
    out
}

/// The lines naming the skipped repositories.
fn skipped_lines(skipped: &[String]) -> (out: Vec<String>)
    ensures
        strings_view(out@) == skipped_section(strings_view(skipped@)),
{
    let ghost sv = strings_view(skipped@);
    let mut out: Vec<String> = Vec::new();
    let mut k: usize = 0;
    while k < skipped.len()
        invariant
            k <= skipped.len(),
            sv == strings_view(skipped@),
            strings_view(out@) == skipped_section(sv.take(k as int)),
        decreases skipped.len() - k,
    {
        let mut line = owned("  ");
        line.append(skipped[k].as_str());
        line.append(": not in workspace.yaml, skipped");
        assert(sv[k as int] == skipped@[k as int]@);
        push_line(&mut out, line);
        assert(sv.take(k + 1) =~= sv.take(k as int).push(sv[k as int]));
        assert(strings_view(out@) =~= skipped_section(sv.take(k + 1)));
        k = k + 1;
    }
    assert(sv.take(skipped@.len() as int) =~= sv);
    out
}

/// The build-order lines.
fn order_lines(resolved: &[Resolved]) -> (out: Vec<String>)
    ensures
        strings_view(out@) == order_section(
            resolutions_view(resolved@).map_values(|e: (Seq<char>, Seq<char>, Seq<char>)| e.0),
        ),
{
    let ghost rv = resolutions_view(resolved@);
    let ghost repos = rv.map_values(|e: (Seq<char>, Seq<char>, Seq<char>)| e.0);
    let order = build_order();
    let ghost ov = order@.map_values(|s: &'static str| s@);
    let mut names: Vec<&str> = Vec::new();
    let mut i: usize = 0;
    while i < resolved.len()
        invariant
            i <= resolved.len(),
            rv == resolutions_view(resolved@),
            repos == rv.map_values(|e: (Seq<char>, Seq<char>, Seq<char>)| e.0),
            names@.map_values(|s: &str| s@) == repos.take(i as int),
        decreases resolved.len() - i,
    {
        let ghost before = names@;
        names.push(resolved[i].repo.as_str());
        assert(repos[i as int] == resolved@[i as int].repo@);
        assert(names@.map_values(|s: &str| s@) =~= before.map_values(|s: &str| s@).push(repos[i as int]));
        assert(repos.take(i + 1) =~= repos.take(i as int).push(repos[i as int]));
        i = i + 1;
    }
    assert(repos.take(resolved@.len() as int) =~= repos);
    let mut ordered: Vec<String> = Vec::new();
    let mut i: usize = 0;
    while i < order.len()
        invariant
            i <= order.len(),
            ov == order@.map_values(|s: &'static str| s@),
            ov == build_order_spec(),
            names@.map_values(|s: &str| s@) == repos,
            strings_view(ordered@) == ordered_resolved(ov, repos, i as int),
        decreases order.len() - i,
    {
        assert(ov[i as int] == order@[i as int]@);
        if holds(&names, order[i]) {
            let o = owned(order[i]);
            push_line(&mut ordered, o);
        }
        i = i + 1;
    }
    assert(ov.len() == order@.len());
    assert(build_order_spec().len() == 5);
    let mut orphans: Vec<String> = Vec::new();
    let mut i: usize = 0;
    while i < names.len()
        invariant
            i <= names.len(),
            ov == order@.map_values(|s: &'static str| s@),
            ov == build_order_spec(),
            names@.map_values(|s: &str| s@) == repos,
            strings_view(orphans@) == recipeless(ov, repos, i as int),
        decreases names.len() - i,
    {
        assert(repos[i as int] == names@[i as int]@);
        if !holds(&order, names[i]) {
            let o = owned(names[i]);
            push_line(&mut orphans, o);
        }
        i = i + 1;
    }
    assert(strings_view(ordered@) == ordered_resolved(build_order_spec(), repos, 5));
    assert(strings_view(orphans@) == recipeless(build_order_spec(), repos, repos.len() as int));
    let mut out: Vec<String> = Vec::new();
    let blank = owned("");
    proof {
        reveal_strlit("");
    }
    assert(blank@ =~= Seq::<char>::empty());
    push_line(&mut out, blank);
    let mut line = owned("build order: ");
    let joined = join_strings(&ordered, ", ");
    assert(strings_view(ordered@) =~= ordered@.map_values(|p: String| p@));
    line.append(joined.as_str());
    push_line(&mut out, line);
    if orphans.len() > 0 {
        let mut line = owned("  (resolved but no build recipe: ");
        let joined = join_strings(&orphans, ", ");
        assert(strings_view(orphans@) =~= orphans@.map_values(|p: String| p@));
        line.append(joined.as_str());
        line.append(")");
        push_line(&mut out, line);
    }
    assert(strings_view(out@) =~= order_section(repos));
    out
}

/// Appends lines.
fn append_lines(out: &mut Vec<String>, lines: Vec<String>)
    ensures
        strings_view(final(out)@) == strings_view(old(out)@) + strings_view(lines@),
{
    let mut lines = lines;
    let ghost lv = strings_view(lines@);
    let ghost start = strings_view(out@);
    out.append(&mut lines);
    assert(strings_view(out@) =~= start + lv);
}

/// The `--dry-run` report's lines: resolved shas, planned build order,
/// planned tiers with the probe results (the host facts given: Linux,
/// passwordless sudo, `valkey-server`, `python3` and `docker` on `PATH`), and
/// the dist/ target under the build directory given or the default one.
/// Nothing here creates or fetches anything.
pub fn report_dry_run(
    name: &str,
    resolved: &[Resolved],
    skipped: &[String],
    build_dir: Option<&str>,
    workspace: &str,
    linux: bool,
    sudo: bool,
    valkey: bool,
    python3: bool,
    docker: bool,
) -> (r: Vec<String>)
    ensures
        strings_view(r@) == dry_run_report(
            DryRunView {
                name: name@,
                resolved: resolutions_view(resolved@),
                skipped: strings_view(skipped@),
                build_dir: build_dir_spec(opt_view(build_dir), workspace@, name@),
                netns: netns_probe_text(linux, sudo, valkey, python3),
                docker: if docker {
                    "prerequisites present"@
                } else {
                    "missing: docker"@
                },
            },
        ),
{
    proof {
        reveal_strlit("");
    }
    let mut out: Vec<String> = Vec::new();
    let mut head = owned("build set ");
    head.append(name);
    head.append(" (dry-run)");
    push_line(&mut out, head);
    push_line(&mut out, owned(""));
    push_line(&mut out, owned("resolved refs:"));
    append_lines(&mut out, resolved_lines(resolved));
    append_lines(&mut out, skipped_lines(skipped));
    append_lines(&mut out, order_lines(resolved));
    let ghost before_tail = strings_view(out@);
    let blank = owned("");
    assert(blank@ =~= Seq::<char>::empty());
    push_line(&mut out, blank);
    push_line(&mut out, owned("tiers (planned):"));
    push_line(&mut out, owned("  unit    would run"));
    let mut line = owned("  netns   not requested (--test netns); ");
    let n = netns_probe(linux, sudo, valkey, python3);
    line.append(n.as_str());
    push_line(&mut out, line);
    let mut line = owned("  docker  not requested (--test docker); ");
    let d = docker_probe(docker);
    line.append(d.as_str());
    push_line(&mut out, line);
    let blank = owned("");
    assert(blank@ =~= Seq::<char>::empty());
    push_line(&mut out, blank);
    let dir = build_dir_for(build_dir, workspace, name);
    let mut line = owned("dist: ");
    let dist = join_path(dir.as_str(), "dist");
    line.append(dist.as_str());
    push_line(&mut out, line);
    push_line(&mut out, owned("dry-run: nothing was created, and nothing was fetched"));
    assert(strings_view(out@) =~= before_tail + tail_section(
        netns_probe_text(linux, sudo, valkey, python3),
        if docker {
            "prerequisites present"@
        } else {
            "missing: docker"@
        },
        build_dir_spec(opt_view(build_dir), workspace@, name@),
    ));
    out
}

/// Appends a line.
fn push_line(out: &mut Vec<String>, line: String)
    ensures
        strings_view(final(out)@) == strings_view(old(out)@).push(line@),
{
    out.push(line);
    assert(strings_view(out@) =~= strings_view(old(out)@).push(line@));
}

/// Every name is at most the widest.
proof fn lemma_widest_bound(names: Seq<Seq<char>>, n: int, i: int)
    requires
        0 <= i < n <= names.len(),
    ensures
        names[i].len() <= widest(names, n),
    decreases n,
{
    if i < n - 1 {
        lemma_widest_bound(names, n - 1, i);
    }
}

} // verus!
