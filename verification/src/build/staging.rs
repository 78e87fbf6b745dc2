//! Staging built binaries: from a worktree into `dist/`, and from `dist/`
//! into the demo's `bin/`. Which files are copied where, and which failure
//! ends the staging with which message, is decided here; asking whether a
//! file is there and copying it is the caller's.

use vstd::prelude::*;

use crate::build::recipes::{Recipe, RecipeView, StagedView, recipe_table, recipes};
use crate::git::done_ran;
use crate::text::{join_path, owned, path_join};

verus! {

/// One copy: the source, the target, the error when the source is not a
/// file, and the text an error copying it is appended to.
pub struct CopyJob {
    pub source: String,
    pub target: String,
    pub missing: String,
    pub failed: String,
}

/// The mathematical form of a [`CopyJob`].
pub struct CopyJobView {
    pub source: Seq<char>,
    pub target: Seq<char>,
    pub missing: Seq<char>,
    pub failed: Seq<char>,
}

impl View for CopyJob {
    type V = CopyJobView;

    open spec fn view(&self) -> CopyJobView {
        CopyJobView {
            source: self.source@,
            target: self.target@,
            missing: self.missing@,
            failed: self.failed@,
        }
    }
}

/// The views of a list of jobs.
pub open spec fn jobs_view(v: Seq<CopyJob>) -> Seq<CopyJobView> {
    v.map_values(|j: CopyJob| j@)
}

/// `is_file` answered `answer` for `path`.
pub open spec fn file_probed<F: Fn(&str) -> bool>(is_file: F, path: Seq<char>, answer: bool) -> bool {
    exists|p: &str| #[trigger] call_ensures(is_file, (p,), answer) && p@ == path
}

/// `copy` answered `result` when asked to copy `from` to `to`.
pub open spec fn copied<C: Fn(&str, &str) -> Result<(), String>>(
    copy: C,
    from: Seq<char>,
    to: Seq<char>,
    result: Result<(), Seq<char>>,
) -> bool {
    exists|f: &str, t: &str, r: Result<(), String>|
        #[trigger] call_ensures(copy, (f, t), r) && f@ == from && t@ == to && match (r, result) {
            (Ok(_), Ok(_)) => true,
            (Err(e), Err(g)) => e@ == g,
            _ => false,
        }
}

/// What staging one job was answered: whether the source is a file, and,
/// when it is, what copying it answered.
pub open spec fn job_ran<F: Fn(&str) -> bool, C: Fn(&str, &str) -> Result<(), String>>(
    is_file: F,
    copy: C,
    job: CopyJobView,
    answer: (bool, Result<(), Seq<char>>),
) -> bool {
    file_probed(is_file, job.source, answer.0) && (answer.0 ==> copied(
        copy,
        job.source,
        job.target,
        answer.1,
    ))
}

/// The outcome of the first `n` jobs given their answers: the first missing
/// source or failed copy ends it with that job's error.
pub open spec fn copy_outcome(
    jobs: Seq<CopyJobView>,
    answers: Seq<(bool, Result<(), Seq<char>>)>,
    n: int,
) -> Result<(), Seq<char>>
    decreases n,
{
    if n <= 0 {
        Ok(())
    } else {
        match copy_outcome(jobs, answers, n - 1) {
            Err(e) => Err(e),
            Ok(_) => if !answers[n - 1].0 {
                Err(jobs[n - 1].missing)
            } else {
                match answers[n - 1].1 {
                    Err(e) => Err(jobs[n - 1].failed + e),
                    Ok(_) => Ok(()),
                }
            },
        }
    }
}

/// The outcome after `n` jobs depends only on the first `n` answers.
proof fn lemma_copy_prefix(
    jobs: Seq<CopyJobView>,
    a: Seq<(bool, Result<(), Seq<char>>)>,
    b: Seq<(bool, Result<(), Seq<char>>)>,
    n: int,
)
    requires
        0 <= n <= a.len(),
        n <= b.len(),
        forall|k: int| 0 <= k < n ==> a[k] == b[k],
    ensures
        copy_outcome(jobs, a, n) == copy_outcome(jobs, b, n),
    decreases n,
{
    if n > 0 {
        lemma_copy_prefix(jobs, a, b, n - 1);
    }
}

/// The view of a unit result.
pub open spec fn unit_view(r: Result<(), String>) -> Result<(), Seq<char>> {
    match r {
        Ok(_) => Ok(()),
        Err(e) => Err(e@),
    }
}

/// What running `jobs` against `is_file` and `copy` may report: for some
/// answers the two gave, one per job tried, the outcome those answers
/// determine; fewer answers than jobs only when that outcome is an error.
pub open spec fn copies_report<F: Fn(&str) -> bool, C: Fn(&str, &str) -> Result<(), String>>(
    is_file: F,
    copy: C,
    jobs: Seq<CopyJobView>,
    r: Result<(), Seq<char>>,
) -> bool {
    exists|answers: Seq<(bool, Result<(), Seq<char>>)>|
        answers.len() <= jobs.len() && (forall|k: int|
            0 <= k < answers.len() ==> job_ran(is_file, copy, jobs[k], #[trigger] answers[k]))
            && (answers.len() < jobs.len() ==> copy_outcome(jobs, answers, answers.len() as int)
            is Err) && #[trigger] copy_outcome(jobs, answers, answers.len() as int) == r
}

/// Runs the jobs in order, stopping at the first missing source or failed
/// copy with that job's error.
fn copy_all<F: Fn(&str) -> bool, C: Fn(&str, &str) -> Result<(), String>>(
    jobs: &Vec<CopyJob>,
    is_file: &F,
    copy: &C,
) -> (r: Result<(), String>)
    requires
        forall|p: &str| call_requires(*is_file, (p,)),
        forall|f: &str, t: &str| call_requires(*copy, (f, t)),
    ensures
        copies_report(*is_file, *copy, jobs_view(jobs@), unit_view(r)),
{
    let ghost jv = jobs_view(jobs@);
    let ghost mut answers: Seq<(bool, Result<(), Seq<char>>)> = seq![];
    let mut i: usize = 0;
    while i < jobs.len()
        invariant
            i <= jobs.len(),
            jv == jobs_view(jobs@),
            forall|p: &str| call_requires(*is_file, (p,)),
            forall|f: &str, t: &str| call_requires(*copy, (f, t)),
            answers.len() == i,
            forall|k: int| 0 <= k < i ==> job_ran(*is_file, *copy, jv[k], #[trigger] answers[k]),
            copy_outcome(jv, answers, i as int) == Ok::<(), Seq<char>>(()),
        decreases jobs.len() - i,
    {
        let job = &jobs[i];
        assert(jv[i as int] == job@);
        let source = job.source.as_str();
        let target = job.target.as_str();
        let present = is_file(source);
        assert(call_ensures(*is_file, (source,), present));
        let ghost old_answers = answers;
        if !present {
            proof {
                answers = answers.push((false, Ok(())));
                assert(job_ran(*is_file, *copy, jv[i as int], answers[i as int]));
                lemma_copy_prefix(jv, answers, old_answers, i as int);
                assert(copy_outcome(jv, answers, i + 1) == Err::<(), Seq<char>>(job.missing@));
            }
            return Err(job.missing.clone());
        }
        let done = copy(source, target);
        assert(call_ensures(*copy, (source, target), done));
        let ghost dv = unit_view(done);
        proof {
            answers = answers.push((true, dv));
            assert(copied(*copy, job.source@, job.target@, dv));
            assert(job_ran(*is_file, *copy, jv[i as int], answers[i as int]));
            lemma_copy_prefix(jv, answers, old_answers, i as int);
        }
        match done {
            Err(e) => {
                let mut m = job.failed.clone();
                m.append(e.as_str());
                assert(copy_outcome(jv, answers, i + 1) == Err::<(), Seq<char>>(m@));
                return Err(m);
            },
            Ok(_) => {},
        }
        i = i + 1;
    }
    Ok(())
}

/// The copies that stage a recipe's binaries from its worktree into `dist`.
pub open spec fn stage_jobs(recipe: RecipeView, worktree: Seq<char>, dist: Seq<char>) -> Seq<CopyJobView> {
    recipe.staged.map_values(
        |s: StagedView|
            CopyJobView {
                source: path_join(worktree, s.source),
                target: path_join(dist, s.name),
                missing: recipe.repo + ": build did not produce "@ + s.source + " (expected at "@
                    + path_join(worktree, s.source) + ")"@,
                failed: recipe.repo + ": cannot stage "@ + s.source + " into "@ + dist + ": "@,
            },
    )
}

/// Copies every binary a recipe stages from its worktree into `dist`, under
/// its staged name. A source the build did not produce is an error naming
/// the repository, the source and where it was expected; so is a copy that
/// fails.
pub fn stage_into<F: Fn(&str) -> bool, C: Fn(&str, &str) -> Result<(), String>>(
    recipe: &Recipe,
    worktree: &str,
    dist: &str,
    is_file: &F,
    copy: &C,
) -> (r: Result<(), String>)
    requires
        forall|p: &str| call_requires(*is_file, (p,)),
        forall|f: &str, t: &str| call_requires(*copy, (f, t)),
    ensures
        copies_report(*is_file, *copy, stage_jobs(recipe@, worktree@, dist@), unit_view(r)),
{
    let mut jobs: Vec<CopyJob> = Vec::new();
    let mut i: usize = 0;
    while i < recipe.staged.len()
        invariant
            i <= recipe.staged.len(),
            jobs_view(jobs@) == stage_jobs(recipe@, worktree@, dist@).take(i as int),
        decreases recipe.staged.len() - i,
    {
        let staged = &recipe.staged[i];
        assert(recipe@.staged[i as int] == staged@);
        let source = join_path(worktree, staged.source.as_str());
        let target = join_path(dist, staged.name.as_str());
        let mut missing = owned(recipe.repo.as_str());
        missing.append(": build did not produce ");
        missing.append(staged.source.as_str());
        missing.append(" (expected at ");
        missing.append(source.as_str());
        missing.append(")");
        let mut failed = owned(recipe.repo.as_str());
        failed.append(": cannot stage ");
        failed.append(staged.source.as_str());
        failed.append(" into ");
        failed.append(dist);
        failed.append(": ");
        let job = CopyJob { source, target, missing, failed };
        let ghost before = jobs@;
        jobs.push(job);
        assert(jobs@ == before.push(job));
        proof {
            let all = stage_jobs(recipe@, worktree@, dist@);
            assert(job@ == all[i as int]);
            assert(jobs_view(jobs@) =~= jobs_view(before).push(job@));
            assert(all.take(i + 1) =~= all.take(i as int).push(all[i as int]));
        }
        i = i + 1;
    }
    assert(stage_jobs(recipe@, worktree@, dist@).take(i as int) =~= stage_jobs(recipe@, worktree@, dist@));
    copy_all(&jobs, is_file, copy)
}

/// Every name the recipe table stages, in table order.
pub open spec fn staged_names(table: Seq<RecipeView>) -> Seq<Seq<char>> {
    table.map_values(|r: RecipeView| r.staged.map_values(|s: StagedView| s.name)).flatten()
}

/// The copies that stage `dist`'s binaries into the demo's `bin`.
pub open spec fn demo_jobs(names: Seq<Seq<char>>, dist: Seq<char>, bin: Seq<char>) -> Seq<CopyJobView> {
    names.map_values(
        |n: Seq<char>|
            CopyJobView {
                source: path_join(dist, n),
                target: path_join(bin, n),
                missing: "dist/ is missing "@ + n + " (expected at "@ + path_join(dist, n)
                    + "); cannot stage the demo"@,
                failed: "cannot stage "@ + n + " into "@ + bin + ": "@,
            },
    )
}

/// Every staged name of the recipe table, in table order.
fn table_staged_names() -> (r: Vec<String>)
    ensures
        r@.map_values(|s: String| s@) == staged_names(recipe_table()),
{
    let table = recipes();
    let ghost tv = table@.map_values(|r: Recipe| r@);
    assert(tv == recipe_table());
    let ghost per = tv.map_values(|r: RecipeView| r.staged.map_values(|s: StagedView| s.name));
    let mut names: Vec<String> = Vec::new();
    let mut i: usize = 0;
    assert(per.take(0).flatten() =~= Seq::<Seq<char>>::empty());
    while i < table.len()
        invariant
            i <= table.len(),
            tv == table@.map_values(|r: Recipe| r@),
            per == tv.map_values(|r: RecipeView| r.staged.map_values(|s: StagedView| s.name)),
            names@.map_values(|s: String| s@) == per.take(i as int).flatten(),
        decreases table.len() - i,
    {
        let recipe = &table[i];
        assert(tv[i as int] == recipe@);
        let ghost start = names@.map_values(|s: String| s@);
        let mut j: usize = 0;
        while j < recipe.staged.len()
            invariant
                i < table.len(),
                recipe == &table[i as int],
                j <= recipe.staged.len(),
                names@.map_values(|s: String| s@) == start + recipe@.staged.map_values(
                    |s: StagedView| s.name,
                ).take(j as int),
            decreases recipe.staged.len() - j,
        {
            let ghost before = names@;
            let n = recipe.staged[j].name.clone();
            assert(n@ == recipe.staged@[j as int].name@);
            names.push(n);
            assert(names@ == before.push(n));
            proof {
                let row = recipe@.staged.map_values(|s: StagedView| s.name);
                assert(row[j as int] == n@);
                assert(names@.map_values(|s: String| s@) =~= before.map_values(|s: String| s@).push(n@));
                assert(row.take(j + 1) =~= row.take(j as int).push(row[j as int]));
                assert(names@.map_values(|s: String| s@) =~= start + row.take(j + 1));
            }
            j = j + 1;
        }
        proof {
            let row = recipe@.staged.map_values(|s: StagedView| s.name);
            assert(row.take(j as int) =~= row);
            assert(per[i as int] == row);
            assert(per.take(i + 1) =~= per.take(i as int).push(row));
            per.take(i as int).lemma_flatten_push(row);
        }
        i = i + 1;
    }
    assert(per.take(i as int) =~= per);
    names
}

/// Copies every name the recipe table stages from `dist` into the demo's
/// `bin` (created first), so the demo runs against exactly the set's
/// binaries. A name missing from `dist` is an error naming it and where it
/// was expected: the demo must not run against a half-staged `bin`. The
/// first failure is the error.
pub fn stage_dist_into_demo<
    M: Fn(&str) -> Result<(), String>,
    F: Fn(&str) -> bool,
    C: Fn(&str, &str) -> Result<(), String>,
>(dist: &str, bin: &str, make_dirs: &M, is_file: &F, copy: &C) -> (r: Result<(), String>)
    requires
        forall|p: &str| call_requires(*make_dirs, (p,)),
        forall|p: &str| call_requires(*is_file, (p,)),
        forall|f: &str, t: &str| call_requires(*copy, (f, t)),
    ensures
        exists|made: Result<(), Seq<char>>|
            #[trigger] done_ran(*make_dirs, bin@, made) && match made {
                Err(e) => r matches Err(f) && f@ == "cannot create "@ + bin@ + ": "@ + e,
                Ok(_) => copies_report(
                    *is_file,
                    *copy,
                    demo_jobs(staged_names(recipe_table()), dist@, bin@),
                    unit_view(r),
                ),
            },
{
    let made = make_dirs(bin);
    assert(call_ensures(*make_dirs, (bin,), made));
    match made {
        Err(e) => {
            assert(done_ran(*make_dirs, bin@, Err::<(), Seq<char>>(e@)));
            let mut m = owned("cannot create ");
            m.append(bin);
            m.append(": ");
            m.append(e.as_str());
            return Err(m);
        },
        Ok(_) => {
            assert(done_ran(*make_dirs, bin@, Ok::<(), Seq<char>>(())));
        },
    }
    let names = table_staged_names();
    let ghost nv = names@.map_values(|s: String| s@);
    let mut jobs: Vec<CopyJob> = Vec::new();
    let mut i: usize = 0;
    while i < names.len()
        invariant
            i <= names.len(),
            nv == names@.map_values(|s: String| s@),
            jobs_view(jobs@) == demo_jobs(nv, dist@, bin@).take(i as int),
        decreases names.len() - i,
    {
        let name = names[i].as_str();
        assert(nv[i as int] == name@);
        let source = join_path(dist, name);
        let target = join_path(bin, name);
        let mut missing = owned("dist/ is missing ");
        missing.append(name);
        missing.append(" (expected at ");
        missing.append(source.as_str());
        missing.append("); cannot stage the demo");
        let mut failed = owned("cannot stage ");
        failed.append(name);
        failed.append(" into ");
        failed.append(bin);
        failed.append(": ");
        let job = CopyJob { source, target, missing, failed };
        let ghost before = jobs@;
        jobs.push(job);
        assert(jobs@ == before.push(job));
        proof {
            let all = demo_jobs(nv, dist@, bin@);
            assert(job@ == all[i as int]);
            assert(jobs_view(jobs@) =~= jobs_view(before).push(job@));
            assert(all.take(i + 1) =~= all.take(i as int).push(all[i as int]));
        }
        i = i + 1;
    }
    assert(demo_jobs(nv, dist@, bin@).take(i as int) =~= demo_jobs(nv, dist@, bin@));
    copy_all(&jobs, is_file, copy)
}

} // verus!
