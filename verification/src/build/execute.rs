//! The real build as a state machine: worktrees, the gates against them,
//! the recipes, staging, the check of `dist/`, the emitted manifest, the
//! tarball and the pruning of the worktrees. [`BuildRun::step`] decides, from
//! what the last action answered, what to do next; performing each action is
//! the caller's. The ordering the build promises is proved of the
//! transition: nothing is compiled before the gates pass, a gate failure
//! emits no manifest, a build failure still emits one and keeps the
//! worktrees, and a success prunes them unless asked to keep them.

use vstd::prelude::*;

use crate::build::Resolved;
use crate::build::recipes::{
    Recipe, RecipeView, Staged, StagedView, Step, clone_recipe, pairs_view, recipe_index, strings_view,
};
use crate::text::{join_path, owned, path_join, str_eq};

verus! {

/// Where the build loop stands.
#[derive(Debug, Clone, Copy, PartialEq, Eq, Structural)]
pub enum Phase {
    /// Nothing done yet; the sources directory comes first.
    Start,
    /// Adding worktrees; the next plan entry to consider.
    Adding(usize),
    /// The gates are running against the worktrees.
    Gating,
    /// Building: the next plan entry to consider.
    Entering(usize),
    /// Building: the plan entry, and the next of its recipe's steps to run
    /// (past the last, its staging).
    Building(usize, usize),
    /// Checking `dist/`.
    Verifying,
    /// A build failure was reported; the manifest is next.
    Emitting,
    /// The manifest is being written.
    Written,
    /// The manifest's path was announced.
    Announced,
    /// A build failure was announced; where the worktrees are is next.
    FailNoted,
    /// The tarball is being written.
    Packing,
    /// Removing worktrees; the next plan entry to consider.
    Removing(usize),
    /// One more action, then the result.
    Closing(bool),
    /// The build ended with this result.
    Finished(bool),
    /// The build stopped on an error outside the build itself.
    Aborted,
}

/// What the gates said so far.
#[derive(Debug, Clone, Copy, PartialEq, Eq, Structural)]
pub enum GateState {
    Pending,
    Passed,
    Failed,
}

/// What the last action answered.
#[derive(Debug)]
pub enum BuildEvent {
    /// It succeeded.
    Done,
    /// It failed with this error.
    Failed(String),
    /// The gates ran and reported this many errors.
    Gates(usize),
}

/// The mathematical form of a [`BuildEvent`].
pub enum EventView {
    Done,
    Failed(Seq<char>),
    Gates(nat),
}

impl View for BuildEvent {
    type V = EventView;

    open spec fn view(&self) -> EventView {
        match self {
            BuildEvent::Done => EventView::Done,
            BuildEvent::Failed(e) => EventView::Failed(e@),
            BuildEvent::Gates(n) => EventView::Gates(*n as nat),
        }
    }
}

/// What to do next.
#[derive(Debug)]
pub enum BuildAction {
    /// Create this directory and its parents.
    CreateDir(String),
    /// Print this line on standard output.
    Say(String),
    /// Print this line on standard error.
    Warn(String),
    /// Add a detached worktree of the checkout `repo` at `dest`, at `sha`.
    AddWorktree { repo: String, dest: String, sha: String },
    /// Run the gates over [`BuildRun::gate_scan`] and print their report;
    /// answer with the number of error findings.
    RunGates,
    /// Run step `step` of plan entry `entry`'s recipe in its worktree.
    RunStep { entry: usize, step: usize },
    /// Stage plan entry `entry`'s binaries into `dist/`.
    Stage { entry: usize },
    /// Check that `dist/` holds these binaries, executable.
    VerifyDist(Vec<String>),
    /// Write the emitted manifest to this file.
    WriteManifest(String),
    /// Write the tarball of `dist/`.
    Tarball,
    /// Remove the worktree at `dest` of the checkout `repo`.
    RemoveWorktree { repo: String, dest: String },
    /// Remove this directory if it is empty; a failure is ignored.
    RemoveEmptyDir(String),
    /// The build is over: `true` when it succeeded, `false` on a gate or
    /// build failure.
    Finish(bool),
    /// The build stopped on this error.
    Fail(String),
}

/// The mathematical form of a [`BuildAction`].
#[verifier::ext_equal]
pub enum ActionView {
    CreateDir(Seq<char>),
    Say(Seq<char>),
    Warn(Seq<char>),
    AddWorktree { repo: Seq<char>, dest: Seq<char>, sha: Seq<char> },
    RunGates,
    RunStep { entry: nat, step: nat },
    Stage { entry: nat },
    VerifyDist(Seq<Seq<char>>),
    WriteManifest(Seq<char>),
    Tarball,
    RemoveWorktree { repo: Seq<char>, dest: Seq<char> },
    RemoveEmptyDir(Seq<char>),
    Finish(bool),
    Fail(Seq<char>),
}

impl View for BuildAction {
    type V = ActionView;

    open spec fn view(&self) -> ActionView {
        match self {
            BuildAction::CreateDir(p) => ActionView::CreateDir(p@),
            BuildAction::Say(s) => ActionView::Say(s@),
            BuildAction::Warn(s) => ActionView::Warn(s@),
            BuildAction::AddWorktree { repo, dest, sha } => ActionView::AddWorktree {
                repo: repo@,
                dest: dest@,
                sha: sha@,
            },
            BuildAction::RunGates => ActionView::RunGates,
            BuildAction::RunStep { entry, step } => ActionView::RunStep {
                entry: *entry as nat,
                step: *step as nat,
            },
            BuildAction::Stage { entry } => ActionView::Stage { entry: *entry as nat },
            BuildAction::VerifyDist(names) => ActionView::VerifyDist(strings_view(names@)),
            BuildAction::WriteManifest(p) => ActionView::WriteManifest(p@),
            BuildAction::Tarball => ActionView::Tarball,
            BuildAction::RemoveWorktree { repo, dest } => ActionView::RemoveWorktree {
                repo: repo@,
                dest: dest@,
            },
            BuildAction::RemoveEmptyDir(p) => ActionView::RemoveEmptyDir(p@),
            BuildAction::Finish(ok) => ActionView::Finish(*ok),
            BuildAction::Fail(e) => ActionView::Fail(e@),
        }
    }
}

/// One resolved repository and the recipe that builds it, if any.
#[derive(Debug)]
pub struct Planned {
    pub repo: String,
    pub sha: String,
    pub recipe: Option<Recipe>,
}

/// The mathematical form of a [`Planned`] entry.
#[verifier::ext_equal]
pub struct PlannedView {
    pub repo: Seq<char>,
    pub sha: Seq<char>,
    pub recipe: Option<RecipeView>,
}

/// The view of an optional recipe.
pub open spec fn recipe_view(r: Option<Recipe>) -> Option<RecipeView> {
    match r {
        Some(x) => Some(x@),
        None => None,
    }
}

impl View for Planned {
    type V = PlannedView;

    open spec fn view(&self) -> PlannedView {
        PlannedView { repo: self.repo@, sha: self.sha@, recipe: recipe_view(self.recipe) }
    }
}

/// A real build in progress: the plan, the directories, the flags, and where
/// it stands.
#[derive(Debug)]
pub struct BuildRun {
    plan: Vec<Planned>,
    workspace: String,
    src: String,
    dist: String,
    name: String,
    quiet: bool,
    keep: bool,
    no_tarball: bool,
    phase: Phase,
    gates: GateState,
    failure: Option<String>,
}

/// The mathematical form of a [`BuildRun`].
#[verifier::ext_equal]
pub struct RunView {
    pub plan: Seq<PlannedView>,
    pub workspace: Seq<char>,
    pub src: Seq<char>,
    pub dist: Seq<char>,
    pub name: Seq<char>,
    pub quiet: bool,
    pub keep: bool,
    pub no_tarball: bool,
    pub phase: Phase,
    pub gates: GateState,
    pub failure: Option<Seq<char>>,
}

/// The view of an optional string.
pub open spec fn opt_view(o: Option<String>) -> Option<Seq<char>> {
    match o {
        Some(s) => Some(s@),
        None => None,
    }
}

impl View for BuildRun {
    type V = RunView;

    closed spec fn view(&self) -> RunView {
        RunView {
            plan: self.plan@.map_values(|p: Planned| p@),
            workspace: self.workspace@,
            src: self.src@,
            dist: self.dist@,
            name: self.name@,
            quiet: self.quiet,
            keep: self.keep,
            no_tarball: self.no_tarball,
            phase: self.phase,
            gates: self.gates,
            failure: opt_view(self.failure),
        }
    }
}

// ---------------------------------------------------------------------------
// The transition
// ---------------------------------------------------------------------------

/// The manifest file in `dist/`.
pub open spec fn manifest_file(dist: Seq<char>, name: Seq<char>) -> Seq<char> {
    path_join(dist, "zpr-set-"@ + name + ".yaml"@)
}

/// `r` moved to `phase`.
pub open spec fn at(r: RunView, phase: Phase) -> RunView {
    RunView { phase, ..r }
}

/// The error for a gate run answered without its error count.
pub open spec fn no_gate_report() -> Seq<char> {
    "the gates answered without a report"@
}

/// The build stops with error `e`.
pub open spec fn abort(r: RunView, e: Seq<char>) -> (RunView, ActionView) {
    (RunView { phase: Phase::Aborted, failure: Some(e), ..r }, ActionView::Fail(e))
}

/// Considers plan entries from `i`: the next one with a recipe gets a
/// worktree, one without is reported as skipped (silently under `--quiet`);
/// after the last the gates run.
pub open spec fn adding(r: RunView, i: int) -> (RunView, ActionView)
    decreases r.plan.len() - i,
{
    if i < 0 || i >= r.plan.len() {
        (at(r, Phase::Gating), ActionView::RunGates)
    } else {
        let e = r.plan[i];
        match e.recipe {
            None => if r.quiet {
                adding(r, i + 1)
            } else {
                (at(r, Phase::Adding((i + 1) as usize)), ActionView::Say(e.repo + ": no build recipe, skipped"@))
            },
            Some(_) => (
                at(r, Phase::Adding((i + 1) as usize)),
                ActionView::AddWorktree {
                    repo: path_join(r.workspace, e.repo),
                    dest: path_join(r.src, e.repo),
                    sha: e.sha,
                },
            ),
        }
    }
}

/// Every name the plan's recipes stage, in plan order.
pub open spec fn expected_names(plan: Seq<PlannedView>) -> Seq<Seq<char>> {
    plan.map_values(
        |p: PlannedView|
            match p.recipe {
                Some(rc) => rc.staged.map_values(|s: StagedView| s.name),
                None => Seq::<Seq<char>>::empty(),
            },
    ).flatten()
}

/// Builds from plan entry `j` on: the next entry with a recipe is
/// announced (unless `--quiet`) and its steps begin; after the last entry
/// `dist/` is checked.
pub open spec fn entering(r: RunView, j: int) -> (RunView, ActionView)
    decreases r.plan.len() - j,
{
    if j < 0 || j >= r.plan.len() {
        (at(r, Phase::Verifying), ActionView::VerifyDist(expected_names(r.plan)))
    } else {
        match r.plan[j].recipe {
            None => entering(r, j + 1),
            Some(_) => if r.quiet {
                stepping(r, j, 0)
            } else {
                (
                    at(r, Phase::Building(j as usize, 0)),
                    ActionView::Say("building "@ + r.plan[j].repo + "..."@),
                )
            },
        }
    }
}

/// Within plan entry `i`: run step `k` of its recipe, or, past the last
/// step, stage its binaries and move to the next entry.
pub open spec fn stepping(r: RunView, i: int, k: int) -> (RunView, ActionView) {
    if 0 <= i < r.plan.len() && r.plan[i].recipe is Some {
        if 0 <= k < r.plan[i].recipe->Some_0.steps.len() {
            (
                at(r, Phase::Building(i as usize, (k + 1) as usize)),
                ActionView::RunStep { entry: i as nat, step: k as nat },
            )
        } else {
            (at(r, Phase::Entering((i + 1) as usize)), ActionView::Stage { entry: i as nat })
        }
    } else {
        (at(r, Phase::Verifying), ActionView::VerifyDist(expected_names(r.plan)))
    }
}

/// Removes the worktrees of plan entries from `j` on, one per step; after
/// the last, the sources directory (if empty), and the build closes with
/// success exactly when the gates passed.
pub open spec fn removing(r: RunView, j: int) -> (RunView, ActionView)
    decreases r.plan.len() - j,
{
    if j < 0 || j >= r.plan.len() {
        (at(r, Phase::Closing(r.gates == GateState::Passed)), ActionView::RemoveEmptyDir(r.src))
    } else {
        match r.plan[j].recipe {
            None => removing(r, j + 1),
            Some(_) => (
                at(r, Phase::Removing((j + 1) as usize)),
                ActionView::RemoveWorktree {
                    repo: path_join(r.workspace, r.plan[j].repo),
                    dest: path_join(r.src, r.plan[j].repo),
                },
            ),
        }
    }
}

/// Ends the build with `ok`.
pub open spec fn finish(r: RunView, ok: bool) -> (RunView, ActionView) {
    (at(r, Phase::Finished(ok)), ActionView::Finish(ok))
}

/// After the tarball: keep the worktrees under `--keep` (saying so unless
/// `--quiet`), otherwise prune them.
pub open spec fn after_pack(r: RunView) -> (RunView, ActionView) {
    if r.keep {
        if r.quiet {
            finish(r, true)
        } else {
            (at(r, Phase::Closing(true)), ActionView::Say("worktrees kept in "@ + r.src + " (--keep)"@))
        }
    } else {
        removing(r, 0)
    }
}

/// After the manifest: a build failure is reported and the worktrees stay
/// for debugging; a success writes the tarball (unless `--no-tarball`).
pub open spec fn after_manifest(r: RunView) -> (RunView, ActionView) {
    match r.failure {
        Some(f) => if r.quiet {
            finish(r, false)
        } else {
            (at(r, Phase::FailNoted), ActionView::Say("build failed: "@ + f))
        },
        None => if r.no_tarball {
            after_pack(r)
        } else {
            (at(r, Phase::Packing), ActionView::Tarball)
        },
    }
}

/// A recipe step, a staging or the check of `dist/` failed with `e`: it is
/// reported, and the manifest is written next.
pub open spec fn build_failed(r: RunView, e: Seq<char>) -> (RunView, ActionView) {
    (RunView { phase: Phase::Emitting, failure: Some(e), ..r }, ActionView::Warn("error: "@ + e))
}

/// The next state and action, given what the last action answered.
pub open spec fn transition(r: RunView, ev: EventView) -> (RunView, ActionView) {
    match r.phase {
        Phase::Start => (at(r, Phase::Adding(0)), ActionView::CreateDir(r.src)),
        Phase::Adding(i) => match ev {
            EventView::Failed(e) => abort(r, e),
            _ => adding(r, i as int),
        },
        Phase::Gating => match ev {
            EventView::Failed(e) => abort(r, e),
            EventView::Gates(n) => if n > 0 {
                removing(RunView { gates: GateState::Failed, ..r }, 0)
            } else {
                entering(RunView { gates: GateState::Passed, ..r }, 0)
            },
            EventView::Done => abort(r, no_gate_report()),
        },
        Phase::Entering(j) => match ev {
            EventView::Failed(e) => build_failed(r, e),
            _ => entering(r, j as int),
        },
        Phase::Building(i, k) => match ev {
            EventView::Failed(e) => build_failed(r, e),
            _ => stepping(r, i as int, k as int),
        },
        Phase::Verifying => match ev {
            EventView::Failed(e) => build_failed(r, e),
            _ => (at(r, Phase::Written), ActionView::WriteManifest(manifest_file(r.dist, r.name))),
        },
        Phase::Emitting => (at(r, Phase::Written), ActionView::WriteManifest(manifest_file(r.dist, r.name))),
        Phase::Written => match ev {
            EventView::Failed(e) => abort(r, e),
            _ => if r.quiet {
                after_manifest(r)
            } else {
                (
                    at(r, Phase::Announced),
                    ActionView::Say("emitted manifest: "@ + manifest_file(r.dist, r.name)),
                )
            },
        },
        Phase::Announced => after_manifest(r),
        Phase::FailNoted => (
            at(r, Phase::Closing(false)),
            ActionView::Say("worktrees left in "@ + r.src + " for debugging"@),
        ),
        Phase::Packing => match ev {
            EventView::Failed(e) => abort(r, e),
            _ => after_pack(r),
        },
        Phase::Removing(j) => match ev {
            EventView::Failed(e) => abort(r, e),
            _ => removing(r, j as int),
        },
        Phase::Closing(ok) => finish(r, ok),
        Phase::Finished(ok) => finish(r, ok),
        Phase::Aborted => (r, ActionView::Fail(
            match r.failure {
                Some(e) => e,
                None => Seq::<char>::empty(),
            },
        )),
    }
}

// ---------------------------------------------------------------------------
// The laws of the transition
// ---------------------------------------------------------------------------

/// An action that compiles, stages, checks `dist/`, writes the manifest or
/// packs the tarball.
pub open spec fn builds(a: ActionView) -> bool {
    ||| a is RunStep
    ||| a is Stage
    ||| a is VerifyDist
    ||| a is WriteManifest
    ||| a is Tarball
}

/// A fresh build: nothing done, the gates not yet run, no failure.
pub open spec fn fresh(r: RunView) -> bool {
    r.phase == Phase::Start && r.gates == GateState::Pending && r.failure is None
}

/// What holds of every state a fresh build reaches: before the gates report,
/// they are pending and nothing failed; every building phase comes after
/// gates that passed; worktrees are removed only after a gate failure or a
/// clean build without `--keep`; a failed gate run only removes worktrees
/// and closes; and a build closes successfully only when it was clean.
pub open spec fn reachable(r: RunView) -> bool {
    match r.phase {
        Phase::Start | Phase::Adding(_) | Phase::Gating => r.gates == GateState::Pending
            && r.failure is None,
        Phase::Entering(_) | Phase::Building(_, _) | Phase::Verifying | Phase::Packing => r.gates
            == GateState::Passed
            && r.failure is None,
        Phase::Emitting | Phase::FailNoted => r.gates == GateState::Passed && r.failure is Some,
        Phase::Written | Phase::Announced => r.gates == GateState::Passed,
        Phase::Removing(_) => r.gates == GateState::Failed || (r.gates == GateState::Passed
            && r.failure is None && !r.keep),
        Phase::Closing(ok) | Phase::Finished(ok) => if ok {
            r.gates == GateState::Passed && r.failure is None
        } else {
            r.gates == GateState::Failed || (r.gates == GateState::Passed && r.failure is Some)
        },
        Phase::Aborted => true,
    }
}

/// A fresh build is a reachable state.
pub proof fn lemma_fresh_reachable(r: RunView)
    requires
        fresh(r),
    ensures
        reachable(r),
{
}

/// Every transition from a reachable state reaches one, keeping the plan,
/// the directories and the flags.
pub proof fn lemma_reachable_preserved(r: RunView, ev: EventView)
    requires
        reachable(r),
    ensures
        reachable(transition(r, ev).0),
        transition(r, ev).0.plan == r.plan && transition(r, ev).0.src == r.src && transition(r, ev).0.dist
            == r.dist && transition(r, ev).0.workspace == r.workspace && transition(r, ev).0.name
            == r.name && transition(r, ev).0.quiet == r.quiet && transition(r, ev).0.keep == r.keep
            && transition(r, ev).0.no_tarball == r.no_tarball,
{
    lemma_transition_shape(r, ev);
}

/// Building steps of any kind are only issued once the gates have passed,
/// and the gates pass only on a gate report with no errors: nothing is
/// compiled before the gates pass.
pub proof fn lemma_gates_before_building(r: RunView, ev: EventView)
    requires
        reachable(r),
    ensures
        builds(transition(r, ev).1) ==> transition(r, ev).0.gates == GateState::Passed,
        r.gates != GateState::Passed && transition(r, ev).0.gates == GateState::Passed ==> r.phase
            == Phase::Gating && ev == EventView::Gates(0),
{
    lemma_transition_shape(r, ev);
}

/// Once the gates fail they stay failed, and a failed gate run never writes
/// a manifest, compiles or packs: a gate failure emits nothing, removes the
/// worktrees, and ends the build unsuccessfully.
pub proof fn lemma_gate_failure_emits_nothing(r: RunView, ev: EventView)
    requires
        reachable(r),
    ensures
        r.gates == GateState::Failed ==> transition(r, ev).0.gates == GateState::Failed
            && !builds(transition(r, ev).1) && transition(r, ev).1 != ActionView::Finish(true),
        r.phase == Phase::Gating && (ev matches EventView::Gates(n) && n > 0) ==> transition(r, ev).0.gates
            == GateState::Failed && (transition(r, ev).1 is RemoveWorktree || transition(r, ev).1
            is RemoveEmptyDir),
{
    lemma_transition_shape(r, ev);
}

/// A failed recipe step, staging or check of `dist/` is reported and the
/// manifest is written next, with the failure recorded: the broken set is
/// the most interesting one to reproduce.
pub proof fn lemma_build_failure_still_emits(r: RunView, e: Seq<char>)
    requires
        r.phase is Building || r.phase is Entering || r.phase == Phase::Verifying,
    ensures
        transition(r, EventView::Failed(e)).0.phase == Phase::Emitting,
        transition(r, EventView::Failed(e)).0.failure == Some(e),
        transition(transition(r, EventView::Failed(e)).0, EventView::Done).1 == ActionView::WriteManifest(
            manifest_file(r.dist, r.name),
        ),
{
}

/// With a build failure recorded, no worktree is ever removed and the build
/// never ends successfully: the worktrees are what a person debugs with.
pub proof fn lemma_build_failure_keeps_worktrees(r: RunView, ev: EventView)
    requires
        reachable(r),
        r.gates == GateState::Passed,
        r.failure is Some,
    ensures
        !(transition(r, ev).1 is RemoveWorktree),
        transition(r, ev).1 != ActionView::Finish(true),
        transition(r, ev).0.failure is Some,
{
    lemma_transition_shape(r, ev);
}

/// Under `--keep` a successful build never removes a worktree.
pub proof fn lemma_keep_keeps_worktrees(r: RunView, ev: EventView)
    requires
        reachable(r),
        r.keep,
        r.gates == GateState::Passed,
    ensures
        !(transition(r, ev).1 is RemoveWorktree),
{
    lemma_transition_shape(r, ev);
}

/// A successful build without `--keep` prunes its worktrees once the
/// manifest (and the tarball, unless disabled) is written.
pub proof fn lemma_success_prunes(r: RunView)
    requires
        !r.keep,
        r.failure is None,
        r.gates == GateState::Passed,
    ensures
        r.no_tarball ==> after_manifest(r) == removing(r, 0),
        after_pack(r) == removing(r, 0),
{
}

/// The build only ends successfully when the gates passed and nothing
/// failed.
pub proof fn lemma_success_means_clean(r: RunView, ev: EventView)
    requires
        reachable(r),
    ensures
        transition(r, ev).1 == ActionView::Finish(true) ==> r.gates == GateState::Passed
            && r.failure is None,
{
    lemma_transition_shape(r, ev);
}

/// The steps of a build answered with `evs` in turn from `r`: the state
/// before each step and the action it issued.
pub open spec fn run_trace(r: RunView, evs: Seq<EventView>) -> Seq<(RunView, ActionView)>
    decreases evs.len(),
{
    if evs.len() == 0 {
        seq![]
    } else {
        let (t, a) = transition(r, evs[0]);
        seq![(r, a)] + run_trace(t, evs.drop_first())
    }
}

/// Over a whole run, nothing is compiled, staged, checked, written or packed
/// before the gates pass: every such action is preceded (or accompanied) by
/// a step at the gates that was answered with no errors.
pub proof fn lemma_no_build_before_gates_pass(r: RunView, evs: Seq<EventView>)
    requires
        reachable(r),
        r.gates != GateState::Passed,
    ensures
        run_trace(r, evs).len() == evs.len(),
        forall|i: int|
            0 <= i < evs.len() && builds(#[trigger] run_trace(r, evs)[i].1) ==> exists|j: int|
                0 <= j <= i && run_trace(r, evs)[j].0.phase == Phase::Gating && evs[j] == EventView::Gates(0),
    decreases evs.len(),
{
    if evs.len() > 0 {
        let (t, a) = transition(r, evs[0]);
        lemma_transition_shape(r, evs[0]);
        let rest = evs.drop_first();
        let tr = run_trace(r, evs);
        assert(tr == seq![(r, a)] + run_trace(t, rest));
        if t.gates == GateState::Passed {
            assert(r.phase == Phase::Gating && evs[0] == EventView::Gates(0));
            lemma_trace_len(t, rest);
            assert forall|i: int| 0 <= i < evs.len() && builds(#[trigger] tr[i].1) implies exists|j: int|
                0 <= j <= i && tr[j].0.phase == Phase::Gating && evs[j] == EventView::Gates(0) by {
                assert(tr[0].0 == r);
            }
        } else {
            lemma_no_build_before_gates_pass(t, rest);
            let tt = run_trace(t, rest);
            assert forall|i: int| 0 <= i < evs.len() && builds(#[trigger] tr[i].1) implies exists|j: int|
                0 <= j <= i && tr[j].0.phase == Phase::Gating && evs[j] == EventView::Gates(0) by {
                assert(i != 0);
                assert(tr[i] == tt[i - 1]);
                assert(builds(tt[i - 1].1));
                let j = choose|j: int|
                    0 <= j <= i - 1 && tt[j].0.phase == Phase::Gating && rest[j] == EventView::Gates(0);
                assert(tr[j + 1] == tt[j]);
                assert(evs[j + 1] == rest[j]);
            }
        }
    }
}

proof fn lemma_trace_len(r: RunView, evs: Seq<EventView>)
    ensures
        run_trace(r, evs).len() == evs.len(),
    decreases evs.len(),
{
    if evs.len() > 0 {
        let (t, a) = transition(r, evs[0]);
        lemma_trace_len(t, evs.drop_first());
    }
}

/// The shape of one transition from a reachable state: the invariant
/// carries over, the inputs stay, and which actions each phase can issue.
proof fn lemma_transition_shape(r: RunView, ev: EventView)
    requires
        reachable(r),
    ensures
        ({
            let (t, a) = transition(r, ev);
            &&& reachable(t)
            &&& t.plan == r.plan && t.src == r.src && t.dist == r.dist && t.workspace == r.workspace
            &&& t.name == r.name && t.quiet == r.quiet && t.keep == r.keep && t.no_tarball == r.no_tarball
            &&& builds(a) ==> t.gates == GateState::Passed
            &&& r.gates != GateState::Passed && t.gates == GateState::Passed ==> r.phase == Phase::Gating
                && ev == EventView::Gates(0)
            &&& r.gates == GateState::Failed ==> t.gates == GateState::Failed && !builds(a) && a
                != ActionView::Finish(true)
            &&& r.phase == Phase::Gating && (ev matches EventView::Gates(n) && n > 0) ==> t.gates
                == GateState::Failed && (a is RemoveWorktree || a is RemoveEmptyDir)
            &&& r.gates == GateState::Passed && r.failure is Some ==> !(a is RemoveWorktree) && a
                != ActionView::Finish(true) && t.failure is Some
            &&& r.keep && r.gates == GateState::Passed ==> !(a is RemoveWorktree)
            &&& a == ActionView::Finish(true) ==> r.gates == GateState::Passed && r.failure is None
        }),
{
    match r.phase {
        Phase::Adding(i) => lemma_adding_shape(r, i as int),
        Phase::Gating => {
            lemma_removing_shape(RunView { gates: GateState::Failed, ..r }, 0);
            lemma_entering_shape(RunView { gates: GateState::Passed, ..r }, 0);
            assert(reachable(transition(r, ev).0));
        },
        Phase::Entering(j) => {
            lemma_entering_shape(r, j as int);
            assert(reachable(transition(r, ev).0));
        },
        Phase::Building(i, k) => {
            lemma_entering_shape(r, i as int);
            assert(reachable(transition(r, ev).0));
        },
        Phase::Removing(j) => {
            lemma_removing_shape(r, j as int);
            assert(reachable(transition(r, ev).0));
        },
        Phase::Written => {
            lemma_after_manifest_shape(r);
            assert(reachable(transition(r, ev).0));
        },
        Phase::Announced => {
            lemma_after_manifest_shape(r);
            assert(reachable(transition(r, ev).0));
        },
        Phase::Packing => {
            lemma_removing_shape(r, 0);
            assert(reachable(transition(r, ev).0));
        },
        Phase::Start => assert(reachable(transition(r, ev).0)),
        Phase::Verifying => assert(reachable(transition(r, ev).0)),
        Phase::Emitting => assert(reachable(transition(r, ev).0)),
        Phase::FailNoted => assert(reachable(transition(r, ev).0)),
        Phase::Closing(_) => assert(reachable(transition(r, ev).0)),
        Phase::Finished(_) => assert(reachable(transition(r, ev).0)),
        Phase::Aborted => assert(reachable(transition(r, ev).0)),
    }
}

/// What adding worktrees can lead to.
proof fn lemma_adding_shape(r: RunView, i: int)
    ensures
        ({
            let (t, a) = adding(r, i);
            &&& t == at(r, t.phase)
            &&& (a is Say || a is AddWorktree || a == ActionView::RunGates)
            &&& (t.phase is Adding || t.phase == Phase::Gating)
        }),
    decreases r.plan.len() - i,
{
    if 0 <= i < r.plan.len() && r.plan[i].recipe is None && r.quiet {
        lemma_adding_shape(r, i + 1);
    }
}

/// What building can lead to.
proof fn lemma_entering_shape(r: RunView, j: int)
    ensures
        ({
            let (t, a) = entering(r, j);
            &&& t == at(r, t.phase)
            &&& (a is Say || a is RunStep || a is Stage || a is VerifyDist)
            &&& (t.phase is Building || t.phase is Entering || t.phase == Phase::Verifying)
        }),
    decreases r.plan.len() - j,
{
    if 0 <= j < r.plan.len() && r.plan[j].recipe is None {
        lemma_entering_shape(r, j + 1);
    }
}

/// What removing worktrees can lead to.
proof fn lemma_removing_shape(r: RunView, j: int)
    ensures
        ({
            let (t, a) = removing(r, j);
            &&& t == at(r, t.phase)
            &&& (a is RemoveWorktree || a is RemoveEmptyDir)
            &&& (t.phase is Removing || t.phase == Phase::Closing(r.gates == GateState::Passed))
        }),
    decreases r.plan.len() - j,
{
    if 0 <= j < r.plan.len() && r.plan[j].recipe is None {
        lemma_removing_shape(r, j + 1);
    }
}

/// What follows the manifest.
proof fn lemma_after_manifest_shape(r: RunView)
    ensures
        ({
            let (t, a) = after_manifest(r);
            &&& t == at(r, t.phase)
            &&& r.failure is Some ==> (t.phase == Phase::Finished(false) || t.phase == Phase::FailNoted)
                && (a == ActionView::Finish(false) || a is Say)
            &&& r.failure is None ==> (t.phase == Phase::Packing || t.phase == Phase::Finished(true)
                || t.phase == Phase::Closing(true) || (!r.keep && (t.phase is Removing
                || t.phase == Phase::Closing(r.gates == GateState::Passed))))
            &&& r.failure is None ==> (a == ActionView::Tarball || a is Say || a == ActionView::Finish(
                true,
            ) || a is RemoveWorktree || a is RemoveEmptyDir)
            &&& r.keep ==> !(a is RemoveWorktree)
        }),
{
    lemma_removing_shape(r, 0);
}

// ---------------------------------------------------------------------------
// The machine
// ---------------------------------------------------------------------------

/// The plan for a resolution: each resolved repository with the first
/// recipe for it, if any.
pub open spec fn plan_for(resolved: Seq<Resolved>, recipes: Seq<RecipeView>) -> Seq<PlannedView> {
    resolved.map_values(
        |e: Resolved|
            PlannedView {
                repo: e.repo@,
                sha: e.sha@,
                recipe: match recipe_index(recipes, e.repo@) {
                    Some(i) => Some(recipes[i]),
                    None => None,
                },
            },
    )
}

/// The first recipe for `repo`, copied.
fn find_recipe(recipes: &[Recipe], repo: &str) -> (r: Option<Recipe>)
    ensures
        recipe_view(r) == match recipe_index(recipes@.map_values(|x: Recipe| x@), repo@) {
            Some(i) => Some(recipes@.map_values(|x: Recipe| x@)[i]),
            None => None,
        },
{
    let ghost t = recipes@.map_values(|x: Recipe| x@);
    let mut i: usize = 0;
    assert(t.skip(0) =~= t);
    while i < recipes.len()
        invariant
            i <= recipes.len(),
            t == recipes@.map_values(|x: Recipe| x@),
            recipe_index(t, repo@) == match recipe_index(t.skip(i as int), repo@) {
                Some(k) => Some(k + i),
                None => None::<int>,
            },
        decreases recipes.len() - i,
    {
        assert(t.skip(i as int)[0] == t[i as int]);
        assert(t.skip(i as int).drop_first() =~= t.skip(i + 1));
        if str_eq(recipes[i].repo.as_str(), repo) {
            return Some(clone_recipe(&recipes[i]));
        }
        i = i + 1;
    }
    None
}

/// The scan list the gates read: each planned repository with a recipe and
/// its worktree, in plan order.
pub open spec fn scan_of(plan: Seq<PlannedView>, src: Seq<char>, n: int) -> Seq<(Seq<char>, Seq<char>)>
    decreases n,
{
    if n <= 0 {
        seq![]
    } else if plan[n - 1].recipe is Some {
        scan_of(plan, src, n - 1).push((plan[n - 1].repo, path_join(src, plan[n - 1].repo)))
    } else {
        scan_of(plan, src, n - 1)
    }
}

impl BuildRun {
    /// A fresh build of `resolved` under `build_dir`: each repository paired
    /// with the first of `recipes` for it, the worktrees under `src/`, the
    /// binaries under `dist/`.
    pub fn new(
        resolved: &[Resolved],
        recipes: &[Recipe],
        workspace: &str,
        build_dir: &str,
        name: &str,
        quiet: bool,
        keep: bool,
        no_tarball: bool,
    ) -> (r: BuildRun)
        ensures
            fresh(r@),
            r@.plan == plan_for(resolved@, recipes@.map_values(|x: Recipe| x@)),
            r@.workspace == workspace@,
            r@.src == path_join(build_dir@, "src"@),
            r@.dist == path_join(build_dir@, "dist"@),
            r@.name == name@,
            r@.quiet == quiet,
            r@.keep == keep,
            r@.no_tarball == no_tarball,
    {
        let ghost rv = recipes@.map_values(|x: Recipe| x@);
        let mut plan: Vec<Planned> = Vec::new();
        let mut i: usize = 0;
        while i < resolved.len()
            invariant
                i <= resolved.len(),
                rv == recipes@.map_values(|x: Recipe| x@),
                plan@.map_values(|p: Planned| p@) == plan_for(resolved@, rv).take(i as int),
            decreases resolved.len() - i,
        {
            let e = &resolved[i];
            let recipe = find_recipe(recipes, e.repo.as_str());
            let p = Planned { repo: owned(e.repo.as_str()), sha: owned(e.sha.as_str()), recipe };
            let ghost before = plan@;
            plan.push(p);
            assert(p@ == plan_for(resolved@, rv)[i as int]);
            assert(plan@.map_values(|p: Planned| p@) =~= before.map_values(|p: Planned| p@).push(p@));
            assert(plan_for(resolved@, rv).take(i + 1) =~= plan_for(resolved@, rv).take(i as int).push(
                plan_for(resolved@, rv)[i as int],
            ));
            i = i + 1;
        }
        assert(plan_for(resolved@, rv).take(i as int) =~= plan_for(resolved@, rv));
        BuildRun {
            plan,
            workspace: owned(workspace),
            src: join_path(build_dir, "src"),
            dist: join_path(build_dir, "dist"),
            name: owned(name),
            quiet,
            keep,
            no_tarball,
            phase: Phase::Start,
            gates: GateState::Pending,
            failure: None,
        }
    }

    /// Where `dist/` is.
    pub fn dist(&self) -> (r: &str)
        ensures
            r@ == self@.dist,
    {
        self.dist.as_str()
    }

    /// Where the worktrees are.
    pub fn src(&self) -> (r: &str)
        ensures
            r@ == self@.src,
    {
        self.src.as_str()
    }

    /// The set's name.
    pub fn name(&self) -> (r: &str)
        ensures
            r@ == self@.name,
    {
        self.name.as_str()
    }

    /// Plan entry `entry`'s recipe and worktree, when it has a recipe.
    pub fn entry(&self, entry: usize) -> (r: Option<(&Recipe, String)>)
        ensures
            match r {
                Some((rc, w)) => entry < self@.plan.len() && self@.plan[entry as int].recipe == Some(rc@)
                    && w@ == path_join(self@.src, self@.plan[entry as int].repo),
                None => entry >= self@.plan.len() || self@.plan[entry as int].recipe is None,
            },
    {
        if entry >= self.plan.len() {
            return None;
        }
        match &self.plan[entry].recipe {
            Some(rc) => Some((rc, join_path(self.src.as_str(), self.plan[entry].repo.as_str()))),
            None => None,
        }
    }

    /// What the gates scan: each planned repository with a recipe and its
    /// worktree, in plan order.
    pub fn gate_scan(&self) -> (r: Vec<(String, String)>)
        ensures
            pairs_view(r@) == scan_of(self@.plan, self@.src, self@.plan.len() as int),
    {
        let ghost pv = self@.plan;
        let mut r: Vec<(String, String)> = Vec::new();
        let mut i: usize = 0;
        while i < self.plan.len()
            invariant
                i <= self.plan.len(),
                pv == self@.plan,
                pairs_view(r@) == scan_of(pv, self@.src, i as int),
            decreases self.plan.len() - i,
        {
            assert(pv[i as int] == self.plan@[i as int]@);
            if self.plan[i].recipe.is_some() {
                let pair = (
                    owned(self.plan[i].repo.as_str()),
                    join_path(self.src.as_str(), self.plan[i].repo.as_str()),
                );
                let ghost before = r@;
                r.push(pair);
                assert(pairs_view(r@) =~= pairs_view(before).push((pair.0@, pair.1@)));
            }
            i = i + 1;
        }
        r
    }

    /// The planned recipes and their worktrees, in plan order, for the
    /// manifest's digests and the test tiers.
    pub fn worktrees(&self) -> (r: Vec<(&Recipe, String)>)
        ensures
            r@.map_values(|w: (&Recipe, String)| (w.0@, w.1@)) == worktrees_of(
                self@.plan,
                self@.src,
                self@.plan.len() as int,
            ),
    {
        let ghost pv = self@.plan;
        let mut r: Vec<(&Recipe, String)> = Vec::new();
        let mut i: usize = 0;
        while i < self.plan.len()
            invariant
                i <= self.plan.len(),
                pv == self@.plan,
                r@.map_values(|w: (&Recipe, String)| (w.0@, w.1@)) == worktrees_of(
                    pv,
                    self@.src,
                    i as int,
                ),
            decreases self.plan.len() - i,
        {
            assert(pv[i as int] == self.plan@[i as int]@);
            match &self.plan[i].recipe {
                Some(rc) => {
                    let w = join_path(self.src.as_str(), self.plan[i].repo.as_str());
                    let ghost before = r@;
                    r.push((rc, w));
                    assert(r@.map_values(|w: (&Recipe, String)| (w.0@, w.1@)) =~= before.map_values(
                        |w: (&Recipe, String)| (w.0@, w.1@),
                    ).push((rc@, w@)));
                },
                None => {},
            }
            i = i + 1;
        }
        r
    }
}

/// The planned recipes and their worktrees among the first `n` entries.
pub open spec fn worktrees_of(plan: Seq<PlannedView>, src: Seq<char>, n: int) -> Seq<(RecipeView, Seq<char>)>
    decreases n,
{
    if n <= 0 {
        seq![]
    } else {
        match plan[n - 1].recipe {
            Some(rc) => worktrees_of(plan, src, n - 1).push((rc, path_join(src, plan[n - 1].repo))),
            None => worktrees_of(plan, src, n - 1),
        }
    }
}

impl BuildRun {
    /// Every name the plan's recipes stage, in plan order.
    fn expected(&self) -> (r: Vec<String>)
        ensures
            strings_view(r@) == expected_names(self@.plan),
    {
        let ghost pv = self@.plan;
        let ghost per = pv.map_values(
            |p: PlannedView|
                match p.recipe {
                    Some(rc) => rc.staged.map_values(|s: StagedView| s.name),
                    None => Seq::<Seq<char>>::empty(),
                },
        );
        let mut names: Vec<String> = Vec::new();
        let mut i: usize = 0;
        assert(per.take(0).flatten() =~= Seq::<Seq<char>>::empty());
        while i < self.plan.len()
            invariant
                i <= self.plan.len(),
                pv == self@.plan,
                per == pv.map_values(
                    |p: PlannedView|
                        match p.recipe {
                            Some(rc) => rc.staged.map_values(|s: StagedView| s.name),
                            None => Seq::<Seq<char>>::empty(),
                        },
                ),
                strings_view(names@) == per.take(i as int).flatten(),
            decreases self.plan.len() - i,
        {
            assert(pv[i as int] == self.plan@[i as int]@);
            let ghost start = strings_view(names@);
            match &self.plan[i].recipe {
                Some(rc) => {
                    let ghost row = rc@.staged.map_values(|s: StagedView| s.name);
                    let mut j: usize = 0;
                    while j < rc.staged.len()
                        invariant
                            j <= rc.staged.len(),
                            row == rc@.staged.map_values(|s: StagedView| s.name),
                            strings_view(names@) == start + row.take(j as int),
                        decreases rc.staged.len() - j,
                    {
                        let n = owned(rc.staged[j].name.as_str());
                        let ghost before = names@;
                        names.push(n);
                        assert(row[j as int] == n@);
                        assert(strings_view(names@) =~= strings_view(before).push(n@));
                        assert(row.take(j + 1) =~= row.take(j as int).push(row[j as int]));
                        j = j + 1;
                    }
                    proof {
                        assert(row.take(j as int) =~= row);
                        assert(per[i as int] == row);
                        assert(per.take(i + 1) =~= per.take(i as int).push(row));
                        per.take(i as int).lemma_flatten_push(row);
                    }
                },
                None => {
                    proof {
                        assert(per[i as int] =~= Seq::<Seq<char>>::empty());
                        assert(per.take(i + 1) =~= per.take(i as int).push(per[i as int]));
                        per.take(i as int).lemma_flatten_push(per[i as int]);
                        assert(start + per[i as int] =~= start);
                    }
                },
            }
            i = i + 1;
        }
        assert(per.take(i as int) =~= per);
        names
    }

    /// [`adding`], in place.
    fn go_adding(&mut self, i: usize) -> (a: BuildAction)
        ensures
            (final(self)@, a@) == adding(old(self)@, i as int),
    {
        let ghost r = self@;
        let mut j = i;
        while j < self.plan.len() && self.quiet && self.plan[j].recipe.is_none()
            invariant
                self@ == r,
                i <= j,
                adding(r, i as int) == adding(r, j as int),
            decreases self.plan.len() - j,
        {
            assert(r.plan[j as int] == self.plan@[j as int]@);
            j = j + 1;
        }
        if j >= self.plan.len() {
            self.phase = Phase::Gating;
            return BuildAction::RunGates;
        }
        assert(r.plan[j as int] == self.plan@[j as int]@);
        let repo = self.plan[j].repo.as_str();
        let action = match &self.plan[j].recipe {
            None => {
                let mut m = owned(repo);
                m.append(": no build recipe, skipped");
                BuildAction::Say(m)
            },
            Some(_) => BuildAction::AddWorktree {
                repo: join_path(self.workspace.as_str(), repo),
                dest: join_path(self.src.as_str(), repo),
                sha: owned(self.plan[j].sha.as_str()),
            },
        };
        self.phase = Phase::Adding(j + 1);
        action
    }

    /// [`entering`], in place.
    fn go_entering(&mut self, j: usize) -> (a: BuildAction)
        ensures
            (final(self)@, a@) == entering(old(self)@, j as int),
    {
        let ghost r = self@;
        let mut i = j;
        while i < self.plan.len() && self.plan[i].recipe.is_none()
            invariant
                self@ == r,
                j <= i,
                entering(r, j as int) == entering(r, i as int),
            decreases self.plan.len() - i,
        {
            assert(r.plan[i as int] == self.plan@[i as int]@);
            i = i + 1;
        }
        if i >= self.plan.len() {
            let names = self.expected();
            self.phase = Phase::Verifying;
            return BuildAction::VerifyDist(names);
        }
        assert(r.plan[i as int] == self.plan@[i as int]@);
        if self.quiet {
            return self.go_stepping(i, 0);
        }
        let mut m = owned("building ");
        m.append(self.plan[i].repo.as_str());
        m.append("...");
        self.phase = Phase::Building(i, 0);
        BuildAction::Say(m)
    }

    /// [`stepping`], in place.
    fn go_stepping(&mut self, i: usize, k: usize) -> (a: BuildAction)
        ensures
            (final(self)@, a@) == stepping(old(self)@, i as int, k as int),
    {
        let ghost r = self@;
        let n = if i < self.plan.len() {
            assert(r.plan[i as int] == self.plan@[i as int]@);
            match &self.plan[i].recipe {
                Some(rc) => Some(rc.steps.len()),
                None => None,
            }
        } else {
            None
        };
        match n {
            None => {
                let names = self.expected();
                self.phase = Phase::Verifying;
                BuildAction::VerifyDist(names)
            },
            Some(n) => {
                if k < n {
                    self.phase = Phase::Building(i, k + 1);
                    BuildAction::RunStep { entry: i, step: k }
                } else {
                    self.phase = Phase::Entering(i + 1);
                    BuildAction::Stage { entry: i }
                }
            },
        }
    }

}

impl BuildRun {
    /// [`removing`], in place.
    fn go_removing(&mut self, j: usize) -> (a: BuildAction)
        ensures
            (final(self)@, a@) == removing(old(self)@, j as int),
    {
        let ghost r = self@;
        let mut i = j;
        while i < self.plan.len() && self.plan[i].recipe.is_none()
            invariant
                self@ == r,
                j <= i,
                removing(r, j as int) == removing(r, i as int),
            decreases self.plan.len() - i,
        {
            assert(r.plan[i as int] == self.plan@[i as int]@);
            i = i + 1;
        }
        if i >= self.plan.len() {
            let ok = match self.gates {
                GateState::Passed => true,
                _ => false,
            };
            self.phase = Phase::Closing(ok);
            return BuildAction::RemoveEmptyDir(owned(self.src.as_str()));
        }
        assert(r.plan[i as int] == self.plan@[i as int]@);
        let repo = join_path(self.workspace.as_str(), self.plan[i].repo.as_str());
        let dest = join_path(self.src.as_str(), self.plan[i].repo.as_str());
        self.phase = Phase::Removing(i + 1);
        BuildAction::RemoveWorktree { repo, dest }
    }

    /// [`finish`], in place.
    fn go_finish(&mut self, ok: bool) -> (a: BuildAction)
        ensures
            (final(self)@, a@) == finish(old(self)@, ok),
    {
        self.phase = Phase::Finished(ok);
        BuildAction::Finish(ok)
    }

    /// [`after_pack`], in place.
    fn go_after_pack(&mut self) -> (a: BuildAction)
        ensures
            (final(self)@, a@) == after_pack(old(self)@),
    {
        if self.keep {
            if self.quiet {
                return self.go_finish(true);
            }
            let mut m = owned("worktrees kept in ");
            m.append(self.src.as_str());
            m.append(" (--keep)");
            self.phase = Phase::Closing(true);
            return BuildAction::Say(m);
        }
        self.go_removing(0)
    }

    /// [`after_manifest`], in place.
    fn go_after_manifest(&mut self) -> (a: BuildAction)
        ensures
            (final(self)@, a@) == after_manifest(old(self)@),
    {
        let said = match &self.failure {
            Some(f) => {
                let mut m = owned("build failed: ");
                m.append(f.as_str());
                Some(m)
            },
            None => None,
        };
        match said {
            Some(m) => {
                if self.quiet {
                    self.go_finish(false)
                } else {
                    self.phase = Phase::FailNoted;
                    BuildAction::Say(m)
                }
            },
            None => {
                if self.no_tarball {
                    self.go_after_pack()
                } else {
                    self.phase = Phase::Packing;
                    BuildAction::Tarball
                }
            },
        }
    }

    /// [`abort`], in place.
    fn go_abort(&mut self, e: &String) -> (a: BuildAction)
        ensures
            (final(self)@, a@) == abort(old(self)@, e@),
    {
        self.phase = Phase::Aborted;
        self.failure = Some(e.clone());
        BuildAction::Fail(e.clone())
    }

    /// [`build_failed`], in place.
    fn go_build_failed(&mut self, e: &String) -> (a: BuildAction)
        ensures
            (final(self)@, a@) == build_failed(old(self)@, e@),
    {
        self.phase = Phase::Emitting;
        self.failure = Some(e.clone());
        let mut m = owned("error: ");
        m.append(e.as_str());
        BuildAction::Warn(m)
    }

    /// The manifest file in `dist/`.
    fn manifest_path(&self) -> (r: String)
        ensures
            r@ == manifest_file(self@.dist, self@.name),
    {
        let mut f = owned("zpr-set-");
        f.append(self.name.as_str());
        f.append(".yaml");
        join_path(self.dist.as_str(), f.as_str())
    }

    /// Advances the build: given what the last action answered (anything
    /// for the first call), what to do next. The sequence this produces is
    /// the one [`transition`] defines, whose laws are proved above.
    pub fn step(&mut self, event: &BuildEvent) -> (a: BuildAction)
        ensures
            (final(self)@, a@) == transition(old(self)@, event@),
    {
        match self.phase {
            Phase::Start => {
                self.phase = Phase::Adding(0);
                BuildAction::CreateDir(owned(self.src.as_str()))
            },
            Phase::Adding(i) => match event {
                BuildEvent::Failed(e) => self.go_abort(e),
                _ => self.go_adding(i),
            },
            Phase::Gating => match event {
                BuildEvent::Failed(e) => self.go_abort(e),
                BuildEvent::Gates(n) => {
                    if *n > 0 {
                        self.gates = GateState::Failed;
                        self.go_removing(0)
                    } else {
                        self.gates = GateState::Passed;
                        self.go_entering(0)
                    }
                },
                BuildEvent::Done => {
                    proof {
                        reveal_strlit("the gates answered without a report");
                    }
                    self.go_abort(&owned("the gates answered without a report"))
                },
            },
            Phase::Entering(j) => match event {
                BuildEvent::Failed(e) => self.go_build_failed(e),
                _ => self.go_entering(j),
            },
            Phase::Building(i, k) => match event {
                BuildEvent::Failed(e) => self.go_build_failed(e),
                _ => self.go_stepping(i, k),
            },
            Phase::Verifying => match event {
                BuildEvent::Failed(e) => self.go_build_failed(e),
                _ => {
                    self.phase = Phase::Written;
                    BuildAction::WriteManifest(self.manifest_path())
                },
            },
            Phase::Emitting => {
                self.phase = Phase::Written;
                BuildAction::WriteManifest(self.manifest_path())
            },
            Phase::Written => match event {
                BuildEvent::Failed(e) => self.go_abort(e),
                _ => {
                    if self.quiet {
                        self.go_after_manifest()
                    } else {
                        let mut m = owned("emitted manifest: ");
                        let path = self.manifest_path();
                        m.append(path.as_str());
                        self.phase = Phase::Announced;
                        BuildAction::Say(m)
                    }
                },
            },
            Phase::Announced => self.go_after_manifest(),
            Phase::FailNoted => {
                let mut m = owned("worktrees left in ");
                m.append(self.src.as_str());
                m.append(" for debugging");
                self.phase = Phase::Closing(false);
                BuildAction::Say(m)
            },
            Phase::Packing => match event {
                BuildEvent::Failed(e) => self.go_abort(e),
                _ => self.go_after_pack(),
            },
            Phase::Removing(j) => match event {
                BuildEvent::Failed(e) => self.go_abort(e),
                _ => self.go_removing(j),
            },
            Phase::Closing(ok) => self.go_finish(ok),
            Phase::Finished(ok) => self.go_finish(ok),
            Phase::Aborted => {
                let e = match &self.failure {
                    Some(e) => e.clone(),
                    None => String::new(),
                };
                BuildAction::Fail(e)
            },
        }
    }
}

} // verus!
