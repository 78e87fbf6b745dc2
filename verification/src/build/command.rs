//! The `build` command as a state machine: it checks the flags, loads the
//! workspace manifest, picks the build set (synthesized under `--tip`, named
//! by `--manifest`, or the newest under `build-sets/`), checks it, and then
//! runs the gates only, reports a dry run, or prepares and runs the real
//! build. [`BuildCommand::step`] decides, from what the last action
//! answered, what to do next; performing each action is the caller's. That a
//! dry run and a gates-only run never create or remove anything is proved of
//! the transition.

use vstd::prelude::*;

use crate::build::dist::{build_dir_for, build_dir_spec, default_manifest_path, newest_candidate};
use crate::build::emitted::{clone_drift, emit, resolved_map, utc_text, EmittedManifest};
use crate::build::execute::opt_view;
use crate::build::plan::{
    DryRunView, dry_run_report, pair_views, real_build_problem, real_build_refusal, report_dry_run, test_flag_problem,
    test_flag_refusal, tip_empty_message, tip_found, tip_missing, tip_refs, tip_repositories, tip_set,
};
use crate::build::recipes::{build_order_spec, pairs_view, strings_view};
use crate::build::scan::add_derived_scan;
use crate::build::report::netns_probe_text;
use crate::build::{
    BuildArgs, BuildSet, PinDrift, Resolved, build_set_problem, check_build_set, drift_view,
    first_unknown, resolved_view, unknown_repo_message, validate_against,
};
use crate::config::{Manifest, Repo};
use crate::text::{join_path, owned, path_join};

verus! {

/// Where the command stands.
#[derive(Debug, Clone, Copy, PartialEq, Eq, Structural)]
pub enum CommandPhase {
    /// Nothing done yet.
    Start,
    /// The `--repo` note was printed.
    Noted,
    /// The workspace manifest is being loaded.
    Loading,
    /// The `build-sets/` directory is being listed.
    Listing,
    /// The build set is being read.
    Reading,
    /// The gates are running (`--gates-only`).
    Gating,
    /// The refs are being resolved.
    Resolving,
    /// The dry-run report was printed.
    Reported,
    /// The emitted manifest was shown (`--dry-run --verbose`).
    Shown,
    /// Noting the skipped repositories; the next one to note.
    Skipping(usize),
    /// The build directory is being prepared.
    Preparing,
    /// The context checkout's sha is being read.
    Sha,
    /// The real build is running.
    Building,
    /// The `dist:` line was printed; the exit code to end with.
    DistSaid(u8),
    /// One more line, then the exit code.
    Closing(u8),
    /// The command has ended.
    Ended,
}

/// What the last action answered.
#[derive(Debug)]
pub enum CommandEvent {
    /// It succeeded.
    Done,
    /// It failed with this error.
    Failed(String),
    /// The workspace manifest, parsed and checked.
    Manifest(Manifest),
    /// The entries of `build-sets/` with whether each is a regular file, or
    /// `None` when the directory cannot be read.
    Listing(Option<Vec<(String, bool)>>),
    /// The build set as the file states it (not yet checked).
    SetRead(BuildSet),
    /// The resolved refs, in the order asked.
    Resolved(Vec<Resolved>),
    /// The gates ran and reported this many errors.
    Gates(usize),
    /// The text asked for (the context checkout's short sha).
    Text(String),
    /// The real build ended: `true` when it succeeded.
    Built(bool),
}

/// The mathematical form of a [`CommandEvent`].
pub enum CommandEventView {
    Done,
    Failed(Seq<char>),
    Manifest(Manifest),
    Listing(Option<Seq<(Seq<char>, bool)>>),
    SetRead(BuildSet),
    Resolved(Seq<(Seq<char>, Seq<char>, Seq<char>)>),
    Gates(nat),
    Text(Seq<char>),
    Built(bool),
}

/// The view of a directory listing.
pub open spec fn listing_view(l: Option<Vec<(String, bool)>>) -> Option<Seq<(Seq<char>, bool)>> {
    match l {
        Some(v) => Some(v@.map_values(|e: (String, bool)| (e.0@, e.1))),
        None => None,
    }
}

impl View for CommandEvent {
    type V = CommandEventView;

    open spec fn view(&self) -> CommandEventView {
        match self {
            CommandEvent::Done => CommandEventView::Done,
            CommandEvent::Failed(e) => CommandEventView::Failed(e@),
            CommandEvent::Manifest(m) => CommandEventView::Manifest(*m),
            CommandEvent::Listing(l) => CommandEventView::Listing(listing_view(*l)),
            CommandEvent::SetRead(s) => CommandEventView::SetRead(*s),
            CommandEvent::Resolved(v) => CommandEventView::Resolved(resolved_view(v@)),
            CommandEvent::Gates(n) => CommandEventView::Gates(*n as nat),
            CommandEvent::Text(t) => CommandEventView::Text(t@),
            CommandEvent::Built(ok) => CommandEventView::Built(*ok),
        }
    }
}

/// What to do next.
#[derive(Debug)]
pub enum CommandAction {
    /// Print this line on standard output.
    Say(String),
    /// Print this line on standard error.
    Warn(String),
    /// Read and parse the workspace manifest at this path; answer with it.
    LoadManifest(String),
    /// List this directory; answer with the listing.
    ListBuildSets(String),
    /// Read and parse the build set at this path; answer with it.
    ReadBuildSet(String),
    /// Run the gates over `scan` with these drift entries for build set
    /// `name`, and print their report; answer with the error count.
    RunGates { scan: Vec<(String, String)>, drift: Vec<PinDrift>, name: String },
    /// Resolve these (repository, ref) pairs in order; answer with the
    /// resolutions or the first failure.
    Resolve(Vec<(String, String)>),
    /// Print the dry-run report ([`BuildCommand::dry_run_report`]).
    DryRunReport,
    /// Print the manifest a real run would write ([`BuildCommand::emitted`]).
    ShowEmitted,
    /// Prepare this build directory.
    PrepareBuildDir(String),
    /// Read the context checkout's short sha; answer with it.
    ContextSha,
    /// Run the real build in `dir`, recording `manifest_path` as its input
    /// and `context_sha` as the context checkout's sha; answer with whether
    /// it succeeded.
    Build { dir: String, manifest_path: String, context_sha: String },
    /// The command is over: exit with this code.
    Finish(u8),
    /// The command failed with this error (exit 2).
    Fail(String),
}

/// The mathematical form of a [`CommandAction`].
#[verifier::ext_equal]
pub enum CommandActionView {
    Say(Seq<char>),
    Warn(Seq<char>),
    LoadManifest(Seq<char>),
    ListBuildSets(Seq<char>),
    ReadBuildSet(Seq<char>),
    RunGates { scan: Seq<(Seq<char>, Seq<char>)>, drift: Seq<(Seq<char>, Seq<char>)>, name: Seq<char> },
    Resolve(Seq<(Seq<char>, Seq<char>)>),
    DryRunReport,
    ShowEmitted,
    PrepareBuildDir(Seq<char>),
    ContextSha,
    Build { dir: Seq<char>, manifest_path: Seq<char>, context_sha: Seq<char> },
    Finish(u8),
    Fail(Seq<char>),
}

impl View for CommandAction {
    type V = CommandActionView;

    open spec fn view(&self) -> CommandActionView {
        match self {
            CommandAction::Say(s) => CommandActionView::Say(s@),
            CommandAction::Warn(s) => CommandActionView::Warn(s@),
            CommandAction::LoadManifest(p) => CommandActionView::LoadManifest(p@),
            CommandAction::ListBuildSets(p) => CommandActionView::ListBuildSets(p@),
            CommandAction::ReadBuildSet(p) => CommandActionView::ReadBuildSet(p@),
            CommandAction::RunGates { scan, drift, name } => CommandActionView::RunGates {
                scan: pairs_view(scan@),
                drift: drift_view(drift@),
                name: name@,
            },
            CommandAction::Resolve(w) => CommandActionView::Resolve(pairs_view(w@)),
            CommandAction::DryRunReport => CommandActionView::DryRunReport,
            CommandAction::ShowEmitted => CommandActionView::ShowEmitted,
            CommandAction::PrepareBuildDir(d) => CommandActionView::PrepareBuildDir(d@),
            CommandAction::ContextSha => CommandActionView::ContextSha,
            CommandAction::Build { dir, manifest_path, context_sha } => CommandActionView::Build {
                dir: dir@,
                manifest_path: manifest_path@,
                context_sha: context_sha@,
            },
            CommandAction::Finish(c) => CommandActionView::Finish(*c),
            CommandAction::Fail(e) => CommandActionView::Fail(e@),
        }
    }
}

/// The `build` command in progress.
#[derive(Debug)]
pub struct BuildCommand {
    args: BuildArgs,
    workspace: String,
    context: String,
    dry_run: bool,
    force: bool,
    verbose: bool,
    quiet: bool,
    phase: CommandPhase,
    manifest: Option<Manifest>,
    set: Option<BuildSet>,
    set_path: String,
    resolved: Vec<Resolved>,
    skipped: Vec<String>,
    build_dir: String,
    context_sha: String,
}

/// The mathematical form of a [`BuildCommand`]. The build set is kept as its
/// name, its repository map and its drift entries.
#[verifier::ext_equal]
pub struct CommandView {
    pub phase: CommandPhase,
    pub test: Option<Seq<char>>,
    pub repo_given: bool,
    pub manifest_flag: Option<Seq<char>>,
    pub build_dir_flag: Option<Seq<char>>,
    pub tip: bool,
    pub gates_only: bool,
    pub keep: bool,
    pub no_tarball: bool,
    pub downgrade: bool,
    pub workspace: Seq<char>,
    pub context: Seq<char>,
    pub dry_run: bool,
    pub force: bool,
    pub verbose: bool,
    pub quiet: bool,
    pub manifest: Option<Manifest>,
    pub set: Option<(Seq<char>, Map<Seq<char>, Seq<char>>, Seq<(Seq<char>, Seq<char>)>)>,
    pub set_path: Seq<char>,
    pub resolved: Seq<(Seq<char>, Seq<char>, Seq<char>)>,
    pub skipped: Seq<Seq<char>>,
    pub build_dir: Seq<char>,
    pub context_sha: Seq<char>,
}

/// The view of an optional build set.
pub open spec fn set_view(s: Option<BuildSet>) -> Option<(Seq<char>, Map<Seq<char>, Seq<char>>, Seq<(Seq<char>, Seq<char>)>)> {
    match s {
        Some(s) => Some((s.name@, s.repositories.view(), drift_view(s.allow_pin_drift@))),
        None => None,
    }
}

impl View for BuildCommand {
    type V = CommandView;

    closed spec fn view(&self) -> CommandView {
        CommandView {
            phase: self.phase,
            test: opt_view(self.args.test),
            repo_given: self.args.repo is Some,
            manifest_flag: opt_view(self.args.manifest),
            build_dir_flag: opt_view(self.args.build_dir),
            tip: self.args.tip,
            gates_only: self.args.gates_only,
            keep: self.args.keep,
            no_tarball: self.args.no_tarball,
            downgrade: self.args.allow_pin_drift,
            workspace: self.workspace@,
            context: self.context@,
            dry_run: self.dry_run,
            force: self.force,
            verbose: self.verbose,
            quiet: self.quiet,
            manifest: self.manifest,
            set: set_view(self.set),
            set_path: self.set_path@,
            resolved: resolved_view(self.resolved@),
            skipped: strings_view(self.skipped@),
            build_dir: self.build_dir@,
            context_sha: self.context_sha@,
        }
    }
}

// ---------------------------------------------------------------------------
// The transition
// ---------------------------------------------------------------------------

/// The note for `--repo`, which parses but has no stage yet.
pub open spec fn repo_note() -> Seq<char> {
    "note: --repo parses but is inert until its stage lands"@
}

/// The closing note of a real build: no tier ran.
pub open spec fn tests_note() -> Seq<char> {
    "tests: none run (--test none; tiers land in B4/B5)"@
}

/// The error for an answer the command did not ask for.
pub open spec fn unexpected_answer() -> Seq<char> {
    "the build command got an answer it did not ask for"@
}

/// The error for a step after the command ended.
pub open spec fn ended_message() -> Seq<char> {
    "the build command has already ended"@
}

/// `r` in phase `p`.
pub open spec fn at(r: CommandView, p: CommandPhase) -> CommandView {
    CommandView { phase: p, ..r }
}

/// The command ends with error `e`.
pub open spec fn fail(r: CommandView, e: Seq<char>) -> (CommandView, CommandActionView) {
    (at(r, CommandPhase::Ended), CommandActionView::Fail(e))
}

/// The command ends with exit code `code`.
pub open spec fn finish(r: CommandView, code: u8) -> (CommandView, CommandActionView) {
    (at(r, CommandPhase::Ended), CommandActionView::Finish(code))
}

/// Each name with its directory under the workspace.
pub open spec fn name_paths(names: Seq<Seq<char>>, workspace: Seq<char>) -> Seq<(Seq<char>, Seq<char>)> {
    names.map_values(|n: Seq<char>| (n, path_join(workspace, n)))
}

/// A gate scan list with `zl-zpr-common`'s live checkout appended, when the
/// workspace declares it and the list does not already hold it.
pub open spec fn with_derived(repos: Seq<Repo>, workspace: Seq<char>, scan: Seq<(Seq<char>, Seq<char>)>) -> Seq<
    (Seq<char>, Seq<char>),
> {
    let declared = exists|i: int| 0 <= i < repos.len() && repos[i].name@ == "zl-zpr-common"@;
    let present = exists|i: int| 0 <= i < scan.len() && (#[trigger] scan[i]).0 == "zl-zpr-common"@;
    if declared && !present {
        scan.push(("zl-zpr-common"@, path_join(workspace, "zl-zpr-common"@)))
    } else {
        scan
    }
}

/// What `--tip` resolves: each found repository at `origin/<branch>`.
pub open spec fn tip_wanted_spec(found: Seq<(Seq<char>, Seq<char>)>) -> Seq<(Seq<char>, Seq<char>)> {
    found.map_values(|p: (Seq<char>, Seq<char>)| (p.0, "origin/"@ + p.1))
}

/// The name of the build set chosen so far.
pub open spec fn set_name(r: CommandView) -> Seq<char> {
    match r.set {
        Some(t) => t.0,
        None => seq![],
    }
}

/// After the `--repo` note: refuse a `--test` other than `none`, else load
/// the workspace manifest.
pub open spec fn after_note(r: CommandView) -> (CommandView, CommandActionView) {
    match test_flag_refusal(r.test) {
        Some(p) => fail(r, p),
        None => (
            at(r, CommandPhase::Loading),
            CommandActionView::LoadManifest(path_join(r.context, "workspace.yaml"@)),
        ),
    }
}

/// With the workspace manifest `m` loaded: under `--tip` the build-order
/// repositories it declares (none is an error) are scanned by the gates or
/// resolved at `origin/<branch>`; otherwise the build set given is read, or
/// `build-sets/` is listed for the newest.
pub open spec fn loaded(r: CommandView, m: Manifest) -> (CommandView, CommandActionView) {
    if r.tip {
        let found = tip_found(m.repositories@, build_order_spec(), 5);
        if found.len() == 0 {
            fail(r, tip_empty_message())
        } else if r.gates_only {
            (
                at(r, CommandPhase::Gating),
                CommandActionView::RunGates {
                    scan: with_derived(
                        m.repositories@,
                        r.workspace,
                        name_paths(found.map_values(|p: (Seq<char>, Seq<char>)| p.0), r.workspace),
                    ),
                    drift: seq![],
                    name: "tip"@,
                },
            )
        } else {
            (
                CommandView {
                    phase: CommandPhase::Resolving,
                    set: Some(("tip"@, tip_refs(found, found.len() as int), seq![])),
                    skipped: tip_missing(m.repositories@, build_order_spec(), 5),
                    ..r
                },
                CommandActionView::Resolve(tip_wanted_spec(found)),
            )
        }
    } else {
        match r.manifest_flag {
            Some(p) => (
                CommandView { phase: CommandPhase::Reading, set_path: p, ..r },
                CommandActionView::ReadBuildSet(p),
            ),
            None => (
                at(r, CommandPhase::Listing),
                CommandActionView::ListBuildSets(path_join(r.context, "build-sets"@)),
            ),
        }
    }
}

/// With `build-sets/` listed: read the newest build set, or fail saying
/// there is none.
pub open spec fn listed_sets(r: CommandView, l: Option<Seq<(Seq<char>, bool)>>) -> (CommandView, CommandActionView) {
    match l {
        None => fail(r, "no build-sets/ directory in "@ + r.context + "; pass --manifest <path> or --tip"@),
        Some(entries) => match newest_candidate(entries, entries.len() as int) {
            None => fail(r, "build-sets/ in "@ + r.context + " is empty; pass --manifest <path> or --tip"@),
            Some(name) => {
                let p = path_join(path_join(r.context, "build-sets"@), name);
                (CommandView { phase: CommandPhase::Reading, set_path: p, ..r }, CommandActionView::ReadBuildSet(p))
            },
        },
    }
}

/// With build set `s` read: its structural problem or an undeclared
/// repository is the error; otherwise the gates scan its repositories
/// (`--gates-only`) or its refs are resolved, in name order.
pub open spec fn set_read(r: CommandView, s: BuildSet) -> (CommandView, CommandActionView) {
    match build_set_problem(s.version, s.name@, s.repositories.entry_seq(), drift_view(s.allow_pin_drift@)) {
        Some(e) => fail(r, e),
        None => match r.manifest {
            None => fail(r, unexpected_answer()),
            Some(m) => match first_unknown(
                s.repositories.key_seq(),
                m.repositories@,
                s.repositories.key_seq().len() as int,
            ) {
                Some(k) => fail(r, unknown_repo_message(k)),
                None => {
                    let r2 = CommandView {
                        set: Some((s.name@, s.repositories.view(), drift_view(s.allow_pin_drift@))),
                        ..r
                    };
                    if r.gates_only {
                        (
                            at(r2, CommandPhase::Gating),
                            CommandActionView::RunGates {
                                scan: with_derived(
                                    m.repositories@,
                                    r.workspace,
                                    name_paths(s.repositories.key_seq(), r.workspace),
                                ),
                                drift: drift_view(s.allow_pin_drift@),
                                name: s.name@,
                            },
                        )
                    } else {
                        (at(r2, CommandPhase::Resolving), CommandActionView::Resolve(s.repositories.entry_seq()))
                    }
                },
            },
        },
    }
}

/// Noting the skipped repositories from the `i`th on (unless quiet), then
/// preparing the build directory.
pub open spec fn skipping(r: CommandView, i: int) -> (CommandView, CommandActionView) {
    if !r.quiet && 0 <= i < r.skipped.len() {
        (
            at(r, CommandPhase::Skipping((i + 1) as usize)),
            CommandActionView::Say(r.skipped[i] + ": not in workspace.yaml, skipped"@),
        )
    } else {
        let d = build_dir_spec(r.build_dir_flag, r.workspace, set_name(r));
        (CommandView { phase: CommandPhase::Preparing, build_dir: d, ..r }, CommandActionView::PrepareBuildDir(d))
    }
}

/// With the refs resolved: a dry run reports (unless quiet) and ends; a real
/// build needs `--test none`, then notes the skipped repositories and
/// prepares the build directory.
pub open spec fn resolved_step(r: CommandView) -> (CommandView, CommandActionView) {
    if r.dry_run {
        if r.quiet {
            finish(r, 0)
        } else {
            (at(r, CommandPhase::Reported), CommandActionView::DryRunReport)
        }
    } else {
        match r.test {
            None => fail(r, real_build_refusal()),
            Some(_) => skipping(r, 0),
        }
    }
}

/// With the context sha known: run the real build, recording `--tip` or the
/// build set's path as its input.
pub open spec fn building(r: CommandView, sha: Seq<char>) -> (CommandView, CommandActionView) {
    (
        CommandView { phase: CommandPhase::Building, context_sha: sha, ..r },
        CommandActionView::Build {
            dir: r.build_dir,
            manifest_path: if r.tip {
                "--tip"@
            } else {
                r.set_path
            },
            context_sha: sha,
        },
    )
}

/// The exit code of a real build.
pub open spec fn build_code(ok: bool) -> u8 {
    if ok {
        0
    } else {
        1
    }
}

/// With the real build over: name `dist/` (unless quiet), then end with 0
/// on success and 1 on a gate or build failure.
pub open spec fn built(r: CommandView, ok: bool) -> (CommandView, CommandActionView) {
    if r.quiet {
        finish(r, build_code(ok))
    } else {
        (
            at(r, CommandPhase::DistSaid(build_code(ok))),
            CommandActionView::Say("dist: "@ + path_join(r.build_dir, "dist"@)),
        )
    }
}

/// One step of the command: from where it stands and what the last action
/// answered, where it goes and what to do next.
pub open spec fn command_transition(r: CommandView, ev: CommandEventView) -> (CommandView, CommandActionView) {
    match r.phase {
        CommandPhase::Start => if r.repo_given && !r.quiet {
            (at(r, CommandPhase::Noted), CommandActionView::Say(repo_note()))
        } else {
            after_note(r)
        },
        CommandPhase::Noted => after_note(r),
        CommandPhase::Loading => match ev {
            CommandEventView::Failed(e) => fail(r, e),
            CommandEventView::Manifest(m) => loaded(CommandView { manifest: Some(m), ..r }, m),
            _ => fail(r, unexpected_answer()),
        },
        CommandPhase::Listing => match ev {
            CommandEventView::Listing(l) => listed_sets(r, l),
            CommandEventView::Failed(e) => fail(r, e),
            _ => fail(r, unexpected_answer()),
        },
        CommandPhase::Reading => match ev {
            CommandEventView::SetRead(s) => set_read(r, s),
            CommandEventView::Failed(e) => fail(r, e),
            _ => fail(r, unexpected_answer()),
        },
        CommandPhase::Gating => match ev {
            CommandEventView::Gates(n) => finish(r, if n > 0 { 1 } else { 0 }),
            CommandEventView::Failed(e) => fail(r, e),
            _ => fail(r, unexpected_answer()),
        },
        CommandPhase::Resolving => match ev {
            CommandEventView::Resolved(v) => resolved_step(CommandView { resolved: v, ..r }),
            CommandEventView::Failed(e) => (at(r, CommandPhase::Closing(1)), CommandActionView::Warn("error: "@ + e)),
            _ => fail(r, unexpected_answer()),
        },
        CommandPhase::Reported => if r.verbose {
            (at(r, CommandPhase::Shown), CommandActionView::ShowEmitted)
        } else {
            finish(r, 0)
        },
        CommandPhase::Shown => finish(r, 0),
        CommandPhase::Skipping(i) => skipping(r, i as int),
        CommandPhase::Preparing => match ev {
            CommandEventView::Done => (at(r, CommandPhase::Sha), CommandActionView::ContextSha),
            CommandEventView::Failed(e) => fail(r, e),
            _ => fail(r, unexpected_answer()),
        },
        CommandPhase::Sha => match ev {
            CommandEventView::Text(s) => building(r, s),
            CommandEventView::Failed(_) => building(r, seq![]),
            _ => fail(r, unexpected_answer()),
        },
        CommandPhase::Building => match ev {
            CommandEventView::Built(ok) => built(r, ok),
            CommandEventView::Failed(e) => fail(r, e),
            _ => fail(r, unexpected_answer()),
        },
        CommandPhase::DistSaid(c) => (at(r, CommandPhase::Closing(c)), CommandActionView::Say(tests_note())),
        CommandPhase::Closing(c) => finish(r, c),
        CommandPhase::Ended => fail(r, ended_message()),
    }
}

// ---------------------------------------------------------------------------
// Laws
// ---------------------------------------------------------------------------

/// An action that creates, removes or builds anything.
pub open spec fn mutates(a: CommandActionView) -> bool {
    a is PrepareBuildDir || a is Build
}

/// The phases of a real build.
pub open spec fn real_build_phase(p: CommandPhase) -> bool {
    p is Skipping || p is Preparing || p is Sha || p is Building || p is DistSaid
}

/// What holds of every state the command reaches: a dry run or a
/// gates-only run never enters a real build's phases, and a gates-only run
/// never resolves.
pub open spec fn command_reachable(r: CommandView) -> bool {
    &&& (r.dry_run || r.gates_only) ==> !real_build_phase(r.phase)
    &&& r.gates_only ==> !(r.phase is Resolving || r.phase is Reported || r.phase is Shown)
}

/// Every transition from a reachable state reaches one, with the same flags.
pub proof fn lemma_command_reachable_preserved(r: CommandView, ev: CommandEventView)
    requires
        command_reachable(r),
    ensures
        command_reachable(command_transition(r, ev).0),
        command_transition(r, ev).0.dry_run == r.dry_run,
        command_transition(r, ev).0.gates_only == r.gates_only,
{
    match r.phase {
        CommandPhase::Loading => match ev {
            CommandEventView::Manifest(m) => {
                let r2 = CommandView { manifest: Some(m), ..r };
                assert(command_transition(r, ev) == loaded(r2, m));
            },
            _ => {},
        },
        CommandPhase::Reading => match ev {
            CommandEventView::SetRead(s) => {
                assert(command_transition(r, ev) == set_read(r, s));
            },
            _ => {},
        },
        CommandPhase::Resolving => match ev {
            CommandEventView::Resolved(v) => {
                assert(command_transition(r, ev) == resolved_step(CommandView { resolved: v, ..r }));
            },
            _ => {},
        },
        _ => {},
    }
}

/// `--dry-run` suppresses every mutation: from any state a dry run reaches,
/// no step creates, removes or builds anything.
pub proof fn lemma_dry_run_mutates_nothing(r: CommandView, ev: CommandEventView)
    requires
        command_reachable(r),
        r.dry_run,
    ensures
        !mutates(command_transition(r, ev).1),
{
}

/// `--gates-only` is read-only: no step of it creates, removes or builds
/// anything, and it never resolves a ref.
pub proof fn lemma_gates_only_mutates_nothing(r: CommandView, ev: CommandEventView)
    requires
        command_reachable(r),
        r.gates_only,
    ensures
        !mutates(command_transition(r, ev).1),
        !(command_transition(r, ev).1 is Resolve),
{
}

/// A resolution failure is reported and exits 1, not 2: the set is
/// incoherent on this machine, a gate-style failure.
pub proof fn lemma_resolution_failure_exits_one(r: CommandView, e: Seq<char>, ev: CommandEventView)
    requires
        r.phase == CommandPhase::Resolving,
    ensures
        command_transition(r, CommandEventView::Failed(e)).1 == CommandActionView::Warn("error: "@ + e),
        command_transition(command_transition(r, CommandEventView::Failed(e)).0, ev).1
            == CommandActionView::Finish(1),
{
}

/// The actions a command issues when answered with `evs` in turn from `r`.
pub open spec fn command_trace(r: CommandView, evs: Seq<CommandEventView>) -> Seq<CommandActionView>
    decreases evs.len(),
{
    if evs.len() == 0 {
        seq![]
    } else {
        let (t, a) = command_transition(r, evs[0]);
        seq![a] + command_trace(t, evs.drop_first())
    }
}

/// Over a whole dry run, or a whole gates-only run, whatever the actions
/// answer, no action creates, removes or builds anything.
pub proof fn lemma_read_only_runs_mutate_nothing(r: CommandView, evs: Seq<CommandEventView>)
    requires
        command_reachable(r),
        r.dry_run || r.gates_only,
    ensures
        command_trace(r, evs).len() == evs.len(),
        forall|i: int| 0 <= i < evs.len() ==> !mutates(#[trigger] command_trace(r, evs)[i]),
    decreases evs.len(),
{
    if evs.len() > 0 {
        let (t, a) = command_transition(r, evs[0]);
        lemma_command_reachable_preserved(r, evs[0]);
        if r.dry_run {
            lemma_dry_run_mutates_nothing(r, evs[0]);
        } else {
            lemma_gates_only_mutates_nothing(r, evs[0]);
        }
        assert(!mutates(a));
        let rest = evs.drop_first();
        lemma_read_only_runs_mutate_nothing(t, rest);
        let tr = command_trace(r, evs);
        assert(tr == seq![a] + command_trace(t, rest));
        assert forall|i: int| 0 <= i < evs.len() implies !mutates(#[trigger] tr[i]) by {
            if i > 0 {
                assert(tr[i] == command_trace(t, rest)[i - 1]);
            }
        }
    }
}

// ---------------------------------------------------------------------------
// The machine
// ---------------------------------------------------------------------------

/// Each name with its directory under the workspace, with the derived
/// `zl-zpr-common` scan appended.
fn scan_of(names: &Vec<String>, workspace: &str, manifest: &Manifest) -> (r: Vec<(String, String)>)
    ensures
        pairs_view(r@) == with_derived(manifest.repositories@, workspace@, name_paths(strings_view(names@), workspace@)),
{
    let ghost nv = strings_view(names@);
    let mut scan: Vec<(String, String)> = Vec::new();
    let mut i: usize = 0;
    while i < names.len()
        invariant
            i <= names.len(),
            nv == strings_view(names@),
            pairs_view(scan@) == name_paths(nv.take(i as int), workspace@),
        decreases names.len() - i,
    {
        let ghost before = pairs_view(scan@);
        let p = (owned(names[i].as_str()), join_path(workspace, names[i].as_str()));
        scan.push(p);
        assert(pairs_view(scan@) =~= before.push((p.0@, p.1@)));
        assert(nv.take(i + 1) =~= nv.take(i as int).push(nv[i as int]));
        assert(name_paths(nv.take(i + 1), workspace@) =~= name_paths(nv.take(i as int), workspace@).push(
            (nv[i as int], path_join(workspace@, nv[i as int])),
        ));
        i = i + 1;
    }
    assert(nv.take(names.len() as int) =~= nv);
    let ghost sv = pairs_view(scan@);
    let ghost pre = scan@;
    add_derived_scan(manifest, workspace, &mut scan);
    proof {
        let sc = name_paths(nv, workspace@);
        assert(sv == sc);
        assert((exists|i: int| 0 <= i < sc.len() && (#[trigger] sc[i]).0 == "zl-zpr-common"@) == (exists|
            i: int,
        | 0 <= i < pre.len() && (#[trigger] pre[i]).0@ == "zl-zpr-common"@)) by {
            if exists|i: int| 0 <= i < sc.len() && (#[trigger] sc[i]).0 == "zl-zpr-common"@ {
                let i = choose|i: int| 0 <= i < sc.len() && (#[trigger] sc[i]).0 == "zl-zpr-common"@;
                assert(sv[i].0 == pre[i].0@);
            }
            if exists|i: int| 0 <= i < pre.len() && (#[trigger] pre[i]).0@ == "zl-zpr-common"@ {
                let i = choose|i: int| 0 <= i < pre.len() && (#[trigger] pre[i]).0@ == "zl-zpr-common"@;
                assert(sv[i].0 == pre[i].0@);
            }
        }
    }
    scan
}

/// The keys of a build set, in name order.
fn set_names(set: &BuildSet) -> (r: Vec<String>)
    ensures
        strings_view(r@) == set.repositories.key_seq(),
{
    let n = set.repositories.len();
    let ghost ks = set.repositories.key_seq();
    let mut r: Vec<String> = Vec::new();
    let mut i: usize = 0;
    while i < n
        invariant
            i <= n,
            n == set.repositories.key_seq().len(),
            n == set.repositories.entry_seq().len(),
            ks == set.repositories.key_seq(),
            forall|j: int| 0 <= j < n ==> (#[trigger] set.repositories.entry_seq()[j]).0 == ks[j],
            strings_view(r@) == ks.take(i as int),
        decreases n - i,
    {
        let (k, _) = set.repositories.entry_at(i);
        let ghost before = strings_view(r@);
        let k = owned(k.as_str());
        r.push(k);
        assert(set.repositories.entry_seq()[i as int].0 == ks[i as int]);
        assert(strings_view(r@) =~= before.push(k@));
        assert(ks.take(i + 1) =~= ks.take(i as int).push(ks[i as int]));
        i = i + 1;
    }
    assert(ks.take(n as int) =~= ks);
    r
}

/// The (repository, ref) entries of a build set, in name order.
fn set_wanted(set: &BuildSet) -> (r: Vec<(String, String)>)
    ensures
        pairs_view(r@) == set.repositories.entry_seq(),
{
    let n = set.repositories.len();
    let ghost es = set.repositories.entry_seq();
    let mut r: Vec<(String, String)> = Vec::new();
    let mut i: usize = 0;
    while i < n
        invariant
            i <= n,
            n == es.len(),
            n == set.repositories.key_seq().len(),
            es == set.repositories.entry_seq(),
            pairs_view(r@) == es.take(i as int),
        decreases n - i,
    {
        let (k, v) = set.repositories.entry_at(i);
        let ghost before = pairs_view(r@);
        let p = (owned(k.as_str()), owned(v.as_str()));
        r.push(p);
        assert(pairs_view(r@) =~= before.push((p.0@, p.1@)));
        assert(es.take(i + 1) =~= es.take(i as int).push(es[i as int]));
        i = i + 1;
    }
    assert(es.take(n as int) =~= es);
    r
}

/// Each found repository at `origin/<branch>`.
fn tip_wanted(found: &Vec<(String, String)>) -> (r: Vec<(String, String)>)
    ensures
        pairs_view(r@) == tip_wanted_spec(pair_views(found@)),
{
    let ghost fv = pair_views(found@);
    let mut r: Vec<(String, String)> = Vec::new();
    let mut i: usize = 0;
    while i < found.len()
        invariant
            i <= found.len(),
            fv == pair_views(found@),
            pairs_view(r@) == tip_wanted_spec(fv.take(i as int)),
        decreases found.len() - i,
    {
        let ghost before = pairs_view(r@);
        let mut reference = owned("origin/");
        reference.append(found[i].1.as_str());
        let p = (owned(found[i].0.as_str()), reference);
        r.push(p);
        proof {
            reveal_strlit("origin/");
        }
        assert(pairs_view(r@) =~= before.push((p.0@, p.1@)));
        assert(fv.take(i + 1) =~= fv.take(i as int).push(fv[i as int]));
        assert(tip_wanted_spec(fv.take(i + 1)) =~= tip_wanted_spec(fv.take(i as int)).push(
            (fv[i as int].0, "origin/"@ + fv[i as int].1),
        ));
        i = i + 1;
    }
    assert(fv.take(found.len() as int) =~= fv);
    r
}

impl BuildCommand {
    /// A fresh `build` command with its flags, the workspace and context
    /// directories, and the global `--dry-run`, `--force`, `--verbose` and
    /// `--quiet`.
    pub fn new(
        args: BuildArgs,
        workspace: &str,
        context: &str,
        dry_run: bool,
        force: bool,
        verbose: bool,
        quiet: bool,
    ) -> (c: BuildCommand)
        ensures
            c@.phase == CommandPhase::Start,
            c@.test == opt_view(args.test),
            c@.repo_given == args.repo is Some,
            c@.manifest_flag == opt_view(args.manifest),
            c@.build_dir_flag == opt_view(args.build_dir),
            c@.tip == args.tip,
            c@.gates_only == args.gates_only,
            c@.keep == args.keep,
            c@.no_tarball == args.no_tarball,
            c@.downgrade == args.allow_pin_drift,
            c@.workspace == workspace@,
            c@.context == context@,
            c@.dry_run == dry_run,
            c@.force == force,
            c@.verbose == verbose,
            c@.quiet == quiet,
            c@.manifest is None,
            c@.set is None,
            c@.resolved.len() == 0,
            c@.skipped.len() == 0,
            c.args() == args,
            command_reachable(c@),
    {
        BuildCommand {
            args,
            workspace: owned(workspace),
            context: owned(context),
            dry_run,
            force,
            verbose,
            quiet,
            phase: CommandPhase::Start,
            manifest: None,
            set: None,
            set_path: String::new(),
            resolved: Vec::new(),
            skipped: Vec::new(),
            build_dir: String::new(),
            context_sha: String::new(),
        }
    }

    /// The command-line flags.
    pub closed spec fn args(&self) -> BuildArgs {
        self.args
    }

    /// The `build` flags.
    pub fn build_args(&self) -> (r: &BuildArgs)
        ensures
            *r == self.args(),
    {
        &self.args
    }

    /// Whether `--force` was given.
    pub fn force(&self) -> (r: bool)
        ensures
            r == self@.force,
    {
        self.force
    }

    /// The workspace manifest, once loaded.
    pub fn manifest(&self) -> (r: Option<&Manifest>)
        ensures
            match r {
                Some(m) => self@.manifest == Some(*m),
                None => self@.manifest is None,
            },
    {
        self.manifest.as_ref()
    }

    /// The build set, once chosen.
    pub fn set(&self) -> (r: Option<&BuildSet>)
        ensures
            set_view(match r {
                Some(s) => Some(*s),
                None => None,
            }) == self@.set,
    {
        self.set.as_ref()
    }

    /// The resolutions, once made.
    pub fn resolved(&self) -> (r: &Vec<Resolved>)
        ensures
            resolved_view(r@) == self@.resolved,
    {
        &self.resolved
    }

    /// The dry-run report's lines for the host facts given (Linux,
    /// passwordless sudo, `valkey-server`, `python3` and `docker` on `PATH`).
    pub fn dry_run_report(&self, linux: bool, sudo: bool, valkey: bool, python3: bool, docker: bool) -> (r: Vec<String>)
        ensures
            match self@.set {
                Some(t) => strings_view(r@) == dry_run_report(
                    DryRunView {
                        name: t.0,
                        resolved: self@.resolved,
                        skipped: self@.skipped,
                        build_dir: build_dir_spec(self@.build_dir_flag, self@.workspace, t.0),
                        netns: netns_probe_text(linux, sudo, valkey, python3),
                        docker: if docker {
                            "prerequisites present"@
                        } else {
                            "missing: docker"@
                        },
                    },
                ),
                None => r@.len() == 0,
            },
    {
        match &self.set {
            Some(s) => report_dry_run(
                s.name.as_str(),
                self.resolved.as_slice(),
                self.skipped.as_slice(),
                match &self.args.build_dir {
                    Some(d) => Some(d.as_str()),
                    None => None,
                },
                self.workspace.as_str(),
                linux,
                sudo,
                valkey,
                python3,
                docker,
            ),
            None => Vec::new(),
        }
    }

    /// The manifest a real run would emit for the chosen set and its
    /// resolutions.
    pub fn emitted(&self) -> (r: Option<EmittedManifest>)
        ensures
            match self@.set {
                Some(t) => r matches Some(m) && m.version == 1 && m.name@ == t.0
                    && m.repositories.view() == resolved_map(self@.resolved, self@.resolved.len() as int)
                    && drift_view(m.allow_pin_drift@) == t.2 && m.resolved.built_from.tip == self@.tip
                    && (exists|seconds: u64| m.resolved.built_at@ == utc_text(seconds))
                    && m.resolved.built_from.manifest@.len() == 0 && m.resolved.built_from.context@.len() == 0
                    && m.resolved.host.view() == Map::<Seq<char>, Seq<char>>::empty()
                    && m.resolved.pins@.len() == 0
                    && m.resolved.versions.view() == Map::<Seq<char>, Seq<char>>::empty()
                    && m.resolved.binaries@.len() == 0 && m.resolved.tiers@.len() == 0,
                None => r is None,
            },
    {
        match &self.set {
            Some(s) => match emit(s, self.resolved.as_slice(), self.args.tip) {
                Ok(m) => Some(m),
                Err(_) => None,
            },
            None => None,
        }
    }

    fn fail(&mut self, e: String) -> (a: CommandAction)
        ensures
            (final(self)@, a@) == fail(old(self)@, e@),
            final(self).args() == old(self).args(),
    {
        self.phase = CommandPhase::Ended;
        CommandAction::Fail(e)
    }

    fn finish(&mut self, code: u8) -> (a: CommandAction)
        ensures
            (final(self)@, a@) == finish(old(self)@, code),
            final(self).args() == old(self).args(),
    {
        self.phase = CommandPhase::Ended;
        CommandAction::Finish(code)
    }

    fn unexpected(&mut self) -> (a: CommandAction)
        ensures
            (final(self)@, a@) == fail(old(self)@, unexpected_answer()),
            final(self).args() == old(self).args(),
    {
        proof {
            reveal_strlit("the build command got an answer it did not ask for");
        }
        self.fail(owned("the build command got an answer it did not ask for"))
    }

    fn after_note(&mut self) -> (a: CommandAction)
        ensures
            (final(self)@, a@) == after_note(old(self)@),
            final(self).args() == old(self).args(),
    {
        let problem = test_flag_problem(match &self.args.test {
            Some(t) => Some(t.as_str()),
            None => None,
        });
        match problem {
            Some(p) => self.fail(p),
            None => {
                self.phase = CommandPhase::Loading;
                CommandAction::LoadManifest(join_path(self.context.as_str(), "workspace.yaml"))
            },
        }
    }

    fn loaded(&mut self, m: Manifest) -> (a: CommandAction)
        ensures
            (final(self)@, a@) == loaded(CommandView { manifest: Some(m), ..old(self)@ }, m),
            final(self).args() == old(self).args(),
    {
        let ghost r = CommandView { manifest: Some(m), ..self@ };
        if self.args.tip {
            let t = tip_repositories(&m);
            match t {
                Err(e) => {
                    self.manifest = Some(m);
                    assert(self@ == r);
                    self.fail(e)
                },
                Ok((found, skipped)) => {
                    let ghost fv = pair_views(found@);
                    if self.args.gates_only {
                        let mut names: Vec<String> = Vec::new();
                        let mut i: usize = 0;
                        while i < found.len()
                            invariant
                                i <= found.len(),
                                fv == pair_views(found@),
                                strings_view(names@) == fv.take(i as int).map_values(|p: (Seq<char>, Seq<char>)| p.0),
                            decreases found.len() - i,
                        {
                            let ghost before = names@;
                            let n = owned(found[i].0.as_str());
                            names.push(n);
                            assert(strings_view(names@) =~= strings_view(before).push(n@));
                            assert(fv.take(i + 1) =~= fv.take(i as int).push(fv[i as int]));
                            assert(strings_view(names@) =~= fv.take(i + 1).map_values(|p: (Seq<char>, Seq<char>)| p.0));
                            i = i + 1;
                        }
                        assert(fv.take(found.len() as int) =~= fv);
                        let scan = scan_of(&names, self.workspace.as_str(), &m);
                        self.manifest = Some(m);
                        self.phase = CommandPhase::Gating;
                        proof {
                            reveal_strlit("tip");
                        }
                        let a = CommandAction::RunGates { scan, drift: Vec::new(), name: owned("tip") };
                        assert(a@ == loaded(r, m).1);
                        a
                    } else {
                        let wanted = tip_wanted(&found);
                        let set = tip_set(&found);
                        proof {
                            reveal_strlit("tip");
                            assert(drift_view(set.allow_pin_drift@) =~= Seq::<(Seq<char>, Seq<char>)>::empty());
                        }
                        self.manifest = Some(m);
                        self.set = Some(set);
                        self.skipped = skipped;
                        self.phase = CommandPhase::Resolving;
                        let a = CommandAction::Resolve(wanted);
                        assert(self@ =~= loaded(r, m).0);
                        a
                    }
                },
            }
        } else {
            self.manifest = Some(m);
            match &self.args.manifest {
                Some(p) => {
                    let p = owned(p.as_str());
                    self.set_path = owned(p.as_str());
                    self.phase = CommandPhase::Reading;
                    CommandAction::ReadBuildSet(p)
                },
                None => {
                    self.phase = CommandPhase::Listing;
                    CommandAction::ListBuildSets(join_path(self.context.as_str(), "build-sets"))
                },
            }
        }
    }

    fn listed(&mut self, l: Option<Vec<(String, bool)>>) -> (a: CommandAction)
        ensures
            (final(self)@, a@) == listed_sets(old(self)@, listing_view(l)),
            final(self).args() == old(self).args(),
    {
        match default_manifest_path(self.context.as_str(), l.as_ref()) {
            Ok(p) => {
                self.set_path = owned(p.as_str());
                self.phase = CommandPhase::Reading;
                CommandAction::ReadBuildSet(p)
            },
            Err(e) => self.fail(e),
        }
    }

    fn set_read(&mut self, s: BuildSet) -> (a: CommandAction)
        ensures
            (final(self)@, a@) == set_read(old(self)@, s),
            final(self).args() == old(self).args(),
    {
        let ghost s0 = s;
        let s = match check_build_set(s) {
            Ok(s) => s,
            Err(e) => return self.fail(e),
        };
        let outcome = match &self.manifest {
            Some(m) => validate_against(&s, m),
            None => return self.unexpected(),
        };
        match outcome {
            Err(e) => return self.fail(e),
            Ok(_) => {},
        }
        if self.args.gates_only {
            let names = set_names(&s);
            let scan = match &self.manifest {
                Some(m) => scan_of(&names, self.workspace.as_str(), m),
                None => return self.unexpected(),
            };
            let drift = clone_drift(&s.allow_pin_drift);
            let name = owned(s.name.as_str());
            self.set = Some(s);
            self.phase = CommandPhase::Gating;
            CommandAction::RunGates { scan, drift, name }
        } else {
            let wanted = set_wanted(&s);
            self.set = Some(s);
            self.phase = CommandPhase::Resolving;
            CommandAction::Resolve(wanted)
        }
    }

    fn skipping(&mut self, i: usize) -> (a: CommandAction)
        ensures
            (final(self)@, a@) == skipping(old(self)@, i as int),
            final(self).args() == old(self).args(),
    {
        if !self.quiet && i < self.skipped.len() {
            let mut line = owned(self.skipped[i].as_str());
            line.append(": not in workspace.yaml, skipped");
            self.phase = CommandPhase::Skipping(i + 1);
            CommandAction::Say(line)
        } else {
            let name = match &self.set {
                Some(s) => owned(s.name.as_str()),
                None => String::new(),
            };
            let d = build_dir_for(
                match &self.args.build_dir {
                    Some(b) => Some(b.as_str()),
                    None => None,
                },
                self.workspace.as_str(),
                name.as_str(),
            );
            self.build_dir = owned(d.as_str());
            self.phase = CommandPhase::Preparing;
            CommandAction::PrepareBuildDir(d)
        }
    }

    fn resolved_step(&mut self, v: Vec<Resolved>) -> (a: CommandAction)
        ensures
            (final(self)@, a@) == resolved_step(CommandView { resolved: resolved_view(v@), ..old(self)@ }),
            final(self).args() == old(self).args(),
    {
        self.resolved = v;
        if self.dry_run {
            if self.quiet {
                self.finish(0)
            } else {
                self.phase = CommandPhase::Reported;
                CommandAction::DryRunReport
            }
        } else {
            let problem = real_build_problem(match &self.args.test {
                Some(t) => Some(t.as_str()),
                None => None,
            });
            match problem {
                Some(p) => self.fail(p),
                None => self.skipping(0),
            }
        }
    }

    fn building(&mut self, sha: String) -> (a: CommandAction)
        ensures
            (final(self)@, a@) == building(old(self)@, sha@),
            final(self).args() == old(self).args(),
    {
        let manifest_path = if self.args.tip {
            owned("--tip")
        } else {
            owned(self.set_path.as_str())
        };
        proof {
            reveal_strlit("--tip");
        }
        let context_sha = owned(sha.as_str());
        self.context_sha = sha;
        self.phase = CommandPhase::Building;
        CommandAction::Build { dir: owned(self.build_dir.as_str()), manifest_path, context_sha }
    }

    fn built(&mut self, ok: bool) -> (a: CommandAction)
        ensures
            (final(self)@, a@) == built(old(self)@, ok),
            final(self).args() == old(self).args(),
    {
        let code: u8 = if ok {
            0
        } else {
            1
        };
        if self.quiet {
            self.finish(code)
        } else {
            let mut line = owned("dist: ");
            let d = join_path(self.build_dir.as_str(), "dist");
            line.append(d.as_str());
            self.phase = CommandPhase::DistSaid(code);
            CommandAction::Say(line)
        }
    }

    fn step_opening(&mut self, event: CommandEvent) -> (a: CommandAction)
        requires
            old(self).phase is Start || old(self).phase is Noted || old(self).phase is Loading || old(self).phase is Listing || old(self).phase is Reading,
        ensures
            (final(self)@, a@) == command_transition(old(self)@, event@),
            final(self).args() == old(self).args(),
    {
        match self.phase {
            CommandPhase::Start => {
                if self.args.repo.is_some() && !self.quiet {
                    self.phase = CommandPhase::Noted;
                    proof {
                        reveal_strlit("note: --repo parses but is inert until its stage lands");
                    }
                    CommandAction::Say(owned("note: --repo parses but is inert until its stage lands"))
                } else {
                    self.after_note()
                }
            },
            CommandPhase::Noted => self.after_note(),
            CommandPhase::Loading => match event {
                CommandEvent::Failed(e) => self.fail(e),
                CommandEvent::Manifest(m) => self.loaded(m),
                _ => self.unexpected(),
            },
            CommandPhase::Listing => match event {
                CommandEvent::Listing(l) => self.listed(l),
                CommandEvent::Failed(e) => self.fail(e),
                _ => self.unexpected(),
            },
            CommandPhase::Reading => match event {
                CommandEvent::SetRead(s) => self.set_read(s),
                CommandEvent::Failed(e) => self.fail(e),
                _ => self.unexpected(),
            },
            _ => self.unexpected(),
        }
    }

    fn step_middle(&mut self, event: CommandEvent) -> (a: CommandAction)
        requires
            old(self).phase is Gating || old(self).phase is Resolving || old(self).phase is Reported || old(self).phase is Shown || old(self).phase is Skipping,
        ensures
            (final(self)@, a@) == command_transition(old(self)@, event@),
            final(self).args() == old(self).args(),
    {
        match self.phase {
            CommandPhase::Gating => match event {
                CommandEvent::Gates(n) => self.finish(if n > 0 {
                    1
                } else {
                    0
                }),
                CommandEvent::Failed(e) => self.fail(e),
                _ => self.unexpected(),
            },
            CommandPhase::Resolving => match event {
                CommandEvent::Resolved(v) => self.resolved_step(v),
                CommandEvent::Failed(e) => {
                    let mut line = owned("error: ");
                    line.append(e.as_str());
                    self.phase = CommandPhase::Closing(1);
                    CommandAction::Warn(line)
                },
                _ => self.unexpected(),
            },
            CommandPhase::Reported => {
                if self.verbose {
                    self.phase = CommandPhase::Shown;
                    CommandAction::ShowEmitted
                } else {
                    self.finish(0)
                }
            },
            CommandPhase::Shown => self.finish(0),
            CommandPhase::Skipping(i) => self.skipping(i),
            _ => self.unexpected(),
        }
    }

    fn step_closing(&mut self, event: CommandEvent) -> (a: CommandAction)
        requires
            !((old(self).phase is Start || old(self).phase is Noted || old(self).phase is Loading || old(self).phase is Listing || old(self).phase is Reading) || (old(self).phase is Gating || old(self).phase is Resolving || old(self).phase is Reported || old(self).phase is Shown || old(self).phase is Skipping)),
        ensures
            (final(self)@, a@) == command_transition(old(self)@, event@),
            final(self).args() == old(self).args(),
    {
        match self.phase {
            CommandPhase::Preparing => match event {
                CommandEvent::Done => {
                    self.phase = CommandPhase::Sha;
                    CommandAction::ContextSha
                },
                CommandEvent::Failed(e) => self.fail(e),
                _ => self.unexpected(),
            },
            CommandPhase::Sha => match event {
                CommandEvent::Text(s) => self.building(s),
                CommandEvent::Failed(_) => self.building(String::new()),
                _ => self.unexpected(),
            },
            CommandPhase::Building => match event {
                CommandEvent::Built(ok) => self.built(ok),
                CommandEvent::Failed(e) => self.fail(e),
                _ => self.unexpected(),
            },
            CommandPhase::DistSaid(c) => {
                self.phase = CommandPhase::Closing(c);
                proof {
                    reveal_strlit("tests: none run (--test none; tiers land in B4/B5)");
                }
                CommandAction::Say(owned("tests: none run (--test none; tiers land in B4/B5)"))
            },
            CommandPhase::Closing(c) => self.finish(c),
            CommandPhase::Ended => {
                proof {
                    reveal_strlit("the build command has already ended");
                }
                self.fail(owned("the build command has already ended"))
            },
            _ => self.unexpected(),
        }
    }

    /// One step: from what the last action answered, where the command goes
    /// and what to do next, exactly as [`command_transition`] says; the
    /// flags never change.
    pub fn step(&mut self, event: CommandEvent) -> (a: CommandAction)
        ensures
            (final(self)@, a@) == command_transition(old(self)@, event@),
            final(self).args() == old(self).args(),
    {
        match self.phase {
            CommandPhase::Start | CommandPhase::Noted | CommandPhase::Loading | CommandPhase::Listing
            | CommandPhase::Reading => self.step_opening(event),
            CommandPhase::Gating | CommandPhase::Resolving | CommandPhase::Reported | CommandPhase::Shown
            | CommandPhase::Skipping(_) => self.step_middle(event),
            _ => self.step_closing(event),
        }
    }
}

} // verus!
