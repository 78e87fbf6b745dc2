//! The test tiers: the `--test` selection, the prerequisite gates of the
//! end-to-end tiers, the netns route selection, the sudo prime, and the plans
//! each tier runs.

use vstd::prelude::*;

use crate::build::recipes::{
    Command, CommandView, Recipe, RecipeView, StepView, clone_pairs, clone_strings, pairs_view, ran,
    strings_of, strings_view,
};
use crate::order::StrMap;
use crate::text::{
    contains, debug_str, join, join_path, join_strings, lemma_contains_push, owned, path_join,
    split_char, str_contains, str_debug, str_eq, str_split_char, str_trim, trim,
};

verus! {

// ---------------------------------------------------------------------------
// The --test selection
// ---------------------------------------------------------------------------

/// Every tier, in run order.
pub open spec fn known_tiers() -> Seq<Seq<char>> {
    seq!["unit"@, "netns"@, "docker"@]
}

/// `name` is one of the known tiers.
pub open spec fn is_known_tier(name: Seq<char>) -> bool {
    name == "unit"@ || name == "netns"@ || name == "docker"@
}

/// The trimmed names of a comma-separated `--test` list.
pub open spec fn list_names(text: Seq<char>) -> Seq<Seq<char>> {
    split_char(text, ',').map_values(|s: Seq<char>| trim(s))
}

/// The tiers a list of known names selects: each named tier once, explicitly,
/// in run order.
pub open spec fn listed_tiers(names: Seq<Seq<char>>) -> Seq<(Seq<char>, bool)> {
    (if names.contains("unit"@) { seq![("unit"@, true)] } else { seq![] }) + (if names.contains(
        "netns"@,
    ) {
        seq![("netns"@, true)]
    } else {
        seq![]
    }) + (if names.contains("docker"@) { seq![("docker"@, true)] } else { seq![] })
}

/// Every known tier with the same explicitness.
pub open spec fn every_tier(explicit: bool) -> Seq<(Seq<char>, bool)> {
    seq![("unit"@, explicit), ("netns"@, explicit), ("docker"@, explicit)]
}

/// The usage error for a name that is not a tier.
pub open spec fn unknown_tier_message(name: Seq<char>) -> Seq<char> {
    "--test "@ + str_debug(name)
        + " is not a tier; valid values: none, default, all, or a comma-separated list of unit, netns, docker"@
}

/// The `--test` text: the flag's value, or `default` when it is absent.
pub open spec fn requested_text(flag: Option<&str>) -> Seq<char> {
    match flag {
        Some(f) => f@,
        None => "default"@,
    }
}

/// Which tiers a run executes, parsed from `--test`. Empty means `--test
/// none`. Each selected tier records whether it was explicit — named in a
/// list or covered by `all` — which turns a failing prerequisite probe from a
/// skip into an error.
#[derive(Debug, PartialEq)]
pub struct Selection {
    tiers: Vec<(&'static str, bool)>,
    requested: String,
}

impl Selection {
    /// The selected tiers, in run order, with their explicitness.
    pub closed spec fn tiers_view(&self) -> Seq<(Seq<char>, bool)> {
        self.tiers@.map_values(|t: (&'static str, bool)| (t.0@, t.1))
    }

    /// The literal `--test` text.
    pub closed spec fn requested_view(&self) -> Seq<char> {
        self.requested@
    }

    /// `tier` is selected.
    pub open spec fn selects(&self, tier: Seq<char>) -> bool {
        exists|i: int| 0 <= i < self.tiers_view().len() && (#[trigger] self.tiers_view()[i]).0 == tier
    }

    /// `tier` is selected explicitly.
    pub open spec fn selects_explicitly(&self, tier: Seq<char>) -> bool {
        exists|i: int|
            0 <= i < self.tiers_view().len() && (#[trigger] self.tiers_view()[i]).0 == tier
                && self.tiers_view()[i].1
    }

    /// Parses the `--test` flag. Absent and `default` select every tier,
    /// non-explicitly; `none` selects nothing; `all` selects every tier
    /// explicitly; anything else is a comma-separated list of tier names, each
    /// explicit, run in the tiers' own order. An unknown name — the special
    /// words included — is an error naming the first one.
    pub fn parse(flag: Option<&str>) -> (r: Result<Selection, String>)
        ensures
            ({
                let text = requested_text(flag);
                match r {
                    Ok(sel) => sel.requested_view() == text && if text == "default"@ {
                        sel.tiers_view() == every_tier(false)
                    } else if text == "none"@ {
                        sel.tiers_view() == Seq::<(Seq<char>, bool)>::empty()
                    } else if text == "all"@ {
                        sel.tiers_view() == every_tier(true)
                    } else {
                        (forall|i: int|
                            0 <= i < list_names(text).len() ==> is_known_tier(
                                #[trigger] list_names(text)[i],
                            )) && sel.tiers_view() == listed_tiers(list_names(text))
                    },
                    Err(e) => text != "default"@ && text != "none"@ && text != "all"@ && exists|
                        k: int,
                    |
                        0 <= k < list_names(text).len() && !is_known_tier(
                            #[trigger] list_names(text)[k],
                        ) && (forall|j: int| 0 <= j < k ==> is_known_tier(list_names(text)[j]))
                            && e@ == unknown_tier_message(list_names(text)[k]),
                }
            }),
    {
        let text: &str = match flag {
            Some(f) => f,
            None => "default",
        };
        proof {
            reveal_strlit("default");
            reveal_strlit("none");
            reveal_strlit("all");
            reveal_strlit("unit");
            reveal_strlit("netns");
            reveal_strlit("docker");
        }
        if str_eq(text, "default") {
            let tiers = vec![("unit", false), ("netns", false), ("docker", false)];
            let sel = Selection { tiers, requested: owned(text) };
            assert(sel.tiers_view() =~= every_tier(false));
            return Ok(sel);
        }
        if str_eq(text, "none") {
            let sel = Selection { tiers: Vec::new(), requested: owned(text) };
            assert(sel.tiers_view() =~= Seq::<(Seq<char>, bool)>::empty());
            return Ok(sel);
        }
        if str_eq(text, "all") {
            let tiers = vec![("unit", true), ("netns", true), ("docker", true)];
            let sel = Selection { tiers, requested: owned(text) };
            assert(sel.tiers_view() =~= every_tier(true));
            return Ok(sel);
        }
        let parts = str_split_char(text, ',');
        let ghost names = list_names(text@);
        assert(names.len() == parts@.len());
        let mut unit = false;
        let mut netns = false;
        let mut docker = false;
        let mut i: usize = 0;
        while i < parts.len()
            invariant
                i <= parts.len(),
                text@ == requested_text(flag),
                text@ != "default"@ && text@ != "none"@ && text@ != "all"@,
                names == list_names(text@),
                names.len() == parts@.len(),
                forall|k: int| 0 <= k < parts@.len() ==> names[k] == trim((#[trigger] parts@[k])@),
                forall|j: int| 0 <= j < i ==> is_known_tier(#[trigger] names[j]),
                unit == names.take(i as int).contains("unit"@),
                netns == names.take(i as int).contains("netns"@),
                docker == names.take(i as int).contains("docker"@),
            decreases parts.len() - i,
        {
            assert(names[i as int] == trim(parts@[i as int]@));
            let name = str_trim(parts[i]);
            let is_unit = str_eq(name, "unit");
            let is_netns = str_eq(name, "netns");
            let is_docker = str_eq(name, "docker");
            if !(is_unit || is_netns || is_docker) {
                let mut e = owned("--test ");
                let d = debug_str(name);
                e.append(d.as_str());
                e.append(
                    " is not a tier; valid values: none, default, all, or a comma-separated list of unit, netns, docker",
                );
                assert(!is_known_tier(names[i as int]));
                assert(e@ == unknown_tier_message(names[i as int]));
                return Err(e);
            }
            proof {
                assert(names.take(i + 1) =~= names.take(i as int).push(names[i as int]));
                lemma_contains_push(names.take(i as int), names[i as int], "unit"@);
                lemma_contains_push(names.take(i as int), names[i as int], "netns"@);
                lemma_contains_push(names.take(i as int), names[i as int], "docker"@);
            }
            unit = unit || is_unit;
            netns = netns || is_netns;
            docker = docker || is_docker;
            i = i + 1;
        }
        assert(names.take(parts.len() as int) =~= names);
        let mut tiers: Vec<(&'static str, bool)> = Vec::new();
        if unit {
            tiers.push(("unit", true));
        }
        if netns {
            tiers.push(("netns", true));
        }
        if docker {
            tiers.push(("docker", true));
        }
        let sel = Selection { tiers, requested: owned(text) };
        assert(sel.tiers_view() =~= listed_tiers(names));
        Ok(sel)
    }

    /// The `--test` text as given (`default` when the flag was absent).
    pub fn requested(&self) -> (r: &str)
        ensures
            r@ == self.requested_view(),
    {
        self.requested.as_str()
    }

    /// True when no tier was selected (`--test none`).
    pub fn is_empty(&self) -> (r: bool)
        ensures
            r == (self.tiers_view().len() == 0),
    {
        self.tiers.len() == 0
    }

    /// True when `tier` was selected.
    pub fn contains(&self, tier: &str) -> (r: bool)
        ensures
            r == self.selects(tier@),
    {
        let mut i: usize = 0;
        while i < self.tiers.len()
            invariant
                i <= self.tiers.len(),
                forall|j: int| 0 <= j < i ==> (#[trigger] self.tiers_view()[j]).0 != tier@,
            decreases self.tiers.len() - i,
        {
            assert(self.tiers_view()[i as int].0 == self.tiers@[i as int].0@);
            if str_eq(self.tiers[i].0, tier) {
                return true;
            }
            i = i + 1;
        }
        false
    }

    /// True when `tier` was selected explicitly; false for a tier that was not
    /// selected at all.
    pub fn is_explicit(&self, tier: &str) -> (r: bool)
        ensures
            r == self.selects_explicitly(tier@),
    {
        let mut i: usize = 0;
        while i < self.tiers.len()
            invariant
                i <= self.tiers.len(),
                forall|j: int|
                    0 <= j < i ==> !((#[trigger] self.tiers_view()[j]).0 == tier@
                        && self.tiers_view()[j].1),
            decreases self.tiers.len() - i,
        {
            assert(self.tiers_view()[i as int] == (self.tiers@[i as int].0@, self.tiers@[i as int].1));
            if self.tiers[i].1 && str_eq(self.tiers[i].0, tier) {
                return true;
            }
            i = i + 1;
        }
        false
    }
}


/// Every tier, in run order — the set the emitted manifest's coverage summary
/// accounts for.
pub fn known() -> (r: Vec<&'static str>)
    ensures
        r@.map_values(|t: &'static str| t@) == known_tiers(),
{
    let r = vec!["unit", "netns", "docker"];
    assert(r@.map_values(|t: &'static str| t@) =~= known_tiers());
    r
}

/// A tier's human label for the manifest's notes.
pub open spec fn tier_label(tier: Seq<char>) -> Seq<char> {
    if tier == "unit"@ {
        "unit tests"@
    } else if tier == "netns"@ {
        "netns integration tests"@
    } else if tier == "docker"@ {
        "docker end-to-end tests"@
    } else {
        "tests"@
    }
}

/// A tier's human label: "integration tests did NOT run" reads better than a
/// bare tier name.
pub fn label(tier: &str) -> (r: &'static str)
    ensures
        r@ == tier_label(tier@),
{
    if str_eq(tier, "unit") {
        "unit tests"
    } else if str_eq(tier, "netns") {
        "netns integration tests"
    } else if str_eq(tier, "docker") {
        "docker end-to-end tests"
    } else {
        "tests"
    }
}

// ---------------------------------------------------------------------------
// Prerequisite probes and gates for the end-to-end tiers
// ---------------------------------------------------------------------------

/// What priming the sudo credential cache achieved.
#[derive(Debug, Clone, Copy, PartialEq, Eq, Structural)]
pub enum PrimeOutcome {
    /// `sudo -n true` already succeeded: nothing to prompt for.
    AlreadyPasswordless,
    /// The prompt ran, and the re-probe confirmed the credential cached.
    Primed,
    /// Stdin is not a terminal, so the prompt was refused before it ran.
    NoTty,
    /// `sudo -v` itself failed.
    PrimeFailed,
    /// `sudo -v` succeeded but the re-probe still failed: nothing cached.
    CacheDisabled,
}

/// How the netns tier's sudo was satisfied, recorded in the emitted manifest:
/// a NOPASSWD host, a primed credential, or root inside the container.
#[derive(Debug, Clone, Copy, PartialEq, Eq, Structural)]
pub enum SudoProvenance {
    Nopasswd,
    Primed,
    Container,
}

/// What the host offers the end-to-end tiers, gathered once per run and
/// consumed by the tier gates below.
#[derive(Debug)]
pub struct Probes {
    /// The target OS is Linux.
    pub linux: bool,
    /// `sudo -n true` succeeded.
    pub passwordless_sudo: bool,
    /// Where `valkey-server` is, when it was found.
    pub valkey_server: Option<String>,
    /// `python3` is on `PATH`.
    pub python3: bool,
    /// `docker` is on `PATH`.
    pub docker: bool,
    /// `docker compose version` succeeded.
    pub docker_compose: bool,
    /// `docker info` succeeded: the daemon is reachable.
    pub docker_daemon: bool,
    /// What `--prompt-for-sudo` achieved, when it was given.
    pub sudo_prime: Option<PrimeOutcome>,
}

/// Whether `--prompt-for-sudo` should prime sudo for this run: only when the
/// netns tier, the only sudo consumer, is selected.
pub fn should_prime_sudo(prompt_for_sudo: bool, selection: &Selection) -> (r: bool)
    ensures
        r == (prompt_for_sudo && selection.selects("netns"@)),
{
    prompt_for_sudo && selection.contains("netns")
}

/// A tier's gate: run, or skip with the reason.
#[derive(Debug)]
pub enum TierGate {
    /// Every prerequisite is present.
    Run,
    /// A prerequisite is missing; the text names each missing one.
    Skip(String),
}

/// Which route the netns tier takes: the host, carrying how its sudo was
/// satisfied, or the container fallback, carrying the host route's own
/// missing-prerequisite text.
#[derive(Debug, Clone, PartialEq, Eq)]
pub enum NetnsRunner {
    Host(SudoProvenance),
    Container { host_reason: String },
}

/// The mathematical form of a [`NetnsRunner`].
pub enum RunnerModel {
    Host(SudoProvenance),
    Container(Seq<char>),
}

impl View for NetnsRunner {
    type V = RunnerModel;

    open spec fn view(&self) -> RunnerModel {
        match self {
            NetnsRunner::Host(p) => RunnerModel::Host(*p),
            NetnsRunner::Container { host_reason } => RunnerModel::Container(host_reason@),
        }
    }
}

/// The host route's missing prerequisites, in report order.
pub open spec fn host_gaps(p: &Probes) -> Seq<Seq<char>> {
    (if !p.passwordless_sudo {
        seq!["passwordless sudo (or pass --prompt-for-sudo)"@]
    } else {
        seq![]
    }) + (if p.valkey_server.is_none() { seq!["valkey-server"@] } else { seq![] }) + (if !p.python3 {
        seq!["python3"@]
    } else {
        seq![]
    })
}

/// The diagnosis appended when the prime ran but nothing cached.
pub open spec fn cache_note() -> Seq<char> {
    "; sudo -v succeeded but credentials did not cache (timestamp_timeout=0?)"@
}

/// The host route's own missing-prerequisite text, `None` when it can run.
pub open spec fn host_route_reason_spec(p: &Probes) -> Option<Seq<char>> {
    let gaps = host_gaps(p);
    if gaps.len() == 0 {
        None
    } else {
        let reason = "missing: "@ + join(gaps, ", "@);
        Some(
            if p.sudo_prime == Some(PrimeOutcome::CacheDisabled) {
                reason + cache_note()
            } else {
                reason
            },
        )
    }
}

/// The error for a host that is not Linux.
pub open spec fn not_linux_reason() -> Seq<char> {
    "missing: linux (neither the host route nor the docker fallback runs the netns scripts elsewhere)"@
}

/// The route selection: the host whenever it can run; otherwise the container
/// when a Docker daemon answers; otherwise an error naming both routes' gaps.
pub open spec fn netns_selection(p: &Probes) -> Result<RunnerModel, Seq<char>> {
    if !p.linux {
        Err(not_linux_reason())
    } else {
        match host_route_reason_spec(p) {
            None => Ok(
                RunnerModel::Host(
                    if p.sudo_prime == Some(PrimeOutcome::Primed) {
                        SudoProvenance::Primed
                    } else {
                        SudoProvenance::Nopasswd
                    },
                ),
            ),
            Some(host_reason) => if p.docker && p.docker_daemon {
                Ok(RunnerModel::Container(host_reason))
            } else {
                Err(
                    host_reason + "; docker fallback unavailable: "@ + (if p.docker {
                        "docker daemon not reachable"@
                    } else {
                        "docker not found"@
                    }),
                )
            },
        }
    }
}

/// The host route's own missing-prerequisite text, or `None` when it can run.
pub fn host_route_reason(probes: &Probes) -> (r: Option<String>)
    ensures
        match r {
            Some(t) => host_route_reason_spec(probes) == Some(t@),
            None => host_route_reason_spec(probes) is None,
        },
{
    let mut missing: Vec<String> = Vec::new();
    if !probes.passwordless_sudo {
        missing.push(owned("passwordless sudo (or pass --prompt-for-sudo)"));
    }
    if probes.valkey_server.is_none() {
        missing.push(owned("valkey-server"));
    }
    if !probes.python3 {
        missing.push(owned("python3"));
    }
    assert(missing@.map_values(|m: String| m@) =~= host_gaps(probes));
    if missing.len() == 0 {
        return None;
    }
    let mut reason = owned("missing: ");
    let joined = join_strings(&missing, ", ");
    reason.append(joined.as_str());
    let disabled = match probes.sudo_prime {
        Some(PrimeOutcome::CacheDisabled) => true,
        _ => false,
    };
    if disabled {
        reason.append("; sudo -v succeeded but credentials did not cache (timestamp_timeout=0?)");
    }
    Some(reason)
}

/// Decides which route the netns tier takes: the host route wins whenever it
/// can run; otherwise the container is selected when a Docker daemon is
/// reachable; when neither works the error names both routes' gaps.
pub fn select_netns_runner(probes: &Probes) -> (r: Result<NetnsRunner, String>)
    ensures
        match r {
            Ok(runner) => netns_selection(probes) == Ok::<RunnerModel, Seq<char>>(runner@),
            Err(e) => netns_selection(probes) == Err::<RunnerModel, Seq<char>>(e@),
        },
{
    if !probes.linux {
        return Err(
            owned(
                "missing: linux (neither the host route nor the docker fallback runs the netns scripts elsewhere)",
            ),
        );
    }
    let host_reason = match host_route_reason(probes) {
        None => {
            let primed = match probes.sudo_prime {
                Some(PrimeOutcome::Primed) => true,
                _ => false,
            };
            return Ok(
                NetnsRunner::Host(
                    if primed {
                        SudoProvenance::Primed
                    } else {
                        SudoProvenance::Nopasswd
                    },
                ),
            );
        },
        Some(reason) => reason,
    };
    if probes.docker && probes.docker_daemon {
        return Ok(NetnsRunner::Container { host_reason });
    }
    let mut e = host_reason;
    e.append("; docker fallback unavailable: ");
    if probes.docker {
        e.append("docker daemon not reachable");
    } else {
        e.append("docker not found");
    }
    Err(e)
}

/// Gates the netns tier: run whenever a route exists, otherwise skip with the
/// selector's reason.
pub fn netns_gate(probes: &Probes) -> (g: TierGate)
    ensures
        match g {
            TierGate::Run => netns_selection(probes) is Ok,
            TierGate::Skip(reason) => netns_selection(probes) == Err::<RunnerModel, Seq<char>>(
                reason@,
            ),
        },
{
    match select_netns_runner(probes) {
        Ok(_) => TierGate::Run,
        Err(reason) => TierGate::Skip(reason),
    }
}

/// `probes` as the netns route would see them once `--prompt-for-sudo` had
/// bought sudo.
pub open spec fn primed_probes(p: &Probes) -> Probes {
    Probes { passwordless_sudo: true, sudo_prime: None, ..*p }
}

/// The dry-run report's text for the netns tier.
pub open spec fn netns_dry_run(p: &Probes, prompt_for_sudo: bool) -> Seq<char> {
    if !prompt_for_sudo || p.passwordless_sudo {
        match netns_selection(p) {
            Ok(RunnerModel::Host(_)) => "prerequisites present"@,
            Ok(RunnerModel::Container(h)) => "would run in docker (host route unavailable: "@ + h
                + ")"@,
            Err(reason) => reason,
        }
    } else {
        match netns_selection(&primed_probes(p)) {
            Ok(RunnerModel::Host(_)) => if p.docker && p.docker_daemon {
                "would prompt for sudo (--prompt-for-sudo); on failure would fall back to docker"@
            } else {
                "would prompt for sudo (--prompt-for-sudo)"@
            },
            Ok(RunnerModel::Container(h)) =>
                "would prompt for sudo (--prompt-for-sudo); would run in docker (host route unavailable: "@
                + h + ")"@,
            Err(reason) => "would prompt for sudo (--prompt-for-sudo); "@ + reason,
        }
    }
}

/// The dry-run report's planned-tier text for netns. A dry run never prompts:
/// when `--prompt-for-sudo` was given and sudo is what the prompt would buy,
/// the text says the real run would prompt, without hiding any other missing
/// prerequisite.
pub fn netns_dry_run_text(probes: &Probes, prompt_for_sudo: bool) -> (r: String)
    ensures
        r@ == netns_dry_run(probes, prompt_for_sudo),
{
    if !prompt_for_sudo || probes.passwordless_sudo {
        return match select_netns_runner(probes) {
            Ok(NetnsRunner::Host(_)) => owned("prerequisites present"),
            Ok(NetnsRunner::Container { host_reason }) => {
                let mut t = owned("would run in docker (host route unavailable: ");
                t.append(host_reason.as_str());
                t.append(")");
                t
            },
            Err(reason) => reason,
        };
    }
    let valkey_server = match &probes.valkey_server {
        Some(path) => Some(path.clone()),
        None => None,
    };
    let primed = Probes {
        passwordless_sudo: true,
        linux: probes.linux,
        valkey_server,
        python3: probes.python3,
        docker: probes.docker,
        docker_compose: probes.docker_compose,
        docker_daemon: probes.docker_daemon,
        sudo_prime: None,
    };
    assert(netns_selection(&primed) == netns_selection(&primed_probes(probes)));
    match select_netns_runner(&primed) {
        Ok(NetnsRunner::Host(_)) => {
            if probes.docker && probes.docker_daemon {
                owned(
                    "would prompt for sudo (--prompt-for-sudo); on failure would fall back to docker",
                )
            } else {
                owned("would prompt for sudo (--prompt-for-sudo)")
            }
        },
        Ok(NetnsRunner::Container { host_reason }) => {
            let mut t = owned(
                "would prompt for sudo (--prompt-for-sudo); would run in docker (host route unavailable: ",
            );
            t.append(host_reason.as_str());
            t.append(")");
            t
        },
        Err(reason) => {
            let mut t = owned("would prompt for sudo (--prompt-for-sudo); ");
            t.append(reason.as_str());
            t
        },
    }
}

/// The netns tier's stdout header: the container route names the fallback and
/// quotes the host route's real failure.
pub fn netns_tier_header(runner: &NetnsRunner) -> (r: String)
    ensures
        r@ == match runner@ {
            RunnerModel::Host(_) => "netns tier:"@,
            RunnerModel::Container(h) => "netns tier (docker fallback; host route unavailable: "@
                + h + "):"@,
        },
{
    match runner {
        NetnsRunner::Host(_) => owned("netns tier:"),
        NetnsRunner::Container { host_reason } => {
            let mut t = owned("netns tier (docker fallback; host route unavailable: ");
            t.append(host_reason.as_str());
            t.append("):");
            t
        },
    }
}

/// The docker tier's gate.
pub open spec fn docker_gate_reason(p: &Probes) -> Option<Seq<char>> {
    if !p.docker {
        Some("docker not found"@)
    } else if !p.docker_compose {
        Some("docker compose not found"@)
    } else if !p.docker_daemon {
        Some("docker daemon not reachable"@)
    } else {
        None
    }
}

/// Gates the docker tier: `docker`, the compose v2 plugin, and a reachable
/// daemon, reported in that order.
pub fn docker_gate(probes: &Probes) -> (g: TierGate)
    ensures
        match g {
            TierGate::Run => docker_gate_reason(probes) is None,
            TierGate::Skip(reason) => docker_gate_reason(probes) == Some(reason@),
        },
{
    if !probes.docker {
        return TierGate::Skip(owned("docker not found"));
    }
    if !probes.docker_compose {
        return TierGate::Skip(owned("docker compose not found"));
    }
    if !probes.docker_daemon {
        return TierGate::Skip(owned("docker daemon not reachable"));
    }
    TierGate::Run
}

/// Applies a gate: a failing probe on a default-selected tier is a skip
/// carrying its reason, the same failure on an explicitly requested tier is an
/// error carrying the same text, and a passing gate runs either way. Never a
/// silent skip.
pub fn check_gate(tier: &str, gate: TierGate, explicit: bool) -> (r: Result<Option<String>, String>)
    ensures
        match gate {
            TierGate::Run => r == Ok::<Option<String>, String>(None),
            TierGate::Skip(reason) => if explicit {
                r matches Err(e) && e@ == "--test "@ + tier@ + " was requested but cannot run: "@
                    + reason@
            } else {
                r matches Ok(Some(s)) && s@ == reason@
            },
        },
{
    match gate {
        TierGate::Run => Ok(None),
        TierGate::Skip(reason) => {
            if explicit {
                let mut e = owned("--test ");
                e.append(tier);
                e.append(" was requested but cannot run: ");
                e.append(reason.as_str());
                Err(e)
            } else {
                Ok(Some(reason))
            }
        },
    }
}

/// The host route is taken whenever it can run: on Linux, with every host
/// prerequisite present, the netns tier runs on the host, whatever Docker
/// offers.
pub proof fn lemma_host_route_wins(p: &Probes)
    requires
        p.linux,
        host_route_reason_spec(p) is None,
    ensures
        netns_selection(p) matches Ok(RunnerModel::Host(_)),
{
}

/// The container route is a fallback only: it is chosen exactly when the host
/// route cannot run and a Docker daemon answers, and it carries the host
/// route's own reason.
pub proof fn lemma_container_only_as_fallback(p: &Probes)
    ensures
        (netns_selection(p) matches Ok(RunnerModel::Container(h))) <==> (p.linux && host_route_reason_spec(
            p,
        ) is Some && p.docker && p.docker_daemon),
        netns_selection(p) matches Ok(RunnerModel::Container(h)) ==> host_route_reason_spec(p) == Some(h),
{
}

/// Off Linux neither route runs, and the error says so whatever else the host
/// offers.
pub proof fn lemma_netns_needs_linux(p: &Probes)
    requires
        !p.linux,
    ensures
        netns_selection(p) == Err::<RunnerModel, Seq<char>>(not_linux_reason()),
{
}

/// A gate is never a silent skip: an explicitly requested tier that cannot
/// run is an error carrying its gate's reason, a default-selected one is a
/// skip carrying the same reason, and a tier that can run runs.
pub proof fn lemma_gate_never_silent(tier: Seq<char>, reason: Seq<char>, explicit: bool)
    ensures
        explicit ==> gate_verdict(tier, Some(reason), explicit) == Err::<Option<Seq<char>>, Seq<char>>(
            "--test "@ + tier + " was requested but cannot run: "@ + reason,
        ),
        !explicit ==> gate_verdict(tier, Some(reason), explicit) == Ok::<Option<Seq<char>>, Seq<char>>(
            Some(reason),
        ),
        gate_verdict(tier, None, explicit) == Ok::<Option<Seq<char>>, Seq<char>>(None),
{
}

/// What [`check_gate`] decides for a gate's skip reason (`None` when it
/// runs).
pub open spec fn gate_verdict(tier: Seq<char>, skip: Option<Seq<char>>, explicit: bool) -> Result<
    Option<Seq<char>>,
    Seq<char>,
> {
    match skip {
        None => Ok(None),
        Some(reason) => if explicit {
            Err("--test "@ + tier + " was requested but cannot run: "@ + reason)
        } else {
            Ok(Some(reason))
        },
    }
}

/// Without a terminal the prime never prompts: whatever sudo answers, the
/// outcome is that sudo already worked or that no terminal was there.
pub proof fn lemma_no_tty_never_prompts(first_probe: bool, prime_ok: bool, reprobe: bool)
    ensures
        prime_outcome(first_probe, false, prime_ok, reprobe) == (if first_probe {
            PrimeOutcome::AlreadyPasswordless
        } else {
            PrimeOutcome::NoTty
        }),
{
}

/// The `PATH` entries a `PATH` value lists: the pieces between colons, an
/// empty piece included.
pub open spec fn path_entries(path: Seq<char>) -> Seq<Seq<char>> {
    split_char(path, ':')
}

/// `is_exec` answered `answer` for `path`.
pub open spec fn exec_probed<F: Fn(&str) -> bool>(is_exec: F, path: Seq<char>, answer: bool) -> bool {
    exists|p: &str| #[trigger] call_ensures(is_exec, (p,), answer) && p@ == path
}

/// The first entry of a `PATH` value holding an executable regular file
/// named `program`, as `is_exec` judges each candidate: a non-executable file
/// of the right name does not count, and the search goes on past it.
pub fn find_in_path_value<F: Fn(&str) -> bool>(path: &str, program: &str, is_exec: &F) -> (r: Option<String>)
    requires
        forall|p: &str| call_requires(*is_exec, (p,)),
    ensures
        match r {
            Some(found) => exists|k: int|
                0 <= k < path_entries(path@).len() && found@ == path_join(path_entries(path@)[k], program@)
                    && exec_probed(*is_exec, found@, true) && forall|j: int|
                    0 <= j < k ==> #[trigger] exec_probed(
                        *is_exec,
                        path_join(path_entries(path@)[j], program@),
                        false,
                    ),
            None => forall|j: int|
                0 <= j < path_entries(path@).len() ==> #[trigger] exec_probed(
                    *is_exec,
                    path_join(path_entries(path@)[j], program@),
                    false,
                ),
        },
{
    let dirs = str_split_char(path, ':');
    let ghost dv = dirs@.map_values(|d: &str| d@);
    assert(dv == path_entries(path@));
    let mut i: usize = 0;
    while i < dirs.len()
        invariant
            i <= dirs.len(),
            dv == dirs@.map_values(|d: &str| d@),
            dv == path_entries(path@),
            forall|p: &str| call_requires(*is_exec, (p,)),
            forall|j: int| 0 <= j < i ==> #[trigger] exec_probed(*is_exec, path_join(dv[j], program@), false),
        decreases dirs.len() - i,
    {
        let candidate = join_path(dirs[i], program);
        assert(dv[i as int] == dirs@[i as int]@);
        let c = candidate.as_str();
        let found = is_exec(c);
        assert(call_ensures(*is_exec, (c,), found));
        if found {
            assert(exec_probed(*is_exec, candidate@, true));
            return Some(candidate);
        }
        assert(exec_probed(*is_exec, path_join(dv[i as int], program@), false));
        i = i + 1;
    }
    None
}

/// `zl-zpr-core`'s `integration-test/Makefile` in a worktree.
pub open spec fn floor_makefile(core_worktree: Seq<char>) -> Seq<char> {
    path_join(path_join(core_worktree, "integration-test"@), "Makefile"@)
}

/// The refusal of a `zl-zpr-core` worktree older than the Docker runner.
pub open spec fn floor_message(head_sha: Seq<char>) -> Seq<char> {
    "zl-zpr-core @ "@ + head_sha
        + " predates the Docker runner (integration-test/Makefile with FORWARD_ENV, zl-zpr-core c163628)"@
}

/// The container route's floor check: the `zl-zpr-core` worktree must carry
/// `integration-test/Makefile` defining `FORWARD_ENV`, the commit that
/// forwards the caller's `*_BIN` overrides into the container. An older (or
/// unreadable) Makefile refuses the route with a reason naming the worktree's
/// sha and the floor commit, because the scripts would otherwise silently
/// test the image's own binaries.
pub fn docker_runner_floor<R: Fn(&str) -> Result<String, String>>(
    core_worktree: &str,
    head_sha: &str,
    read: &R,
) -> (r: Result<(), String>)
    requires
        forall|p: &str| call_requires(*read, (p,)),
    ensures
        exists|answer: Result<Seq<char>, Seq<char>>|
            #[trigger] crate::build::scan::read_ran(*read, floor_makefile(core_worktree@), answer)
                && match answer {
                Ok(text) => if contains(text, "FORWARD_ENV"@) {
                    r is Ok
                } else {
                    r matches Err(e) && e@ == floor_message(head_sha@)
                },
                Err(_) => r matches Err(e) && e@ == floor_message(head_sha@),
            },
{
    let dir = join_path(core_worktree, "integration-test");
    let makefile = join_path(dir.as_str(), "Makefile");
    let m = makefile.as_str();
    let answer = read(m);
    assert(call_ensures(*read, (m,), answer));
    let ghost av = crate::build::scan::read_view(answer);
    assert(crate::build::scan::read_ran(*read, floor_makefile(core_worktree@), av));
    let defines = match &answer {
        Ok(text) => str_contains(text.as_str(), "FORWARD_ENV"),
        Err(_) => false,
    };
    if defines {
        return Ok(());
    }
    let mut e = owned("zl-zpr-core @ ");
    e.append(head_sha);
    e.append(
        " predates the Docker runner (integration-test/Makefile with FORWARD_ENV, zl-zpr-core c163628)",
    );
    Err(e)
}

// ---------------------------------------------------------------------------
// The --prompt-for-sudo prime
// ---------------------------------------------------------------------------

/// The three sudo invocations `--prompt-for-sudo` may make. Each answers
/// whether the invocation succeeded.
pub trait SudoRunner {
    /// `sudo -n true`: does sudo work right now without prompting?
    fn probe(&self) -> bool;
    /// `sudo -v`: prompt once on the operator's terminal and cache the
    /// credential.
    fn prime(&self) -> bool;
    /// `sudo -n -v`: extend the cached credential without prompting.
    fn refresh(&self) -> bool;
}

/// The outcome of the prime for given answers: the first probe, whether stdin
/// is a terminal, whether `sudo -v` succeeded, and the re-probe.
pub open spec fn prime_outcome(first_probe: bool, stdin_is_tty: bool, prime_ok: bool, reprobe: bool) -> PrimeOutcome {
    if first_probe {
        PrimeOutcome::AlreadyPasswordless
    } else if !stdin_is_tty {
        PrimeOutcome::NoTty
    } else if !prime_ok {
        PrimeOutcome::PrimeFailed
    } else if reprobe {
        PrimeOutcome::Primed
    } else {
        PrimeOutcome::CacheDisabled
    }
}

/// The `--prompt-for-sudo` sequence over its three sudo calls, taken one
/// closure per call: `probe` (`sudo -n true`), `prime` (`sudo -v`) and
/// `reprobe` (`sudo -n true` again). The prime is asked only when the probe
/// failed and stdin is a terminal, the re-probe only when the prime
/// succeeded, and the outcome is the one [`prime_outcome`] gives for those
/// answers.
pub fn prime_with<P: Fn() -> bool, Q: Fn() -> bool, S: Fn() -> bool>(
    probe: &P,
    prime: &Q,
    reprobe: &S,
    stdin_is_tty: bool,
) -> (o: PrimeOutcome)
    requires
        call_requires(*probe, ()),
        call_requires(*prime, ()),
        call_requires(*reprobe, ()),
    ensures
        exists|first: bool, primed: bool, again: bool|
            #![trigger prime_outcome(first, stdin_is_tty, primed, again)]
            call_ensures(*probe, (), first) && (!first && stdin_is_tty ==> call_ensures(*prime, (), primed))
                && (!first && stdin_is_tty && primed ==> call_ensures(*reprobe, (), again))
                && o == prime_outcome(first, stdin_is_tty, primed, again),
{
    let first = probe();
    if first {
        assert(PrimeOutcome::AlreadyPasswordless == prime_outcome(true, stdin_is_tty, true, true));
        return PrimeOutcome::AlreadyPasswordless;
    }
    if !stdin_is_tty {
        assert(PrimeOutcome::NoTty == prime_outcome(false, stdin_is_tty, true, true));
        return PrimeOutcome::NoTty;
    }
    let primed = prime();
    if !primed {
        assert(PrimeOutcome::PrimeFailed == prime_outcome(false, stdin_is_tty, false, true));
        return PrimeOutcome::PrimeFailed;
    }
    let again = reprobe();
    if again {
        assert(PrimeOutcome::Primed == prime_outcome(false, stdin_is_tty, true, true));
        PrimeOutcome::Primed
    } else {
        assert(PrimeOutcome::CacheDisabled == prime_outcome(false, stdin_is_tty, true, false));
        PrimeOutcome::CacheDisabled
    }
}

/// Primes sudo's credential cache for the netns tier through `runner`:
/// probe, refuse without a terminal, prompt once, re-probe, as
/// [`prime_with`] does with the runner's `probe`, `prime` and `probe`
/// again. The answers are the runner's own: `runner.probe()` answered the
/// first probe, `runner.prime()` the prime when it was asked, and
/// `runner.probe()` the re-probe when it was asked.
pub fn prime_sudo<R: SudoRunner>(runner: &R, stdin_is_tty: bool) -> (o: PrimeOutcome)
    ensures
        exists|first: bool, primed: bool, again: bool|
            #![trigger prime_outcome(first, stdin_is_tty, primed, again)]
            call_ensures(R::probe, (runner,), first) && (!first && stdin_is_tty ==> call_ensures(
                R::prime,
                (runner,),
                primed,
            )) && (!first && stdin_is_tty && primed ==> call_ensures(R::probe, (runner,), again))
                && o == prime_outcome(first, stdin_is_tty, primed, again),
        !stdin_is_tty ==> (o == PrimeOutcome::AlreadyPasswordless || o == PrimeOutcome::NoTty),
{
    let probe = || -> (b: bool)
        ensures
            call_ensures(R::probe, (runner,), b),
        { runner.probe() };
    let prime = || -> (b: bool)
        ensures
            call_ensures(R::prime, (runner,), b),
        { runner.prime() };
    let reprobe = || -> (b: bool)
        ensures
            call_ensures(R::probe, (runner,), b),
        { runner.probe() };
    prime_with(&probe, &prime, &reprobe, stdin_is_tty)
}

// ---------------------------------------------------------------------------
// The unit tier
// ---------------------------------------------------------------------------

/// One command the unit tier runs, with the repository's worktree as the
/// working directory. `name` labels the log file and attributes a failure: a
/// failing `pregen` is named `pregen`.
#[derive(Debug)]
pub struct TierStep {
    pub name: &'static str,
    pub program: &'static str,
    pub args: Vec<String>,
}

/// The mathematical form of a [`TierStep`].
pub struct TierStepView {
    pub name: Seq<char>,
    pub program: Seq<char>,
    pub args: Seq<Seq<char>>,
}

impl View for TierStep {
    type V = TierStepView;

    open spec fn view(&self) -> TierStepView {
        TierStepView { name: self.name@, program: self.program@, args: strings_view(self.args@) }
    }
}

/// One repository's part of the unit-tier plan: commands to run, or a skip
/// with its reason. A repository with nothing to test is reported, never
/// silently omitted.
#[derive(Debug)]
pub enum RepoPlan {
    /// Run `steps` in order in `worktree`; the first failure fails the
    /// repository and the sweep moves on to the next one.
    Run { repo: String, worktree: String, steps: Vec<TierStep> },
    /// Nothing to run here, and the reason says why.
    Skip { repo: String, reason: String },
}

/// The mathematical form of a [`RepoPlan`].
pub enum RepoPlanView {
    Run { repo: Seq<char>, worktree: Seq<char>, steps: Seq<TierStepView> },
    Skip { repo: Seq<char>, reason: Seq<char> },
}

impl View for RepoPlan {
    type V = RepoPlanView;

    open spec fn view(&self) -> RepoPlanView {
        match self {
            RepoPlan::Run { repo, worktree, steps } => RepoPlanView::Run {
                repo: repo@,
                worktree: worktree@,
                steps: steps@.map_values(|s: TierStep| s@),
            },
            RepoPlan::Skip { repo, reason } => RepoPlanView::Skip { repo: repo@, reason: reason@ },
        }
    }
}

/// The worktree of the first entry built from `repo`'s recipe.
pub open spec fn first_worktree(worktrees: Seq<(Seq<char>, Seq<char>)>, repo: Seq<char>) -> Option<
    Seq<char>,
>
    decreases worktrees.len(),
{
    if worktrees.len() == 0 {
        None
    } else if worktrees[0].0 == repo {
        Some(worktrees[0].1)
    } else {
        first_worktree(worktrees.drop_first(), repo)
    }
}

/// The skip reason of a repository whose recipe builds nothing.
pub open spec fn no_unit_tests_reason() -> Seq<char> {
    "no unit tests (docker tier covers it)"@
}

/// The steps the unit tier runs in one built repository: `make test`,
/// preceded in the visa service by `make pregen ZPLC=<dist>/zplc`.
pub open spec fn unit_steps(repo: Seq<char>, dist: Seq<char>) -> Seq<TierStepView> {
    (if repo == "zl-zpr-visaservice"@ {
        seq![
            TierStepView {
                name: "pregen"@,
                program: "make"@,
                args: seq!["pregen"@, "ZPLC="@ + path_join(dist, "zplc"@)],
            },
        ]
    } else {
        seq![]
    }) + seq![TierStepView { name: "test"@, program: "make"@, args: seq!["test"@] }]
}

/// One recipe's place in the unit plan: nothing when no worktree was built
/// from it, a skip when it builds nothing, otherwise its steps.
pub open spec fn repo_unit_plan(
    recipe: RecipeView,
    worktrees: Seq<(Seq<char>, Seq<char>)>,
    dist: Seq<char>,
) -> Option<RepoPlanView> {
    match first_worktree(worktrees, recipe.repo) {
        None => None,
        Some(worktree) => if recipe.steps.len() == 0 {
            Some(RepoPlanView::Skip { repo: recipe.repo, reason: no_unit_tests_reason() })
        } else {
            Some(
                RepoPlanView::Run {
                    repo: recipe.repo,
                    worktree,
                    steps: unit_steps(recipe.repo, dist),
                },
            )
        },
    }
}

/// The unit plan: the recipes' plans, in the recipes' order.
pub open spec fn unit_plan_spec(
    recipes: Seq<RecipeView>,
    worktrees: Seq<(Seq<char>, Seq<char>)>,
    dist: Seq<char>,
) -> Seq<RepoPlanView>
    decreases recipes.len(),
{
    if recipes.len() == 0 {
        seq![]
    } else {
        let rest = unit_plan_spec(recipes.drop_last(), worktrees, dist);
        match repo_unit_plan(recipes.last(), worktrees, dist) {
            Some(plan) => rest.push(plan),
            None => rest,
        }
    }
}

/// The worktree list as repository and path.
pub open spec fn worktrees_view(worktrees: Seq<(&Recipe, String)>) -> Seq<(Seq<char>, Seq<char>)> {
    worktrees.map_values(|w: (&Recipe, String)| (w.0.repo@, w.1@))
}

/// The unit plan depends on the worktrees only through which worktree each
/// recipe's repository finds first: two worktree lists that agree on that
/// give the same plan, whatever order they list their entries in.
pub proof fn lemma_unit_plan_depends_on_lookup(
    recipes: Seq<RecipeView>,
    a: Seq<(Seq<char>, Seq<char>)>,
    b: Seq<(Seq<char>, Seq<char>)>,
    dist: Seq<char>,
)
    requires
        forall|repo: Seq<char>| #[trigger] first_worktree(a, repo) == first_worktree(b, repo),
    ensures
        unit_plan_spec(recipes, a, dist) == unit_plan_spec(recipes, b, dist),
    decreases recipes.len(),
{
    if recipes.len() > 0 {
        lemma_unit_plan_depends_on_lookup(recipes.drop_last(), a, b, dist);
        assert(first_worktree(a, recipes.last().repo) == first_worktree(b, recipes.last().repo));
    }
}

/// The unit-tier steps for one repository.
fn unit_steps_for(repo: &str, dist: &str) -> (r: Vec<TierStep>)
    ensures
        r@.map_values(|s: TierStep| s@) == unit_steps(repo@, dist@),
{
    proof {
        reveal_strlit("zl-zpr-visaservice");
        reveal_strlit("pregen");
        reveal_strlit("make");
        reveal_strlit("test");
        reveal_strlit("zplc");
        reveal_strlit("ZPLC=");
    }
    let mut steps: Vec<TierStep> = Vec::new();
    if str_eq(repo, "zl-zpr-visaservice") {
        let mut zplc = owned("ZPLC=");
        let path = join_path(dist, "zplc");
        zplc.append(path.as_str());
        let args = vec![owned("pregen"), zplc];
        assert(strings_view(args@) =~= seq!["pregen"@, "ZPLC="@ + path_join(dist@, "zplc"@)]);
        steps.push(TierStep { name: "pregen", program: "make", args });
    }
    let args = vec![owned("test")];
    assert(strings_view(args@) =~= seq!["test"@]);
    steps.push(TierStep { name: "test", program: "make", args });
    assert(steps@.map_values(|s: TierStep| s@) =~= unit_steps(repo@, dist@));
    steps
}

/// Builds the unit tier's plan from the worktrees a build produced: `make
/// test` in each built repository in the recipe table's order, whatever order
/// the worktrees arrived in, preceded in `zl-zpr-visaservice` by `make pregen
/// ZPLC=<dist>/zplc` so its policy fixtures are compiled by the set's own
/// compiler. A repository whose recipe builds nothing is planned as a skip.
/// Nothing here executes a command.
pub fn unit_plan(recipes: &[Recipe], worktrees: &[(&Recipe, String)], dist: &str) -> (r: Vec<
    RepoPlan,
>)
    ensures
        r@.map_values(|p: RepoPlan| p@) == unit_plan_spec(
            recipes@.map_values(|x: Recipe| x@),
            worktrees_view(worktrees@),
            dist@,
        ),
{
    let ghost rv = recipes@.map_values(|x: Recipe| x@);
    let ghost wv = worktrees_view(worktrees@);
    let mut plans: Vec<RepoPlan> = Vec::new();
    let mut i: usize = 0;
    while i < recipes.len()
        invariant
            i <= recipes.len(),
            rv == recipes@.map_values(|x: Recipe| x@),
            wv == worktrees_view(worktrees@),
            plans@.map_values(|p: RepoPlan| p@) == unit_plan_spec(rv.take(i as int), wv, dist@),
        decreases recipes.len() - i,
    {
        let recipe = &recipes[i];
        assert(rv.take(i + 1).drop_last() =~= rv.take(i as int));
        assert(rv.take(i + 1).last() == recipe@);
        // The first worktree built from this recipe's repository.
        let mut k: usize = 0;
        assert(wv.skip(0) =~= wv);
        while k < worktrees.len() && !str_eq(worktrees[k].0.repo.as_str(), recipe.repo.as_str())
            invariant
                k <= worktrees.len(),
                wv == worktrees_view(worktrees@),
                first_worktree(wv, recipe.repo@) == first_worktree(wv.skip(k as int), recipe.repo@),
            decreases worktrees.len() - k,
        {
            assert(wv.skip(k as int)[0] == wv[k as int]);
            assert(wv.skip(k as int).drop_first() =~= wv.skip(k + 1));
            k = k + 1;
        }
        if k < worktrees.len() {
            assert(wv.skip(k as int)[0] == wv[k as int]);
            let ghost before = plans@.map_values(|p: RepoPlan| p@);
            if recipe.steps.len() == 0 {
                let plan = RepoPlan::Skip {
                    repo: owned(recipe.repo.as_str()),
                    reason: owned("no unit tests (docker tier covers it)"),
                };
                plans.push(plan);
                assert(plans@.map_values(|p: RepoPlan| p@) =~= before.push(plan@));
            } else {
                let steps = unit_steps_for(recipe.repo.as_str(), dist);
                let plan = RepoPlan::Run {
                    repo: owned(recipe.repo.as_str()),
                    worktree: owned(worktrees[k].1.as_str()),
                    steps,
                };
                plans.push(plan);
                assert(plans@.map_values(|p: RepoPlan| p@) =~= before.push(plan@));
            }
        } else {
            assert(wv.skip(k as int) =~= Seq::<(Seq<char>, Seq<char>)>::empty());
        }
        i = i + 1;
    }
    assert(rv.take(recipes.len() as int) =~= rv);
    plans
}


// ---------------------------------------------------------------------------
// The netns tier's plan
// ---------------------------------------------------------------------------

/// The seven integration scripts the netns tier runs, in order: an explicit
/// list, never a glob.
pub open spec fn netns_scripts() -> Seq<Seq<char>> {
    seq![
        "one-node-test.sh"@,
        "one-node-v6-test.sh"@,
        "one-node-oidc-test.sh"@,
        "capture-test.sh"@,
        "oidc-file-interplay-test.sh"@,
        "fake-idp-smoke-test.sh"@,
        "a2a-pubkey-test.sh"@,
    ]
}

/// A build that must succeed before its script runs: the worktree-local
/// `enable-security-testing` build of `ph` for `a2a-pubkey-test.sh`. Its
/// failure fails that one script while the rest of the tier still runs.
#[derive(Debug)]
pub struct PrepStep {
    /// Labels the log file (`logs/netns-<name>.log`) and the failure entry.
    pub name: &'static str,
    pub program: &'static str,
    pub args: Vec<String>,
    /// Working directory: the `zl-zpr-core` worktree.
    pub dir: String,
}

/// The mathematical form of a [`PrepStep`].
pub struct PrepStepView {
    pub name: Seq<char>,
    pub program: Seq<char>,
    pub args: Seq<Seq<char>>,
    pub dir: Seq<char>,
}

impl View for PrepStep {
    type V = PrepStepView;

    open spec fn view(&self) -> PrepStepView {
        PrepStepView {
            name: self.name@,
            program: self.program@,
            args: strings_view(self.args@),
            dir: self.dir@,
        }
    }
}

/// One planned script: its name, the command that runs it, the environment
/// overrides it runs under, the inherited variables stripped from the child,
/// and an optional prep build.
#[derive(Debug)]
pub struct NetnsScript {
    pub script: &'static str,
    /// What to execute: the script's own path (host) or `make` (container).
    pub program: String,
    pub args: Vec<String>,
    /// `KEY=value` pairs set on the child only.
    pub env: Vec<(String, String)>,
    /// Inherited variables removed from the child's environment.
    pub env_remove: Vec<&'static str>,
    pub prep: Option<PrepStep>,
}

/// The mathematical form of a [`NetnsScript`].
pub struct NetnsScriptView {
    pub script: Seq<char>,
    pub program: Seq<char>,
    pub args: Seq<Seq<char>>,
    pub env: Seq<(Seq<char>, Seq<char>)>,
    pub env_remove: Seq<Seq<char>>,
    pub prep: Option<PrepStepView>,
}

impl View for NetnsScript {
    type V = NetnsScriptView;

    open spec fn view(&self) -> NetnsScriptView {
        NetnsScriptView {
            script: self.script@,
            program: self.program@,
            args: strings_view(self.args@),
            env: pairs_view(self.env@),
            env_remove: self.env_remove@.map_values(|v: &'static str| v@),
            prep: match self.prep {
                Some(p) => Some(p@),
                None => None,
            },
        }
    }
}

/// The netns tier's plan: where the scripts run and what to run.
#[derive(Debug)]
pub struct NetnsPlan {
    pub dir: String,
    pub scripts: Vec<NetnsScript>,
}

/// The mathematical form of a [`NetnsPlan`].
pub struct NetnsPlanView {
    pub dir: Seq<char>,
    pub scripts: Seq<NetnsScriptView>,
}

impl View for NetnsPlan {
    type V = NetnsPlanView;

    open spec fn view(&self) -> NetnsPlanView {
        NetnsPlanView { dir: self.dir@, scripts: self.scripts@.map_values(|s: NetnsScript| s@) }
    }
}

/// The one script that runs the security-testing `ph`.
pub open spec fn is_a2a(script: Seq<char>) -> bool {
    script == "a2a-pubkey-test.sh"@
}

/// The child environment of one script: the `*_BIN` overrides pointed at
/// `dist/` (the a2a script's `PH_BIN` at the worktree's debug build), the
/// host's valkey on the host route only, and `ZPR_TEST_VERBOSE=1` under
/// `verbose`.
pub open spec fn netns_env(
    script: Seq<char>,
    core: Seq<char>,
    dist: Seq<char>,
    valkey: Seq<char>,
    verbose: bool,
    container: bool,
) -> Seq<(Seq<char>, Seq<char>)> {
    seq![
        ("PH_BIN"@, if is_a2a(script) {
            path_join(core, "target/debug/ph"@)
        } else {
            path_join(dist, "ph"@)
        }),
        ("PH_DEBUG_BIN"@, path_join(dist, "ph-cli"@)),
        ("VS_BIN"@, path_join(dist, "vs"@)),
        ("VS_ADMIN_BIN"@, path_join(dist, "vs-admin"@)),
    ] + (if !container {
        seq![("VALKEY_SERVER_BIN"@, valkey)]
    } else {
        seq![]
    }) + (if verbose {
        seq![("ZPR_TEST_VERBOSE"@, "1"@)]
    } else {
        seq![]
    })
}

/// The a2a script's prep build.
pub open spec fn security_ph_prep(core: Seq<char>) -> PrepStepView {
    PrepStepView {
        name: "security-ph"@,
        program: "cargo"@,
        args: seq!["build"@, "-p"@, "ph"@, "--features"@, "enable-security-testing"@],
        dir: core,
    }
}

/// One planned script. On the host route the command is the script's own
/// path; on the container route it is `make -C <core>/integration-test
/// docker-test TEST=<script> WORKSPACE=<build_dir>`, with `VALKEY_SERVER_BIN`
/// neither set nor inherited.
pub open spec fn netns_script_spec(
    script: Seq<char>,
    core: Seq<char>,
    dist: Seq<char>,
    valkey: Seq<char>,
    verbose: bool,
    container: bool,
    build_dir: Seq<char>,
) -> NetnsScriptView {
    let integration = path_join(core, "integration-test"@);
    NetnsScriptView {
        script,
        program: if container {
            "make"@
        } else {
            path_join(integration, script)
        },
        args: if container {
            seq![
                "-C"@,
                integration,
                "docker-test"@,
                "TEST="@ + script,
                "WORKSPACE="@ + build_dir,
            ]
        } else {
            seq![]
        },
        env: netns_env(script, core, dist, valkey, verbose, container),
        env_remove: if container {
            seq!["VALKEY_SERVER_BIN"@]
        } else {
            seq![]
        },
        prep: if is_a2a(script) {
            Some(security_ph_prep(core))
        } else {
            None
        },
    }
}

/// The netns plan: the seven scripts in order, run from the worktree on the
/// container route and from its `integration-test/` on the host route.
pub open spec fn netns_plan_spec(
    core: Seq<char>,
    dist: Seq<char>,
    valkey: Seq<char>,
    verbose: bool,
    container: bool,
    build_dir: Seq<char>,
) -> NetnsPlanView {
    NetnsPlanView {
        dir: if container {
            core
        } else {
            path_join(core, "integration-test"@)
        },
        scripts: netns_scripts().map_values(
            |script: Seq<char>|
                netns_script_spec(script, core, dist, valkey, verbose, container, build_dir),
        ),
    }
}

/// A `KEY=value` pair from a literal key.
fn env_pair(key: &str, value: String) -> (r: (String, String))
    ensures
        r.0@ == key@,
        r.1@ == value@,
{
    (owned(key), value)
}

/// One planned script.
fn netns_script(
    script: &'static str,
    core_worktree: &str,
    dist: &str,
    valkey: &str,
    verbose: bool,
    container: bool,
    build_dir: &str,
) -> (r: NetnsScript)
    ensures
        r@ == netns_script_spec(
            script@,
            core_worktree@,
            dist@,
            valkey@,
            verbose,
            container,
            build_dir@,
        ),
{
    proof {
        reveal_strlit("a2a-pubkey-test.sh");
        reveal_strlit("1");
    }
    let a2a = str_eq(script, "a2a-pubkey-test.sh");
    let integration = join_path(core_worktree, "integration-test");
    let ph_bin = if a2a {
        join_path(core_worktree, "target/debug/ph")
    } else {
        join_path(dist, "ph")
    };
    let mut env: Vec<(String, String)> = vec![
        env_pair("PH_BIN", ph_bin),
        env_pair("PH_DEBUG_BIN", join_path(dist, "ph-cli")),
        env_pair("VS_BIN", join_path(dist, "vs")),
        env_pair("VS_ADMIN_BIN", join_path(dist, "vs-admin")),
    ];
    if !container {
        env.push(env_pair("VALKEY_SERVER_BIN", owned(valkey)));
    }
    if verbose {
        env.push(env_pair("ZPR_TEST_VERBOSE", owned("1")));
    }
    assert(pairs_view(env@) =~= netns_env(
        script@,
        core_worktree@,
        dist@,
        valkey@,
        verbose,
        container,
    ));
    let program: String;
    let args: Vec<String>;
    let env_remove: Vec<&'static str>;
    if container {
        program = owned("make");
        let mut test = owned("TEST=");
        test.append(script);
        let mut workspace = owned("WORKSPACE=");
        workspace.append(build_dir);
        args = vec![owned("-C"), integration, owned("docker-test"), test, workspace];
        env_remove = vec!["VALKEY_SERVER_BIN"];
    } else {
        program = join_path(integration.as_str(), script);
        args = Vec::new();
        env_remove = Vec::new();
    }
    let prep = if a2a {
        let pargs = strings_of(&vec!["build", "-p", "ph", "--features", "enable-security-testing"]);
        Some(PrepStep { name: "security-ph", program: "cargo", args: pargs, dir: owned(core_worktree) })
    } else {
        None
    };
    let r = NetnsScript { script, program, args, env, env_remove, prep };
    proof {
        let want = netns_script_spec(
            script@,
            core_worktree@,
            dist@,
            valkey@,
            verbose,
            container,
            build_dir@,
        );
        assert(r@.args =~= want.args);
        assert(r@.env_remove =~= want.env_remove);
        if a2a {
            assert(r@.prep->Some_0.args =~= security_ph_prep(core_worktree@).args);
        }
    }
    r
}

/// Builds the netns plan against the `zl-zpr-core` worktree and `dist/`: the
/// seven scripts in order, each with the `*_BIN` overrides the scripts honour
/// pointed at `dist/`. `a2a-pubkey-test.sh` alone runs the worktree-local
/// `enable-security-testing` `ph`, after its prep build. `verbose` exports
/// `ZPR_TEST_VERBOSE=1`. The runner decides the route: on the host each
/// script runs directly from `integration-test/` with `VALKEY_SERVER_BIN` at
/// the host's valkey; in the container each script is one `make docker-test`
/// invocation in the worktree, and `VALKEY_SERVER_BIN` is neither set nor
/// inherited. Nothing here executes a command.
pub fn netns_plan(
    core_worktree: &str,
    dist: &str,
    valkey: &str,
    verbose: bool,
    runner: &NetnsRunner,
    build_dir: &str,
) -> (r: NetnsPlan)
    ensures
        r@ == netns_plan_spec(
            core_worktree@,
            dist@,
            valkey@,
            verbose,
            runner@ is Container,
            build_dir@,
        ),
{
    let container = match runner {
        NetnsRunner::Container { .. } => true,
        NetnsRunner::Host(_) => false,
    };
    let names: Vec<&'static str> = vec![
        "one-node-test.sh",
        "one-node-v6-test.sh",
        "one-node-oidc-test.sh",
        "capture-test.sh",
        "oidc-file-interplay-test.sh",
        "fake-idp-smoke-test.sh",
        "a2a-pubkey-test.sh",
    ];
    assert(names@.map_values(|n: &'static str| n@) =~= netns_scripts());
    let ghost want = netns_plan_spec(
        core_worktree@,
        dist@,
        valkey@,
        verbose,
        container,
        build_dir@,
    );
    let mut scripts: Vec<NetnsScript> = Vec::new();
    let mut i: usize = 0;
    while i < names.len()
        invariant
            i <= names.len(),
            names@.map_values(|n: &'static str| n@) == netns_scripts(),
            want == netns_plan_spec(core_worktree@, dist@, valkey@, verbose, container, build_dir@),
            scripts@.map_values(|s: NetnsScript| s@) == want.scripts.take(i as int),
        decreases names.len() - i,
    {
        let ghost before = scripts@.map_values(|s: NetnsScript| s@);
        let one = netns_script(names[i], core_worktree, dist, valkey, verbose, container, build_dir);
        scripts.push(one);
        assert(names@[i as int]@ == netns_scripts()[i as int]);
        assert(scripts@.map_values(|s: NetnsScript| s@) =~= before.push(one@));
        assert(want.scripts.take(i + 1) =~= want.scripts.take(i as int).push(want.scripts[i as int]));
        i = i + 1;
    }
    assert(want.scripts.take(names.len() as int) =~= want.scripts);
    let dir = if container {
        owned(core_worktree)
    } else {
        join_path(core_worktree, "integration-test")
    };
    NetnsPlan { dir, scripts }
}

// ---------------------------------------------------------------------------
// The docker tier's plan
// ---------------------------------------------------------------------------

/// One docker-tier command: deploy, test, or teardown.
#[derive(Debug)]
pub struct DockerStep {
    /// Labels the log file (`logs/docker-<name>.log`) and the outcome entry.
    pub name: &'static str,
    pub program: String,
    pub args: Vec<String>,
    pub dir: String,
}

/// The mathematical form of a [`DockerStep`].
pub struct DockerStepView {
    pub name: Seq<char>,
    pub program: Seq<char>,
    pub args: Seq<Seq<char>>,
    pub dir: Seq<char>,
}

impl View for DockerStep {
    type V = DockerStepView;

    open spec fn view(&self) -> DockerStepView {
        DockerStepView {
            name: self.name@,
            program: self.program@,
            args: strings_view(self.args@),
            dir: self.dir@,
        }
    }
}

/// The docker tier's plan: stage `dist/` into the demo's `dns-demo/bin/`,
/// deploy, test, tear down.
#[derive(Debug)]
pub struct DockerPlan {
    /// Where the built set's binaries are.
    pub dist: String,
    /// `<zl-zpr-demo worktree>/dns-demo/bin`: the copy target.
    pub bin: String,
    pub deploy: DockerStep,
    pub test: DockerStep,
    pub teardown: DockerStep,
}

/// The mathematical form of a [`DockerPlan`].
pub struct DockerPlanView {
    pub dist: Seq<char>,
    pub bin: Seq<char>,
    pub deploy: DockerStepView,
    pub test: DockerStepView,
    pub teardown: DockerStepView,
}

impl View for DockerPlan {
    type V = DockerPlanView;

    open spec fn view(&self) -> DockerPlanView {
        DockerPlanView {
            dist: self.dist@,
            bin: self.bin@,
            deploy: self.deploy@,
            test: self.test@,
            teardown: self.teardown@,
        }
    }
}

/// The docker plan for a demo worktree and `dist/`.
pub open spec fn docker_plan_spec(demo_worktree: Seq<char>, dist: Seq<char>) -> DockerPlanView {
    let demo = path_join(demo_worktree, "dns-demo"@);
    DockerPlanView {
        dist,
        bin: path_join(demo, "bin"@),
        deploy: DockerStepView {
            name: "deploy"@,
            program: path_join(demo, "local-compute/deploy-docker.sh"@),
            args: seq![],
            dir: demo,
        },
        test: DockerStepView {
            name: "test"@,
            program: path_join(demo, "local-compute/test-dns.sh"@),
            args: seq![],
            dir: demo,
        },
        teardown: DockerStepView {
            name: "teardown"@,
            program: "docker"@,
            args: seq![
                "compose"@,
                "-f"@,
                path_join(demo, "docker-compose.yml"@),
                "down"@,
                "-v"@,
            ],
            dir: demo,
        },
    }
}

/// `node_help` answered `result` for the `ph` at `path`: what `ph node
/// --help` printed, stdout then stderr, or the error running it.
pub open spec fn help_ran<H: Fn(&str) -> Result<String, String>>(
    node_help: H,
    path: Seq<char>,
    result: Result<Seq<char>, Seq<char>>,
) -> bool {
    exists|p: &str, r: Result<String, String>|
        #[trigger] call_ensures(node_help, (p,), r) && p@ == path && match (r, result) {
            (Ok(t), Ok(u)) => t@ == u,
            (Err(e), Err(f)) => e@ == f,
            _ => false,
        }
}

/// The flag only an `enable-security-testing` `ph` advertises.
pub open spec fn security_testing_flag() -> Seq<char> {
    "--security-testing-mangle-forwarded-pings"@
}

/// What the dist/ guard reports for `ph` at `ph`, given what `ph node --help`
/// answered.
pub open spec fn ph_verdict(ph: Seq<char>, help: Result<Seq<char>, Seq<char>>) -> Result<(), Seq<char>> {
    match help {
        Err(e) => Err("cannot run "@ + ph + " node --help: "@ + e),
        Ok(text) => if contains(text, security_testing_flag()) {
            Err(
                ph
                    + " is an enable-security-testing build; that ph is for a2a-pubkey-test.sh only and must never be staged into dist/"@,
            )
        } else {
            Ok(())
        },
    }
}

/// The runtime half of the dist/ guard: the staged `ph` must not be an
/// `enable-security-testing` build, which advertises
/// `--security-testing-mangle-forwarded-pings` in `node --help`. A missing
/// `dist/ph` passes, since there is nothing to guard and staging reports the
/// absence separately.
pub fn dist_ph_is_clean<F: Fn(&str) -> bool, H: Fn(&str) -> Result<String, String>>(
    dist: &str,
    is_file: &F,
    node_help: &H,
) -> (r: Result<(), String>)
    requires
        forall|p: &str| call_requires(*is_file, (p,)),
        forall|p: &str| call_requires(*node_help, (p,)),
    ensures
        exists|present: bool|
            #[trigger] crate::build::staging::file_probed(*is_file, path_join(dist@, "ph"@), present)
                && if !present {
                r is Ok
            } else {
                exists|help: Result<Seq<char>, Seq<char>>|
                    #[trigger] help_ran(*node_help, path_join(dist@, "ph"@), help) && ph_verdict(
                        path_join(dist@, "ph"@),
                        help,
                    ) == crate::build::staging::unit_view(r)
            },
{
    let ph = join_path(dist, "ph");
    let p = ph.as_str();
    let present = is_file(p);
    assert(call_ensures(*is_file, (p,), present));
    assert(crate::build::staging::file_probed(*is_file, path_join(dist@, "ph"@), present));
    if !present {
        return Ok(());
    }
    let help = node_help(p);
    assert(call_ensures(*node_help, (p,), help));
    let ghost hv = crate::build::scan::read_view(help);
    assert(help_ran(*node_help, path_join(dist@, "ph"@), hv));
    match help {
        Err(e) => {
            let mut m = owned("cannot run ");
            m.append(p);
            m.append(" node --help: ");
            m.append(e.as_str());
            Err(m)
        },
        Ok(text) => {
            if str_contains(text.as_str(), "--security-testing-mangle-forwarded-pings") {
                let mut m = owned(p);
                m.append(
                    " is an enable-security-testing build; that ph is for a2a-pubkey-test.sh only and must never be staged into dist/",
                );
                Err(m)
            } else {
                Ok(())
            }
        },
    }
}

/// Builds the docker plan against the `zl-zpr-demo` worktree and `dist/`:
/// stage `dist/`'s binaries into `dns-demo/bin/` (never the demo's own
/// `make`, so the DNS test exercises the set's binaries), then
/// `local-compute/deploy-docker.sh`, `local-compute/test-dns.sh`, and
/// `docker compose down -v` against the demo's compose file.
pub fn docker_plan(demo_worktree: &str, dist: &str) -> (r: DockerPlan)
    ensures
        r@ == docker_plan_spec(demo_worktree@, dist@),
{
    let demo = join_path(demo_worktree, "dns-demo");
    let compose_file = join_path(demo.as_str(), "docker-compose.yml");
    let teardown_args = vec![owned("compose"), owned("-f"), compose_file, owned("down"), owned("-v")];
    let r = DockerPlan {
        dist: owned(dist),
        bin: join_path(demo.as_str(), "bin"),
        deploy: DockerStep {
            name: "deploy",
            program: join_path(demo.as_str(), "local-compute/deploy-docker.sh"),
            args: Vec::new(),
            dir: owned(demo.as_str()),
        },
        test: DockerStep {
            name: "test",
            program: join_path(demo.as_str(), "local-compute/test-dns.sh"),
            args: Vec::new(),
            dir: owned(demo.as_str()),
        },
        teardown: DockerStep {
            name: "teardown",
            program: owned("docker"),
            args: teardown_args,
            dir: demo,
        },
    };
    proof {
        let want = docker_plan_spec(demo_worktree@, dist@);
        assert(r@.deploy.args =~= want.deploy.args);
        assert(r@.test.args =~= want.test.args);
        assert(r@.teardown.args =~= want.teardown.args);
    }
    r
}


// ---------------------------------------------------------------------------
// Running the tiers
// ---------------------------------------------------------------------------

/// A tier's outcome: overall pass/fail and the per-entry breakdown that
/// lands in the emitted manifest (`passed`, `failed: ...` naming what failed
/// and its log, or `skipped: ...` with the reason).
#[derive(Debug)]
pub struct TierOutcome {
    /// False when any entry failed. Skips do not fail the tier.
    pub passed: bool,
    /// Entry name to status, in key order.
    pub repos: StrMap,
}

impl View for TierOutcome {
    type V = (bool, Map<Seq<char>, Seq<char>>);

    open spec fn view(&self) -> (bool, Map<Seq<char>, Seq<char>>) {
        (self.passed, self.repos.view())
    }
}

/// The command a unit-tier step runs: labelled by the repository, in its
/// worktree, with the environment untouched.
pub open spec fn unit_command(repo: Seq<char>, worktree: Seq<char>, step: TierStepView) -> CommandView {
    CommandView {
        label: repo,
        name: step.name,
        program: step.program,
        args: step.args,
        env: seq![],
        env_remove: seq![],
        dir: worktree,
    }
}

/// How one repository's steps went: every step passed (`None`), or step `k`
/// failed with error `e` after every earlier one passed, and `run` answered
/// each of those commands so. A skip runs nothing.
pub open spec fn unit_ran<F: Fn(&Command) -> Result<(), String>>(
    run: F,
    plan: RepoPlanView,
    fail: Option<(int, Seq<char>)>,
) -> bool {
    match plan {
        RepoPlanView::Skip { .. } => fail is None,
        RepoPlanView::Run { repo, worktree, steps } => match fail {
            None => forall|j: int|
                0 <= j < steps.len() ==> ran(
                    run,
                    #[trigger] unit_command(repo, worktree, steps[j]),
                    Ok(()),
                ),
            Some((k, e)) => 0 <= k < steps.len() && (forall|j: int|
                0 <= j < k ==> ran(run, #[trigger] unit_command(repo, worktree, steps[j]), Ok(())))
                && ran(run, unit_command(repo, worktree, steps[k]), Err(e)),
        },
    }
}

/// The views of a list of plans.
pub open spec fn plans_view(plans: Seq<RepoPlan>) -> Seq<RepoPlanView> {
    plans.map_values(|p: RepoPlan| p@)
}

/// The repository a unit plan entry is for.
pub open spec fn plan_repo(plan: RepoPlanView) -> Seq<char> {
    match plan {
        RepoPlanView::Run { repo, .. } => repo,
        RepoPlanView::Skip { repo, .. } => repo,
    }
}

/// The status a unit plan entry records.
pub open spec fn unit_status(plan: RepoPlanView, fail: Option<(int, Seq<char>)>) -> Seq<char> {
    match plan {
        RepoPlanView::Skip { reason, .. } => "skipped: "@ + reason,
        RepoPlanView::Run { steps, .. } => match fail {
            None => "passed"@,
            Some((k, e)) => "failed at `"@ + steps[k].name + "`: "@ + e,
        },
    }
}

/// The unit tier's outcome after the first `n` plans: it passes unless a
/// repository failed, and each repository's entry holds its status (a later
/// entry for the same repository replaces an earlier one, as a map insert
/// does).
pub open spec fn unit_outcome(
    plans: Seq<RepoPlanView>,
    fails: Seq<Option<(int, Seq<char>)>>,
    n: int,
) -> (bool, Map<Seq<char>, Seq<char>>)
    decreases n,
{
    if n <= 0 {
        (true, Map::empty())
    } else {
        let (passed, repos) = unit_outcome(plans, fails, n - 1);
        let plan = plans[n - 1];
        let failed = plan is Run && fails[n - 1] is Some;
        (passed && !failed, repos.insert(plan_repo(plan), unit_status(plan, fails[n - 1])))
    }
}

/// The unit tier passes exactly when no repository it ran had a failing
/// step; a skipped repository never fails it.
pub proof fn lemma_unit_passes_iff_no_plan_failed(
    plans: Seq<RepoPlanView>,
    fails: Seq<Option<(int, Seq<char>)>>,
    n: int,
)
    requires
        0 <= n <= plans.len(),
        n <= fails.len(),
    ensures
        unit_outcome(plans, fails, n).0 <==> forall|k: int|
            0 <= k < n ==> !(#[trigger] plans[k] is Run && fails[k] is Some),
    decreases n,
{
    if n > 0 {
        lemma_unit_passes_iff_no_plan_failed(plans, fails, n - 1);
    }
}

/// Runs one repository's steps in order until one fails.
fn run_repo_steps<F: Fn(&Command) -> Result<(), String>>(
    repo: &String,
    worktree: &String,
    steps: &Vec<TierStep>,
    run: &F,
) -> (r: Option<(usize, String)>)
    requires
        forall|c: &Command| call_requires(*run, (c,)),
    ensures
        unit_ran(
            *run,
            RepoPlanView::Run {
                repo: repo@,
                worktree: worktree@,
                steps: steps@.map_values(|s: TierStep| s@),
            },
            match r {
                None => None,
                Some((k, e)) => Some((k as int, e@)),
            },
        ),
{
    let ghost sv = steps@.map_values(|s: TierStep| s@);
    let mut j: usize = 0;
    while j < steps.len()
        invariant
            j <= steps.len(),
            sv == steps@.map_values(|s: TierStep| s@),
            forall|c: &Command| call_requires(*run, (c,)),
            forall|i: int|
                0 <= i < j ==> ran(*run, #[trigger] unit_command(repo@, worktree@, sv[i]), Ok(())),
        decreases steps.len() - j,
    {
        let step = &steps[j];
        let cmd = Command {
            label: owned(repo.as_str()),
            name: owned(step.name),
            program: owned(step.program),
            args: clone_strings(&step.args),
            env: Vec::new(),
            env_remove: Vec::new(),
            dir: owned(worktree.as_str()),
        };
        assert(cmd@ == unit_command(repo@, worktree@, sv[j as int])) by {
            assert(cmd@.env =~= Seq::<(Seq<char>, Seq<char>)>::empty());
            assert(cmd@.env_remove =~= Seq::<Seq<char>>::empty());
        }
        let r = run(&cmd);
        assert(call_ensures(*run, (&cmd,), r));
        match r {
            Ok(()) => {},
            Err(e) => {
                assert(ran(*run, unit_command(repo@, worktree@, sv[j as int]), Err(e@)));
                return Some((j, e));
            },
        }
        j = j + 1;
    }
    None
}

/// Runs a unit-tier plan: each repository's steps in order through `run`,
/// which executes a command and answers with its error text. A failing step
/// fails its repository naming the step, and the sweep keeps going so one run
/// reports every broken repository. Skips are recorded with their reason and
/// do not fail the tier. Prints one line per repository through `say`
/// unless `quiet`.
pub fn run_unit<F: Fn(&Command) -> Result<(), String>, G: Fn(&str)>(
    plans: &[RepoPlan],
    quiet: bool,
    run: &F,
    say: &G,
) -> (o: TierOutcome)
    requires
        forall|c: &Command| call_requires(*run, (c,)),
        forall|t: &str| call_requires(*say, (t,)),
    ensures
        exists|fails: Seq<Option<(int, Seq<char>)>>|
            fails.len() == plans@.len() && (forall|i: int|
                0 <= i < plans@.len() ==> unit_ran(*run, #[trigger] plans@[i]@, fails[i])) && o@
                == #[trigger] unit_outcome(plans_view(plans@), fails, plans@.len() as int),
{
    let ghost pv = plans_view(plans@);
    let ghost mut fails: Seq<Option<(int, Seq<char>)>> = seq![];
    let mut outcome = TierOutcome { passed: true, repos: StrMap::new() };
    let mut i: usize = 0;
    while i < plans.len()
        invariant
            i <= plans.len(),
            pv == plans_view(plans@),
            forall|c: &Command| call_requires(*run, (c,)),
            forall|t: &str| call_requires(*say, (t,)),
            fails.len() == i,
            forall|k: int| 0 <= k < i ==> unit_ran(*run, #[trigger] plans@[k]@, fails[k]),
            outcome@ == unit_outcome(pv, fails, i as int),
        decreases plans.len() - i,
    {
        let ghost before = outcome@;
        let ghost old_fails = fails;
        match &plans[i] {
            RepoPlan::Skip { repo, reason } => {
                if !quiet {
                    let mut line = owned(repo.as_str());
                    line.append(": skipped (");
                    line.append(reason.as_str());
                    line.append(")");
                    say(line.as_str());
                }
                let mut status = owned("skipped: ");
                status.append(reason.as_str());
                outcome.repos.insert(repo.as_str(), status);
                proof {
                    fails = fails.push(None);
                }
            },
            RepoPlan::Run { repo, worktree, steps } => {
                let failure = run_repo_steps(repo, worktree, steps, run);
                match failure {
                    None => {
                        if !quiet {
                            let mut line = owned(repo.as_str());
                            line.append(": passed");
                            say(line.as_str());
                        }
                        outcome.repos.insert(repo.as_str(), owned("passed"));
                        proof {
                            fails = fails.push(None);
                        }
                    },
                    Some((k, error)) => {
                        let name = steps[k].name;
                        if !quiet {
                            let mut line = owned(repo.as_str());
                            line.append(": FAILED at step `");
                            line.append(name);
                            line.append("`");
                            say(line.as_str());
                        }
                        outcome.passed = false;
                        let mut status = owned("failed at `");
                        status.append(name);
                        status.append("`: ");
                        status.append(error.as_str());
                        outcome.repos.insert(repo.as_str(), status);
                        proof {
                            fails = fails.push(Some((k as int, error@)));
                        }
                    },
                }
            },
        }
        proof {
            assert(pv[i as int] == plans@[i as int]@);
            lemma_unit_outcome_prefix(pv, fails, old_fails, i as int);
            let plan = pv[i as int];
            let failed = plan is Run && fails[i as int] is Some;
            assert(outcome@.0 == (before.0 && !failed));
            assert(outcome@.1 == before.1.insert(plan_repo(plan), unit_status(plan, fails[i as int])));
        }
        i = i + 1;
    }
    assert(fails.len() == plans@.len());
    outcome
}

/// The outcome after `n` plans reads only the first `n` results.
proof fn lemma_unit_outcome_prefix(
    plans: Seq<RepoPlanView>,
    a: Seq<Option<(int, Seq<char>)>>,
    b: Seq<Option<(int, Seq<char>)>>,
    n: int,
)
    requires
        0 <= n <= a.len(),
        n <= b.len(),
        forall|k: int| 0 <= k < n ==> a[k] == b[k],
    ensures
        unit_outcome(plans, a, n) == unit_outcome(plans, b, n),
    decreases n,
{
    if n > 0 {
        lemma_unit_outcome_prefix(plans, a, b, n - 1);
    }
}


/// How one netns script went.
pub enum ScriptResult {
    /// Its prep build failed with this error, so the script did not run.
    PrepFailed(Seq<char>),
    /// The script passed.
    Passed,
    /// The script failed with this error.
    Failed(Seq<char>),
}

/// The command a prep build runs.
pub open spec fn prep_command(prep: PrepStepView) -> CommandView {
    CommandView {
        label: "netns"@,
        name: prep.name,
        program: prep.program,
        args: prep.args,
        env: seq![],
        env_remove: seq![],
        dir: prep.dir,
    }
}

/// The command a netns script runs, in the plan's directory.
pub open spec fn script_command(dir: Seq<char>, script: NetnsScriptView) -> CommandView {
    CommandView {
        label: "netns"@,
        name: script.script,
        program: script.program,
        args: script.args,
        env: script.env,
        env_remove: script.env_remove,
        dir,
    }
}

/// `run` answered the script's commands so: its prep build first when it
/// has one, and the script itself only when the prep passed.
pub open spec fn netns_ran<F: Fn(&Command) -> Result<(), String>>(
    run: F,
    dir: Seq<char>,
    script: NetnsScriptView,
    result: ScriptResult,
) -> bool {
    let prep_ok = match script.prep {
        Some(p) => ran(run, prep_command(p), Ok(())),
        None => true,
    };
    match result {
        ScriptResult::PrepFailed(e) => match script.prep {
            Some(p) => ran(run, prep_command(p), Err(e)),
            None => false,
        },
        ScriptResult::Passed => prep_ok && ran(run, script_command(dir, script), Ok(())),
        ScriptResult::Failed(e) => prep_ok && ran(run, script_command(dir, script), Err(e)),
    }
}

/// The status a netns script records.
pub open spec fn netns_status(script: NetnsScriptView, result: ScriptResult) -> Seq<char> {
    match result {
        ScriptResult::PrepFailed(e) => "failed at prep `"@ + script.prep->Some_0.name + "`: "@ + e,
        ScriptResult::Passed => "passed"@,
        ScriptResult::Failed(e) => "failed: "@ + e,
    }
}

/// The netns tier's outcome after the first `n` scripts.
pub open spec fn netns_outcome(
    scripts: Seq<NetnsScriptView>,
    results: Seq<ScriptResult>,
    n: int,
) -> (bool, Map<Seq<char>, Seq<char>>)
    decreases n,
{
    if n <= 0 {
        (true, Map::empty())
    } else {
        let (passed, entries) = netns_outcome(scripts, results, n - 1);
        (
            passed && results[n - 1] is Passed,
            entries.insert(scripts[n - 1].script, netns_status(scripts[n - 1], results[n - 1])),
        )
    }
}

/// The netns tier passes exactly when every script passed.
pub proof fn lemma_netns_passes_iff_every_script_passed(
    scripts: Seq<NetnsScriptView>,
    results: Seq<ScriptResult>,
    n: int,
)
    requires
        0 <= n <= results.len(),
    ensures
        netns_outcome(scripts, results, n).0 <==> forall|k: int| 0 <= k < n ==> #[trigger] results[k] is Passed,
    decreases n,
{
    if n > 0 {
        lemma_netns_passes_iff_every_script_passed(scripts, results, n - 1);
    }
}

/// The outcome after `n` scripts reads only the first `n` results.
proof fn lemma_netns_outcome_prefix(
    scripts: Seq<NetnsScriptView>,
    a: Seq<ScriptResult>,
    b: Seq<ScriptResult>,
    n: int,
)
    requires
        0 <= n <= a.len(),
        n <= b.len(),
        forall|k: int| 0 <= k < n ==> a[k] == b[k],
    ensures
        netns_outcome(scripts, a, n) == netns_outcome(scripts, b, n),
    decreases n,
{
    if n > 0 {
        lemma_netns_outcome_prefix(scripts, a, b, n - 1);
    }
}

/// The views of a plan's scripts.
pub open spec fn scripts_view(scripts: Seq<NetnsScript>) -> Seq<NetnsScriptView> {
    scripts.map_values(|s: NetnsScript| s@)
}

/// Runs one script: its prep build first when it has one, then the script.
fn run_netns_script<F: Fn(&Command) -> Result<(), String>>(
    dir: &String,
    script: &NetnsScript,
    run: &F,
) -> (r: (u8, String))
    requires
        forall|c: &Command| call_requires(*run, (c,)),
    ensures
        r.0 <= 2,
        netns_ran(
            *run,
            dir@,
            script@,
            if r.0 == 0 {
                ScriptResult::PrepFailed(r.1@)
            } else if r.0 == 1 {
                ScriptResult::Passed
            } else {
                ScriptResult::Failed(r.1@)
            },
        ),
{
    proof {
        reveal_strlit("netns");
    }
    match &script.prep {
        Some(prep) => {
            let cmd = Command {
                label: owned("netns"),
                name: owned(prep.name),
                program: owned(prep.program),
                args: clone_strings(&prep.args),
                env: Vec::new(),
                env_remove: Vec::new(),
                dir: owned(prep.dir.as_str()),
            };
            assert(cmd@ == prep_command(prep@)) by {
                assert(cmd@.env =~= Seq::<(Seq<char>, Seq<char>)>::empty());
                assert(cmd@.env_remove =~= Seq::<Seq<char>>::empty());
            }
            let r = run(&cmd);
            assert(call_ensures(*run, (&cmd,), r));
            match r {
                Ok(()) => {
                    assert(ran(*run, prep_command(prep@), Ok(())));
                },
                Err(e) => {
                    assert(ran(*run, prep_command(prep@), Err(e@)));
                    return (0, e);
                },
            }
        },
        None => {},
    }
    let mut env_remove: Vec<String> = Vec::new();
    let mut k: usize = 0;
    while k < script.env_remove.len()
        invariant
            k <= script.env_remove.len(),
            strings_view(env_remove@) == script.env_remove@.map_values(|v: &'static str| v@).take(
                k as int,
            ),
        decreases script.env_remove.len() - k,
    {
        let ghost before = env_remove@;
        let v = owned(script.env_remove[k]);
        env_remove.push(v);
        assert(strings_view(env_remove@) =~= strings_view(before).push(v@));
        assert(strings_view(env_remove@) =~= script.env_remove@.map_values(
            |v: &'static str| v@,
        ).take(k + 1));
        k = k + 1;
    }
    assert(script.env_remove@.map_values(|v: &'static str| v@).take(
        script.env_remove.len() as int,
    ) =~= script.env_remove@.map_values(|v: &'static str| v@));
    let cmd = Command {
        label: owned("netns"),
        name: owned(script.script),
        program: owned(script.program.as_str()),
        args: clone_strings(&script.args),
        env: clone_pairs(&script.env),
        env_remove,
        dir: owned(dir.as_str()),
    };
    assert(cmd@ == script_command(dir@, script@));
    let r = run(&cmd);
    assert(call_ensures(*run, (&cmd,), r));
    match r {
        Ok(()) => {
            assert(ran(*run, script_command(dir@, script@), Ok(())));
            (1, String::new())
        },
        Err(e) => {
            assert(ran(*run, script_command(dir@, script@), Err(e@)));
            (2, e)
        },
    }
}

/// Runs a netns plan through `run`: each script in order in the plan's
/// directory, under its environment overrides, logging as
/// `logs/netns-<script>.log`. A failing script, or a failing prep build,
/// fails the tier and the sweep keeps going, so one run reports every broken
/// script. Prints one line per script through `say` unless `quiet`.
pub fn run_netns<F: Fn(&Command) -> Result<(), String>, G: Fn(&str)>(
    plan: &NetnsPlan,
    quiet: bool,
    run: &F,
    say: &G,
) -> (o: TierOutcome)
    requires
        forall|c: &Command| call_requires(*run, (c,)),
        forall|t: &str| call_requires(*say, (t,)),
    ensures
        exists|results: Seq<ScriptResult>|
            results.len() == plan.scripts@.len() && (forall|i: int|
                0 <= i < plan.scripts@.len() ==> netns_ran(
                    *run,
                    plan.dir@,
                    #[trigger] plan.scripts@[i]@,
                    results[i],
                )) && o@ == #[trigger] netns_outcome(
                scripts_view(plan.scripts@),
                results,
                plan.scripts@.len() as int,
            ),
{
    let ghost sv = scripts_view(plan.scripts@);
    let ghost mut results: Seq<ScriptResult> = seq![];
    let mut outcome = TierOutcome { passed: true, repos: StrMap::new() };
    let mut i: usize = 0;
    while i < plan.scripts.len()
        invariant
            i <= plan.scripts.len(),
            sv == scripts_view(plan.scripts@),
            forall|c: &Command| call_requires(*run, (c,)),
            forall|t: &str| call_requires(*say, (t,)),
            results.len() == i,
            forall|k: int|
                0 <= k < i ==> netns_ran(*run, plan.dir@, #[trigger] plan.scripts@[k]@, results[k]),
            outcome@ == netns_outcome(sv, results, i as int),
        decreases plan.scripts.len() - i,
    {
        let ghost before = outcome@;
        let ghost old_results = results;
        let script = &plan.scripts[i];
        let (kind, error) = run_netns_script(&plan.dir, script, run);
        if kind == 0 {
            let name = match &script.prep {
                Some(prep) => prep.name,
                None => "",
            };
            if !quiet {
                let mut line = owned(script.script);
                line.append(": FAILED at prep `");
                line.append(name);
                line.append("`");
                say(line.as_str());
            }
            outcome.passed = false;
            let mut status = owned("failed at prep `");
            status.append(name);
            status.append("`: ");
            status.append(error.as_str());
            outcome.repos.insert(script.script, status);
            proof {
                results = results.push(ScriptResult::PrepFailed(error@));
            }
        } else if kind == 1 {
            if !quiet {
                let mut line = owned(script.script);
                line.append(": passed");
                say(line.as_str());
            }
            outcome.repos.insert(script.script, owned("passed"));
            proof {
                results = results.push(ScriptResult::Passed);
            }
        } else {
            if !quiet {
                let mut line = owned(script.script);
                line.append(": FAILED");
                say(line.as_str());
            }
            outcome.passed = false;
            let mut status = owned("failed: ");
            status.append(error.as_str());
            outcome.repos.insert(script.script, status);
            proof {
                results = results.push(ScriptResult::Failed(error@));
            }
        }
        proof {
            assert(sv[i as int] == plan.scripts@[i as int]@);
            lemma_netns_outcome_prefix(sv, results, old_results, i as int);
        }
        i = i + 1;
    }
    outcome
}

/// The docker tier's staging copy answered so for these directories.
pub open spec fn staged<S: Fn(&str, &str) -> Result<(), String>>(
    stage: S,
    dist: Seq<char>,
    bin: Seq<char>,
    result: Result<(), Seq<char>>,
) -> bool {
    exists|d: &str, b: &str, r: Result<(), String>|
        #[trigger] call_ensures(stage, (d, b), r) && d@ == dist && b@ == bin && match (r, result) {
            (Ok(_), Ok(_)) => true,
            (Err(e), Err(t)) => e@ == t,
            _ => false,
        }
}

/// The command a docker-tier step runs.
pub open spec fn docker_command(step: DockerStepView) -> CommandView {
    CommandView {
        label: "docker"@,
        name: step.name,
        program: step.program,
        args: step.args,
        env: seq![],
        env_remove: seq![],
        dir: step.dir,
    }
}

/// What the docker tier's four stages answered: staging, then deploy only
/// after staging passed, test only after deploy passed, and teardown always.
pub struct DockerResults {
    pub stage: Result<(), Seq<char>>,
    pub deploy: Option<Result<(), Seq<char>>>,
    pub test: Option<Result<(), Seq<char>>>,
    pub teardown: Result<(), Seq<char>>,
}

/// The answers are the ones `stage` and `run` gave, in the tier's order.
pub open spec fn docker_ran<S: Fn(&str, &str) -> Result<(), String>, F: Fn(&Command) -> Result<
    (),
    String,
>>(stage: S, run: F, plan: DockerPlanView, r: DockerResults) -> bool {
    &&& staged(stage, plan.dist, plan.bin, r.stage)
    &&& (r.deploy is Some <==> r.stage is Ok)
    &&& (r.deploy matches Some(d) ==> ran(run, docker_command(plan.deploy), d))
    &&& (r.test is Some <==> r.deploy == Some(Ok::<(), Seq<char>>(())))
    &&& (r.test matches Some(t) ==> ran(run, docker_command(plan.test), t))
    &&& ran(run, docker_command(plan.teardown), r.teardown)
}

/// A stage's recorded status.
pub open spec fn step_status(result: Result<(), Seq<char>>) -> Seq<char> {
    match result {
        Ok(_) => "passed"@,
        Err(e) => "failed: "@ + e,
    }
}

/// The docker tier's outcome: each stage's status, a skipped stage naming
/// what failed before it, and a pass only when nothing failed.
pub open spec fn docker_outcome(r: DockerResults) -> (bool, Map<Seq<char>, Seq<char>>) {
    let deploy = match r.deploy {
        Some(d) => step_status(d),
        None => "skipped: staging failed"@,
    };
    let test = match r.test {
        Some(t) => step_status(t),
        None => if r.stage is Ok {
            "skipped: deploy failed"@
        } else {
            "skipped: staging failed"@
        },
    };
    let passed = r.stage is Ok && !(r.deploy matches Some(Err(_))) && !(r.test matches Some(
        Err(_),
    )) && r.teardown is Ok;
    (
        passed,
        Map::empty().insert("stage"@, step_status(r.stage)).insert("deploy"@, deploy).insert(
            "test"@,
            test,
        ).insert("teardown"@, step_status(r.teardown)),
    )
}

/// The docker tier passes exactly when every stage ran and succeeded:
/// staging, deploy, the test and teardown. A failed deploy (and the test it
/// leaves unrun) fails the tier, as does any other failing stage.
pub proof fn lemma_docker_passes_only_when_every_stage_passed<
    S: Fn(&str, &str) -> Result<(), String>,
    F: Fn(&Command) -> Result<(), String>,
>(stage: S, run: F, plan: DockerPlanView, r: DockerResults)
    requires
        docker_ran(stage, run, plan, r),
    ensures
        docker_outcome(r).0 <==> (r.stage is Ok && r.deploy == Some(Ok::<(), Seq<char>>(())) && r.test == Some(
            Ok::<(), Seq<char>>(()),
        ) && r.teardown is Ok),
        r.deploy matches Some(Err(_)) ==> !docker_outcome(r).0,
{
    assert(r.deploy is Some <==> r.stage is Ok);
    assert(r.test is Some <==> r.deploy == Some(Ok::<(), Seq<char>>(())));
    match r.deploy {
        Some(Ok(u)) => {
            assert(u == ());
            assert(r.deploy == Some(Ok::<(), Seq<char>>(())));
            match r.test {
                Some(Ok(t)) => {
                    assert(t == ());
                },
                _ => {},
            }
        },
        _ => {},
    }
}

/// Runs one docker-tier step.
fn run_docker_step<F: Fn(&Command) -> Result<(), String>>(step: &DockerStep, run: &F) -> (r: Result<
    (),
    String,
>)
    requires
        forall|c: &Command| call_requires(*run, (c,)),
    ensures
        ran(*run, docker_command(step@), match r {
            Ok(_) => Ok(()),
            Err(e) => Err(e@),
        }),
{
    proof {
        reveal_strlit("docker");
    }
    let cmd = Command {
        label: owned("docker"),
        name: owned(step.name),
        program: owned(step.program.as_str()),
        args: clone_strings(&step.args),
        env: Vec::new(),
        env_remove: Vec::new(),
        dir: owned(step.dir.as_str()),
    };
    assert(cmd@ == docker_command(step@)) by {
        assert(cmd@.env =~= Seq::<(Seq<char>, Seq<char>)>::empty());
        assert(cmd@.env_remove =~= Seq::<Seq<char>>::empty());
    }
    let r = run(&cmd);
    assert(call_ensures(*run, (&cmd,), r));
    r
}

/// Records one stage's result, printing its line unless `quiet`.
fn record<G: Fn(&str)>(
    outcome: &mut TierOutcome,
    name: &str,
    result: &Result<(), String>,
    quiet: bool,
    say: &G,
)
    requires
        forall|t: &str| call_requires(*say, (t,)),
    ensures
        final(outcome)@ == (
            old(outcome)@.0 && result is Ok,
            old(outcome)@.1.insert(name@, step_status(match result {
                Ok(_) => Ok(()),
                Err(e) => Err(e@),
            })),
        ),
{
    match result {
        Ok(()) => {
            if !quiet {
                let mut line = owned(name);
                line.append(": passed");
                say(line.as_str());
            }
            outcome.repos.insert(name, owned("passed"));
        },
        Err(error) => {
            if !quiet {
                let mut line = owned(name);
                line.append(": FAILED");
                say(line.as_str());
            }
            outcome.passed = false;
            let mut status = owned("failed: ");
            status.append(error.as_str());
            outcome.repos.insert(name, status);
        },
    }
}

/// The view of a step's answer.
pub open spec fn result_view(r: Result<(), String>) -> Result<(), Seq<char>> {
    match r {
        Ok(_) => Ok(()),
        Err(e) => Err(e@),
    }
}

/// Runs a docker plan: stage (through `stage`, which copies `dist/` into the
/// demo's `bin/`), deploy, test, each failure skipping the rest, then
/// teardown unconditionally, recorded separately from a test failure. A
/// skipped stage is recorded with its reason, never silently absent.
pub fn run_docker<S: Fn(&str, &str) -> Result<(), String>, F: Fn(&Command) -> Result<(), String>, G: Fn(
    &str,
)>(plan: &DockerPlan, quiet: bool, stage: &S, run: &F, say: &G) -> (o: TierOutcome)
    requires
        forall|d: &str, b: &str| call_requires(*stage, (d, b)),
        forall|c: &Command| call_requires(*run, (c,)),
        forall|t: &str| call_requires(*say, (t,)),
    ensures
        exists|r: DockerResults|
            #[trigger] docker_ran(*stage, *run, plan@, r) && o@ == docker_outcome(r),
{
    proof {
        reveal_strlit("stage");
        reveal_strlit("deploy");
        reveal_strlit("test");
        reveal_strlit("teardown");
    }
    let mut outcome = TierOutcome { passed: true, repos: StrMap::new() };
    let dist_dir = plan.dist.as_str();
    let bin_dir = plan.bin.as_str();
    let staged_result = stage(dist_dir, bin_dir);
    assert(call_ensures(*stage, (dist_dir, bin_dir), staged_result));
    let ghost sr = result_view(staged_result);
    assert(staged(*stage, plan.dist@, plan.bin@, sr));
    record(&mut outcome, "stage", &staged_result, quiet, say);
    let ok_staged = staged_result.is_ok();
    let ghost mut deploy: Option<Result<(), Seq<char>>> = None;
    let ok_deployed = if ok_staged {
        let d = run_docker_step(&plan.deploy, run);
        proof {
            deploy = Some(result_view(d));
        }
        record(&mut outcome, "deploy", &d, quiet, say);
        d.is_ok()
    } else {
        outcome.repos.insert("deploy", owned("skipped: staging failed"));
        false
    };
    let ghost mut test: Option<Result<(), Seq<char>>> = None;
    if ok_deployed {
        let t = run_docker_step(&plan.test, run);
        proof {
            test = Some(result_view(t));
        }
        record(&mut outcome, "test", &t, quiet, say);
    } else {
        let reason = if ok_staged {
            "skipped: deploy failed"
        } else {
            "skipped: staging failed"
        };
        outcome.repos.insert("test", owned(reason));
    }
    let td = run_docker_step(&plan.teardown, run);
    record(&mut outcome, "teardown", &td, quiet, say);
    let ghost r = DockerResults { stage: sr, deploy, test, teardown: result_view(td) };
    assert(docker_ran(*stage, *run, plan@, r));
    assert(outcome@.1 =~= docker_outcome(r).1);
    outcome
}

} // verus!
