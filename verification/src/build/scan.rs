//! Running the three gates over a set of checkouts: reading each one's
//! manifests, extracting and checking the pins, and reading gate 3's two
//! files, through a file reader and a tag lister.

use vstd::prelude::*;

use crate::build::gates::{
    Finding, GateError, ManifestSource, PinOccurrence, PinView, Severity, Version3, asks_tags,
    chain_text, compiler_version_finding, extract_pins, extract_pins_spec, findings_view,
    freshness_findings, gate_compiler_version, gate_freshness, gate_pin_agreement,
    gate_pin_agreement_spec, listed, package_version, package_version_from, pins_view,
    policy_min_compiler, policy_min_compiler_spec, sources_view, version3_display, version3_text,
};
use crate::build::recipes::strings_view;
use crate::build::{PinDrift, drift_view};
use crate::config::Manifest;
use crate::text::{decimal, join_path, owned, path_join, str_eq, to_chars, u64_to_string};
use crate::toml_tree::{TomlValue, parse_toml, table_get, toml_document, toml_get};

verus! {

// ---------------------------------------------------------------------------
// Running the gates over a set of checkouts
// ---------------------------------------------------------------------------

/// `read` answered `result` for the file at `path`: its text, or the error
/// reading it.
pub open spec fn read_ran<R: Fn(&str) -> Result<String, String>>(
    read: R,
    path: Seq<char>,
    result: Result<Seq<char>, Seq<char>>,
) -> bool {
    exists|p: &str, r: Result<String, String>|
        #[trigger] call_ensures(read, (p,), r) && p@ == path && match (r, result) {
            (Ok(t), Ok(u)) => t@ == u,
            (Err(e), Err(f)) => e@ == f,
            _ => false,
        }
}

/// The view of a read.
pub open spec fn read_view(r: Result<String, String>) -> Result<Seq<char>, Seq<char>> {
    match r {
        Ok(t) => Ok(t@),
        Err(e) => Err(e@),
    }
}

/// The workspace members a root manifest lists: the strings of its
/// `[workspace].members` array (none when it does not parse).
pub open spec fn listed_members(root_text: Seq<char>) -> Seq<Seq<char>> {
    match toml_document(root_text) {
        Ok(entries) => members_in(entries),
        Err(_) => seq![],
    }
}

/// The members a parsed root manifest lists under `[workspace].members`:
/// its string items, in order.
pub open spec fn members_in(entries: Seq<(String, TomlValue)>) -> Seq<Seq<char>> {
    match table_get(entries, "workspace"@) {
        Some(TomlValue::Table(ws)) => match table_get(ws@, "members"@) {
            Some(TomlValue::Array(a)) => string_items(a@, a@.len() as int),
            _ => seq![],
        },
        _ => seq![],
    }
}

/// The strings among the first `n` array items.
pub open spec fn string_items(items: Seq<TomlValue>, n: int) -> Seq<Seq<char>>
    decreases n,
{
    if n <= 0 {
        seq![]
    } else {
        let rest = string_items(items, n - 1);
        match items[n - 1] {
            TomlValue::Str(s) => rest.push(s@),
            _ => rest,
        }
    }
}

/// Where member `member` of the checkout `dir` keeps its manifest.
pub open spec fn member_path(dir: Seq<char>, member: Seq<char>) -> Seq<char> {
    path_join(path_join(dir, member), "Cargo.toml"@)
}

/// How a member is named in reports.
pub open spec fn member_display(name: Seq<char>, member: Seq<char>) -> Seq<char> {
    name + "/"@ + member + "/Cargo.toml"@
}

/// The member manifests that were read (display path and text), among the
/// first `n` members.
pub open spec fn member_sources(
    name: Seq<char>,
    members: Seq<Seq<char>>,
    reads: Seq<Result<Seq<char>, Seq<char>>>,
    n: int,
) -> Seq<(Seq<char>, Seq<char>)>
    decreases n,
{
    if n <= 0 {
        seq![]
    } else {
        let rest = member_sources(name, members, reads, n - 1);
        match reads[n - 1] {
            Ok(text) => rest.push((member_display(name, members[n - 1]), text)),
            Err(_) => rest,
        }
    }
}

/// The error findings for the members that could not be read, among the
/// first `n`.
pub open spec fn member_failures(
    name: Seq<char>,
    members: Seq<Seq<char>>,
    reads: Seq<Result<Seq<char>, Seq<char>>>,
    n: int,
) -> Seq<(Severity, Seq<char>)>
    decreases n,
{
    if n <= 0 {
        seq![]
    } else {
        let rest = member_failures(name, members, reads, n - 1);
        match reads[n - 1] {
            Ok(_) => rest,
            Err(e) => rest.push(
                (
                    Severity::Error,
                    "cannot read workspace member manifest "@ + member_display(name, members[n - 1])
                        + ": "@ + e,
                ),
            ),
        }
    }
}

/// What one scanned checkout contributes, given what reading its root
/// manifest and its listed members answered: findings and pins, or the
/// extraction error that ends the run.
pub open spec fn scan_entry(
    name: Seq<char>,
    root: Result<Seq<char>, Seq<char>>,
    member_reads: Seq<Result<Seq<char>, Seq<char>>>,
) -> Result<(Seq<(Severity, Seq<char>)>, Seq<PinView>), (Seq<char>, Option<Seq<char>>)> {
    match root {
        Err(_) => Ok((seq![(Severity::Info, name + ": no Cargo.toml, no pins to check"@)], seq![])),
        Ok(text) => {
            let members = listed_members(text);
            let n = members.len() as int;
            match extract_pins_spec(
                (name + "/Cargo.toml"@, text),
                member_sources(name, members, member_reads, n),
            ) {
                Err(e) => Err(e),
                Ok(pins) => Ok((member_failures(name, members, member_reads, n), pins)),
            }
        },
    }
}

/// `read` answered the scanned checkout's reads so: its root manifest, and
/// each listed member's manifest when the root was read.
pub open spec fn scan_reads<R: Fn(&str) -> Result<String, String>>(
    read: R,
    dir: Seq<char>,
    root: Result<Seq<char>, Seq<char>>,
    member_reads: Seq<Result<Seq<char>, Seq<char>>>,
) -> bool {
    &&& read_ran(read, path_join(dir, "Cargo.toml"@), root)
    &&& match root {
        Err(_) => member_reads.len() == 0,
        Ok(text) => member_reads.len() == listed_members(text).len() && forall|k: int|
            0 <= k < member_reads.len() ==> read_ran(
                read,
                member_path(dir, listed_members(text)[k]),
                #[trigger] member_reads[k],
            ),
    }
}

/// The members a root manifest lists; none when it does not parse.
pub fn members_of(root_text: &str) -> (r: Vec<String>)
    ensures
        strings_view(r@) == listed_members(root_text@),
{
    match parse_toml(root_text) {
        Ok(entries) => members_listed(&entries),
        Err(_) => Vec::new(),
    }
}

/// The members a parsed root manifest lists under `[workspace].members`.
pub fn members_listed(entries: &Vec<(String, TomlValue)>) -> (r: Vec<String>)
    ensures
        strings_view(r@) == members_in(entries@),
{
    proof {
        reveal_strlit("workspace");
        reveal_strlit("members");
    }
    let mut r: Vec<String> = Vec::new();
    let items: &Vec<TomlValue> = match toml_get(entries, "workspace") {
        Some(TomlValue::Table(ws)) => match toml_get(ws, "members") {
            Some(TomlValue::Array(a)) => a,
            _ => {
                return r;
            },
        },
        _ => {
            return r;
        },
    };
    let mut i: usize = 0;
    while i < items.len()
        invariant
            i <= items.len(),
            strings_view(r@) == string_items(items@, i as int),
        decreases items.len() - i,
    {
        match &items[i] {
            TomlValue::Str(s) => {
                let ghost before = strings_view(r@);
                let m = owned(s.as_str());
                r.push(m);
                assert(strings_view(r@) =~= before.push(m@));
            },
            _ => {},
        }
        i = i + 1;
    }
    r
}

/// Reads one checkout's manifests and extracts its pins.
fn scan_checkout<R: Fn(&str) -> Result<String, String>>(
    name: &str,
    dir: &str,
    read: &R,
) -> (r: Result<(Vec<Finding>, Vec<PinOccurrence>), GateError>)
    requires
        forall|p: &str| call_requires(*read, (p,)),
    ensures
        exists|root: Result<Seq<char>, Seq<char>>, member_reads: Seq<Result<Seq<char>, Seq<char>>>|
            #[trigger] scan_reads(*read, dir@, root, member_reads) && match (
                scan_entry(name@, root, member_reads),
                r,
            ) {
                (Ok((fs, ps)), Ok((f, p))) => findings_view(f@) == fs && pins_view(p@) == ps,
                (Err(e), Err(g)) => e == g@,
                _ => false,
            },
{
    proof {
        reveal_strlit("Cargo.toml");
    }
    let root_path = join_path(dir, "Cargo.toml");
    let rp = root_path.as_str();
    let root_read = read(rp);
    assert(call_ensures(*read, (rp,), root_read));
    let ghost root = read_view(root_read);
    assert(read_ran(*read, path_join(dir@, "Cargo.toml"@), root));
    let text = match root_read {
        Err(_) => {
            let mut message = owned(name);
            message.append(": no Cargo.toml, no pins to check");
            let f = Finding::new(Severity::Info, message);
            let findings = vec![f];
            assert(findings_view(findings@) =~= seq![f@]);
            let pins: Vec<PinOccurrence> = Vec::new();
            assert(pins_view(pins@) =~= Seq::<PinView>::empty());
            assert(scan_reads(*read, dir@, root, seq![]));
            return Ok((findings, pins));
        },
        Ok(text) => text,
    };
    let mut root_source_path = owned(name);
    root_source_path.append("/Cargo.toml");
    let members = members_of(text.as_str());
    let ghost mv = strings_view(members@);
    let ghost mut member_reads: Seq<Result<Seq<char>, Seq<char>>> = seq![];
    let mut sources: Vec<ManifestSource> = Vec::new();
    let mut findings: Vec<Finding> = Vec::new();
    let mut i: usize = 0;
    while i < members.len()
        invariant
            i <= members.len(),
            mv == strings_view(members@),
            mv == listed_members(text@),
            forall|p: &str| call_requires(*read, (p,)),
            member_reads.len() == i,
            forall|k: int|
                0 <= k < i ==> read_ran(*read, member_path(dir@, mv[k]), #[trigger] member_reads[k]),
            sources_view(sources@) == member_sources(name@, mv, member_reads, i as int),
            findings_view(findings@) == member_failures(name@, mv, member_reads, i as int),
        decreases members.len() - i,
    {
        let member = members[i].as_str();
        assert(mv[i as int] == member@);
        let mut display = owned(name);
        display.append("/");
        display.append(member);
        display.append("/Cargo.toml");
        let member_dir = join_path(dir, member);
        let path = join_path(member_dir.as_str(), "Cargo.toml");
        let p = path.as_str();
        let answer = read(p);
        assert(call_ensures(*read, (p,), answer));
        let ghost old_reads = member_reads;
        proof {
            member_reads = member_reads.push(read_view(answer));
            assert(read_ran(*read, member_path(dir@, mv[i as int]), member_reads[i as int]));
            lemma_member_lists_prefix(name@, mv, member_reads, old_reads, i as int);
        }
        match answer {
            Ok(t) => {
                let ghost before = sources_view(sources@);
                let src = ManifestSource { path: display, text: t };
                sources.push(src);
                assert(sources_view(sources@) =~= before.push((src.path@, src.text@)));
            },
            Err(error) => {
                let ghost before = findings_view(findings@);
                let mut message = owned("cannot read workspace member manifest ");
                message.append(display.as_str());
                message.append(": ");
                message.append(error.as_str());
                let f = Finding::new(Severity::Error, message);
                findings.push(f);
                assert(findings_view(findings@) =~= before.push(f@));
            },
        }
        i = i + 1;
    }
    let root_source = ManifestSource { path: root_source_path, text };
    assert(scan_reads(*read, dir@, root, member_reads));
    match extract_pins(&root_source, sources.as_slice()) {
        Ok(pins) => Ok((findings, pins)),
        Err(e) => Err(e),
    }
}

/// The member lists after `n` members read only the first `n` reads.
proof fn lemma_member_lists_prefix(
    name: Seq<char>,
    members: Seq<Seq<char>>,
    a: Seq<Result<Seq<char>, Seq<char>>>,
    b: Seq<Result<Seq<char>, Seq<char>>>,
    n: int,
)
    requires
        0 <= n <= a.len(),
        n <= b.len(),
        forall|k: int| 0 <= k < n ==> a[k] == b[k],
    ensures
        member_sources(name, members, a, n) == member_sources(name, members, b, n),
        member_failures(name, members, a, n) == member_failures(name, members, b, n),
    decreases n,
{
    if n > 0 {
        lemma_member_lists_prefix(name, members, a, b, n - 1);
    }
}

/// The files gate 3 reads, as reports name them.
pub open spec fn vs_config_name() -> Seq<char> {
    "zl-zpr-visaservice/vs/src/config.rs"@
}

/// The compiler manifest as reports name it.
pub open spec fn zplc_manifest_name() -> Seq<char> {
    "zl-zpr-compiler/Cargo.toml"@
}

/// Gate 3 given what reading the visa service's config and the compiler's
/// manifest answered: its findings, and the two versions when both parsed.
/// A missing file is an `INFO` naming it; a present but unreadable value
/// is an error finding, not an abort.
pub open spec fn gate3_outcome(config: Result<Seq<char>, Seq<char>>, manifest: Result<Seq<char>, Seq<char>>) -> (
    Seq<(Severity, Seq<char>)>,
    Option<Seq<char>>,
    Option<Seq<char>>,
) {
    match (config, manifest) {
        (Ok(config_text), Ok(manifest_text)) => {
            let minimum = policy_min_compiler_spec(config_text, vs_config_name());
            let zplc = package_version_from(toml_document(manifest_text), zplc_manifest_name());
            match (minimum, zplc) {
                (Ok(m), Ok(z)) => (
                    seq![compiler_version_finding(z, zplc_manifest_name(), m, vs_config_name())],
                    Some(version3_text(z)),
                    Some(version3_text(m)),
                ),
                _ => (
                    (match minimum {
                        Err(e) => seq![
                            (Severity::Error, "gate 3 (zplc vs POLICY_MIN_COMPILER): "@ + chain_text(e)),
                        ],
                        Ok(_) => seq![],
                    }) + (match zplc {
                        Err(e) => seq![
                            (Severity::Error, "gate 3 (zplc vs POLICY_MIN_COMPILER): "@ + chain_text(e)),
                        ],
                        Ok(_) => seq![],
                    }),
                    None,
                    None,
                ),
            }
        },
        _ => {
            let missing = (if config is Err {
                seq![vs_config_name()]
            } else {
                seq![]
            }) + (if manifest is Err {
                seq![zplc_manifest_name()]
            } else {
                seq![]
            });
            (
                seq![
                    (
                        Severity::Info,
                        "gate 3 (zplc vs POLICY_MIN_COMPILER) skipped: "@ + crate::text::join(
                            missing,
                            ", "@,
                        ) + " not in this workspace"@,
                    ),
                ],
                None,
                None,
            )
        },
    }
}

/// Gate 3 over what reading its two files answered.
pub fn gate3_from_reads(config: Result<String, String>, manifest: Result<String, String>) -> (r: (
    Vec<Finding>,
    Option<String>,
    Option<String>,
))
    ensures
        ({
            let (fs, z, m) = gate3_outcome(read_view(config), read_view(manifest));
            &&& findings_view(r.0@) == fs
            &&& z == match r.1 {
                Some(s) => Some(s@),
                None => None::<Seq<char>>,
            }
            &&& m == match r.2 {
                Some(s) => Some(s@),
                None => None::<Seq<char>>,
            }
        }),
{
    let ghost cv = read_view(config);
    let ghost mv = read_view(manifest);
    match (config, manifest) {
        (Ok(config_text), Ok(manifest_text)) => {
            let minimum = policy_min_compiler(config_text.as_str(), "zl-zpr-visaservice/vs/src/config.rs");
            let zplc = package_version(manifest_text.as_str(), "zl-zpr-compiler/Cargo.toml");
            match (minimum, zplc) {
                (Ok(m), Ok(z)) => {
                    let findings = gate_compiler_version(
                        z,
                        "zl-zpr-compiler/Cargo.toml",
                        m,
                        "zl-zpr-visaservice/vs/src/config.rs",
                    );
                    (findings, Some(version3_display(z)), Some(version3_display(m)))
                },
                (minimum, zplc) => {
                    let mut findings: Vec<Finding> = Vec::new();
                    match minimum {
                        Err(e) => {
                            let mut message = owned("gate 3 (zplc vs POLICY_MIN_COMPILER): ");
                            let c = e.chain();
                            message.append(c.as_str());
                            findings.push(Finding::new(Severity::Error, message));
                        },
                        Ok(_) => {},
                    }
                    match zplc {
                        Err(e) => {
                            let mut message = owned("gate 3 (zplc vs POLICY_MIN_COMPILER): ");
                            let c = e.chain();
                            message.append(c.as_str());
                            findings.push(Finding::new(Severity::Error, message));
                        },
                        Ok(_) => {},
                    }
                    proof {
                        let (fs, _, _) = gate3_outcome(cv, mv);
                        assert(findings_view(findings@) =~= fs);
                    }
                    (findings, None, None)
                },
            }
        },
        (config, manifest) => {
            let mut missing: Vec<String> = Vec::new();
            if config.is_err() {
                missing.push(owned("zl-zpr-visaservice/vs/src/config.rs"));
            }
            if manifest.is_err() {
                missing.push(owned("zl-zpr-compiler/Cargo.toml"));
            }
            let ghost want = (if cv is Err {
                seq![vs_config_name()]
            } else {
                seq![]
            }) + (if mv is Err {
                seq![zplc_manifest_name()]
            } else {
                seq![]
            });
            assert(strings_view(missing@) =~= want);
            let mut message = owned("gate 3 (zplc vs POLICY_MIN_COMPILER) skipped: ");
            let joined = crate::text::join_strings(&missing, ", ");
            message.append(joined.as_str());
            message.append(" not in this workspace");
            let f = Finding::new(Severity::Info, message);
            let findings = vec![f];
            assert(findings_view(findings@) =~= seq![f@]);
            (findings, None, None)
        },
    }
}

/// What one gate run produced: the findings for the report, plus the data
/// the emitted manifest records (the extracted pins and the two gate-3
/// versions, when they parsed).
#[derive(Debug)]
pub struct GateOutcome {
    pub findings: Vec<Finding>,
    pub pins: Vec<PinOccurrence>,
    /// `[package].version` from the compiler's `Cargo.toml`, as `x.y.z`.
    pub zplc_version: Option<String>,
    /// `POLICY_MIN_COMPILER_*` from the visa service's `vs/src/config.rs`.
    pub vs_policy_min_compiler: Option<String>,
}


/// Entries and pins the first `n` scanned checkouts give, or the first
/// extraction error.
pub open spec fn scan_fold(
    names: Seq<Seq<char>>,
    roots: Seq<Result<Seq<char>, Seq<char>>>,
    member_reads: Seq<Seq<Result<Seq<char>, Seq<char>>>>,
    n: int,
) -> Result<(Seq<(Severity, Seq<char>)>, Seq<PinView>), (Seq<char>, Option<Seq<char>>)>
    decreases n,
{
    if n <= 0 {
        Ok((seq![], seq![]))
    } else {
        match scan_fold(names, roots, member_reads, n - 1) {
            Err(e) => Err(e),
            Ok((fs, ps)) => match scan_entry(names[n - 1], roots[n - 1], member_reads[n - 1]) {
                Err(e) => Err(e),
                Ok((f, p)) => Ok((fs + f, ps + p)),
            },
        }
    }
}

/// The directory gate 3 reads `wanted` from: the scanned one of that name,
/// else the workspace checkout.
pub open spec fn scan_dir(scan: Seq<(Seq<char>, Seq<char>)>, wanted: Seq<char>, workspace: Seq<char>) -> Seq<
    char,
>
    decreases scan.len(),
{
    if scan.len() == 0 {
        path_join(workspace, wanted)
    } else if scan[0].0 == wanted {
        scan[0].1
    } else {
        scan_dir(scan.drop_first(), wanted, workspace)
    }
}

/// Where the visa service's config is read from.
pub open spec fn vs_config_path(scan: Seq<(Seq<char>, Seq<char>)>, workspace: Seq<char>) -> Seq<char> {
    path_join(
        path_join(path_join(scan_dir(scan, "zl-zpr-visaservice"@, workspace), "vs"@), "src"@),
        "config.rs"@,
    )
}

/// Where the compiler's manifest is read from.
pub open spec fn zplc_manifest_path(scan: Seq<(Seq<char>, Seq<char>)>, workspace: Seq<char>) -> Seq<char> {
    path_join(scan_dir(scan, "zl-zpr-compiler"@, workspace), "Cargo.toml"@)
}

/// The directory to read `wanted` from.
fn scan_dir_of(scan: &[(String, String)], wanted: &str, workspace: &str) -> (r: String)
    ensures
        r@ == scan_dir(crate::build::recipes::pairs_view(scan@), wanted@, workspace@),
{
    let ghost sv = crate::build::recipes::pairs_view(scan@);
    let mut i: usize = 0;
    assert(sv.skip(0) =~= sv);
    while i < scan.len()
        invariant
            i <= scan.len(),
            sv == crate::build::recipes::pairs_view(scan@),
            scan_dir(sv, wanted@, workspace@) == scan_dir(sv.skip(i as int), wanted@, workspace@),
        decreases scan.len() - i,
    {
        assert(sv.skip(i as int)[0] == sv[i as int]);
        assert(sv.skip(i as int).drop_first() =~= sv.skip(i + 1));
        if str_eq(scan[i].0.as_str(), wanted) {
            return owned(scan[i].1.as_str());
        }
        i = i + 1;
    }
    assert(sv.skip(i as int) =~= Seq::<(Seq<char>, Seq<char>)>::empty());
    join_path(workspace, wanted)
}

/// The scanned names.
pub open spec fn scan_names(scan: Seq<(String, String)>) -> Seq<Seq<char>> {
    scan.map_values(|p: (String, String)| p.0@)
}

/// Reads every scanned checkout's manifests and extracts their pins, in
/// scan order; the first manifest that does not parse ends the scan.
#[verifier::spinoff_prover]
fn scan_all<R: Fn(&str) -> Result<String, String>>(
    scan: &[(String, String)],
    read: &R,
) -> (r: Result<(Vec<Finding>, Vec<PinOccurrence>), GateError>)
    requires
        forall|p: &str| call_requires(*read, (p,)),
    ensures
        exists|
            roots: Seq<Result<Seq<char>, Seq<char>>>,
            member_reads: Seq<Seq<Result<Seq<char>, Seq<char>>>>,
        |
            roots.len() == member_reads.len() && roots.len() <= scan@.len() && (forall|k: int|
                0 <= k < roots.len() ==> #[trigger] scan_reads(*read, scan@[k].1@, roots[k], member_reads[k]))
                && match r {
                Err(e) => scan_fold(scan_names(scan@), roots, member_reads, roots.len() as int)
                    == Err::<(Seq<(Severity, Seq<char>)>, Seq<PinView>), (Seq<char>, Option<Seq<char>>)>(e@),
                Ok((f, p)) => roots.len() == scan@.len() && #[trigger] scan_fold(
                    scan_names(scan@),
                    roots,
                    member_reads,
                    roots.len() as int,
                ) == Ok::<(Seq<(Severity, Seq<char>)>, Seq<PinView>), (Seq<char>, Option<Seq<char>>)>(
                    (findings_view(f@), pins_view(p@)),
                ),
            },
{
    let ghost names = scan_names(scan@);
    let ghost mut roots: Seq<Result<Seq<char>, Seq<char>>> = seq![];
    let ghost mut mreads: Seq<Seq<Result<Seq<char>, Seq<char>>>> = seq![];
    let mut findings: Vec<Finding> = Vec::new();
    let mut pins: Vec<PinOccurrence> = Vec::new();
    assert(findings_view(findings@) =~= Seq::<(Severity, Seq<char>)>::empty());
    assert(pins_view(pins@) =~= Seq::<PinView>::empty());
    let mut i: usize = 0;
    while i < scan.len()
        invariant
            i <= scan.len(),
            names == scan_names(scan@),
            forall|p: &str| call_requires(*read, (p,)),
            roots.len() == i,
            mreads.len() == i,
            forall|k: int|
                0 <= k < i ==> #[trigger] scan_reads(*read, scan@[k].1@, roots[k], mreads[k]),
            scan_fold(names, roots, mreads, i as int) == Ok::<
                (Seq<(Severity, Seq<char>)>, Seq<PinView>),
                (Seq<char>, Option<Seq<char>>),
            >((findings_view(findings@), pins_view(pins@))),
        decreases scan.len() - i,
    {
        let (name, dir) = (&scan[i].0, &scan[i].1);
        assert(names[i as int] == name@);
        let outcome = scan_checkout(name.as_str(), dir.as_str(), read);
        let ghost (root, mr) = choose|
            root: Result<Seq<char>, Seq<char>>,
            member_reads: Seq<Result<Seq<char>, Seq<char>>>,
        |
            #[trigger] scan_reads(*read, dir@, root, member_reads) && match (
                scan_entry(name@, root, member_reads),
                outcome,
            ) {
                (Ok((fs, ps)), Ok((f, p))) => findings_view(f@) == fs && pins_view(p@) == ps,
                (Err(e), Err(g)) => e == g@,
                _ => false,
            };
        let ghost old_roots = roots;
        let ghost old_mreads = mreads;
        proof {
            roots = roots.push(root);
            mreads = mreads.push(mr);
            lemma_scan_fold_prefix(names, roots, old_roots, mreads, old_mreads, i as int);
        }
        match outcome {
            Err(e) => {
                proof {
                    assert(scan_reads(*read, scan@[i as int].1@, roots[i as int], mreads[i as int]));
                    assert(scan_fold(names, roots, mreads, i + 1) == Err::<
                        (Seq<(Severity, Seq<char>)>, Seq<PinView>),
                        (Seq<char>, Option<Seq<char>>),
                    >(e@));
                }
                return Err(e);
            },
            Ok((f, p)) => {
                let ghost before_f = findings_view(findings@);
                let ghost before_p = pins_view(pins@);
                let mut f = f;
                let mut p = p;
                let ghost fv = findings_view(f@);
                let ghost pv = pins_view(p@);
                findings.append(&mut f);
                pins.append(&mut p);
                assert(findings_view(findings@) =~= before_f + fv);
                assert(pins_view(pins@) =~= before_p + pv);
            },
        }
        i = i + 1;
    }
    Ok((findings, pins))
}

/// Runs the three gates over `scan`: pairs of display name and the directory
/// to read manifests from (live checkouts for `--gates-only`, detached
/// worktrees in a real build). `read` reads a file, `local_tags` lists the
/// tags of a pinned repository's workspace checkout. A checkout without a
/// `Cargo.toml` is an `INFO`; a listed member that cannot be read is an
/// error finding; a manifest that does not parse ends the run with its
/// error. Gate 3 reads from the scanned directories, falling back to the
/// workspace checkouts.
#[verifier::spinoff_prover]
pub fn collect_gate_findings<R: Fn(&str) -> Result<String, String>, T: Fn(&str) -> Option<Vec<String>>>(
    scan: &[(String, String)],
    drift: &[PinDrift],
    downgrade: bool,
    workspace: &str,
    read: &R,
    local_tags: T,
) -> (r: Result<GateOutcome, GateError>)
    requires
        forall|p: &str| call_requires(*read, (p,)),
        forall|u: &str| call_requires(local_tags, (u,)),
    ensures
        exists|
            roots: Seq<Result<Seq<char>, Seq<char>>>,
            member_reads: Seq<Seq<Result<Seq<char>, Seq<char>>>>,
        |
            roots.len() == member_reads.len() && roots.len() <= scan@.len() && (forall|k: int|
                0 <= k < roots.len() ==> #[trigger] scan_reads(
                    *read,
                    scan@[k].1@,
                    roots[k],
                    member_reads[k],
                )) && match r {
                Err(e) => scan_fold(scan_names(scan@), roots, member_reads, roots.len() as int)
                    == Err::<(Seq<(Severity, Seq<char>)>, Seq<PinView>), (Seq<char>, Option<Seq<char>>)>(e@),
                Ok(out) => roots.len() == scan@.len() && (#[trigger] scan_fold(
                    scan_names(scan@),
                    roots,
                    member_reads,
                    roots.len() as int,
                ) matches Ok((fs, ps)) && pins_view(out.pins@) == ps && exists|
                    answers: Seq<Option<Seq<Seq<char>>>>,
                    config: Result<Seq<char>, Seq<char>>,
                    manifest: Result<Seq<char>, Seq<char>>,
                |
                    #![trigger freshness_findings(ps, answers, ps.len() as int), gate3_outcome(config, manifest)]
                    answers.len() == ps.len() && (forall|i: int|
                        0 <= i < ps.len() && asks_tags(ps, i) ==> listed(
                            local_tags,
                            #[trigger] ps[i].url,
                            answers[i],
                        )) && read_ran(
                        *read,
                        vs_config_path(crate::build::recipes::pairs_view(scan@), workspace@),
                        config,
                    ) && read_ran(
                        *read,
                        zplc_manifest_path(crate::build::recipes::pairs_view(scan@), workspace@),
                        manifest,
                    ) && findings_view(out.findings@) == fs + gate_pin_agreement_spec(
                        ps,
                        drift_view(drift@),
                        downgrade,
                    ) + freshness_findings(ps, answers, ps.len() as int) + gate3_outcome(
                        config,
                        manifest,
                    ).0 && gate3_outcome(config, manifest).1 == match out.zplc_version {
                        Some(v) => Some(v@),
                        None => None::<Seq<char>>,
                    } && gate3_outcome(config, manifest).2 == match out.vs_policy_min_compiler {
                        Some(v) => Some(v@),
                        None => None::<Seq<char>>,
                    }),
            },
{
    let ghost names = scan_names(scan@);
    let (mut findings, pins) = match scan_all(scan, read) {
        Err(e) => return Err(e),
        Ok(x) => x,
    };
    let ghost (roots, mreads) = choose|
        roots: Seq<Result<Seq<char>, Seq<char>>>,
        member_reads: Seq<Seq<Result<Seq<char>, Seq<char>>>>,
    |
        roots.len() == member_reads.len() && roots.len() == scan@.len() && (forall|k: int|
            0 <= k < roots.len() ==> #[trigger] scan_reads(*read, scan@[k].1@, roots[k], member_reads[k]))
            && #[trigger] scan_fold(scan_names(scan@), roots, member_reads, roots.len() as int) == Ok::<
            (Seq<(Severity, Seq<char>)>, Seq<PinView>),
            (Seq<char>, Option<Seq<char>>),
        >((findings_view(findings@), pins_view(pins@)));
    let ghost fs = findings_view(findings@);
    let ghost ps = pins_view(pins@);
    let mut agreement = gate_pin_agreement(pins.as_slice(), drift, downgrade);
    findings.append(&mut agreement);
    let mut freshness = gate_freshness(pins.as_slice(), local_tags);
    let ghost fresh = findings_view(freshness@);
    let ghost answers = choose|answers: Seq<Option<Seq<Seq<char>>>>|
        answers.len() == ps.len() && (forall|i: int|
            0 <= i < ps.len() && asks_tags(ps, i) ==> listed(local_tags, #[trigger] ps[i].url, answers[i]))
            && fresh == #[trigger] freshness_findings(ps, answers, ps.len() as int);
    findings.append(&mut freshness);
    proof {
        reveal_strlit("zl-zpr-visaservice");
        reveal_strlit("zl-zpr-compiler");
        reveal_strlit("vs");
        reveal_strlit("src");
        reveal_strlit("config.rs");
        reveal_strlit("Cargo.toml");
    }
    let vs_dir = scan_dir_of(scan, "zl-zpr-visaservice", workspace);
    let vs1 = join_path(vs_dir.as_str(), "vs");
    let vs2 = join_path(vs1.as_str(), "src");
    let vs_config = join_path(vs2.as_str(), "config.rs");
    let zplc_dir = scan_dir_of(scan, "zl-zpr-compiler", workspace);
    let zplc_manifest = join_path(zplc_dir.as_str(), "Cargo.toml");
    let cp = vs_config.as_str();
    let config = read(cp);
    assert(call_ensures(*read, (cp,), config));
    let mp = zplc_manifest.as_str();
    let manifest = read(mp);
    assert(call_ensures(*read, (mp,), manifest));
    let ghost cfg = read_view(config);
    let ghost mf = read_view(manifest);
    assert(read_ran(*read, vs_config_path(crate::build::recipes::pairs_view(scan@), workspace@), cfg));
    assert(read_ran(*read, zplc_manifest_path(crate::build::recipes::pairs_view(scan@), workspace@), mf));
    let (mut gate3, zplc_version, vs_policy_min_compiler) = gate3_from_reads(config, manifest);
    findings.append(&mut gate3);
    proof {
        assert(findings_view(findings@) =~= fs + gate_pin_agreement_spec(ps, drift_view(drift@), downgrade)
            + freshness_findings(ps, answers, ps.len() as int) + gate3_outcome(cfg, mf).0);
    }
    let out = GateOutcome { findings, pins, zplc_version, vs_policy_min_compiler };
    proof {
        assert(scan_fold(names, roots, mreads, roots.len() as int) == Ok::<
            (Seq<(Severity, Seq<char>)>, Seq<PinView>),
            (Seq<char>, Option<Seq<char>>),
        >((fs, ps)));
    }
    Ok(out)
}

/// The fold over `n` checkouts reads only the first `n` results.
proof fn lemma_scan_fold_prefix(
    names: Seq<Seq<char>>,
    a: Seq<Result<Seq<char>, Seq<char>>>,
    b: Seq<Result<Seq<char>, Seq<char>>>,
    ma: Seq<Seq<Result<Seq<char>, Seq<char>>>>,
    mb: Seq<Seq<Result<Seq<char>, Seq<char>>>>,
    n: int,
)
    requires
        0 <= n <= a.len(),
        n <= b.len(),
        n <= ma.len(),
        n <= mb.len(),
        forall|k: int| 0 <= k < n ==> a[k] == b[k] && ma[k] == mb[k],
    ensures
        scan_fold(names, a, ma, n) == scan_fold(names, b, mb, n),
    decreases n,
{
    if n > 0 {
        lemma_scan_fold_prefix(names, a, b, ma, mb, n - 1);
    }
}

/// Appends `zl-zpr-common`'s live checkout to a gate scan list whenever the
/// workspace declares it and the list does not already hold it: it never
/// appears in a build set, but its own manifest takes part in coherence.
pub fn add_derived_scan(manifest: &Manifest, workspace: &str, scan: &mut Vec<(String, String)>)
    ensures
        ({
            let declared = exists|i: int|
                0 <= i < manifest.repositories@.len() && manifest.repositories@[i].name@
                    == "zl-zpr-common"@;
            let present = exists|i: int|
                0 <= i < old(scan)@.len() && (#[trigger] old(scan)@[i]).0@ == "zl-zpr-common"@;
            if declared && !present {
                crate::build::recipes::pairs_view(final(scan)@) == crate::build::recipes::pairs_view(
                    old(scan)@,
                ).push(("zl-zpr-common"@, path_join(workspace@, "zl-zpr-common"@)))
            } else {
                final(scan)@ == old(scan)@
            }
        }),
{
    proof {
        reveal_strlit("zl-zpr-common");
    }
    let derived = "zl-zpr-common";
    let declared = manifest.repo(derived).is_some();
    let mut present = false;
    let mut i: usize = 0;
    while i < scan.len()
        invariant
            i <= scan.len(),
            present == exists|j: int| 0 <= j < i && (#[trigger] scan@[j]).0@ == "zl-zpr-common"@,
            derived@ == "zl-zpr-common"@,
        decreases scan.len() - i,
    {
        if str_eq(scan[i].0.as_str(), derived) {
            assert(scan@[i as int].0@ == "zl-zpr-common"@);
            present = true;
        }
        i = i + 1;
    }
    if declared && !present {
        let ghost before = crate::build::recipes::pairs_view(scan@);
        let entry = (owned(derived), join_path(workspace, derived));
        scan.push(entry);
        assert(crate::build::recipes::pairs_view(scan@) =~= before.push((entry.0@, entry.1@)));
    }
}


} // verus!
