//! The emitted manifest: the build set with every ref replaced by its
//! resolved sha, plus the diagnostic `resolved:` block (when and from what it
//! was built, the agreed pins, versions, binary digests, tier outcomes).

use vstd::prelude::*;

use crate::build::gates::{
    PinOccurrence, crate_variants, variants_of_crate, PinView, crates_in_order, crates_sorted, join_version, listed, newest_tag_version, newest_with_prefix, version_less, pins_view, split_tag, split_tag_spec, tags_view, version_lt, version_text,
};
use crate::build::recipes::{Recipe, RecipeView, strings_view};
use crate::build::{BuildSet, PinDrift, Resolved, build_set_problem, drift_view, empty_ref, resolved_view};
use crate::order::{StrMap};
use crate::text::{decimal, join_path, owned, path_join, str_eq, trim, u64_to_string};

verus! {

/// What produced a manifest: the input manifest path, the context sha, and
/// whether `--tip` overrode the refs.
#[derive(Debug, Default)]
pub struct BuiltFrom {
    pub manifest: String,
    pub context: String,
    pub tip: bool,
}

/// One agreed pin, recomputed for the emitted manifest: what cargo actually
/// compiled against.
#[derive(Debug, Clone)]
pub struct Pin {
    pub crate_name: String,
    pub url: String,
    pub tag: String,
    pub pinned_by: Vec<String>,
    pub newest_available: Option<String>,
}

/// One staged binary's identity. The digest is for comparison between
/// builds, never a reproducibility claim.
#[derive(Debug)]
pub struct Binary {
    pub name: String,
    pub sha256: String,
    pub bytes: u64,
    pub from: String,
}

/// One tier's outcome. A skipped tier always carries its reason.
#[derive(Debug)]
pub struct Tier {
    pub status: String,
    pub reason: Option<String>,
}

/// The `resolved:` diagnostic block. Every field a later stage populates is
/// empty until then, so nothing pretends a build or a tier ran.
#[derive(Debug)]
pub struct ResolvedBlock {
    pub built_at: String,
    pub built_from: BuiltFrom,
    /// Host os/arch and toolchain versions that produced the binaries.
    pub host: StrMap,
    pub pins: Vec<Pin>,
    pub versions: StrMap,
    pub binaries: Vec<Binary>,
    pub tiers: Vec<(String, Tier)>,
}

/// The emitted manifest: the input's schema with every ref replaced by its
/// resolved sha, plus the `resolved:` block a later read ignores.
#[derive(Debug)]
pub struct EmittedManifest {
    pub version: u32,
    pub name: String,
    /// Repository name to sha.
    pub repositories: StrMap,
    pub allow_pin_drift: Vec<PinDrift>,
    pub resolved: ResolvedBlock,
}

// ---------------------------------------------------------------------------
// The emission time
// ---------------------------------------------------------------------------

/// Seconds since the Unix epoch from the system clock, 0 for a clock set
/// before it. Nothing is claimed of the value: it is the time.
#[verifier::external_body]
fn unix_seconds() -> u64 {
    std::time::SystemTime::now().duration_since(std::time::UNIX_EPOCH).map(|d| d.as_secs()).unwrap_or(0)
}

/// Whether `y` is a Gregorian leap year.
pub open spec fn is_leap(y: int) -> bool {
    y % 4 == 0 && (y % 100 != 0 || y % 400 == 0)
}

/// The length of year `y` in days.
pub open spec fn year_days(y: int) -> int {
    if is_leap(y) {
        366
    } else {
        365
    }
}

/// The length of month `m` (1-based) of year `y` in days.
pub open spec fn month_days(y: int, m: int) -> int {
    if m == 2 {
        if is_leap(y) {
            29
        } else {
            28
        }
    } else if m == 4 || m == 6 || m == 9 || m == 11 {
        30
    } else {
        31
    }
}

/// The date `days` days into year `y`, counting whole months off from
/// month `m`: (month, day of month).
pub open spec fn month_day(y: int, m: int, days: int) -> (int, int)
    decreases 13 - m,
{
    if m >= 12 || days < month_days(y, m) {
        (m, days + 1)
    } else {
        month_day(y, m + 1, days - month_days(y, m))
    }
}

/// The Gregorian date `days` days after January 1 of year `y`, counting
/// whole years off: (year, month, day).
pub open spec fn civil_from(y: int, days: int) -> (int, int, int)
    decreases days,
{
    if days < year_days(y) {
        let (m, d) = month_day(y, 1, days);
        (y, m, d)
    } else {
        civil_from(y + 1, days - year_days(y))
    }
}

/// `n` in decimal, zero-padded to at least `width` digits.
pub open spec fn padded(n: nat, width: nat) -> Seq<char> {
    let d = decimal(n);
    if d.len() >= width {
        d
    } else {
        Seq::new((width - d.len()) as nat, |i: int| '0') + d
    }
}

/// The time `seconds` after the Unix epoch as `YYYY-MM-DDTHH:MM:SSZ`, in the
/// proleptic Gregorian calendar.
pub open spec fn utc_text(seconds: u64) -> Seq<char> {
    let (y, m, d) = civil_from(1970, (seconds / 86400) as int);
    let rest = seconds % 86400;
    padded(y as nat, 4) + "-"@ + padded(m as nat, 2) + "-"@ + padded(d as nat, 2) + "T"@ + padded(
        (rest / 3600) as nat,
        2,
    ) + ":"@ + padded(((seconds % 3600) / 60) as nat, 2) + ":"@ + padded((seconds % 60) as nat, 2)
        + "Z"@
}

/// `n` in decimal, zero-padded to at least `width` digits.
fn pad(n: u64, width: usize) -> (r: String)
    ensures
        r@ == padded(n as nat, width as nat),
{
    let d = u64_to_string(n);
    let len = crate::text::to_chars(d.as_str()).len();
    if len >= width {
        return d;
    }
    let mut r = String::new();
    let mut k: usize = 0;
    while k < width - len
        invariant
            k <= width - len,
            r@ == Seq::new(k as nat, |i: int| '0'),
        decreases width - len - k,
    {
        r.append("0");
        proof {
            reveal_strlit("0");
        }
        assert(r@ =~= Seq::new((k + 1) as nat, |i: int| '0'));
        k = k + 1;
    }
    r.append(d.as_str());
    r
}

/// The length of year `y` in days.
fn year_len(y: u64) -> (r: u64)
    ensures
        r == year_days(y as int),
{
    if y % 4 == 0 && (y % 100 != 0 || y % 400 == 0) {
        366
    } else {
        365
    }
}

/// The length of month `m` in days, in a leap year or not.
fn month_len(leap: bool, m: u64) -> (r: u64)
    ensures
        forall|y: int| is_leap(y) == leap ==> r == month_days(y, m as int),
{
    if m == 2 {
        if leap {
            29
        } else {
            28
        }
    } else if m == 4 || m == 6 || m == 9 || m == 11 {
        30
    } else {
        31
    }
}

/// Formats a time `seconds` after the Unix epoch as `YYYY-MM-DDTHH:MM:SSZ`.
pub fn format_utc(seconds: u64) -> (r: String)
    ensures
        r@ == utc_text(seconds),
{
    let mut days: u64 = seconds / 86400;
    let mut y: u64 = 1970;
    while days >= year_len(y)
        invariant
            1970 <= y <= 1970 + seconds / 86400,
            y + days <= 1970 + seconds / 86400,
            civil_from(y as int, days as int) == civil_from(1970, (seconds / 86400) as int),
        decreases days,
    {
        let len = year_len(y);
        days = days - len;
        y = y + 1;
    }
    let leap = y % 4 == 0 && (y % 100 != 0 || y % 400 == 0);
    assert(leap == is_leap(y as int));
    let mut m: u64 = 1;
    let mut dd: u64 = days;
    while m < 12 && dd >= month_len(leap, m)
        invariant
            1 <= m <= 12,
            dd <= days,
            leap == is_leap(y as int),
            month_day(y as int, m as int, dd as int) == month_day(y as int, 1, days as int),
        decreases 12 - m,
    {
        let len = month_len(leap, m);
        dd = dd - len;
        m = m + 1;
    }
    let rest = seconds % 86400;
    let mut r = pad(y, 4);
    r.append("-");
    let ms = pad(m, 2);
    r.append(ms.as_str());
    r.append("-");
    let ds = pad(dd + 1, 2);
    r.append(ds.as_str());
    r.append("T");
    let hs = pad(rest / 3600, 2);
    r.append(hs.as_str());
    r.append(":");
    let mins = pad((seconds % 3600) / 60, 2);
    r.append(mins.as_str());
    r.append(":");
    let ss = pad(seconds % 60, 2);
    r.append(ss.as_str());
    r.append("Z");
    r
}

/// The current time as `YYYY-MM-DDTHH:MM:SSZ`, from the system clock.
pub fn utc_now() -> (r: String)
    ensures
        exists|seconds: u64| r@ == utc_text(seconds),
{
    let seconds = unix_seconds();
    format_utc(seconds)
}


// ---------------------------------------------------------------------------
// The emitted manifest
// ---------------------------------------------------------------------------

/// The map a list of resolutions gives: each repository to its sha, a later
/// entry for a repository replacing an earlier one.
pub open spec fn resolved_map(v: Seq<(Seq<char>, Seq<char>, Seq<char>)>, n: int) -> Map<Seq<char>, Seq<char>>
    decreases n,
{
    if n <= 0 {
        Map::empty()
    } else {
        resolved_map(v, n - 1).insert(v[n - 1].0, v[n - 1].2)
    }
}

/// Every key of the sha map of the first `n` resolutions holds the sha of
/// one of them.
proof fn lemma_resolved_map_values(v: Seq<(Seq<char>, Seq<char>, Seq<char>)>, n: int, k: Seq<char>)
    requires
        0 <= n <= v.len(),
        resolved_map(v, n).contains_key(k),
    ensures
        exists|j: int| 0 <= j < n && #[trigger] v[j].2 == resolved_map(v, n)[k],
    decreases n,
{
    if v[n - 1].0 != k {
        lemma_resolved_map_values(v, n - 1, k);
        let j = choose|j: int| 0 <= j < n - 1 && #[trigger] v[j].2 == resolved_map(v, n - 1)[k];
        assert(v[j].2 == resolved_map(v, n)[k]);
    } else {
        assert(v[n - 1].2 == resolved_map(v, n)[k]);
    }
}

/// A repository has a sha in the map of the first `n` resolutions exactly
/// when one of them resolved it.
proof fn lemma_resolved_map_keys(v: Seq<(Seq<char>, Seq<char>, Seq<char>)>, n: int, k: Seq<char>)
    requires
        0 <= n <= v.len(),
    ensures
        resolved_map(v, n).contains_key(k) <==> exists|j: int| 0 <= j < n && (#[trigger] v[j]).0 == k,
    decreases n,
{
    if n > 0 {
        lemma_resolved_map_keys(v, n - 1, k);
        if v[n - 1].0 == k {
            assert(exists|j: int| 0 <= j < n && (#[trigger] v[j]).0 == k) by {
                assert(v[n - 1].0 == k);
            }
        }
    }
}

/// No empty ref among entries whose refs are all non-blank.
proof fn lemma_no_empty_ref(entries: Seq<(Seq<char>, Seq<char>)>, n: int)
    requires
        0 <= n <= entries.len(),
        forall|i: int| 0 <= i < n ==> trim(#[trigger] entries[i].1).len() > 0,
    ensures
        empty_ref(entries, n) is None,
    decreases n,
{
    if n > 0 {
        lemma_no_empty_ref(entries, n - 1);
        assert(trim(entries[n - 1].1).len() > 0);
    }
}

/// A copy of the drift entries.
pub(crate) fn clone_drift(drift: &Vec<PinDrift>) -> (r: Vec<PinDrift>)
    ensures
        drift_view(r@) == drift_view(drift@),
{
    let mut r: Vec<PinDrift> = Vec::new();
    let mut i: usize = 0;
    while i < drift.len()
        invariant
            i <= drift.len(),
            drift_view(r@) == drift_view(drift@).take(i as int),
        decreases drift.len() - i,
    {
        let ghost before = drift_view(r@);
        let d = PinDrift {
            crate_name: owned(drift[i].crate_name.as_str()),
            reason: owned(drift[i].reason.as_str()),
        };
        r.push(d);
        assert(drift_view(r@) =~= before.push((d.crate_name@, d.reason@)));
        assert(drift_view(drift@).take(i + 1) =~= drift_view(drift@).take(i as int).push(
            drift_view(drift@)[i as int],
        ));
        i = i + 1;
    }
    assert(drift_view(drift@).take(drift.len() as int) =~= drift_view(drift@));
    r
}

/// Builds the emitted manifest for a resolution: the input set's name and
/// drift entries with every ref replaced by its sha, and the `resolved:`
/// block stamped with the emission time and honestly empty otherwise, so
/// nothing pretends a build or a tier ran.
pub fn emit(set: &BuildSet, resolved: &[Resolved], tip: bool) -> (r: Result<EmittedManifest, String>)
    ensures
        r matches Ok(m) && {
            &&& m.version == 1
            &&& m.name@ == set.name@
            &&& m.repositories.view() == resolved_map(resolved_view(resolved@), resolved@.len() as int)
            &&& drift_view(m.allow_pin_drift@) == drift_view(set.allow_pin_drift@)
            &&& exists|seconds: u64| m.resolved.built_at@ == utc_text(seconds)
            &&& m.resolved.built_from.manifest@.len() == 0
            &&& m.resolved.built_from.context@.len() == 0
            &&& m.resolved.built_from.tip == tip
            &&& m.resolved.host.view() == Map::<Seq<char>, Seq<char>>::empty()
            &&& m.resolved.pins@.len() == 0
            &&& m.resolved.versions.view() == Map::<Seq<char>, Seq<char>>::empty()
            &&& m.resolved.binaries@.len() == 0
            &&& m.resolved.tiers@.len() == 0
            &&& build_set_problem(
                set.version,
                set.name@,
                set.repositories.entry_seq(),
                drift_view(set.allow_pin_drift@),
            ) is None && resolved@.len() > 0 && (forall|i: int|
                0 <= i < resolved@.len() ==> trim(#[trigger] resolved@[i].sha@).len() > 0)
                ==> build_set_problem(
                m.version,
                m.name@,
                m.repositories.entry_seq(),
                drift_view(m.allow_pin_drift@),
            ) is None
            &&& resolved@.len() == set.repositories.entry_seq().len() && (forall|i: int|
                0 <= i < resolved@.len() ==> (#[trigger] resolved@[i]).repo@
                    == set.repositories.entry_seq()[i].0) ==> forall|k: Seq<char>|
                #[trigger] m.repositories.view().contains_key(k) == set.repositories.view().contains_key(k)
        },
{
    let ghost rv = resolved_view(resolved@);
    let mut repositories = StrMap::new();
    let mut i: usize = 0;
    while i < resolved.len()
        invariant
            i <= resolved.len(),
            rv == resolved_view(resolved@),
            repositories.view() == resolved_map(rv, i as int),
        decreases resolved.len() - i,
    {
        let entry = &resolved[i];
        assert(rv[i as int] == (entry.repo@, entry.reference@, entry.sha@));
        repositories.insert(entry.repo.as_str(), owned(entry.sha.as_str()));
        i = i + 1;
    }
    // The entry count, whose contract ties the entries to the map.
    let count = repositories.len();
    proof {
        let e = repositories.entry_seq();
        let n = resolved@.len() as int;
        if n > 0 && forall|i: int| 0 <= i < n ==> trim(#[trigger] resolved@[i].sha@).len() > 0 {
            assert forall|i: int| 0 <= i < e.len() implies trim(#[trigger] e[i].1).len() > 0 by {
                let k = repositories.key_seq()[i];
                lemma_resolved_map_values(rv, n, k);
                let j = choose|j: int| 0 <= j < n && #[trigger] rv[j].2 == resolved_map(rv, n)[k];
                assert(rv[j].2 == resolved@[j].sha@);
            }
            lemma_no_empty_ref(e, e.len() as int);
            assert(resolved_map(rv, n).contains_key(rv[n - 1].0));
            assert(repositories.key_seq().contains(rv[n - 1].0));
            assert(count > 0);
        }
        let se = set.repositories.entry_seq();
        if n == se.len() && forall|i: int| 0 <= i < n ==> (#[trigger] resolved@[i]).repo@ == se[i].0 {
            set.repositories.lemma_keys_are_entry_keys();
            assert forall|k: Seq<char>|
                #[trigger] repositories.view().contains_key(k) == set.repositories.view().contains_key(k) by {
                lemma_resolved_map_keys(rv, n, k);
                if repositories.view().contains_key(k) {
                    let j = choose|j: int| 0 <= j < n && (#[trigger] rv[j]).0 == k;
                    assert(resolved@[j].repo@ == se[j].0);
                }
                if set.repositories.view().contains_key(k) {
                    let i = choose|i: int| 0 <= i < se.len() && (#[trigger] se[i]).0 == k;
                    assert(rv[i].0 == resolved@[i].repo@);
                }
            }
        }
    }
    let built_at = utc_now();
    let m = EmittedManifest {
        version: 1,
        name: owned(set.name.as_str()),
        repositories,
        allow_pin_drift: clone_drift(&set.allow_pin_drift),
        resolved: ResolvedBlock {
            built_at,
            built_from: BuiltFrom { manifest: String::new(), context: String::new(), tip },
            host: StrMap::new(),
            pins: Vec::new(),
            versions: StrMap::new(),
            binaries: Vec::new(),
            tiers: Vec::new(),
        },
    };
    Ok(m)
}

// ---------------------------------------------------------------------------
// The agreed pins the manifest records
// ---------------------------------------------------------------------------

/// Every file pinning crate `c`, in pin order.
pub open spec fn pinning_files(pins: Seq<PinView>, c: Seq<char>) -> Seq<Seq<char>>
    decreases pins.len(),
{
    if pins.len() == 0 {
        seq![]
    } else {
        let rest = pinning_files(pins.drop_last(), c);
        if pins.last().crate_name == c {
            rest.push(pins.last().file)
        } else {
            rest
        }
    }
}

/// The mathematical form of a [`Pin`].
pub open spec fn pin_view(p: Pin) -> (Seq<char>, Seq<char>, Seq<char>, Seq<Seq<char>>, Option<Seq<char>>) {
    (
        p.crate_name@,
        p.url@,
        p.tag@,
        strings_view(p.pinned_by@),
        match p.newest_available {
            Some(n) => Some(n@),
            None => None,
        },
    )
}

/// The newest tag available for a pin at `reference`, given the listing of
/// its repository's tags: the newest same-prefix tag when it is ahead.
pub open spec fn newest_available(reference: Seq<char>, answer: Option<Seq<Seq<char>>>) -> Option<Seq<char>> {
    match split_tag_spec(reference) {
        None => None,
        Some((prefix, pinned)) => match answer {
            None => None,
            Some(tags) => match newest_with_prefix(tags, prefix) {
                Some(n) => if version_lt(pinned, n) {
                    Some(prefix + version_text(n))
                } else {
                    None
                },
                None => None,
            },
        },
    }
}

/// The manifest entry for crate `c`: none unless it has exactly one
/// variant (url, kind, reference), the identity gate 1 compares.
pub open spec fn manifest_pin(pins: Seq<PinView>, c: Seq<char>, answer: Option<Seq<Seq<char>>>) -> Option<
    (Seq<char>, Seq<char>, Seq<char>, Seq<Seq<char>>, Option<Seq<char>>),
> {
    let pairs = crate_variants(pins, c);
    if pairs.len() != 1 {
        None
    } else {
        Some((c, pairs[0].0, pairs[0].2, pinning_files(pins, c), newest_available(pairs[0].2, answer)))
    }
}

/// The manifest's pins for the first `n` crates of `cs`.
pub open spec fn manifest_pins(
    pins: Seq<PinView>,
    cs: Seq<Seq<char>>,
    answers: Seq<Option<Seq<Seq<char>>>>,
    n: int,
) -> Seq<(Seq<char>, Seq<char>, Seq<char>, Seq<Seq<char>>, Option<Seq<char>>)>
    decreases n,
{
    if n <= 0 {
        seq![]
    } else {
        let rest = manifest_pins(pins, cs, answers, n - 1);
        match manifest_pin(pins, cs[n - 1], answers[n - 1]) {
            Some(p) => rest.push(p),
            None => rest,
        }
    }
}

/// Crate `c`'s entry asks for its repository's tags.
pub open spec fn pin_asks(pins: Seq<PinView>, c: Seq<char>) -> bool {
    crate_variants(pins, c).len() == 1 && split_tag_spec(crate_variants(pins, c)[0].2) is Some
}

/// Every file pinning crate `c`.
fn files_pinning(pins: &[PinOccurrence], c: &str) -> (r: Vec<String>)
    ensures
        strings_view(r@) == pinning_files(pins_view(pins@), c@),
{
    let ghost pv = pins_view(pins@);
    let mut r: Vec<String> = Vec::new();
    let mut i: usize = 0;
    while i < pins.len()
        invariant
            i <= pins.len(),
            pv == pins_view(pins@),
            strings_view(r@) == pinning_files(pv.take(i as int), c@),
        decreases pins.len() - i,
    {
        assert(pv.take(i + 1).drop_last() =~= pv.take(i as int));
        assert(pv.take(i + 1).last() == pins@[i as int]@);
        if str_eq(pins[i].crate_name.as_str(), c) {
            let ghost before = strings_view(r@);
            let f = owned(pins[i].file.as_str());
            r.push(f);
            assert(strings_view(r@) =~= before.push(f@));
        }
        i = i + 1;
    }
    assert(pv.take(pins.len() as int) =~= pv);
    r
}

/// Converts gate 1's raw occurrences into the emitted manifest's `pins:`
/// block: one entry per crate pinned at exactly one (url, kind, reference), in
/// crate order, with every pinning manifest listed and `newest_available`
/// computed against `local_tags`' listing by the same prefix rule as gate 2.
/// Disagreeing crates are omitted.
pub fn pins_for_manifest<F: Fn(&str) -> Option<Vec<String>>>(pins: &[PinOccurrence], local_tags: F) -> (r:
    Vec<Pin>)
    requires
        forall|u: &str| call_requires(local_tags, (u,)),
    ensures
        exists|answers: Seq<Option<Seq<Seq<char>>>>|
            answers.len() == crates_in_order(pins_view(pins@)).len() && (forall|k: int|
                0 <= k < answers.len() && pin_asks(
                    pins_view(pins@),
                    crates_in_order(pins_view(pins@))[k],
                ) ==> listed(
                    local_tags,
                    crate_variants(pins_view(pins@), crates_in_order(pins_view(pins@))[k])[0].0,
                    #[trigger] answers[k],
                )) && r@.map_values(|p: Pin| pin_view(p)) == manifest_pins(
                pins_view(pins@),
                crates_in_order(pins_view(pins@)),
                answers,
                answers.len() as int,
            ),
{
    let ghost pv = pins_view(pins@);
    let crates = crates_sorted(pins);
    let ghost cs = crates@.map_values(|k: String| k@);
    let ghost mut answers: Seq<Option<Seq<Seq<char>>>> = seq![];
    let mut result: Vec<Pin> = Vec::new();
    let mut i: usize = 0;
    while i < crates.len()
        invariant
            i <= crates.len(),
            pv == pins_view(pins@),
            cs == crates@.map_values(|k: String| k@),
            cs == crates_in_order(pv),
            forall|u: &str| call_requires(local_tags, (u,)),
            answers.len() == i,
            forall|k: int|
                0 <= k < i && pin_asks(pv, cs[k]) ==> listed(
                    local_tags,
                    crate_variants(pv, cs[k])[0].0,
                    #[trigger] answers[k],
                ),
            result@.map_values(|p: Pin| pin_view(p)) == manifest_pins(pv, cs, answers, i as int),
        decreases crates.len() - i,
    {
        let c = crates[i].as_str();
        assert(cs[i as int] == c@);
        let ghost old_answers = answers;
        let pairs = variants_of_crate(pins, c);
        proof {
            answers = answers.push(None);
        }
        if pairs.len() == 1 {
            let url = pairs[0].0.as_str();
            let reference = pairs[0].2.as_str();
            let newest: Option<String> = match split_tag(reference) {
                None => None,
                Some((prefix, pinned)) => {
                    let listing = local_tags(url);
                    assert(call_ensures(local_tags, (url,), listing));
                    proof {
                        answers = old_answers.push(tags_view(listing));
                        assert(listed(local_tags, crate_variants(pv, cs[i as int])[0].0, answers[i as int]));
                    }
                    match listing {
                        None => None,
                        Some(tags) => match newest_tag_version(&tags, prefix) {
                            Some(n) => {
                                if version_less(&pinned, &n) {
                                    let mut text = owned(prefix);
                                    let shown = join_version(&n);
                                    text.append(shown.as_str());
                                    Some(text)
                                } else {
                                    None
                                }
                            },
                            None => None,
                        },
                    }
                },
            };
            let ghost before = result@.map_values(|p: Pin| pin_view(p));
            let pin = Pin {
                crate_name: owned(c),
                url: owned(url),
                tag: owned(reference),
                pinned_by: files_pinning(pins, c),
                newest_available: newest,
            };
            result.push(pin);
            assert(result@.map_values(|p: Pin| pin_view(p)) =~= before.push(pin_view(pin)));
        }
        proof {
            lemma_manifest_pins_prefix(pv, cs, answers, old_answers, i as int);
        }
        i = i + 1;
    }
    result
}

/// The entries for `n` crates read only the first `n` answers.
proof fn lemma_manifest_pins_prefix(
    pins: Seq<PinView>,
    cs: Seq<Seq<char>>,
    a: Seq<Option<Seq<Seq<char>>>>,
    b: Seq<Option<Seq<Seq<char>>>>,
    n: int,
)
    requires
        0 <= n <= a.len(),
        n <= b.len(),
        forall|k: int| 0 <= k < n ==> a[k] == b[k],
    ensures
        manifest_pins(pins, cs, a, n) == manifest_pins(pins, cs, b, n),
    decreases n,
{
    if n > 0 {
        lemma_manifest_pins_prefix(pins, cs, a, b, n - 1);
    }
}


// ---------------------------------------------------------------------------
// Binary digests
// ---------------------------------------------------------------------------

/// The SHA-256 digest of a byte string.
pub uninterp spec fn sha256(bytes: Seq<u8>) -> Seq<u8>;

/// `sha2::Sha256::digest`: claims that the digest is a function of the bytes
/// alone, named [`sha256`], and is 32 bytes long (the output size of the
/// `Sha256` type). The hash function itself is `sha2`'s and is not restated.
#[verifier::external_body]
fn sha256_digest(bytes: &[u8]) -> (r: Vec<u8>)
    ensures
        r@ == sha256(bytes@),
        r@.len() == 32,
{
    <sha2::Sha256 as sha2::Digest>::digest(bytes).to_vec()
}

/// The lowercase hexadecimal digit for `n` (below 16).
pub open spec fn hex_digit(n: u8) -> char {
    if n < 10 {
        ((n + 48) as u8) as char
    } else {
        ((n + 87) as u8) as char
    }
}

/// A byte string in lowercase hexadecimal, two digits a byte, high first.
pub open spec fn hex_text(bytes: Seq<u8>) -> Seq<char>
    decreases bytes.len(),
{
    if bytes.len() == 0 {
        seq![]
    } else {
        hex_text(bytes.drop_last()) + seq![hex_digit(bytes.last() / 16), hex_digit(bytes.last() % 16)]
    }
}

/// The hexadecimal digit for `n`, as a string.
fn hex_str(n: u8) -> (r: &'static str)
    requires
        n < 16,
    ensures
        r@ == seq![hex_digit(n)],
{
    proof {
        reveal_strlit("0");
        reveal_strlit("1");
        reveal_strlit("2");
        reveal_strlit("3");
        reveal_strlit("4");
        reveal_strlit("5");
        reveal_strlit("6");
        reveal_strlit("7");
        reveal_strlit("8");
        reveal_strlit("9");
        reveal_strlit("a");
        reveal_strlit("b");
        reveal_strlit("c");
        reveal_strlit("d");
        reveal_strlit("e");
        reveal_strlit("f");
    }
    if n == 0 {
        "0"
    } else if n == 1 {
        "1"
    } else if n == 2 {
        "2"
    } else if n == 3 {
        "3"
    } else if n == 4 {
        "4"
    } else if n == 5 {
        "5"
    } else if n == 6 {
        "6"
    } else if n == 7 {
        "7"
    } else if n == 8 {
        "8"
    } else if n == 9 {
        "9"
    } else if n == 10 {
        "a"
    } else if n == 11 {
        "b"
    } else if n == 12 {
        "c"
    } else if n == 13 {
        "d"
    } else if n == 14 {
        "e"
    } else {
        "f"
    }
}

/// The SHA-256 digest of `bytes` as lowercase hex, as `format!("{:x}")`
/// writes a digest.
pub fn sha256_hex(bytes: &[u8]) -> (r: String)
    ensures
        r@ == hex_text(sha256(bytes@)),
{
    let digest = sha256_digest(bytes);
    let mut r = String::new();
    let mut i: usize = 0;
    while i < digest.len()
        invariant
            i <= digest.len(),
            r@ == hex_text(digest@.take(i as int)),
        decreases digest.len() - i,
    {
        let b = digest[i];
        r.append(hex_str(b / 16));
        r.append(hex_str(b % 16));
        assert(digest@.take(i + 1).drop_last() =~= digest@.take(i as int));
        assert(r@ =~= hex_text(digest@.take(i + 1)));
        i = i + 1;
    }
    assert(digest@.take(digest.len() as int) =~= digest@);
    r
}

/// Every staged binary of the first `n` recipes: its staged name and the
/// repository that stages it.
pub open spec fn staged_entries(recipes: Seq<RecipeView>, n: int) -> Seq<(Seq<char>, Seq<char>)>
    decreases n,
{
    if n <= 0 {
        seq![]
    } else {
        staged_entries(recipes, n - 1) + recipes[n - 1].staged.map_values(
            |s: crate::build::recipes::StagedView| (s.name, recipes[n - 1].repo),
        )
    }
}

/// The staged entries of the recipes worktrees were built from.
pub open spec fn worktree_entries(worktrees: Seq<(&Recipe, String)>) -> Seq<(Seq<char>, Seq<char>)> {
    staged_entries(worktrees.map_values(|w: (&Recipe, String)| w.0@), worktrees.len() as int)
}

/// `stat` answered `result` for `path`: `Ok(None)` when no regular file is
/// there, the file's bytes, or the error reading it.
pub open spec fn statted<S: Fn(&str) -> Result<Option<Vec<u8>>, String>>(
    stat: S,
    path: Seq<char>,
    result: Result<Option<Seq<u8>>, Seq<char>>,
) -> bool {
    exists|p: &str, r: Result<Option<Vec<u8>>, String>|
        #[trigger] call_ensures(stat, (p,), r) && p@ == path && match (r, result) {
            (Ok(None), Ok(None)) => true,
            (Ok(Some(b)), Ok(Some(c))) => b@ == c,
            (Err(e), Err(f)) => e@ == f,
            _ => false,
        }
}

/// The view of a `stat` answer.
pub open spec fn stat_view(r: Result<Option<Vec<u8>>, String>) -> Result<Option<Seq<u8>>, Seq<char>> {
    match r {
        Ok(None) => Ok(None),
        Ok(Some(b)) => Ok(Some(b@)),
        Err(e) => Err(e@),
    }
}

/// The digests the first `n` staged entries give, reading `answers` for
/// their files; `None` once an answer is an error.
pub open spec fn digests(
    entries: Seq<(Seq<char>, Seq<char>)>,
    answers: Seq<Result<Option<Seq<u8>>, Seq<char>>>,
    n: int,
) -> Result<Seq<(Seq<char>, Seq<char>, nat, Seq<char>)>, Seq<char>>
    decreases n,
{
    if n <= 0 {
        Ok(seq![])
    } else {
        match digests(entries, answers, n - 1) {
            Err(e) => Err(e),
            Ok(acc) => match answers[n - 1] {
                Err(e) => Err(e),
                Ok(None) => Ok(acc),
                Ok(Some(bytes)) => Ok(
                    acc.push((entries[n - 1].0, hex_text(sha256(bytes)), bytes.len(), entries[n - 1].1)),
                ),
            },
        }
    }
}

/// The mathematical form of a [`Binary`].
pub open spec fn binary_view(b: Binary) -> (Seq<char>, Seq<char>, nat, Seq<char>) {
    (b.name@, b.sha256@, b.bytes as nat, b.from@)
}

/// Digests every staged binary in `dist/` for the emitted manifest's
/// `binaries:` block, attributing each to the repository whose recipe
/// staged it. A binary missing after a failed build is simply absent; a file
/// that cannot be read ends the digesting with its error.
pub fn digest_binaries<S: Fn(&str) -> Result<Option<Vec<u8>>, String>>(
    dist: &str,
    worktrees: &[(&Recipe, String)],
    stat: &S,
) -> (r: Result<Vec<Binary>, String>)
    requires
        forall|p: &str| call_requires(*stat, (p,)),
    ensures
        exists|answers: Seq<Result<Option<Seq<u8>>, Seq<char>>>|
            (forall|k: int|
                0 <= k < answers.len() ==> statted(
                    *stat,
                    path_join(dist@, worktree_entries(worktrees@)[k].0),
                    #[trigger] answers[k],
                )) && match r {
                Ok(bs) => answers.len() == worktree_entries(worktrees@).len() && #[trigger] digests(
                    worktree_entries(worktrees@),
                    answers,
                    answers.len() as int,
                ) == Ok::<Seq<(Seq<char>, Seq<char>, nat, Seq<char>)>, Seq<char>>(
                    bs@.map_values(|b: Binary| binary_view(b)),
                ),
                Err(e) => digests(worktree_entries(worktrees@), answers, answers.len() as int)
                    == Err::<Seq<(Seq<char>, Seq<char>, nat, Seq<char>)>, Seq<char>>(e@),
            },
{
    let entries = staged_list(worktrees);
    let ghost ev = crate::build::recipes::pairs_view(entries@);
    let ghost mut answers: Seq<Result<Option<Seq<u8>>, Seq<char>>> = seq![];
    let mut binaries: Vec<Binary> = Vec::new();
    assert(binaries@.map_values(|b: Binary| binary_view(b)) =~= Seq::<(Seq<char>, Seq<char>, nat, Seq<char>)>::empty());
    let mut i: usize = 0;
    while i < entries.len()
        invariant
            i <= entries.len(),
            ev == crate::build::recipes::pairs_view(entries@),
            ev == worktree_entries(worktrees@),
            forall|p: &str| call_requires(*stat, (p,)),
            answers.len() == i,
            forall|k: int|
                0 <= k < i ==> statted(*stat, path_join(dist@, ev[k].0), #[trigger] answers[k]),
            digests(ev, answers, i as int) == Ok::<
                Seq<(Seq<char>, Seq<char>, nat, Seq<char>)>,
                Seq<char>,
            >(binaries@.map_values(|b: Binary| binary_view(b))),
        decreases entries.len() - i,
    {
        let (name, repo) = (&entries[i].0, &entries[i].1);
        assert(ev[i as int] == (name@, repo@));
        let path = join_path(dist, name.as_str());
        let p = path.as_str();
        let answer = stat(p);
        assert(call_ensures(*stat, (p,), answer));
        let ghost old_answers = answers;
        proof {
            answers = answers.push(stat_view(answer));
            assert(statted(*stat, path_join(dist@, ev[i as int].0), answers[i as int]));
            lemma_digests_prefix(ev, answers, old_answers, i as int);
        }
        match answer {
            Err(e) => {
                proof {
                    lemma_digests_error_sticks(ev, answers, i + 1, answers.len() as int);
                }
                return Err(e);
            },
            Ok(None) => {},
            Ok(Some(bytes)) => {
                let ghost before = binaries@.map_values(|b: Binary| binary_view(b));
                let b = Binary {
                    name: owned(name.as_str()),
                    sha256: sha256_hex(bytes.as_slice()),
                    bytes: bytes.len() as u64,
                    from: owned(repo.as_str()),
                };
                binaries.push(b);
                assert(binaries@.map_values(|b: Binary| binary_view(b)) =~= before.push(binary_view(b)));
            },
        }
        i = i + 1;
    }
    Ok(binaries)
}

/// Every staged entry of the worktrees' recipes, flattened.
fn staged_list(worktrees: &[(&Recipe, String)]) -> (r: Vec<(String, String)>)
    ensures
        crate::build::recipes::pairs_view(r@) == worktree_entries(worktrees@),
{
    let ghost rv = worktrees@.map_values(|w: (&Recipe, String)| w.0@);
    let mut r: Vec<(String, String)> = Vec::new();
    let mut i: usize = 0;
    while i < worktrees.len()
        invariant
            i <= worktrees.len(),
            rv == worktrees@.map_values(|w: (&Recipe, String)| w.0@),
            crate::build::recipes::pairs_view(r@) == staged_entries(rv, i as int),
        decreases worktrees.len() - i,
    {
        let recipe = worktrees[i].0;
        assert(rv[i as int] == recipe@);
        let ghost prefix = staged_entries(rv, i as int);
        let ghost here = recipe@.staged.map_values(
            |s: crate::build::recipes::StagedView| (s.name, recipe@.repo),
        );
        let mut j: usize = 0;
        while j < recipe.staged.len()
            invariant
                j <= recipe.staged.len(),
                here == recipe@.staged.map_values(
                    |s: crate::build::recipes::StagedView| (s.name, recipe@.repo),
                ),
                crate::build::recipes::pairs_view(r@) == prefix + here.take(j as int),
            decreases recipe.staged.len() - j,
        {
            let ghost before = crate::build::recipes::pairs_view(r@);
            let e = (owned(recipe.staged[j].name.as_str()), owned(recipe.repo.as_str()));
            r.push(e);
            assert(here[j as int] == (e.0@, e.1@));
            assert(crate::build::recipes::pairs_view(r@) =~= before.push((e.0@, e.1@)));
            assert(here.take(j + 1) =~= here.take(j as int).push(here[j as int]));
            assert(prefix + here.take(j + 1) =~= (prefix + here.take(j as int)).push(here[j as int]));
            j = j + 1;
        }
        assert(here.take(recipe.staged.len() as int) =~= here);
        i = i + 1;
    }
    r
}

/// Once an answer is an error, digests over longer prefixes report it.
proof fn lemma_digests_error_sticks(
    entries: Seq<(Seq<char>, Seq<char>)>,
    answers: Seq<Result<Option<Seq<u8>>, Seq<char>>>,
    k: int,
    n: int,
)
    requires
        0 < k <= n,
        digests(entries, answers, k) is Err,
    ensures
        digests(entries, answers, n) == digests(entries, answers, k),
    decreases n - k,
{
    if n > k {
        lemma_digests_error_sticks(entries, answers, k, n - 1);
    }
}

/// Digests read only the entries and answers they reach.
proof fn lemma_digests_prefix(
    entries: Seq<(Seq<char>, Seq<char>)>,
    a: Seq<Result<Option<Seq<u8>>, Seq<char>>>,
    b: Seq<Result<Option<Seq<u8>>, Seq<char>>>,
    n: int,
)
    requires
        0 <= n <= a.len(),
        n <= b.len(),
        forall|k: int| 0 <= k < n ==> a[k] == b[k],
    ensures
        digests(entries, a, n) == digests(entries, b, n),
    decreases n,
{
    if n > 0 {
        lemma_digests_prefix(entries, a, b, n - 1);
    }
}

// ---------------------------------------------------------------------------
// What a real build stamps into the manifest
// ---------------------------------------------------------------------------

/// The host block after the first `n` toolchain answers: `os` and `arch`,
/// then each toolchain whose version command answered with its first line.
pub open spec fn host_map(
    os: Seq<char>,
    arch: Seq<char>,
    tools: Seq<(Seq<char>, Option<Seq<char>>)>,
    n: int,
) -> Map<Seq<char>, Seq<char>>
    decreases n,
{
    if n <= 0 {
        Map::empty().insert("os"@, os).insert("arch"@, arch)
    } else {
        let m = host_map(os, arch, tools, n - 1);
        match tools[n - 1].1 {
            Some(out) => if crate::text::lines(out).len() > 0 {
                m.insert(tools[n - 1].0, crate::text::lines(out)[0])
            } else {
                m
            },
            None => m,
        }
    }
}

/// The views of toolchain answers.
pub open spec fn tools_view(v: Seq<(String, Option<String>)>) -> Seq<(Seq<char>, Option<Seq<char>>)> {
    v.map_values(
        |t: (String, Option<String>)|
            (
                t.0@,
                match t.1 {
                    Some(o) => Some(o@),
                    None => None,
                },
            ),
    )
}

/// The manifest's host block: the os and arch, and the version line of each
/// toolchain that produced binaries. A tool whose version command did not
/// succeed (`None`) is recorded as absent rather than failing the build;
/// otherwise the first line of what it printed is its version.
pub fn host_stamps(os: &str, arch: &str, tools: &Vec<(String, Option<String>)>) -> (r: StrMap)
    ensures
        r.view() == host_map(os@, arch@, tools_view(tools@), tools@.len() as int),
{
    let ghost tv = tools_view(tools@);
    let mut host = StrMap::new();
    host.insert("os", owned(os));
    host.insert("arch", owned(arch));
    let mut i: usize = 0;
    while i < tools.len()
        invariant
            i <= tools.len(),
            tv == tools_view(tools@),
            host.view() == host_map(os@, arch@, tv, i as int),
        decreases tools.len() - i,
    {
        match &tools[i].1 {
            Some(out) => {
                let ls = crate::text::str_lines(out.as_str());
                if ls.len() > 0 {
                    host.insert(tools[i].0.as_str(), owned(ls[0]));
                }
            },
            None => {},
        }
        i = i + 1;
    }
    host
}

/// Stamps what a real build knows into an emitted manifest: the input it was
/// built from, the context checkout's sha, the host, the agreed pins, the two
/// gate-3 versions when they parsed, and the staged binaries' digests.
pub fn stamp_manifest(
    m: &mut EmittedManifest,
    manifest_path: &str,
    context_sha: &str,
    host: StrMap,
    pins: Vec<Pin>,
    zplc: Option<&str>,
    vs_policy_min_compiler: Option<&str>,
    binaries: Vec<Binary>,
)
    ensures
        final(m).version == old(m).version,
        final(m).name == old(m).name,
        final(m).repositories == old(m).repositories,
        final(m).allow_pin_drift == old(m).allow_pin_drift,
        final(m).resolved.built_at == old(m).resolved.built_at,
        final(m).resolved.built_from.tip == old(m).resolved.built_from.tip,
        final(m).resolved.built_from.manifest@ == manifest_path@,
        final(m).resolved.built_from.context@ == context_sha@,
        final(m).resolved.host == host,
        final(m).resolved.pins == pins,
        final(m).resolved.binaries == binaries,
        final(m).resolved.tiers == old(m).resolved.tiers,
        final(m).resolved.versions.view() == ({
            let v = old(m).resolved.versions.view();
            let v = match zplc {
                Some(z) => v.insert("zplc"@, z@),
                None => v,
            };
            match vs_policy_min_compiler {
                Some(x) => v.insert("vs_policy_min_compiler"@, x@),
                None => v,
            }
        }),
{
    m.resolved.built_from.manifest = owned(manifest_path);
    m.resolved.built_from.context = owned(context_sha);
    m.resolved.host = host;
    m.resolved.pins = pins;
    match zplc {
        Some(z) => m.resolved.versions.insert("zplc", owned(z)),
        None => {},
    }
    match vs_policy_min_compiler {
        Some(x) => m.resolved.versions.insert("vs_policy_min_compiler", owned(x)),
        None => {},
    }
    m.resolved.binaries = binaries;
}

} // verus!
