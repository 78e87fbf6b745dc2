//! The three compatibility gates of `zpr-dev build`. Gate 1 (error): every
//! ZPR-family git dependency pin agrees across the whole set, one `(url,
//! tag-or-rev)` per crate. Gate 2 (warning): an agreed pin behind the newest
//! local tag is reported. Gate 3 (error): the compiler's version satisfies
//! the visa service's `POLICY_MIN_COMPILER_*` under the rule major ==,
//! minor ==, patch >=.

use vstd::prelude::*;

use crate::build::{PinDrift, drift_view};
use crate::order::{
    StrMap, is_strict_order, lemma_sorted_by_unique, lemma_sorted_strings, lemma_str_lt_asymmetric,
    lemma_str_lt_irreflexive, lemma_str_lt_total, lemma_str_lt_transitive, sorted_by,
    sorted_strings, str_less, str_lt, strictly_sorted,
};
use crate::text::{
    contains, starts_with, str_contains, str_strip_prefix, str_trim_start, trim_start,
    after_first, debug_str, decimal, is_digit, join, join_strings, lines, owned, parse_u64,
    split_char, str_after_first, str_debug, str_eq, str_lines, str_parse_u64, str_split_char,
    str_strip_suffix, str_trim, str_trim_end_char, to_chars, trim, trim_end_char, u64_parse_error,
    u64_parse_error_text, u64_to_string,
};
use crate::toml_tree::{
    TomlValue, collect_git_deps, collect_workspace_inherited, deps_view, git_deps, inherited_keys,
    parse_toml, table_get, toml_document, toml_get,
};

verus! {

/// Severity of one gate finding: only errors decide the exit code.
#[derive(Debug, Clone, Copy, PartialEq, Eq, Structural, PartialOrd, Ord)]
pub enum Severity {
    /// A check that passed (reported `[OK]`).
    Pass,
    Info,
    Warn,
    Error,
}

/// One finding a gate produced. `message` may span lines; the first line is
/// the summary and continuation lines are already indented for the report.
#[derive(Debug)]
pub struct Finding {
    pub severity: Severity,
    pub message: String,
}

impl View for Finding {
    type V = (Severity, Seq<char>);

    open spec fn view(&self) -> (Severity, Seq<char>) {
        (self.severity, self.message@)
    }
}

/// The views of a list of findings.
pub open spec fn findings_view(f: Seq<Finding>) -> Seq<(Severity, Seq<char>)> {
    f.map_values(|x: Finding| x@)
}

impl Finding {
    /// One finding.
    pub fn new(severity: Severity, message: String) -> (f: Finding)
        ensures
            f@ == (severity, message@),
    {
        Finding { severity, message }
    }
}

/// How a git dependency names its source revision. Part of what a pin means:
/// git resolves `tag = "release"` and `branch = "release"` to possibly
/// different commits.
#[derive(Debug, Clone, Copy, PartialEq, Eq, Structural, PartialOrd, Ord)]
pub enum RefKind {
    Tag,
    Rev,
    Branch,
}

/// The manifest key that declares a kind.
pub open spec fn kind_label(kind: RefKind) -> Seq<char> {
    match kind {
        RefKind::Tag => "tag"@,
        RefKind::Rev => "rev"@,
        RefKind::Branch => "branch"@,
    }
}

/// The kinds' declaration order, which their `Ord` follows.
pub open spec fn kind_rank(kind: RefKind) -> int {
    match kind {
        RefKind::Tag => 0,
        RefKind::Rev => 1,
        RefKind::Branch => 2,
    }
}

impl RefKind {
    /// The manifest key that declares this kind (`tag = ...`), which is how
    /// reports spell it so the reader can find the declaration.
    pub fn label(self) -> (r: &'static str)
        ensures
            r@ == kind_label(self),
    {
        match self {
            RefKind::Tag => "tag",
            RefKind::Rev => "rev",
            RefKind::Branch => "branch",
        }
    }
}

/// One occurrence of a git-pinned dependency in one `Cargo.toml`.
#[derive(Debug, Clone)]
pub struct PinOccurrence {
    /// The crate cargo resolves: the dependency key, or its `package` rename.
    pub crate_name: String,
    /// The `git = <url>` value, verbatim.
    pub url: String,
    /// The tag, rev or branch value.
    pub reference: String,
    pub kind: RefKind,
    /// Workspace-relative display path of the pinning `Cargo.toml`.
    pub file: String,
    /// 1-based line of the declaration; 0 when it could not be located.
    pub line: usize,
    /// True when the pin reaches this file through `{ workspace = true }`.
    pub inherited: bool,
}

/// The mathematical form of a [`PinOccurrence`].
pub struct PinView {
    pub crate_name: Seq<char>,
    pub url: Seq<char>,
    pub reference: Seq<char>,
    pub kind: RefKind,
    pub file: Seq<char>,
    pub line: nat,
    pub inherited: bool,
}

impl View for PinOccurrence {
    type V = PinView;

    open spec fn view(&self) -> PinView {
        PinView {
            crate_name: self.crate_name@,
            url: self.url@,
            reference: self.reference@,
            kind: self.kind,
            file: self.file@,
            line: self.line as nat,
            inherited: self.inherited,
        }
    }
}

/// The views of a list of pins.
pub open spec fn pins_view(pins: Seq<PinOccurrence>) -> Seq<PinView> {
    pins.map_values(|p: PinOccurrence| p@)
}

/// One `Cargo.toml` handed to pin extraction: its display path and its text.
pub struct ManifestSource {
    pub path: String,
    pub text: String,
}

/// One resolved `Cargo.lock` handed to the dual-version scan: its display
/// path and its text.
pub struct LockSource {
    pub path: String,
    pub text: String,
}

// ---------------------------------------------------------------------------
// Gate 1: shared-dep agreement
// ---------------------------------------------------------------------------

/// A pin's identity for agreement: url, kind and reference.
pub open spec fn variant_of(p: PinView) -> (Seq<char>, RefKind, Seq<char>) {
    (p.url, p.kind, p.reference)
}

/// The order of `(url, kind, reference)` tuples: by url, then kind, then
/// reference.
pub open spec fn variant_lt(a: (Seq<char>, RefKind, Seq<char>), b: (Seq<char>, RefKind, Seq<char>)) -> bool {
    str_lt(a.0, b.0) || (a.0 == b.0 && (kind_rank(a.1) < kind_rank(b.1) || (a.1 == b.1 && str_lt(
        a.2,
        b.2,
    ))))
}

/// Every crate the pins name.
pub open spec fn crate_set(pins: Seq<PinView>) -> Set<Seq<char>> {
    Set::new(|c: Seq<char>| exists|i: int| 0 <= i < pins.len() && #[trigger] pins[i].crate_name == c)
}

/// The crates the pins name, in order.
pub open spec fn crates_in_order(pins: Seq<PinView>) -> Seq<Seq<char>> {
    sorted_strings(crate_set(pins))
}

/// The distinct variants crate `c` is pinned at.
pub open spec fn crate_variant_set(pins: Seq<PinView>, c: Seq<char>) -> Set<(Seq<char>, RefKind, Seq<char>)> {
    Set::new(
        |v: (Seq<char>, RefKind, Seq<char>)|
            exists|i: int|
                0 <= i < pins.len() && pins[i].crate_name == c && #[trigger] variant_of(pins[i]) == v,
    )
}

/// The variant order as a relation.
pub open spec fn variant_order() -> spec_fn((Seq<char>, RefKind, Seq<char>), (Seq<char>, RefKind, Seq<char>)) -> bool {
    |a: (Seq<char>, RefKind, Seq<char>), b: (Seq<char>, RefKind, Seq<char>)| variant_lt(a, b)
}

/// `q` lists the distinct variants of crate `c` in order.
pub open spec fn lists_variants(pins: Seq<PinView>, c: Seq<char>, q: Seq<(Seq<char>, RefKind, Seq<char>)>) -> bool {
    sorted_by(q, variant_order()) && forall|v: (Seq<char>, RefKind, Seq<char>)|
        q.contains(v) <==> crate_variant_set(pins, c).contains(v)
}

/// The distinct variants crate `c` is pinned at, in order.
pub open spec fn crate_variants(pins: Seq<PinView>, c: Seq<char>) -> Seq<(Seq<char>, RefKind, Seq<char>)> {
    choose|q: Seq<(Seq<char>, RefKind, Seq<char>)>| #[trigger] lists_variants(pins, c, q)
}

/// Where a pin is declared, as a report names it.
pub open spec fn pin_display(p: PinView) -> Seq<char> {
    p.file + ":"@ + decimal(p.line) + if p.inherited {
        " (inherited)"@
    } else {
        ""@
    }
}

/// Every place crate `c` is pinned at variant `v`, in pin order.
pub open spec fn pinned_by(pins: Seq<PinView>, c: Seq<char>, v: (Seq<char>, RefKind, Seq<char>)) -> Seq<
    Seq<char>,
>
    decreases pins.len(),
{
    if pins.len() == 0 {
        seq![]
    } else {
        let rest = pinned_by(pins.drop_last(), c, v);
        if pins.last().crate_name == c && variant_of(pins.last()) == v {
            rest.push(pin_display(pins.last()))
        } else {
            rest
        }
    }
}

/// One variant's report line.
pub open spec fn variant_line(pins: Seq<PinView>, c: Seq<char>, v: (Seq<char>, RefKind, Seq<char>)) -> Seq<
    char,
> {
    "\n  "@ + kind_label(v.1) + " "@ + v.2 + "  "@ + v.0 + "  "@ + join(pinned_by(pins, c, v), ", "@)
}

/// The report lines of the first `n` variants.
pub open spec fn variant_lines(
    pins: Seq<PinView>,
    c: Seq<char>,
    vs: Seq<(Seq<char>, RefKind, Seq<char>)>,
    n: int,
) -> Seq<char>
    decreases n,
{
    if n <= 0 {
        seq![]
    } else {
        variant_lines(pins, c, vs, n - 1) + variant_line(pins, c, vs[n - 1])
    }
}

/// The remedy line of a disagreement.
pub open spec fn remedy_line() -> Seq<char> {
    "\n  => cut one tag and bump every consumer, or record it in allow_pin_drift"@
}

/// The disagreement report for crate `c`: every variant with every file and
/// line pinning it, the kind spelled, inheritance marked, the remedy last.
pub open spec fn disagreement_message(pins: Seq<PinView>, c: Seq<char>) -> Seq<char> {
    let vs = crate_variants(pins, c);
    "pin disagreement: crate `"@ + c + "`"@ + variant_lines(pins, c, vs, vs.len() as int)
        + remedy_line()
}

/// The reason of the first drift entry for crate `c`.
pub open spec fn first_drift(drift: Seq<(Seq<char>, Seq<char>)>, c: Seq<char>) -> Option<Seq<char>>
    decreases drift.len(),
{
    if drift.len() == 0 {
        None
    } else if drift[0].0 == c {
        Some(drift[0].1)
    } else {
        first_drift(drift.drop_first(), c)
    }
}

/// What gate 1 says of crate `c`: nothing when its pins agree; the approved
/// reason when a drift entry tolerates it; otherwise the disagreement, an
/// error, or a warning under `downgrade`.
pub open spec fn crate_finding(
    pins: Seq<PinView>,
    drift: Seq<(Seq<char>, Seq<char>)>,
    downgrade: bool,
    c: Seq<char>,
) -> Option<(Severity, Seq<char>)> {
    if crate_variants(pins, c).len() <= 1 {
        None
    } else {
        match first_drift(drift, c) {
            Some(reason) => Some(
                (Severity::Info, "pin drift allowed for crate `"@ + c + "`: "@ + reason),
            ),
            None => Some(
                (
                    if downgrade {
                        Severity::Warn
                    } else {
                        Severity::Error
                    },
                    disagreement_message(pins, c),
                ),
            ),
        }
    }
}

/// Gate 1's findings for the first `n` crates of `cs`.
pub open spec fn crate_findings(
    pins: Seq<PinView>,
    drift: Seq<(Seq<char>, Seq<char>)>,
    downgrade: bool,
    cs: Seq<Seq<char>>,
    n: int,
) -> Seq<(Severity, Seq<char>)>
    decreases n,
{
    if n <= 0 {
        seq![]
    } else {
        let rest = crate_findings(pins, drift, downgrade, cs, n - 1);
        match crate_finding(pins, drift, downgrade, cs[n - 1]) {
            Some(f) => rest.push(f),
            None => rest,
        }
    }
}

/// How many of the first `n` crates of `cs` agree.
pub open spec fn agreeing_count(pins: Seq<PinView>, cs: Seq<Seq<char>>, n: int) -> nat
    decreases n,
{
    if n <= 0 {
        0
    } else {
        agreeing_count(pins, cs, n - 1) + if crate_variants(pins, cs[n - 1]).len() <= 1 {
            1nat
        } else {
            0nat
        }
    }
}

/// The census line for `n` agreeing crates.
pub open spec fn agreement_line(n: nat) -> Seq<char> {
    "pin agreement: "@ + decimal(n) + " "@ + (if n == 1 {
        "crate"@
    } else {
        "crates"@
    }) + " pinned consistently"@
}

/// Gate 1: one finding per crate that does not agree, in crate order, then
/// the census of agreeing crates when there are any.
pub open spec fn gate_pin_agreement_spec(
    pins: Seq<PinView>,
    drift: Seq<(Seq<char>, Seq<char>)>,
    downgrade: bool,
) -> Seq<(Severity, Seq<char>)> {
    let cs = crates_in_order(pins);
    let n = agreeing_count(pins, cs, cs.len() as int);
    crate_findings(pins, drift, downgrade, cs, cs.len() as int) + if n > 0 {
        seq![(Severity::Pass, agreement_line(n))]
    } else {
        seq![]
    }
}


/// The variant order is a strict order, and total on distinct variants.
pub proof fn lemma_variant_order()
    ensures
        is_strict_order(variant_order()),
        forall|a: (Seq<char>, RefKind, Seq<char>), b: (Seq<char>, RefKind, Seq<char>)|
            a != b ==> #[trigger] variant_lt(a, b) || variant_lt(b, a),
{
    assert forall|a: (Seq<char>, RefKind, Seq<char>)| !#[trigger] (variant_order())(a, a) by {
        lemma_str_lt_irreflexive(a.0);
        lemma_str_lt_irreflexive(a.2);
    }
    assert forall|
        a: (Seq<char>, RefKind, Seq<char>),
        b: (Seq<char>, RefKind, Seq<char>),
        c: (Seq<char>, RefKind, Seq<char>),
    | #[trigger] (variant_order())(a, b) && #[trigger] (variant_order())(b, c) implies (
    variant_order())(a, c) by {
        if str_lt(a.0, b.0) && str_lt(b.0, c.0) {
            lemma_str_lt_transitive(a.0, b.0, c.0);
        }
        if a.0 == b.0 && b.0 == c.0 && a.1 == b.1 && b.1 == c.1 {
            if str_lt(a.2, b.2) && str_lt(b.2, c.2) {
                lemma_str_lt_transitive(a.2, b.2, c.2);
            }
        }
    }
    assert forall|a: (Seq<char>, RefKind, Seq<char>), b: (Seq<char>, RefKind, Seq<char>)|
        a != b implies #[trigger] variant_lt(a, b) || variant_lt(b, a) by {
        if a.0 != b.0 {
            lemma_str_lt_total(a.0, b.0);
        } else if a.1 == b.1 {
            assert(a.2 != b.2);
            lemma_str_lt_total(a.2, b.2);
        }
    }
}

/// `a < b` in the variant order.
fn variant_less(a: &(String, RefKind, String), b: &(String, RefKind, String)) -> (r: bool)
    ensures
        r == variant_lt((a.0@, a.1, a.2@), (b.0@, b.1, b.2@)),
{
    if str_less(a.0.as_str(), b.0.as_str()) {
        return true;
    }
    if !str_eq(a.0.as_str(), b.0.as_str()) {
        return false;
    }
    let ra: u8 = match a.1 {
        RefKind::Tag => 0,
        RefKind::Rev => 1,
        RefKind::Branch => 2,
    };
    let rb: u8 = match b.1 {
        RefKind::Tag => 0,
        RefKind::Rev => 1,
        RefKind::Branch => 2,
    };
    if ra < rb {
        return true;
    }
    ra == rb && str_less(a.2.as_str(), b.2.as_str())
}

/// The views of a list of variants.
pub open spec fn variants_view(v: Seq<(String, RefKind, String)>) -> Seq<(Seq<char>, RefKind, Seq<char>)> {
    v.map_values(|x: (String, RefKind, String)| (x.0@, x.1, x.2@))
}

/// The crates the pins name, in order.
pub(crate) fn crates_sorted(pins: &[PinOccurrence]) -> (r: Vec<String>)
    ensures
        r@.map_values(|k: String| k@) == crates_in_order(pins_view(pins@)),
{
    let ghost pv = pins_view(pins@);
    let mut m = StrMap::new();
    let mut i: usize = 0;
    while i < pins.len()
        invariant
            i <= pins.len(),
            pv == pins_view(pins@),
            forall|k: Seq<char>|
                m.view().contains_key(k) <==> exists|j: int| 0 <= j < i && #[trigger] pv[j].crate_name == k,
        decreases pins.len() - i,
    {
        m.insert(pins[i].crate_name.as_str(), String::new());
        proof {
            assert forall|k: Seq<char>|
                m.view().contains_key(k) <==> exists|j: int| 0 <= j < i + 1 && #[trigger] pv[j].crate_name == k by {
                if k == pv[i as int].crate_name {
                    assert(pv[i as int].crate_name == k);
                }
            }
        }
        i = i + 1;
    }
    let r = m.keys();
    proof {
        let ks = r@.map_values(|k: String| k@);
        assert forall|x: Seq<char>| ks.contains(x) <==> crate_set(pv).contains(x) by {
            if ks.contains(x) {
                assert(m.view().contains_key(x));
                let j = choose|j: int| 0 <= j < pins.len() && #[trigger] pv[j].crate_name == x;
                assert(pv[j].crate_name == x);
            }
            if crate_set(pv).contains(x) {
                let j = choose|j: int| 0 <= j < pv.len() && #[trigger] pv[j].crate_name == x;
                assert(pv[j].crate_name == x);
                assert(m.view().contains_key(x));
            }
        }
        lemma_sorted_strings(ks, crate_set(pv));
    }
    r
}

/// Adds `v` to a sorted, duplicate-free list of variants, keeping it so.
pub(crate) fn insert_variant(vs: &mut Vec<(String, RefKind, String)>, v: (String, RefKind, String))
    requires
        sorted_by(variants_view(old(vs)@), variant_order()),
    ensures
        sorted_by(variants_view(final(vs)@), variant_order()),
        forall|w: (Seq<char>, RefKind, Seq<char>)|
            variants_view(final(vs)@).contains(w) <==> (variants_view(old(vs)@).contains(w) || w == (
                v.0@,
                v.1,
                v.2@,
            )),
{
    proof {
        lemma_variant_order();
    }
    let ghost vv = (v.0@, v.1, v.2@);
    let ghost old_view = variants_view(vs@);
    let mut p: usize = 0;
    while p < vs.len() && variant_less(&vs[p], &v)
        invariant
            p <= vs.len(),
            old_view == variants_view(vs@),
            vv == (v.0@, v.1, v.2@),
            forall|j: int| 0 <= j < p ==> variant_lt(#[trigger] old_view[j], vv),
        decreases vs.len() - p,
    {
        p = p + 1;
    }
    let present = p < vs.len() && !variant_less(&v, &vs[p]);
    if !present {
        vs.insert(p, v);
        proof {
            let nv = variants_view(vs@);
            assert(nv =~= old_view.insert(p as int, vv));
            if p < old_view.len() {
                assert(variant_lt(vv, old_view[p as int]));
                assert((variant_order())(vv, old_view[p as int]));
            }
            assert forall|a: int, b: int| 0 <= a < b < nv.len() implies (variant_order())(
                #[trigger] nv[a],
                #[trigger] nv[b],
            ) by {
                if b < p {
                    assert((variant_order())(old_view[a], old_view[b]));
                } else if b == p {
                    assert(variant_lt(old_view[a], vv));
                } else if a == p {
                    if b - 1 > p {
                        assert((variant_order())(old_view[p as int], old_view[b - 1]));
                    }
                } else if a < p {
                    assert(variant_lt(old_view[a], vv));
                    if b - 1 > p {
                        assert((variant_order())(old_view[p as int], old_view[b - 1]));
                    }
                } else {
                    assert((variant_order())(old_view[a - 1], old_view[b - 1]));
                }
            }
            assert forall|w: (Seq<char>, RefKind, Seq<char>)|
                nv.contains(w) <==> (old_view.contains(w) || w == vv) by {
                if nv.contains(w) {
                    let k = choose|k: int| 0 <= k < nv.len() && nv[k] == w;
                    if k < p {
                        assert(old_view[k] == w);
                    } else if k > p {
                        assert(old_view[k - 1] == w);
                    }
                }
                if old_view.contains(w) {
                    let k = choose|k: int| 0 <= k < old_view.len() && old_view[k] == w;
                    if k < p {
                        assert(nv[k] == w);
                    } else {
                        assert(nv[k + 1] == w);
                    }
                }
                if w == vv {
                    assert(nv[p as int] == w);
                }
            }
        }
    } else {
        proof {
            assert(!variant_lt(old_view[p as int], vv));
            assert(!variant_lt(vv, old_view[p as int]));
            assert(old_view[p as int] == vv);
        }
    }
}

/// The distinct variants crate `c` is pinned at, in order.
pub(crate) fn variants_of_crate(pins: &[PinOccurrence], c: &str) -> (r: Vec<(String, RefKind, String)>)
    ensures
        variants_view(r@) == crate_variants(pins_view(pins@), c@),
{
    let ghost pv = pins_view(pins@);
    proof {
        lemma_variant_order();
    }
    let mut vs: Vec<(String, RefKind, String)> = Vec::new();
    let mut i: usize = 0;
    while i < pins.len()
        invariant
            i <= pins.len(),
            pv == pins_view(pins@),
            sorted_by(variants_view(vs@), variant_order()),
            forall|v: (Seq<char>, RefKind, Seq<char>)|
                variants_view(vs@).contains(v) <==> exists|j: int|
                    0 <= j < i && pv[j].crate_name == c@ && #[trigger] variant_of(pv[j]) == v,
        decreases pins.len() - i,
    {
        let pin = &pins[i];
        assert(pv[i as int] == pin@);
        if str_eq(pin.crate_name.as_str(), c) {
            let v = (owned(pin.url.as_str()), pin.kind, owned(pin.reference.as_str()));
            let ghost vv = (v.0@, v.1, v.2@);
            assert(vv == variant_of(pv[i as int]));
            insert_variant(&mut vs, v);
            proof {
                assert forall|w: (Seq<char>, RefKind, Seq<char>)|
                    variants_view(vs@).contains(w) <==> exists|j: int|
                        0 <= j < i + 1 && pv[j].crate_name == c@ && #[trigger] variant_of(pv[j]) == w by {
                    if w == vv {
                        assert(variant_of(pv[i as int]) == w);
                    }
                }
            }
        } else {
            proof {
                assert forall|w: (Seq<char>, RefKind, Seq<char>)|
                    variants_view(vs@).contains(w) <==> exists|j: int|
                        0 <= j < i + 1 && pv[j].crate_name == c@ && #[trigger] variant_of(pv[j]) == w by {
                    if exists|j: int| 0 <= j < i + 1 && pv[j].crate_name == c@ && #[trigger] variant_of(pv[j]) == w {
                        let j = choose|j: int| 0 <= j < i + 1 && pv[j].crate_name == c@ && #[trigger] variant_of(pv[j]) == w;
                        assert(j != i);
                    }
                }
            }
        }
        i = i + 1;
    }
    proof {
        let q = variants_view(vs@);
        assert(lists_variants(pv, c@, q));
        let chosen = crate_variants(pv, c@);
        assert(lists_variants(pv, c@, chosen));
        lemma_sorted_by_unique(q, chosen, variant_order());
    }
    vs
}

/// Where a pin is declared, as a report names it.
fn pin_location(pin: &PinOccurrence) -> (r: String)
    ensures
        r@ == pin_display(pin@),
{
    let mut r = owned(pin.file.as_str());
    r.append(":");
    let line = u64_to_string(pin.line as u64);
    r.append(line.as_str());
    if pin.inherited {
        r.append(" (inherited)");
    }
    proof {
        reveal_strlit("");
    }
    assert(r@ =~= pin_display(pin@));
    r
}

/// Every place crate `c` is pinned at variant `v`, in pin order.
fn pinned_by_exec(pins: &[PinOccurrence], c: &str, v: &(String, RefKind, String)) -> (r: Vec<String>)
    ensures
        r@.map_values(|s: String| s@) == pinned_by(pins_view(pins@), c@, (v.0@, v.1, v.2@)),
{
    let ghost pv = pins_view(pins@);
    let ghost vv = (v.0@, v.1, v.2@);
    let mut r: Vec<String> = Vec::new();
    let mut i: usize = 0;
    while i < pins.len()
        invariant
            i <= pins.len(),
            pv == pins_view(pins@),
            vv == (v.0@, v.1, v.2@),
            r@.map_values(|s: String| s@) == pinned_by(pv.take(i as int), c@, vv),
        decreases pins.len() - i,
    {
        let pin = &pins[i];
        assert(pv.take(i + 1).drop_last() =~= pv.take(i as int));
        assert(pv.take(i + 1).last() == pin@);
        let matches = str_eq(pin.crate_name.as_str(), c) && str_eq(pin.url.as_str(), v.0.as_str())
            && pin.kind == v.1 && str_eq(pin.reference.as_str(), v.2.as_str());
        if matches {
            let ghost before = r@;
            let d = pin_location(pin);
            r.push(d);
            assert(r@.map_values(|s: String| s@) =~= before.map_values(|s: String| s@).push(d@));
        }
        i = i + 1;
    }
    assert(pv.take(pins.len() as int) =~= pv);
    r
}

/// The disagreement report for one crate.
fn disagreement_text(pins: &[PinOccurrence], c: &str, vs: &Vec<(String, RefKind, String)>) -> (r: String)
    requires
        variants_view(vs@) == crate_variants(pins_view(pins@), c@),
    ensures
        r@ == disagreement_message(pins_view(pins@), c@),
{
    let ghost pv = pins_view(pins@);
    let ghost vv = variants_view(vs@);
    let mut message = owned("pin disagreement: crate `");
    message.append(c);
    message.append("`");
    let ghost head = message@;
    let mut k: usize = 0;
    while k < vs.len()
        invariant
            k <= vs.len(),
            pv == pins_view(pins@),
            vv == variants_view(vs@),
            message@ == head + variant_lines(pv, c@, vv, k as int),
        decreases vs.len() - k,
    {
        let v = &vs[k];
        assert(vv[k as int] == (v.0@, v.1, v.2@));
        let places = pinned_by_exec(pins, c, v);
        let joined = join_strings(&places, ", ");
        message.append("\n  ");
        message.append(v.1.label());
        message.append(" ");
        message.append(v.2.as_str());
        message.append("  ");
        message.append(v.0.as_str());
        message.append("  ");
        message.append(joined.as_str());
        assert(message@ =~= head + variant_lines(pv, c@, vv, k + 1));
        k = k + 1;
    }
    message.append("\n  => cut one tag and bump every consumer, or record it in allow_pin_drift");
    message
}

/// The reason of the first drift entry for a crate.
fn drift_reason<'a>(drift: &'a [PinDrift], c: &str) -> (r: Option<&'a String>)
    ensures
        match r {
            Some(reason) => first_drift(drift_view(drift@), c@) == Some(reason@),
            None => first_drift(drift_view(drift@), c@) is None,
        },
{
    let ghost dv = drift_view(drift@);
    let mut i: usize = 0;
    assert(dv.skip(0) =~= dv);
    while i < drift.len()
        invariant
            i <= drift.len(),
            dv == drift_view(drift@),
            first_drift(dv, c@) == first_drift(dv.skip(i as int), c@),
        decreases drift.len() - i,
    {
        assert(dv.skip(i as int)[0] == dv[i as int]);
        assert(dv.skip(i as int).drop_first() =~= dv.skip(i + 1));
        if str_eq(drift[i].crate_name.as_str(), c) {
            return Some(&drift[i].reason);
        }
        i = i + 1;
    }
    assert(dv.skip(i as int) =~= Seq::<(Seq<char>, Seq<char>)>::empty());
    None
}

/// Gate 1: shared-dep agreement. Groups the pins by crate and requires a
/// single `(url, kind, reference)` across the whole set: a crate at two tags
/// is a disagreement, one tag reached from two URLs is one, and the same
/// reference text through two kinds is one too. An `allow_pin_drift` entry
/// suppresses exactly its crate's finding, echoing the approved reason;
/// `downgrade` turns every disagreement into a warning. Crates are reported
/// in order, and the agreeing ones are counted in a closing `[OK]` line.
pub fn gate_pin_agreement(pins: &[PinOccurrence], drift: &[PinDrift], downgrade: bool) -> (r: Vec<
    Finding,
>)
    ensures
        findings_view(r@) == gate_pin_agreement_spec(pins_view(pins@), drift_view(drift@), downgrade),
{
    let ghost pv = pins_view(pins@);
    let ghost dv = drift_view(drift@);
    let crates = crates_sorted(pins);
    let ghost cs = crates@.map_values(|k: String| k@);
    let mut findings: Vec<Finding> = Vec::new();
    let mut agreeing: usize = 0;
    let mut i: usize = 0;
    while i < crates.len()
        invariant
            i <= crates.len(),
            pv == pins_view(pins@),
            dv == drift_view(drift@),
            cs == crates@.map_values(|k: String| k@),
            cs == crates_in_order(pv),
            findings_view(findings@) == crate_findings(pv, dv, downgrade, cs, i as int),
            agreeing == agreeing_count(pv, cs, i as int),
            agreeing <= i,
        decreases crates.len() - i,
    {
        let c = crates[i].as_str();
        assert(cs[i as int] == c@);
        let vs = variants_of_crate(pins, c);
        if vs.len() <= 1 {
            agreeing = agreeing + 1;
        } else {
            let ghost before = findings_view(findings@);
            match drift_reason(drift, c) {
                Some(reason) => {
                    let mut message = owned("pin drift allowed for crate `");
                    message.append(c);
                    message.append("`: ");
                    message.append(reason.as_str());
                    let f = Finding::new(Severity::Info, message);
                    findings.push(f);
                    assert(findings_view(findings@) =~= before.push(f@));
                },
                None => {
                    let message = disagreement_text(pins, c, &vs);
                    let severity = if downgrade {
                        Severity::Warn
                    } else {
                        Severity::Error
                    };
                    let f = Finding::new(severity, message);
                    findings.push(f);
                    assert(findings_view(findings@) =~= before.push(f@));
                },
            }
        }
        i = i + 1;
    }
    if agreeing > 0 {
        let ghost before = findings_view(findings@);
        let mut message = owned("pin agreement: ");
        let n = u64_to_string(agreeing as u64);
        message.append(n.as_str());
        message.append(" ");
        message.append(if agreeing == 1 { "crate" } else { "crates" });
        message.append(" pinned consistently");
        let f = Finding::new(Severity::Pass, message);
        findings.push(f);
        assert(findings_view(findings@) =~= before.push(f@));
    }
    assert(findings_view(findings@) =~= gate_pin_agreement_spec(pv, dv, downgrade));
    findings
}


// ---------------------------------------------------------------------------
// Gate 2: freshness
// ---------------------------------------------------------------------------

/// Where a tag's trailing run of digits and dots starts.
pub open spec fn version_start(tag: Seq<char>) -> int
    decreases tag.len(),
{
    if tag.len() > 0 && (is_digit(tag.last()) || tag.last() == '.') {
        version_start(tag.drop_last())
    } else {
        tag.len() as int
    }
}

/// Every dotted part parses as a `u64`.
pub open spec fn parts_parse(parts: Seq<Seq<char>>) -> bool {
    forall|i: int| 0 <= i < parts.len() ==> (#[trigger] parse_u64(parts[i])) is Some
}

/// The parsed parts.
pub open spec fn parts_values(parts: Seq<Seq<char>>) -> Seq<u64> {
    parts.map_values(|p: Seq<char>| parse_u64(p)->Some_0)
}

/// A tag split into its name prefix and trailing dotted-number version:
/// `v0.26.0` is (`v`, [0, 26, 0]), `rcu-v0.1.2` is (`rcu-v`, [0, 1, 2]).
/// `None` when the tag does not end in a dotted number sequence.
pub open spec fn split_tag_spec(tag: Seq<char>) -> Option<(Seq<char>, Seq<u64>)> {
    let start = version_start(tag);
    let version = tag.skip(start);
    let parts = split_char(version, '.');
    if version.len() == 0 || !parts_parse(parts) {
        None
    } else {
        Some((tag.take(start), parts_values(parts)))
    }
}

/// The order of versions: number by number, a proper prefix first.
pub open spec fn version_lt(a: Seq<u64>, b: Seq<u64>) -> bool
    decreases a.len(),
{
    if a.len() == 0 {
        b.len() > 0
    } else if b.len() == 0 {
        false
    } else if a[0] != b[0] {
        a[0] < b[0]
    } else {
        version_lt(a.drop_first(), b.drop_first())
    }
}

/// A version for display: [0, 27, 0] is `0.27.0`.
pub open spec fn version_text(v: Seq<u64>) -> Seq<char> {
    join(v.map_values(|n: u64| decimal(n as nat)), "."@)
}

/// The newest version among `tags` that share `prefix`.
pub open spec fn newest_with_prefix(tags: Seq<Seq<char>>, prefix: Seq<char>) -> Option<Seq<u64>>
    decreases tags.len(),
{
    if tags.len() == 0 {
        None
    } else {
        let rest = newest_with_prefix(tags.drop_last(), prefix);
        match split_tag_spec(tags.last()) {
            Some((p, v)) if p == prefix => match rest {
                Some(m) => if version_lt(v, m) {
                    Some(m)
                } else {
                    Some(v)
                },
                None => Some(v),
            },
            _ => rest,
        }
    }
}

/// The repository a URL points at: its last path segment without `.git`.
pub open spec fn repo_display_spec(url: Seq<char>) -> Seq<char> {
    let last = url.skip(last_slash_end(url));
    if last.len() >= 4 && last.skip(last.len() - 4) == ".git"@ {
        last.take(last.len() - 4)
    } else {
        last
    }
}

/// Just past the last `/` of `s`, or 0 when it has none.
pub open spec fn last_slash_end(s: Seq<char>) -> int
    decreases s.len(),
{
    if s.len() == 0 {
        0
    } else if s.last() == '/' {
        s.len() as int
    } else {
        last_slash_end(s.drop_last())
    }
}

/// Pin `i` is checked for freshness: not a rev, its crate agrees, and no
/// earlier non-rev pin has the same crate, url and reference.
pub open spec fn fresh_checked(pins: Seq<PinView>, i: int) -> bool {
    &&& pins[i].kind != RefKind::Rev
    &&& crate_variants(pins, pins[i].crate_name).len() <= 1
    &&& !exists|j: int|
        0 <= j < i && #[trigger] pins[j].kind != RefKind::Rev && pins[j].crate_name
            == pins[i].crate_name && pins[j].url == pins[i].url && pins[j].reference
            == pins[i].reference
}

/// The note for a pin whose repository has no local checkout.
pub open spec fn no_checkout_message(p: PinView) -> Seq<char> {
    "crate `"@ + p.crate_name + "`: no local checkout for "@ + p.url
        + "; freshness not checked (cargo fetches the tag either way)"@
}

/// The warning for a pin behind the newest local tag.
pub open spec fn behind_message(p: PinView, prefix: Seq<char>, newest: Seq<u64>) -> Seq<char> {
    "crate `"@ + p.crate_name + "` is pinned at "@ + p.reference + "; "@ + repo_display_spec(p.url)
        + " has "@ + prefix + version_text(newest)
}

/// What gate 2 says of pin `i`, given what the tag listing answered for its
/// url (`None`: no local checkout).
pub open spec fn pin_freshness(pins: Seq<PinView>, i: int, answer: Option<Seq<Seq<char>>>) -> Option<
    (Severity, Seq<char>),
> {
    if !fresh_checked(pins, i) {
        None
    } else {
        match split_tag_spec(pins[i].reference) {
            None => None,
            Some((prefix, pinned)) => match answer {
                None => Some((Severity::Info, no_checkout_message(pins[i]))),
                Some(tags) => match newest_with_prefix(tags, prefix) {
                    Some(newest) => if version_lt(pinned, newest) {
                        Some((Severity::Warn, behind_message(pins[i], prefix, newest)))
                    } else {
                        None
                    },
                    None => None,
                },
            },
        }
    }
}

/// Gate 2's findings for the first `n` pins.
pub open spec fn freshness_findings(
    pins: Seq<PinView>,
    answers: Seq<Option<Seq<Seq<char>>>>,
    n: int,
) -> Seq<(Severity, Seq<char>)>
    decreases n,
{
    if n <= 0 {
        seq![]
    } else {
        let rest = freshness_findings(pins, answers, n - 1);
        match pin_freshness(pins, n - 1, answers[n - 1]) {
            Some(f) => rest.push(f),
            None => rest,
        }
    }
}

/// Pin `i` is one whose repository's tags gate 2 asks for.
pub open spec fn asks_tags(pins: Seq<PinView>, i: int) -> bool {
    fresh_checked(pins, i) && split_tag_spec(pins[i].reference) is Some
}

/// The views of an optional tag list.
pub open spec fn tags_view(t: Option<Vec<String>>) -> Option<Seq<Seq<char>>> {
    match t {
        Some(v) => Some(v@.map_values(|s: String| s@)),
        None => None,
    }
}

/// `local_tags` answered `answer` for `url`.
pub open spec fn listed<F: Fn(&str) -> Option<Vec<String>>>(
    local_tags: F,
    url: Seq<char>,
    answer: Option<Seq<Seq<char>>>,
) -> bool {
    exists|u: &str, r: Option<Vec<String>>|
        #[trigger] call_ensures(local_tags, (u,), r) && u@ == url && tags_view(r) == answer
}

/// A character of a version: an ASCII digit or a dot.
pub open spec fn version_char(c: char) -> bool {
    is_digit(c) || c == '.'
}

proof fn lemma_version_start_append(a: Seq<char>, b: Seq<char>)
    requires
        forall|i: int| 0 <= i < b.len() ==> version_char(#[trigger] b[i]),
    ensures
        version_start(a + b) == version_start(a),
    decreases b.len(),
{
    if b.len() > 0 {
        assert((a + b).drop_last() =~= a + b.drop_last());
        assert((a + b).last() == b.last());
        lemma_version_start_append(a, b.drop_last());
    } else {
        assert(a + b =~= a);
    }
}

proof fn lemma_split_char_append(a: Seq<char>, b: Seq<char>, c: char)
    requires
        forall|i: int| 0 <= i < b.len() ==> #[trigger] b[i] != c,
    ensures
        split_char(a + b, c) == split_char(a, c).update(
            split_char(a, c).len() - 1,
            split_char(a, c).last() + b,
        ),
        split_char(a + b, c).len() == split_char(a, c).len(),
    decreases b.len(),
{
    crate::text::lemma_split_char_len(a, c);
    if b.len() == 0 {
        assert(a + b =~= a);
        assert(split_char(a, c).last() + b =~= split_char(a, c).last());
        assert(split_char(a, c).update(split_char(a, c).len() - 1, split_char(a, c).last()) =~= split_char(
            a,
            c,
        ));
    } else {
        lemma_split_char_append(a, b.drop_last(), c);
        assert((a + b).drop_last() =~= a + b.drop_last());
        assert((a + b).last() == b.last());
        let r = split_char(a, c);
        let rest = split_char(a + b.drop_last(), c);
        assert(b.last() != c);
        assert(rest == r.update(r.len() - 1, r.last() + b.drop_last()));
        assert(rest.len() == r.len());
        assert(rest.last() == r.last() + b.drop_last());
        assert(split_char(a + b, c) == rest.update(rest.len() - 1, rest.last().push(b.last())));
        assert((r.last() + b.drop_last()).push(b.last()) =~= r.last() + b);
        assert(split_char(a + b, c) =~= r.update(r.len() - 1, r.last() + b));
    }
}

/// The spelling of each part of a version.
pub open spec fn version_parts(v: Seq<u64>) -> Seq<Seq<char>> {
    v.map_values(|n: u64| decimal(n as nat))
}

proof fn lemma_join_chars(parts: Seq<Seq<char>>)
    requires
        forall|i: int, j: int| 0 <= i < parts.len() && 0 <= j < parts[i].len() ==> is_digit(#[trigger] parts[i][j]),
        forall|i: int| 0 <= i < parts.len() ==> (#[trigger] parts[i]).len() > 0,
    ensures
        forall|k: int| 0 <= k < join(parts, "."@).len() ==> version_char(#[trigger] join(parts, "."@)[k]),
        parts.len() > 0 ==> join(parts, "."@).len() > 0,
        split_char(join(parts, "."@), '.') == (if parts.len() == 0 {
            seq![Seq::<char>::empty()]
        } else {
            parts
        }),
    decreases parts.len(),
{
    reveal_strlit(".");
    if parts.len() == 0 {
        assert(join(parts, "."@) =~= Seq::<char>::empty());
    } else if parts.len() == 1 {
        let p = parts[0];
        assert(join(parts, "."@) == p);
        assert forall|k: int| 0 <= k < p.len() implies #[trigger] p[k] != '.' by {
            assert(is_digit(parts[0][k]));
        }
        lemma_split_char_append(Seq::<char>::empty(), p, '.');
        assert(Seq::<char>::empty() + p =~= p);
        assert(Seq::<Seq<char>>::empty().push(Seq::<char>::empty()) =~= split_char(Seq::<char>::empty(), '.'));
        assert(Seq::<char>::empty() + p =~= p);
        assert(split_char(p, '.') =~= parts);
    } else {
        let init = parts.drop_last();
        let last = parts.last();
        lemma_join_chars(init);
        let j = join(init, "."@);
        assert(join(parts, "."@) == j + "."@ + last);
        assert forall|k: int| 0 <= k < last.len() implies #[trigger] last[k] != '.' by {
            assert(is_digit(parts[parts.len() - 1][k]));
        }
        let jd = j + "."@;
        assert(jd =~= j.push('.'));
        lemma_split_char_append(jd, last, '.');
        assert(jd.drop_last() =~= j);
        assert(split_char(jd, '.') == split_char(j, '.').push(Seq::<char>::empty()));
        assert(Seq::<char>::empty() + last =~= last);
        assert(split_char(jd + last, '.') =~= parts);
        assert forall|k: int| 0 <= k < (jd + last).len() implies version_char(#[trigger] (jd + last)[k]) by {
            if k < j.len() {
                assert((jd + last)[k] == j[k]);
            } else if k == j.len() {
                assert((jd + last)[k] == '.');
            } else {
                assert((jd + last)[k] == last[k - j.len() - 1]);
                assert(is_digit(parts[parts.len() - 1][k - j.len() - 1]));
            }
        }
    }
}

/// A tag spelled as a prefix and a version splits back into them: the
/// prefix must be empty or end in neither a digit nor a dot, and the version
/// must have at least one part. So `rcu-v` and [0, 1, 2] give `rcu-v0.1.2`,
/// which splits into `rcu-v` and [0, 1, 2].
#[verifier::spinoff_prover]
pub proof fn lemma_split_tag_round_trip(prefix: Seq<char>, v: Seq<u64>)
    requires
        prefix.len() == 0 || !version_char(prefix.last()),
        v.len() >= 1,
    ensures
        split_tag_spec(prefix + version_text(v)) == Some((prefix, v)),
{
    let parts = version_parts(v);
    assert forall|i: int, j: int| 0 <= i < parts.len() && 0 <= j < parts[i].len() implies is_digit(
        #[trigger] parts[i][j],
    ) by {
        crate::text::lemma_decimal_digits(v[i] as nat);
    }
    assert forall|i: int| 0 <= i < parts.len() implies (#[trigger] parts[i]).len() > 0 by {
        crate::text::lemma_decimal_digits(v[i] as nat);
    }
    lemma_join_chars(parts);
    let t = version_text(v);
    assert(t == join(parts, "."@));
    let tag = prefix + t;
    lemma_version_start_append(prefix, t);
    assert(version_start(prefix) == prefix.len());
    assert(tag.skip(prefix.len() as int) =~= t);
    assert(tag.take(prefix.len() as int) =~= prefix);
    assert forall|i: int| 0 <= i < parts.len() implies (#[trigger] parse_u64(parts[i])) == Some(v[i]) by {
        crate::text::lemma_decimal_digits(v[i] as nat);
        assert(parts[i][0] != '+');
    }
    assert(parts_values(parts) =~= v);
}

/// Splits a tag into its name prefix and trailing dotted-number version.
pub fn split_tag(tag: &str) -> (r: Option<(&str, Vec<u64>)>)
    ensures
        match r {
            Some((prefix, version)) => split_tag_spec(tag@) == Some((prefix@, version@)),
            None => split_tag_spec(tag@) is None,
        },
{
    let v = to_chars(tag);
    let mut start: usize = v.len();
    assert(v@.take(start as int) =~= v@);
    while start > 0 && (('0' <= v[start - 1] && v[start - 1] <= '9') || v[start - 1] == '.')
        invariant
            start <= v.len(),
            v@ == tag@,
            version_start(tag@) == version_start(v@.take(start as int)),
        decreases start,
    {
        assert(v@.take(start as int).drop_last() =~= v@.take(start - 1));
        start = start - 1;
    }
    assert(version_start(v@.take(start as int)) == start);
    if start == v.len() {
        return None;
    }
    let prefix = tag.substring_char(0, start);
    let version = tag.substring_char(start, v.len());
    assert(version@ =~= tag@.skip(start as int));
    assert(prefix@ =~= tag@.take(start as int));
    let parts = str_split_char(version, '.');
    let ghost pv = parts@.map_values(|p: &str| p@);
    let mut numbers: Vec<u64> = Vec::new();
    let mut i: usize = 0;
    while i < parts.len()
        invariant
            i <= parts.len(),
            pv == parts@.map_values(|p: &str| p@),
            pv == split_char(version@, '.'),
            start == version_start(tag@),
            version@ == tag@.skip(start as int),
            version@.len() > 0,
            forall|k: int| 0 <= k < i ==> (#[trigger] parse_u64(pv[k])) is Some,
            numbers@ == parts_values(pv.take(i as int)),
        decreases parts.len() - i,
    {
        match str_parse_u64(parts[i]) {
            Some(n) => {
                assert(pv[i as int] == parts@[i as int]@);
                numbers.push(n);
                assert(pv.take(i + 1) =~= pv.take(i as int).push(pv[i as int]));
                assert(numbers@ =~= parts_values(pv.take(i + 1)));
            },
            None => {
                assert(pv[i as int] == parts@[i as int]@);
                assert(parse_u64(pv[i as int]) is None);
                assert(!parts_parse(pv));
                assert(split_tag_spec(tag@) is None);
                return None;
            },
        }
        i = i + 1;
    }
    assert(pv.take(parts.len() as int) =~= pv);
    Some((prefix, numbers))
}

/// `a < b` in version order.
pub(crate) fn version_less(a: &Vec<u64>, b: &Vec<u64>) -> (r: bool)
    ensures
        r == version_lt(a@, b@),
{
    let mut i: usize = 0;
    assert(a@.skip(0) =~= a@);
    assert(b@.skip(0) =~= b@);
    while i < a.len() && i < b.len()
        invariant
            i <= a.len(),
            i <= b.len(),
            version_lt(a@, b@) == version_lt(a@.skip(i as int), b@.skip(i as int)),
        decreases a.len() - i,
    {
        assert(a@.skip(i as int)[0] == a@[i as int]);
        assert(b@.skip(i as int)[0] == b@[i as int]);
        if a[i] != b[i] {
            return a[i] < b[i];
        }
        assert(a@.skip(i as int).drop_first() =~= a@.skip(i + 1));
        assert(b@.skip(i as int).drop_first() =~= b@.skip(i + 1));
        i = i + 1;
    }
    i >= a.len() && i < b.len()
}

/// A version for display.
pub fn join_version(version: &[u64]) -> (r: String)
    ensures
        r@ == version_text(version@),
{
    let mut parts: Vec<String> = Vec::new();
    let mut i: usize = 0;
    while i < version.len()
        invariant
            i <= version.len(),
            parts@.map_values(|p: String| p@) == version@.take(i as int).map_values(
                |n: u64| decimal(n as nat),
            ),
        decreases version.len() - i,
    {
        let ghost before = parts@;
        let t = u64_to_string(version[i]);
        parts.push(t);
        assert(parts@.map_values(|p: String| p@) =~= before.map_values(|p: String| p@).push(t@));
        assert(version@.take(i + 1).map_values(|n: u64| decimal(n as nat)) =~= version@.take(
            i as int,
        ).map_values(|n: u64| decimal(n as nat)).push(decimal(version@[i as int] as nat)));
        i = i + 1;
    }
    assert(version@.take(version.len() as int) =~= version@);
    join_strings(&parts, ".")
}

/// The repository a URL points at, for messages: the last path segment
/// without `.git`.
pub fn repo_display(url: &str) -> (r: &str)
    ensures
        r@ == repo_display_spec(url@),
{
    let v = to_chars(url);
    let mut k: usize = v.len();
    assert(v@.take(k as int) =~= v@);
    while k > 0 && v[k - 1] != '/'
        invariant
            k <= v.len(),
            v@ == url@,
            last_slash_end(url@) == last_slash_end(v@.take(k as int)),
        decreases k,
    {
        assert(v@.take(k as int).drop_last() =~= v@.take(k - 1));
        k = k - 1;
    }
    let last = url.substring_char(k, v.len());
    assert(last@ =~= url@.skip(k as int));
    proof {
        reveal_strlit(".git");
    }
    match str_strip_suffix(last, ".git") {
        Some(stem) => stem,
        None => last,
    }
}

/// The newest version among `tags` sharing `prefix`.
pub(crate) fn newest_tag_version(tags: &Vec<String>, prefix: &str) -> (r: Option<Vec<u64>>)
    ensures
        match r {
            Some(v) => newest_with_prefix(tags@.map_values(|s: String| s@), prefix@) == Some(v@),
            None => newest_with_prefix(tags@.map_values(|s: String| s@), prefix@) is None,
        },
{
    let ghost tv = tags@.map_values(|s: String| s@);
    let mut best: Option<Vec<u64>> = None;
    let mut i: usize = 0;
    while i < tags.len()
        invariant
            i <= tags.len(),
            tv == tags@.map_values(|s: String| s@),
            match best {
                Some(v) => newest_with_prefix(tv.take(i as int), prefix@) == Some(v@),
                None => newest_with_prefix(tv.take(i as int), prefix@) is None,
            },
        decreases tags.len() - i,
    {
        assert(tv.take(i + 1).drop_last() =~= tv.take(i as int));
        assert(tv.take(i + 1).last() == tags@[i as int]@);
        match split_tag(tags[i].as_str()) {
            Some((p, v)) => {
                if str_eq(p, prefix) {
                    let replace = match &best {
                        Some(m) => !version_less(&v, m),
                        None => true,
                    };
                    if replace {
                        best = Some(v);
                    }
                }
            },
            None => {},
        }
        i = i + 1;
    }
    assert(tv.take(tags.len() as int) =~= tv);
    best
}


/// Whether an earlier non-rev pin has the same crate, url and reference.
fn seen_before(pins: &[PinOccurrence], i: usize) -> (r: bool)
    requires
        i < pins.len(),
    ensures
        r == exists|j: int|
            0 <= j < i && #[trigger] pins_view(pins@)[j].kind != RefKind::Rev
                && pins_view(pins@)[j].crate_name == pins_view(pins@)[i as int].crate_name
                && pins_view(pins@)[j].url == pins_view(pins@)[i as int].url
                && pins_view(pins@)[j].reference == pins_view(pins@)[i as int].reference,
{
    let ghost pv = pins_view(pins@);
    let mut j: usize = 0;
    while j < i
        invariant
            j <= i < pins.len(),
            pv == pins_view(pins@),
            forall|k: int|
                0 <= k < j ==> !(#[trigger] pv[k].kind != RefKind::Rev && pv[k].crate_name
                    == pv[i as int].crate_name && pv[k].url == pv[i as int].url && pv[k].reference
                    == pv[i as int].reference),
        decreases i - j,
    {
        let a = &pins[j];
        let b = &pins[i];
        assert(pv[j as int] == a@ && pv[i as int] == b@);
        if a.kind != RefKind::Rev && str_eq(a.crate_name.as_str(), b.crate_name.as_str()) && str_eq(
            a.url.as_str(),
            b.url.as_str(),
        ) && str_eq(a.reference.as_str(), b.reference.as_str()) {
            assert(pins_view(pins@)[j as int].kind != RefKind::Rev);
            return true;
        }
        j = j + 1;
    }
    false
}

/// Gate 2: freshness, a warning and never an error. For each agreed pin,
/// `local_tags` supplies the tags of the pinned repository's workspace
/// checkout (`None` when it is not checked out, which is an `INFO`). Tags are
/// compared in version order, and only against tags sharing the pinned tag's
/// name prefix, so `rcu-v0.1.2` is never measured against `cslab-v0.1.2`.
/// Rev pins, disagreeing crates, tags without a trailing version and repeats
/// of one crate, url and reference are skipped. Whatever the listing
/// answers, the findings are the ones [`freshness_findings`] gives for those
/// answers.
pub fn gate_freshness<F: Fn(&str) -> Option<Vec<String>>>(pins: &[PinOccurrence], local_tags: F) -> (r:
    Vec<Finding>)
    requires
        forall|u: &str| call_requires(local_tags, (u,)),
    ensures
        exists|answers: Seq<Option<Seq<Seq<char>>>>|
            answers.len() == pins@.len() && (forall|i: int|
                0 <= i < pins@.len() && asks_tags(pins_view(pins@), i) ==> listed(
                    local_tags,
                    #[trigger] pins_view(pins@)[i].url,
                    answers[i],
                )) && findings_view(r@) == #[trigger] freshness_findings(
                pins_view(pins@),
                answers,
                pins@.len() as int,
            ),
{
    let ghost pv = pins_view(pins@);
    let ghost mut answers: Seq<Option<Seq<Seq<char>>>> = seq![];
    let mut findings: Vec<Finding> = Vec::new();
    let mut i: usize = 0;
    while i < pins.len()
        invariant
            i <= pins.len(),
            pv == pins_view(pins@),
            forall|u: &str| call_requires(local_tags, (u,)),
            answers.len() == i,
            forall|k: int|
                0 <= k < i && asks_tags(pv, k) ==> listed(local_tags, #[trigger] pv[k].url, answers[k]),
            findings_view(findings@) == freshness_findings(pv, answers, i as int),
        decreases pins.len() - i,
    {
        let pin = &pins[i];
        assert(pv[i as int] == pin@);
        let ghost before = findings_view(findings@);
        let ghost old_answers = answers;
        let mut answer_here: Option<Seq<Seq<char>>> = None;
        proof {
            answers = answers.push(None);
        }
        if pin.kind != RefKind::Rev {
            let vs = variants_of_crate(pins, pin.crate_name.as_str());
            if vs.len() <= 1 && !seen_before(pins, i) {
                assert(fresh_checked(pv, i as int));
                match split_tag(pin.reference.as_str()) {
                    None => {},
                    Some((prefix, pinned)) => {
                        let url = pin.url.as_str();
                        let listing = local_tags(url);
                        assert(call_ensures(local_tags, (url,), listing));
                        proof {
                            answers = old_answers.push(tags_view(listing));
                            assert(listed(local_tags, pv[i as int].url, answers[i as int]));
                        }
                        match listing {
                            None => {
                                let mut message = owned("crate `");
                                message.append(pin.crate_name.as_str());
                                message.append("`: no local checkout for ");
                                message.append(pin.url.as_str());
                                message.append(
                                    "; freshness not checked (cargo fetches the tag either way)",
                                );
                                let f = Finding::new(Severity::Info, message);
                                findings.push(f);
                                assert(findings_view(findings@) =~= before.push(f@));
                            },
                            Some(tags) => {
                                match newest_tag_version(&tags, prefix) {
                                    Some(newest) => {
                                        if version_less(&pinned, &newest) {
                                            let mut message = owned("crate `");
                                            message.append(pin.crate_name.as_str());
                                            message.append("` is pinned at ");
                                            message.append(pin.reference.as_str());
                                            message.append("; ");
                                            message.append(repo_display(pin.url.as_str()));
                                            message.append(" has ");
                                            message.append(prefix);
                                            let shown = join_version(&newest);
                                            message.append(shown.as_str());
                                            let f = Finding::new(Severity::Warn, message);
                                            findings.push(f);
                                            assert(findings_view(findings@) =~= before.push(f@));
                                        }
                                    },
                                    None => {},
                                }
                            },
                        }
                    },
                }
            }
        }
        proof {
            assert forall|k: int| 0 <= k < i implies #[trigger] old_answers[k] == answers[k] by {}
            lemma_freshness_prefix(pv, answers, old_answers, i as int);
        }
        i = i + 1;
    }
    findings
}

/// The findings after `n` pins read only the first `n` answers.
proof fn lemma_freshness_prefix(
    pins: Seq<PinView>,
    a: Seq<Option<Seq<Seq<char>>>>,
    b: Seq<Option<Seq<Seq<char>>>>,
    n: int,
)
    requires
        0 <= n <= a.len(),
        n <= b.len(),
        forall|k: int| 0 <= k < n ==> a[k] == b[k],
    ensures
        freshness_findings(pins, a, n) == freshness_findings(pins, b, n),
    decreases n,
{
    if n > 0 {
        lemma_freshness_prefix(pins, a, b, n - 1);
    }
}


// ---------------------------------------------------------------------------
// Gate 3: compiler / visa service version
// ---------------------------------------------------------------------------

/// The three components the visa service names in `POLICY_MIN_COMPILER_*`.
pub type Version3 = (u64, u64, u64);

/// A gate input that could not be read: what failed, and the underlying
/// error's text when there is one. `to_string` gives the first, as a report
/// line does; `chain` gives both, as gate 3's finding does.
#[derive(Debug)]
pub struct GateError {
    pub context: String,
    pub cause: Option<String>,
}

impl View for GateError {
    type V = (Seq<char>, Option<Seq<char>>);

    open spec fn view(&self) -> (Seq<char>, Option<Seq<char>>) {
        (
            self.context@,
            match self.cause {
                Some(c) => Some(c@),
                None => None,
            },
        )
    }
}

/// The full text of an error: the context, then `: ` and the cause.
pub open spec fn chain_text(e: (Seq<char>, Option<Seq<char>>)) -> Seq<char> {
    match e.1 {
        Some(c) => e.0 + ": "@ + c,
        None => e.0,
    }
}

impl GateError {
    /// The context line.
    pub fn to_string(&self) -> (r: String)
        ensures
            r@ == self@.0,
    {
        owned(self.context.as_str())
    }

    /// The context, then `: ` and the cause when there is one.
    pub fn chain(&self) -> (r: String)
        ensures
            r@ == chain_text(self@),
    {
        let mut r = owned(self.context.as_str());
        match &self.cause {
            Some(c) => {
                r.append(": ");
                r.append(c.as_str());
            },
            None => {},
        }
        r
    }
}

/// The value a `<name> ... = <value>;` declaration on one line gives: what
/// follows the name, then what follows the first `=`, trimmed, with trailing
/// `;`s dropped and trimmed again.
pub open spec fn constant_value(line: Seq<char>, name: Seq<char>) -> Option<Seq<char>> {
    match after_first(line, name) {
        None => None,
        Some(rest) => match after_first(rest, "="@) {
            None => None,
            Some(value) => Some(trim(trim_end_char(trim(value), ';'))),
        },
    }
}

/// The value of the first line declaring `name`.
pub open spec fn find_constant(lines: Seq<Seq<char>>, name: Seq<char>) -> Option<Seq<char>>
    decreases lines.len(),
{
    if lines.len() == 0 {
        None
    } else {
        match constant_value(lines[0], name) {
            Some(v) => Some(v),
            None => find_constant(lines.drop_first(), name),
        }
    }
}

/// Reading `POLICY_MIN_COMPILER_<suffix>` out of the config text.
pub open spec fn read_policy_constant(text: Seq<char>, suffix: Seq<char>, file: Seq<char>) -> Result<
    u64,
    (Seq<char>, Option<Seq<char>>),
> {
    let name = "POLICY_MIN_COMPILER_"@ + suffix;
    match find_constant(lines(text), name) {
        None => Err(("cannot find `"@ + name + "` in "@ + file, None)),
        Some(value) => match parse_u64(value) {
            Some(n) => Ok(n),
            None => Err(
                (
                    "cannot parse `"@ + name + "` in "@ + file + ": not an integer: "@ + str_debug(
                        value,
                    ),
                    Some(u64_parse_error(value)),
                ),
            ),
        },
    }
}

/// The three constants, read in order; the first failure is the error.
pub open spec fn policy_min_compiler_spec(text: Seq<char>, file: Seq<char>) -> Result<
    Version3,
    (Seq<char>, Option<Seq<char>>),
> {
    match read_policy_constant(text, "MAJOR"@, file) {
        Err(e) => Err(e),
        Ok(major) => match read_policy_constant(text, "MINOR"@, file) {
            Err(e) => Err(e),
            Ok(minor) => match read_policy_constant(text, "PATCH"@, file) {
                Err(e) => Err(e),
                Ok(patch) => Ok((major, minor, patch)),
            },
        },
    }
}

/// The integer the config text declares for constant `name`: the value on
/// the first line declaring it, when that value is an integer.
pub open spec fn declared_integer(text: Seq<char>, name: Seq<char>) -> Option<u64> {
    match find_constant(lines(text), name) {
        Some(value) => parse_u64(value),
        None => None,
    }
}

/// The minimum gate 3 reads is exactly the integers declared for
/// `POLICY_MIN_COMPILER_MAJOR`, `POLICY_MIN_COMPILER_MINOR` and
/// `POLICY_MIN_COMPILER_PATCH`, in that order; and it is read whenever all
/// three are declared as integers.
pub proof fn lemma_policy_minimum_is_declared(text: Seq<char>, file: Seq<char>)
    ensures
        policy_min_compiler_spec(text, file) matches Ok(v) ==> declared_integer(
            text,
            "POLICY_MIN_COMPILER_MAJOR"@,
        ) == Some(v.0) && declared_integer(text, "POLICY_MIN_COMPILER_MINOR"@) == Some(v.1)
            && declared_integer(text, "POLICY_MIN_COMPILER_PATCH"@) == Some(v.2),
        (declared_integer(text, "POLICY_MIN_COMPILER_MAJOR"@) is Some && declared_integer(
            text,
            "POLICY_MIN_COMPILER_MINOR"@,
        ) is Some && declared_integer(text, "POLICY_MIN_COMPILER_PATCH"@) is Some)
            ==> policy_min_compiler_spec(text, file) is Ok,
{
    reveal_strlit("POLICY_MIN_COMPILER_");
    reveal_strlit("MAJOR");
    reveal_strlit("MINOR");
    reveal_strlit("PATCH");
    reveal_strlit("POLICY_MIN_COMPILER_MAJOR");
    reveal_strlit("POLICY_MIN_COMPILER_MINOR");
    reveal_strlit("POLICY_MIN_COMPILER_PATCH");
    assert("POLICY_MIN_COMPILER_"@ + "MAJOR"@ =~= "POLICY_MIN_COMPILER_MAJOR"@);
    assert("POLICY_MIN_COMPILER_"@ + "MINOR"@ =~= "POLICY_MIN_COMPILER_MINOR"@);
    assert("POLICY_MIN_COMPILER_"@ + "PATCH"@ =~= "POLICY_MIN_COMPILER_PATCH"@);
}

/// The value one line declares for `name`, if it declares it.
fn constant_in_line<'a>(line: &'a str, name: &str) -> (r: Option<&'a str>)
    ensures
        match r {
            Some(v) => constant_value(line@, name@) == Some(v@),
            None => constant_value(line@, name@) is None,
        },
{
    proof {
        reveal_strlit("=");
    }
    match str_after_first(line, name) {
        None => None,
        Some(after_name) => match str_after_first(after_name, "=") {
            None => None,
            Some(value) => Some(str_trim(str_trim_end_char(str_trim(value), ';'))),
        },
    }
}

/// The value of the first line of `text` declaring `name`.
fn find_constant_in<'a>(text: &'a str, name: &str) -> (r: Option<&'a str>)
    ensures
        match r {
            Some(v) => find_constant(lines(text@), name@) == Some(v@),
            None => find_constant(lines(text@), name@) is None,
        },
{
    let all = str_lines(text);
    let ghost ls = all@.map_values(|l: &str| l@);
    let mut i: usize = 0;
    assert(ls.skip(0) =~= ls);
    while i < all.len()
        invariant
            i <= all.len(),
            ls == all@.map_values(|l: &str| l@),
            ls == lines(text@),
            find_constant(ls, name@) == find_constant(ls.skip(i as int), name@),
        decreases all.len() - i,
    {
        assert(ls.skip(i as int)[0] == all@[i as int]@);
        assert(ls.skip(i as int).drop_first() =~= ls.skip(i + 1));
        match constant_in_line(all[i], name) {
            Some(v) => {
                return Some(v);
            },
            None => {},
        }
        i = i + 1;
    }
    assert(ls.skip(i as int) =~= Seq::<Seq<char>>::empty());
    None
}

/// Reads one `POLICY_MIN_COMPILER_<suffix>` constant.
fn read_constant(config_rs: &str, suffix: &str, file: &str) -> (r: Result<u64, GateError>)
    ensures
        match r {
            Ok(n) => read_policy_constant(config_rs@, suffix@, file@) == Ok::<
                u64,
                (Seq<char>, Option<Seq<char>>),
            >(n),
            Err(e) => read_policy_constant(config_rs@, suffix@, file@) == Err::<
                u64,
                (Seq<char>, Option<Seq<char>>),
            >(e@),
        },
{
    let mut name = owned("POLICY_MIN_COMPILER_");
    name.append(suffix);
    match find_constant_in(config_rs, name.as_str()) {
        Some(value) => match str_parse_u64(value) {
            Some(n) => Ok(n),
            None => {
                let mut context = owned("cannot parse `");
                context.append(name.as_str());
                context.append("` in ");
                context.append(file);
                context.append(": not an integer: ");
                let shown = debug_str(value);
                context.append(shown.as_str());
                let cause = u64_parse_error_text(value);
                Err(GateError { context, cause: Some(cause) })
            },
        },
        None => {
            let mut context = owned("cannot find `");
            context.append(name.as_str());
            context.append("` in ");
            context.append(file);
            Err(GateError { context, cause: None })
        },
    }
}

/// Reads `POLICY_MIN_COMPILER_{MAJOR,MINOR,PATCH}` out of the visa service's
/// `vs/src/config.rs` text. Each declaration is matched structurally (the
/// name, then `=`, then an integer, then `;`) rather than by exact spacing.
/// An unreadable constant is an error naming the file.
pub fn policy_min_compiler(config_rs: &str, file: &str) -> (r: Result<Version3, GateError>)
    ensures
        match r {
            Ok(v) => policy_min_compiler_spec(config_rs@, file@) == Ok::<
                Version3,
                (Seq<char>, Option<Seq<char>>),
            >(v),
            Err(e) => policy_min_compiler_spec(config_rs@, file@) == Err::<
                Version3,
                (Seq<char>, Option<Seq<char>>),
            >(e@),
        },
{
    proof {
        reveal_strlit("MAJOR");
        reveal_strlit("MINOR");
        reveal_strlit("PATCH");
    }
    let major = match read_constant(config_rs, "MAJOR", file) {
        Ok(n) => n,
        Err(e) => return Err(e),
    };
    let minor = match read_constant(config_rs, "MINOR", file) {
        Ok(n) => n,
        Err(e) => return Err(e),
    };
    let patch = match read_constant(config_rs, "PATCH", file) {
        Ok(n) => n,
        Err(e) => return Err(e),
    };
    Ok((major, minor, patch))
}

/// A version as `x.y.z`.
pub open spec fn version3_text(v: Version3) -> Seq<char> {
    decimal(v.0 as nat) + "."@ + decimal(v.1 as nat) + "."@ + decimal(v.2 as nat)
}

/// A version as `x.y.z`.
pub fn version3_display(v: Version3) -> (r: String)
    ensures
        r@ == version3_text(v),
{
    let mut r = u64_to_string(v.0);
    r.append(".");
    let b = u64_to_string(v.1);
    r.append(b.as_str());
    r.append(".");
    let c = u64_to_string(v.2);
    r.append(c.as_str());
    r
}

/// Reading `[package].version` out of a `Cargo.toml`'s parsed entries.
pub open spec fn package_version_from(
    document: Result<Seq<(String, TomlValue)>, Seq<char>>,
    file: Seq<char>,
) -> Result<Version3, (Seq<char>, Option<Seq<char>>)> {
    match document {
        Err(e) => Err(("cannot parse "@ + file, Some(e))),
        Ok(entries) => match table_get(entries, "package"@) {
            Some(TomlValue::Table(package)) => match table_get(package@, "version"@) {
                Some(TomlValue::Str(version)) => {
                    let parts = split_char(version@, '.');
                    if parts.len() >= 3 && parse_u64(parts[0]) is Some && parse_u64(parts[1]) is Some
                        && parse_u64(parts[2]) is Some {
                        Ok(
                            (
                                parse_u64(parts[0])->Some_0,
                                parse_u64(parts[1])->Some_0,
                                parse_u64(parts[2])->Some_0,
                            ),
                        )
                    } else {
                        Err(
                            (
                                "cannot parse [package].version "@ + str_debug(version@) + " in "@
                                    + file,
                                None,
                            ),
                        )
                    }
                },
                _ => Err(("no [package].version in "@ + file, None)),
            },
            _ => Err(("no [package].version in "@ + file, None)),
        },
    }
}

/// Reads `[package].version` out of the compiler's `Cargo.toml` text: its
/// first three dotted numbers. A manifest that does not parse, lacks the
/// version, or has one that is not numeric is an error naming the file.
pub fn package_version(cargo_toml: &str, file: &str) -> (r: Result<Version3, GateError>)
    ensures
        match r {
            Ok(v) => package_version_from(toml_document(cargo_toml@), file@) == Ok::<
                Version3,
                (Seq<char>, Option<Seq<char>>),
            >(v),
            Err(e) => package_version_from(toml_document(cargo_toml@), file@) == Err::<
                Version3,
                (Seq<char>, Option<Seq<char>>),
            >(e@),
        },
{
    let entries = match parse_toml(cargo_toml) {
        Ok(entries) => entries,
        Err(error) => {
            let mut context = owned("cannot parse ");
            context.append(file);
            return Err(GateError { context, cause: Some(error) });
        },
    };
    package_version_of(&entries, file)
}

/// Reads `[package].version` out of a parsed `Cargo.toml`: its first three
/// dotted numbers, or the error naming the file when it is missing or not
/// numeric.
pub fn package_version_of(entries: &Vec<(String, TomlValue)>, file: &str) -> (r: Result<Version3, GateError>)
    ensures
        match r {
            Ok(v) => package_version_from(Ok(entries@), file@) == Ok::<
                Version3,
                (Seq<char>, Option<Seq<char>>),
            >(v),
            Err(e) => package_version_from(Ok(entries@), file@) == Err::<
                Version3,
                (Seq<char>, Option<Seq<char>>),
            >(e@),
        },
{
    proof {
        reveal_strlit("package");
        reveal_strlit("version");
    }
    let missing = || -> (e: GateError)
        ensures
            e@ == ("no [package].version in "@ + file@, None::<Seq<char>>),
    {
        let mut context = owned("no [package].version in ");
        context.append(file);
        GateError { context, cause: None }
    };
    let version = match toml_get(entries, "package") {
        Some(TomlValue::Table(package)) => match toml_get(package, "version") {
            Some(TomlValue::Str(version)) => version,
            _ => return Err(missing()),
        },
        _ => return Err(missing()),
    };
    let parts = str_split_char(version.as_str(), '.');
    let ghost pv = parts@.map_values(|p: &str| p@);
    if parts.len() >= 3 {
        assert(pv[0] == parts@[0]@ && pv[1] == parts@[1]@ && pv[2] == parts@[2]@);
        match (str_parse_u64(parts[0]), str_parse_u64(parts[1]), str_parse_u64(parts[2])) {
            (Some(major), Some(minor), Some(patch)) => {
                return Ok((major, minor, patch));
            },
            _ => {},
        }
    }
    let mut context = owned("cannot parse [package].version ");
    let shown = debug_str(version.as_str());
    context.append(shown.as_str());
    context.append(" in ");
    context.append(file);
    Err(GateError { context, cause: None })
}

/// Gate 3's finding for a compiler version and the visa service's minimum:
/// compatible when the majors and minors are equal and the patch is at
/// least the minimum's.
pub open spec fn compiler_version_finding(
    zplc: Version3,
    zplc_file: Seq<char>,
    minimum: Version3,
    vs_file: Seq<char>,
) -> (Severity, Seq<char>) {
    let z = version3_text(zplc);
    let m = version3_text(minimum);
    if zplc.0 == minimum.0 && zplc.1 == minimum.1 && zplc.2 >= minimum.2 {
        (Severity::Pass, "zplc "@ + z + " satisfies the visa service's POLICY_MIN_COMPILER "@ + m)
    } else {
        (
            Severity::Error,
            "zplc "@ + z + " cannot produce policy for this vs\n  "@ + zplc_file + "  version = \""@
                + z + "\"\n  "@ + vs_file + "  POLICY_MIN_COMPILER = "@ + m
                + "\n  rule: major ==, minor ==, patch >=  (libeval/src/pio.rs check_version)"@,
        )
    }
}

/// Gate 3: compiler / visa service version, an error when incompatible.
/// Applies the rule major ==, minor ==, patch >= exactly, and names both
/// files in the failure so the fix is obvious.
pub fn gate_compiler_version(zplc: Version3, zplc_file: &str, minimum: Version3, vs_file: &str) -> (r:
    Vec<Finding>)
    ensures
        findings_view(r@) == seq![compiler_version_finding(zplc, zplc_file@, minimum, vs_file@)],
{
    let z = version3_display(zplc);
    let m = version3_display(minimum);
    let f = if zplc.0 == minimum.0 && zplc.1 == minimum.1 && zplc.2 >= minimum.2 {
        let mut message = owned("zplc ");
        message.append(z.as_str());
        message.append(" satisfies the visa service's POLICY_MIN_COMPILER ");
        message.append(m.as_str());
        Finding::new(Severity::Pass, message)
    } else {
        let mut message = owned("zplc ");
        message.append(z.as_str());
        message.append(" cannot produce policy for this vs\n  ");
        message.append(zplc_file);
        message.append("  version = \"");
        message.append(z.as_str());
        message.append("\"\n  ");
        message.append(vs_file);
        message.append("  POLICY_MIN_COMPILER = ");
        message.append(m.as_str());
        message.append("\n  rule: major ==, minor ==, patch >=  (libeval/src/pio.rs check_version)");
        Finding::new(Severity::Error, message)
    };
    let r = vec![f];
    assert(findings_view(r@) =~= seq![f@]);
    r
}


// ---------------------------------------------------------------------------
// Gate 1's lock scan: post-resolution dual versions
// ---------------------------------------------------------------------------

/// The URL is ZPR-family: our own forks or upstream, in https or ssh
/// spelling.
pub open spec fn is_zpr_family_spec(url: Seq<char>) -> bool {
    contains(url, "github.com/mkolehmainen/"@) || contains(url, "github.com:mkolehmainen/"@)
        || contains(url, "github.com/org-zpr/"@) || contains(url, "github.com:org-zpr/"@)
}

/// True when the git URL is ZPR-family, whose pins must agree even without a
/// `rev`. Both https and ssh spellings are recognized.
pub fn is_zpr_family(url: &str) -> (r: bool)
    ensures
        r == is_zpr_family_spec(url@),
{
    str_contains(url, "github.com/mkolehmainen/") || str_contains(url, "github.com:mkolehmainen/")
        || str_contains(url, "github.com/org-zpr/") || str_contains(url, "github.com:org-zpr/")
}

/// The string under `key`, when there is one.
pub open spec fn str_at(es: Seq<(String, TomlValue)>, key: Seq<char>) -> Option<Seq<char>> {
    match table_get(es, key) {
        Some(TomlValue::Str(s)) => Some(s@),
        _ => None,
    }
}

/// The string under `key`.
fn toml_str<'a>(es: &'a Vec<(String, TomlValue)>, key: &str) -> (r: Option<&'a String>)
    ensures
        match r {
            Some(s) => str_at(es@, key@) == Some(s@),
            None => str_at(es@, key@) is None,
        },
{
    match toml_get(es, key) {
        Some(TomlValue::Str(s)) => Some(s),
        _ => None,
    }
}

/// A lock's `[[package]]` entry as (name, version, source), when it has all
/// three as strings and its source is ZPR-family.
pub open spec fn lock_entry(v: TomlValue) -> Option<(Seq<char>, Seq<char>, Seq<char>)> {
    match v {
        TomlValue::Table(t) => match (str_at(t@, "name"@), str_at(t@, "version"@), str_at(t@, "source"@)) {
            (Some(n), Some(ver), Some(src)) => if is_zpr_family_spec(src) {
                Some((n, ver, src))
            } else {
                None
            },
            _ => None,
        },
        _ => None,
    }
}

/// The lock's `[[package]]` values.
pub open spec fn lock_packages(entries: Seq<(String, TomlValue)>) -> Seq<TomlValue> {
    match table_get(entries, "package"@) {
        Some(TomlValue::Array(a)) => a@,
        _ => seq![],
    }
}

/// The ZPR-family packages of the first `n` package values.
pub open spec fn family_packages(packages: Seq<TomlValue>, n: int) -> Seq<(Seq<char>, Seq<char>, Seq<char>)>
    decreases n,
{
    if n <= 0 {
        seq![]
    } else {
        let rest = family_packages(packages, n - 1);
        match lock_entry(packages[n - 1]) {
            Some(e) => rest.push(e),
            None => rest,
        }
    }
}

/// The names the family packages carry.
pub open spec fn family_names(fam: Seq<(Seq<char>, Seq<char>, Seq<char>)>) -> Set<Seq<char>> {
    Set::new(|c: Seq<char>| exists|i: int| 0 <= i < fam.len() && #[trigger] fam[i].0 == c)
}

/// The distinct (version, source) pairs package `name` resolved at, as
/// ordered tuples (the middle component is fixed).
pub open spec fn resolved_set(fam: Seq<(Seq<char>, Seq<char>, Seq<char>)>, name: Seq<char>) -> Set<
    (Seq<char>, RefKind, Seq<char>),
> {
    Set::new(
        |v: (Seq<char>, RefKind, Seq<char>)|
            exists|i: int|
                0 <= i < fam.len() && fam[i].0 == name && v == (#[trigger] fam[i].1, RefKind::Tag, fam[i].2),
    )
}

/// `q` lists the distinct (version, source) pairs of `name`, in order.
pub open spec fn lists_resolved(
    fam: Seq<(Seq<char>, Seq<char>, Seq<char>)>,
    name: Seq<char>,
    q: Seq<(Seq<char>, RefKind, Seq<char>)>,
) -> bool {
    sorted_by(q, variant_order()) && forall|v: (Seq<char>, RefKind, Seq<char>)|
        q.contains(v) <==> resolved_set(fam, name).contains(v)
}

/// The distinct (version, source) pairs of `name`, in order.
pub open spec fn resolved_versions(fam: Seq<(Seq<char>, Seq<char>, Seq<char>)>, name: Seq<char>) -> Seq<
    (Seq<char>, RefKind, Seq<char>),
> {
    choose|q: Seq<(Seq<char>, RefKind, Seq<char>)>| #[trigger] lists_resolved(fam, name, q)
}

/// The report lines of the first `n` resolved versions.
pub open spec fn resolved_lines(vs: Seq<(Seq<char>, RefKind, Seq<char>)>, n: int) -> Seq<char>
    decreases n,
{
    if n <= 0 {
        seq![]
    } else {
        resolved_lines(vs, n - 1) + "\n  v"@ + vs[n - 1].0 + "  "@ + vs[n - 1].2
    }
}

/// The remedy line of a dual-version finding.
pub open spec fn dual_remedy() -> Seq<char> {
    "\n  => a tagged ZPR-family dependency pins this crate at a stale version; fix the pin in that repository and re-tag (the lock cannot name the pinning file)"@
}

/// The dual-version finding for `name` in the lock at `path`.
pub open spec fn dual_message(path: Seq<char>, name: Seq<char>, vs: Seq<(Seq<char>, RefKind, Seq<char>)>) -> Seq<
    char,
> {
    "dual-version: crate `"@ + name + "` resolved at "@ + decimal(vs.len()) + " versions in "@ + path
        + resolved_lines(vs, vs.len() as int) + dual_remedy()
}

/// The dual-version findings for the first `n` names of `names`.
pub open spec fn dual_findings(
    path: Seq<char>,
    fam: Seq<(Seq<char>, Seq<char>, Seq<char>)>,
    names: Seq<Seq<char>>,
    n: int,
) -> Seq<(Severity, Seq<char>)>
    decreases n,
{
    if n <= 0 {
        seq![]
    } else {
        let rest = dual_findings(path, fam, names, n - 1);
        let vs = resolved_versions(fam, names[n - 1]);
        if vs.len() <= 1 {
            rest
        } else {
            rest.push((Severity::Error, dual_message(path, names[n - 1], vs)))
        }
    }
}

/// What the scan says of one lock: its findings, and whether it is clean.
/// A lock that does not parse is an error finding and not clean.
pub open spec fn lock_findings(path: Seq<char>, text: Seq<char>) -> (Seq<(Severity, Seq<char>)>, bool) {
    match toml_document(text) {
        Err(e) => (seq![(Severity::Error, "cannot parse "@ + path + ": "@ + e)], false),
        Ok(entries) => parsed_lock_findings(path, entries),
    }
}

/// The findings for one parsed lock, and whether it was clean: one error per
/// ZPR-family package resolved at two or more (version, source) pairs.
pub open spec fn parsed_lock_findings(path: Seq<char>, entries: Seq<(String, TomlValue)>) -> (
    Seq<(Severity, Seq<char>)>,
    bool,
) {
    let packages = lock_packages(entries);
    let fam = family_packages(packages, packages.len() as int);
    let names = sorted_strings(family_names(fam));
    let fs = dual_findings(path, fam, names, names.len() as int);
    (fs, fs.len() == 0)
}

/// The scan's findings over the first `n` locks, and how many were clean.
pub open spec fn locks_scan(locks: Seq<(Seq<char>, Seq<char>)>, n: int) -> (Seq<(Severity, Seq<char>)>, nat)
    decreases n,
{
    if n <= 0 {
        (seq![], 0)
    } else {
        let (fs, clean) = locks_scan(locks, n - 1);
        let (lf, ok) = lock_findings(locks[n - 1].0, locks[n - 1].1);
        (fs + lf, clean + if ok {
            1nat
        } else {
            0nat
        })
    }
}

/// The census line for `n` clean locks.
pub open spec fn clean_locks_line(n: nat) -> Seq<char> {
    "lock scan: "@ + decimal(n) + " "@ + (if n == 1 {
        "lock"@
    } else {
        "locks"@
    }) + " free of dual-version ZPR-family crates"@
}

/// The lock scan: every dual-version finding, lock by lock, then the census
/// of clean locks when there are any.
pub open spec fn gate_lock_spec(locks: Seq<(Seq<char>, Seq<char>)>) -> Seq<(Severity, Seq<char>)> {
    let (fs, clean) = locks_scan(locks, locks.len() as int);
    fs + if clean > 0 {
        seq![(Severity::Pass, clean_locks_line(clean))]
    } else {
        seq![]
    }
}

/// The views of lock sources.
pub open spec fn locks_view(locks: Seq<LockSource>) -> Seq<(Seq<char>, Seq<char>)> {
    locks.map_values(|l: LockSource| (l.path@, l.text@))
}

/// The ZPR-family packages of a parsed lock.
pub fn family_of(entries: &Vec<(String, TomlValue)>) -> (r: Vec<(String, String, String)>)
    ensures
        r@.map_values(|e: (String, String, String)| (e.0@, e.1@, e.2@)) == family_packages(
            lock_packages(entries@),
            lock_packages(entries@).len() as int,
        ),
{
    proof {
        reveal_strlit("package");
        reveal_strlit("name");
        reveal_strlit("version");
        reveal_strlit("source");
    }
    let ghost packages = lock_packages(entries@);
    let mut fam: Vec<(String, String, String)> = Vec::new();
    let listed = toml_get(entries, "package");
    let empty: Vec<TomlValue> = Vec::new();
    let packs: &Vec<TomlValue> = match listed {
        Some(TomlValue::Array(a)) => a,
        _ => &empty,
    };
    assert(packs@ == packages);
    let mut i: usize = 0;
    while i < packs.len()
        invariant
            i <= packs.len(),
            packs@ == packages,
            fam@.map_values(|e: (String, String, String)| (e.0@, e.1@, e.2@)) == family_packages(
                packages,
                i as int,
            ),
        decreases packs.len() - i,
    {
        let ghost before = fam@.map_values(|e: (String, String, String)| (e.0@, e.1@, e.2@));
        match &packs[i] {
            TomlValue::Table(t) => {
                match (toml_str(t, "name"), toml_str(t, "version"), toml_str(t, "source")) {
                    (Some(n), Some(v), Some(src)) => {
                        if is_zpr_family(src.as_str()) {
                            let e = (owned(n.as_str()), owned(v.as_str()), owned(src.as_str()));
                            fam.push(e);
                            assert(fam@.map_values(|e: (String, String, String)| (e.0@, e.1@, e.2@))
                                =~= before.push((e.0@, e.1@, e.2@)));
                        }
                    },
                    _ => {},
                }
            },
            _ => {},
        }
        i = i + 1;
    }
    fam
}

/// The distinct family names, in order.
pub fn family_names_sorted(fam: &Vec<(String, String, String)>) -> (r: Vec<String>)
    ensures
        r@.map_values(|k: String| k@) == sorted_strings(
            family_names(fam@.map_values(|e: (String, String, String)| (e.0@, e.1@, e.2@))),
        ),
{
    let ghost fv = fam@.map_values(|e: (String, String, String)| (e.0@, e.1@, e.2@));
    let mut m = StrMap::new();
    let mut i: usize = 0;
    while i < fam.len()
        invariant
            i <= fam.len(),
            fv == fam@.map_values(|e: (String, String, String)| (e.0@, e.1@, e.2@)),
            forall|k: Seq<char>|
                m.view().contains_key(k) <==> exists|j: int| 0 <= j < i && #[trigger] fv[j].0 == k,
        decreases fam.len() - i,
    {
        m.insert(fam[i].0.as_str(), String::new());
        proof {
            assert forall|k: Seq<char>|
                m.view().contains_key(k) <==> exists|j: int| 0 <= j < i + 1 && #[trigger] fv[j].0 == k by {
                if k == fv[i as int].0 {
                    assert(fv[i as int].0 == k);
                }
            }
        }
        i = i + 1;
    }
    let r = m.keys();
    proof {
        let ks = r@.map_values(|k: String| k@);
        assert forall|x: Seq<char>| ks.contains(x) <==> family_names(fv).contains(x) by {
            if ks.contains(x) {
                assert(m.view().contains_key(x));
                let j = choose|j: int| 0 <= j < fam.len() && #[trigger] fv[j].0 == x;
                assert(fv[j].0 == x);
            }
            if family_names(fv).contains(x) {
                let j = choose|j: int| 0 <= j < fv.len() && #[trigger] fv[j].0 == x;
                assert(fv[j].0 == x);
                assert(m.view().contains_key(x));
            }
        }
        lemma_sorted_strings(ks, family_names(fv));
    }
    r
}

/// The distinct (version, source) pairs package `name` resolved at, in order.
pub fn resolved_of(fam: &Vec<(String, String, String)>, name: &str) -> (r: Vec<(String, RefKind, String)>)
    ensures
        variants_view(r@) == resolved_versions(
            fam@.map_values(|e: (String, String, String)| (e.0@, e.1@, e.2@)),
            name@,
        ),
{
    let ghost fv = fam@.map_values(|e: (String, String, String)| (e.0@, e.1@, e.2@));
    proof {
        lemma_variant_order();
    }
    let mut vs: Vec<(String, RefKind, String)> = Vec::new();
    let mut i: usize = 0;
    while i < fam.len()
        invariant
            i <= fam.len(),
            fv == fam@.map_values(|e: (String, String, String)| (e.0@, e.1@, e.2@)),
            sorted_by(variants_view(vs@), variant_order()),
            forall|v: (Seq<char>, RefKind, Seq<char>)|
                variants_view(vs@).contains(v) <==> exists|j: int|
                    0 <= j < i && fv[j].0 == name@ && v == (#[trigger] fv[j].1, RefKind::Tag, fv[j].2),
        decreases fam.len() - i,
    {
        let e = &fam[i];
        assert(fv[i as int] == (e.0@, e.1@, e.2@));
        if str_eq(e.0.as_str(), name) {
            let v = (owned(e.1.as_str()), RefKind::Tag, owned(e.2.as_str()));
            let ghost vv = (v.0@, v.1, v.2@);
            insert_variant(&mut vs, v);
            proof {
                assert forall|w: (Seq<char>, RefKind, Seq<char>)|
                    variants_view(vs@).contains(w) <==> exists|j: int|
                        0 <= j < i + 1 && fv[j].0 == name@ && w == (#[trigger] fv[j].1, RefKind::Tag, fv[j].2) by {
                    if w == vv {
                        assert(w == (fv[i as int].1, RefKind::Tag, fv[i as int].2));
                    }
                }
            }
        } else {
            proof {
                assert forall|w: (Seq<char>, RefKind, Seq<char>)|
                    variants_view(vs@).contains(w) <==> exists|j: int|
                        0 <= j < i + 1 && fv[j].0 == name@ && w == (#[trigger] fv[j].1, RefKind::Tag, fv[j].2) by {
                    if exists|j: int| 0 <= j < i + 1 && fv[j].0 == name@ && w == (#[trigger] fv[j].1, RefKind::Tag, fv[j].2) {
                        let j = choose|j: int| 0 <= j < i + 1 && fv[j].0 == name@ && w == (#[trigger] fv[j].1, RefKind::Tag, fv[j].2);
                        assert(j != i);
                    }
                }
            }
        }
        i = i + 1;
    }
    proof {
        let q = variants_view(vs@);
        assert(lists_resolved(fv, name@, q));
        let chosen = resolved_versions(fv, name@);
        assert(lists_resolved(fv, name@, chosen));
        lemma_sorted_by_unique(q, chosen, variant_order());
    }
    vs
}

/// The findings for one lock, and whether it was clean.
pub fn scan_lock(lock: &LockSource) -> (r: (Vec<Finding>, bool))
    ensures
        (findings_view(r.0@), r.1) == lock_findings(lock.path@, lock.text@),
{
    match parse_toml(lock.text.as_str()) {
        Ok(entries) => parsed_lock_scan(lock.path.as_str(), &entries),
        Err(error) => {
            let mut findings: Vec<Finding> = Vec::new();
            let mut message = owned("cannot parse ");
            message.append(lock.path.as_str());
            message.append(": ");
            message.append(error.as_str());
            let f = Finding::new(Severity::Error, message);
            findings.push(f);
            assert(findings_view(findings@) =~= seq![f@]);
            (findings, false)
        },
    }
}

/// The findings for one parsed lock, and whether it was clean.
pub fn parsed_lock_scan(path: &str, entries: &Vec<(String, TomlValue)>) -> (r: (Vec<Finding>, bool))
    ensures
        (findings_view(r.0@), r.1) == parsed_lock_findings(path@, entries@),
{
    let mut findings: Vec<Finding> = Vec::new();
    let fam = family_of(entries);
    let ghost fv = fam@.map_values(|e: (String, String, String)| (e.0@, e.1@, e.2@));
    let names = family_names_sorted(&fam);
    let ghost ns = names@.map_values(|k: String| k@);
    let mut i: usize = 0;
    while i < names.len()
        invariant
            i <= names.len(),
            fv == fam@.map_values(|e: (String, String, String)| (e.0@, e.1@, e.2@)),
            ns == names@.map_values(|k: String| k@),
            findings_view(findings@) == dual_findings(path@, fv, ns, i as int),
        decreases names.len() - i,
    {
        let name = names[i].as_str();
        assert(ns[i as int] == name@);
        let vs = resolved_of(&fam, name);
        let ghost vv = variants_view(vs@);
        if vs.len() > 1 {
            let ghost before = findings_view(findings@);
            let mut message = owned("dual-version: crate `");
            message.append(name);
            message.append("` resolved at ");
            let count = u64_to_string(vs.len() as u64);
            message.append(count.as_str());
            message.append(" versions in ");
            message.append(path);
            let ghost head = message@;
            let mut k: usize = 0;
            while k < vs.len()
                invariant
                    k <= vs.len(),
                    vv == variants_view(vs@),
                    message@ == head + resolved_lines(vv, k as int),
                decreases vs.len() - k,
            {
                assert(vv[k as int] == (vs@[k as int].0@, vs@[k as int].1, vs@[k as int].2@));
                message.append("\n  v");
                message.append(vs[k].0.as_str());
                message.append("  ");
                message.append(vs[k].2.as_str());
                assert(message@ =~= head + resolved_lines(vv, k + 1));
                k = k + 1;
            }
            message.append(
                "\n  => a tagged ZPR-family dependency pins this crate at a stale version; fix the pin in that repository and re-tag (the lock cannot name the pinning file)",
            );
            let f = Finding::new(Severity::Error, message);
            findings.push(f);
            assert(findings_view(findings@) =~= before.push(f@));
        }
        i = i + 1;
    }
    let clean = findings.len() == 0;
    (findings, clean)
}

/// Gate 1's post-resolution complement: scans each repository's resolved
/// `Cargo.lock` and flags any ZPR-family crate present at two or more
/// versions, naming the lock and every resolved (version, source) pair. Only
/// git sources count. A lock that does not parse is an error finding, not a
/// skip. Clean locks are counted in a closing `[OK]` line.
pub fn gate_lock_dual_versions(locks: &[LockSource]) -> (r: Vec<Finding>)
    ensures
        findings_view(r@) == gate_lock_spec(locks_view(locks@)),
{
    let ghost lv = locks_view(locks@);
    let mut findings: Vec<Finding> = Vec::new();
    let mut clean: usize = 0;
    let mut i: usize = 0;
    while i < locks.len()
        invariant
            i <= locks.len(),
            lv == locks_view(locks@),
            (findings_view(findings@), clean as nat) == locks_scan(lv, i as int),
            clean <= i,
        decreases locks.len() - i,
    {
        assert(lv[i as int] == (locks@[i as int].path@, locks@[i as int].text@));
        let (lf, ok) = scan_lock(&locks[i]);
        let ghost old_lf = lf@;
        let ghost before = findings@;
        let mut lf = lf;
        findings.append(&mut lf);
        assert(findings_view(findings@) =~= findings_view(before) + findings_view(old_lf));
        if ok {
            clean = clean + 1;
        }
        i = i + 1;
    }
    if clean > 0 {
        let ghost before = findings_view(findings@);
        let mut message = owned("lock scan: ");
        let n = u64_to_string(clean as u64);
        message.append(n.as_str());
        message.append(" ");
        message.append(if clean == 1 { "lock" } else { "locks" });
        message.append(" free of dual-version ZPR-family crates");
        let f = Finding::new(Severity::Pass, message);
        findings.push(f);
        assert(findings_view(findings@) =~= before.push(f@));
    }
    findings
}


// ---------------------------------------------------------------------------
// Pin extraction
// ---------------------------------------------------------------------------

/// Line `line` declares dependency `key`: after its indentation it starts
/// with the key, then a separator (so `capnp` never matches
/// `capnp-futures`), and it contains `needle`.
pub open spec fn declares_key(line: Seq<char>, key: Seq<char>, needle: Seq<char>) -> bool {
    let t = trim_start(line);
    &&& starts_with(t, key)
    &&& t.len() > key.len()
    &&& {
        let c = t[key.len() as int];
        c == ' ' || c == '\t' || c == '=' || c == '.'
    }
    &&& contains(line, needle)
}

/// The 1-based number of the first of `ls[k..]` declaring `key`, or 0.
pub open spec fn dep_line_from(ls: Seq<Seq<char>>, key: Seq<char>, needle: Seq<char>, k: int) -> nat
    decreases ls.len() - k,
{
    if k < 0 || k >= ls.len() {
        0
    } else if declares_key(ls[k], key, needle) {
        (k + 1) as nat
    } else {
        dep_line_from(ls, key, needle, k + 1)
    }
}

/// The 1-based line declaring dependency `key` in `text`, or 0.
pub open spec fn dep_line_spec(text: Seq<char>, key: Seq<char>, needle: Seq<char>) -> nat {
    dep_line_from(lines(text), key, needle, 0)
}

/// Finds the 1-based line where dependency `key` is declared: the first line
/// starting (after indentation) with the key, then a separator, and
/// containing `needle` (`git` for a literal pin, `workspace` for an
/// inherited one) so a registry declaration of the same key elsewhere is not
/// the match. 0 when not found.
pub fn dep_line(text: &str, key: &str, needle: &str) -> (r: usize)
    ensures
        r == dep_line_spec(text@, key@, needle@),
{
    let all = str_lines(text);
    let ghost ls = all@.map_values(|l: &str| l@);
    let mut i: usize = 0;
    while i < all.len()
        invariant
            i <= all.len(),
            ls == all@.map_values(|l: &str| l@),
            ls == lines(text@),
            dep_line_spec(text@, key@, needle@) == dep_line_from(ls, key@, needle@, i as int),
        decreases all.len() - i,
    {
        let line = all[i];
        assert(ls[i as int] == line@);
        let t = str_trim_start(line);
        match str_strip_prefix(t, key) {
            Some(rest) => {
                let rc = to_chars(rest);
                let separated = rc.len() > 0 && (rc[0] == ' ' || rc[0] == '\t' || rc[0] == '='
                    || rc[0] == '.');
                proof {
                    if rc.len() > 0 {
                        assert(rest@[0] == t@[key@.len() as int]);
                    }
                }
                if separated && str_contains(line, needle) {
                    return i + 1;
                }
            },
            None => {},
        }
        i = i + 1;
    }
    0
}

/// How a dependency table names its revision: `tag`, else `rev`, else
/// `branch`, each only when a string.
pub open spec fn pin_ref(dep: Seq<(String, TomlValue)>) -> Option<(RefKind, Seq<char>)> {
    match str_at(dep, "tag"@) {
        Some(t) => Some((RefKind::Tag, t)),
        None => match str_at(dep, "rev"@) {
            Some(r) => Some((RefKind::Rev, r)),
            None => match str_at(dep, "branch"@) {
                Some(b) => Some((RefKind::Branch, b)),
                None => None,
            },
        },
    }
}

/// The occurrence one `git = ...` dependency table makes: ZPR-family URLs
/// always, any other URL only when pinned by `rev`; a dependency floating
/// on its default branch is not captured. The crate is the `package` rename
/// when there is one.
pub open spec fn occurrence_spec(
    key: Seq<char>,
    dep: Seq<(String, TomlValue)>,
    file: Seq<char>,
    text: Seq<char>,
) -> Option<PinView> {
    match str_at(dep, "git"@) {
        None => None,
        Some(url) => match pin_ref(dep) {
            None => None,
            Some((kind, reference)) => if !(is_zpr_family_spec(url) || kind == RefKind::Rev) {
                None
            } else {
                Some(
                    PinView {
                        crate_name: match str_at(dep, "package"@) {
                            Some(p) => p,
                            None => key,
                        },
                        url,
                        reference,
                        kind,
                        file,
                        line: dep_line_spec(text, key, "git"@),
                        inherited: false,
                    },
                )
            },
        },
    }
}

/// Builds the occurrence for one `git = ...` dependency table.
fn occurrence(key: &str, dep: &Vec<(String, TomlValue)>, file: &str, text: &str) -> (r: Option<
    PinOccurrence,
>)
    ensures
        match r {
            Some(p) => occurrence_spec(key@, dep@, file@, text@) == Some(p@),
            None => occurrence_spec(key@, dep@, file@, text@) is None,
        },
{
    proof {
        reveal_strlit("git");
        reveal_strlit("tag");
        reveal_strlit("rev");
        reveal_strlit("branch");
        reveal_strlit("package");
    }
    let url = match toml_str(dep, "git") {
        Some(u) => u,
        None => return None,
    };
    let (kind, reference) = match toml_str(dep, "tag") {
        Some(t) => (RefKind::Tag, t),
        None => match toml_str(dep, "rev") {
            Some(r) => (RefKind::Rev, r),
            None => match toml_str(dep, "branch") {
                Some(b) => (RefKind::Branch, b),
                None => return None,
            },
        },
    };
    if !(is_zpr_family(url.as_str()) || kind == RefKind::Rev) {
        return None;
    }
    let crate_name = match toml_str(dep, "package") {
        Some(p) => owned(p.as_str()),
        None => owned(key),
    };
    let line = dep_line(text, key, "git");
    Some(
        PinOccurrence {
            crate_name,
            url: owned(url.as_str()),
            reference: owned(reference.as_str()),
            kind,
            file: owned(file),
            line,
            inherited: false,
        },
    )
}

/// The literal pins of the first `n` git dependency tables.
pub open spec fn literal_pins(
    deps: Seq<(String, Vec<(String, TomlValue)>)>,
    file: Seq<char>,
    text: Seq<char>,
    n: int,
) -> Seq<PinView>
    decreases n,
{
    if n <= 0 {
        seq![]
    } else {
        let rest = literal_pins(deps, file, text, n - 1);
        match occurrence_spec(deps[n - 1].0@, deps[n - 1].1@, file, text) {
            Some(p) => rest.push(p),
            None => rest,
        }
    }
}

/// The pins the first `n` inherited keys bring into a member: each key whose
/// `[workspace.dependencies]` entry is itself a captured git pin, attributed
/// to the member at the key's `workspace` line.
pub open spec fn inherited_pins(
    keys: Seq<Seq<char>>,
    ws: Seq<(String, TomlValue)>,
    file: Seq<char>,
    text: Seq<char>,
    n: int,
) -> Seq<PinView>
    decreases n,
{
    if n <= 0 {
        seq![]
    } else {
        let rest = inherited_pins(keys, ws, file, text, n - 1);
        match table_get(ws, keys[n - 1]) {
            Some(TomlValue::Table(dep)) => match occurrence_spec(keys[n - 1], dep@, file, text) {
                Some(p) => rest.push(
                    PinView { line: dep_line_spec(text, keys[n - 1], "workspace"@), inherited: true, ..p },
                ),
                None => rest,
            },
            _ => rest,
        }
    }
}

/// The root's `[workspace.dependencies]` table, when it has one.
pub open spec fn workspace_deps(root: Seq<(String, TomlValue)>) -> Option<Seq<(String, TomlValue)>> {
    match table_get(root, "workspace"@) {
        Some(TomlValue::Table(ws)) => match table_get(ws@, "dependencies"@) {
            Some(TomlValue::Table(d)) => Some(d@),
            _ => None,
        },
        _ => None,
    }
}

/// One member's pins: its own literal pins, then the pins it inherits
/// through `{ workspace = true }`, keys in order and once each.
pub open spec fn member_pins(
    ws: Option<Seq<(String, TomlValue)>>,
    path: Seq<char>,
    text: Seq<char>,
    entries: Seq<(String, TomlValue)>,
) -> Seq<PinView> {
    let deps = git_deps(entries);
    literal_pins(deps, path, text, deps.len() as int) + match ws {
        None => seq![],
        Some(w) => {
            let keys = sorted_strings(inherited_keys(entries).to_set());
            inherited_pins(keys, w, path, text, keys.len() as int)
        },
    }
}

/// The pins of the first `n` members; the first member that does not parse
/// is the error.
pub open spec fn members_pins(
    ws: Option<Seq<(String, TomlValue)>>,
    members: Seq<(Seq<char>, Seq<char>)>,
    n: int,
) -> Result<Seq<PinView>, (Seq<char>, Option<Seq<char>>)>
    decreases n,
{
    if n <= 0 {
        Ok(seq![])
    } else {
        match members_pins(ws, members, n - 1) {
            Err(e) => Err(e),
            Ok(acc) => match toml_document(members[n - 1].1) {
                Err(e) => Err(("cannot parse "@ + members[n - 1].0, Some(e))),
                Ok(entries) => Ok(
                    acc + member_pins(ws, members[n - 1].0, members[n - 1].1, entries),
                ),
            },
        }
    }
}

/// Every captured pin of one repository's manifests.
pub open spec fn extract_pins_spec(root: (Seq<char>, Seq<char>), members: Seq<(Seq<char>, Seq<char>)>) -> Result<
    Seq<PinView>,
    (Seq<char>, Option<Seq<char>>),
> {
    match toml_document(root.1) {
        Err(e) => Err(("cannot parse "@ + root.0, Some(e))),
        Ok(entries) => match members_pins(workspace_deps(entries), members, members.len() as int) {
            Err(e) => Err(e),
            Ok(ms) => {
                let deps = git_deps(entries);
                Ok(literal_pins(deps, root.0, root.1, deps.len() as int) + ms)
            },
        },
    }
}

/// A pin gate 1 captures: a ZPR-family dependency, or any rev pin.
pub open spec fn captured(p: PinView) -> bool {
    is_zpr_family_spec(p.url) || p.kind == RefKind::Rev
}

proof fn lemma_literal_pins_captured(
    deps: Seq<(String, Vec<(String, TomlValue)>)>,
    file: Seq<char>,
    text: Seq<char>,
    n: int,
)
    ensures
        forall|i: int| 0 <= i < literal_pins(deps, file, text, n).len() ==> {
            let p = #[trigger] literal_pins(deps, file, text, n)[i];
            captured(p) && p.file == file && !p.inherited
        },
    decreases n,
{
    if n > 0 {
        lemma_literal_pins_captured(deps, file, text, n - 1);
    }
}

proof fn lemma_inherited_pins_captured(
    keys: Seq<Seq<char>>,
    ws: Seq<(String, TomlValue)>,
    file: Seq<char>,
    text: Seq<char>,
    n: int,
)
    ensures
        forall|i: int| 0 <= i < inherited_pins(keys, ws, file, text, n).len() ==> {
            let p = #[trigger] inherited_pins(keys, ws, file, text, n)[i];
            captured(p) && p.file == file && p.inherited
        },
    decreases n,
{
    if n > 0 {
        lemma_inherited_pins_captured(keys, ws, file, text, n - 1);
    }
}

proof fn lemma_member_pins_captured(
    ws: Option<Seq<(String, TomlValue)>>,
    path: Seq<char>,
    text: Seq<char>,
    entries: Seq<(String, TomlValue)>,
)
    ensures
        forall|i: int| 0 <= i < member_pins(ws, path, text, entries).len() ==> {
            let p = #[trigger] member_pins(ws, path, text, entries)[i];
            captured(p) && p.file == path
        },
{
    let deps = git_deps(entries);
    let lit = literal_pins(deps, path, text, deps.len() as int);
    lemma_literal_pins_captured(deps, path, text, deps.len() as int);
    let inh = match ws {
        None => Seq::<PinView>::empty(),
        Some(w) => {
            let keys = sorted_strings(inherited_keys(entries).to_set());
            lemma_inherited_pins_captured(keys, w, path, text, keys.len() as int);
            inherited_pins(keys, w, path, text, keys.len() as int)
        },
    };
    assert(member_pins(ws, path, text, entries) == lit + inh);
    assert forall|i: int| 0 <= i < (lit + inh).len() implies captured(#[trigger] (lit + inh)[i]) && (lit
        + inh)[i].file == path by {
        if i >= lit.len() {
            assert((lit + inh)[i] == inh[i - lit.len()]);
        }
    }
}

proof fn lemma_members_pins_captured(
    ws: Option<Seq<(String, TomlValue)>>,
    members: Seq<(Seq<char>, Seq<char>)>,
    n: int,
)
    requires
        0 <= n <= members.len(),
    ensures
        members_pins(ws, members, n) matches Ok(ps) ==> forall|i: int| 0 <= i < ps.len() ==> {
            let p = #[trigger] ps[i];
            captured(p) && exists|m: int| 0 <= m < n && p.file == members[m].0
        },
    decreases n,
{
    if n > 0 {
        lemma_members_pins_captured(ws, members, n - 1);
        match members_pins(ws, members, n - 1) {
            Err(_) => {},
            Ok(acc) => match toml_document(members[n - 1].1) {
                Err(_) => {},
                Ok(entries) => {
                    let mp = member_pins(ws, members[n - 1].0, members[n - 1].1, entries);
                    lemma_member_pins_captured(ws, members[n - 1].0, members[n - 1].1, entries);
                    assert forall|i: int| 0 <= i < (acc + mp).len() implies {
                        let p = #[trigger] (acc + mp)[i];
                        captured(p) && exists|m: int| 0 <= m < n && p.file == members[m].0
                    } by {
                        if i >= acc.len() {
                            assert((acc + mp)[i] == mp[i - acc.len()]);
                            assert(mp[i - acc.len()].file == members[n - 1].0);
                        } else {
                            assert((acc + mp)[i] == acc[i]);
                            let m = choose|m: int| 0 <= m < n - 1 && acc[i].file == members[m].0;
                        }
                    }
                },
            },
        }
    }
}

/// Every pin extraction captures is a ZPR-family dependency or a rev pin,
/// so a foreign git dependency on a branch or tag is never a pin; and each
/// is declared in the root manifest (literally, not inherited) or in one of
/// the member manifests.
#[verifier::spinoff_prover]
pub proof fn lemma_pins_are_captured(root: (Seq<char>, Seq<char>), members: Seq<(Seq<char>, Seq<char>)>)
    ensures
        extract_pins_spec(root, members) matches Ok(ps) ==> forall|i: int| 0 <= i < ps.len() ==> {
            let p = #[trigger] ps[i];
            &&& captured(p)
            &&& (p.file == root.0 && !p.inherited) || exists|m: int|
                0 <= m < members.len() && p.file == members[m].0
        },
{
    match toml_document(root.1) {
        Err(_) => {},
        Ok(entries) => {
            lemma_members_pins_captured(workspace_deps(entries), members, members.len() as int);
            match members_pins(workspace_deps(entries), members, members.len() as int) {
                Err(_) => {},
                Ok(ms) => {
                    let deps = git_deps(entries);
                    let lit = literal_pins(deps, root.0, root.1, deps.len() as int);
                    lemma_literal_pins_captured(deps, root.0, root.1, deps.len() as int);
                    assert forall|i: int| 0 <= i < (lit + ms).len() implies {
                        let p = #[trigger] (lit + ms)[i];
                        &&& captured(p)
                        &&& (p.file == root.0 && !p.inherited) || exists|m: int|
                            0 <= m < members.len() && p.file == members[m].0
                    } by {
                        if i >= lit.len() {
                            assert((lit + ms)[i] == ms[i - lit.len()]);
                        } else {
                            assert((lit + ms)[i] == lit[i]);
                        }
                    }
                },
            }
        },
    }
}

/// The views of manifest sources.
pub open spec fn sources_view(s: Seq<ManifestSource>) -> Seq<(Seq<char>, Seq<char>)> {
    s.map_values(|m: ManifestSource| (m.path@, m.text@))
}

/// The literal pins of a list of git dependency tables.
pub fn literal_pins_of(
    deps: &Vec<(&String, &Vec<(String, TomlValue)>)>,
    file: &str,
    text: &str,
    out: &mut Vec<PinOccurrence>,
)
    ensures
        pins_view(final(out)@) == pins_view(old(out)@) + literal_pins(
            deps_view(deps@),
            file@,
            text@,
            deps@.len() as int,
        ),
{
    let ghost dv = deps_view(deps@);
    let ghost start = pins_view(out@);
    let mut i: usize = 0;
    while i < deps.len()
        invariant
            i <= deps.len(),
            dv == deps_view(deps@),
            pins_view(out@) == start + literal_pins(dv, file@, text@, i as int),
        decreases deps.len() - i,
    {
        let (key, dep) = deps[i];
        assert(dv[i as int] == (*key, *dep));
        match occurrence(key.as_str(), dep, file, text) {
            Some(p) => {
                let ghost before = pins_view(out@);
                out.push(p);
                assert(pins_view(out@) =~= before.push(p@));
            },
            None => {},
        }
        i = i + 1;
    }
}

/// One member's pins.
pub fn member_pins_of(
    ws: Option<&Vec<(String, TomlValue)>>,
    member: &ManifestSource,
    entries: &Vec<(String, TomlValue)>,
    out: &mut Vec<PinOccurrence>,
)
    ensures
        pins_view(final(out)@) == pins_view(old(out)@) + member_pins(
            match ws {
                Some(w) => Some(w@),
                None => None,
            },
            member.path@,
            member.text@,
            entries@,
        ),
{
    proof {
        reveal_strlit("workspace");
    }
    let ghost start = pins_view(out@);
    let deps = collect_git_deps(entries);
    literal_pins_of(&deps, member.path.as_str(), member.text.as_str(), out);
    let ghost mid = pins_view(out@);
    match ws {
        None => {
            assert(pins_view(out@) =~= start + member_pins(None, member.path@, member.text@, entries@));
        },
        Some(w) => {
            let inherited = collect_workspace_inherited(entries);
            let mut m = StrMap::new();
            let mut i: usize = 0;
            let ghost ik = inherited@.map_values(|k: &String| k@);
            while i < inherited.len()
                invariant
                    i <= inherited.len(),
                    ik == inherited@.map_values(|k: &String| k@),
                    forall|k: Seq<char>|
                        m.view().contains_key(k) <==> exists|j: int| 0 <= j < i && #[trigger] ik[j] == k,
                decreases inherited.len() - i,
            {
                m.insert(inherited[i].as_str(), String::new());
                proof {
                    assert forall|k: Seq<char>|
                        m.view().contains_key(k) <==> exists|j: int| 0 <= j < i + 1 && #[trigger] ik[j] == k by {
                        if k == ik[i as int] {
                            assert(ik[i as int] == k);
                        }
                    }
                }
                i = i + 1;
            }
            let keys = m.keys();
            let ghost kv = keys@.map_values(|k: String| k@);
            proof {
                assert forall|x: Seq<char>| kv.contains(x) <==> ik.to_set().contains(x) by {
                    if kv.contains(x) {
                        assert(m.view().contains_key(x));
                        let j = choose|j: int| 0 <= j < inherited.len() && #[trigger] ik[j] == x;
                        assert(ik.contains(x));
                    }
                    if ik.to_set().contains(x) {
                        assert(ik.contains(x));
                        let j = choose|j: int| 0 <= j < ik.len() && ik[j] == x;
                        assert(ik[j] == x);
                        assert(m.view().contains_key(x));
                    }
                }
                lemma_sorted_strings(kv, ik.to_set());
            }
            let mut k: usize = 0;
            while k < keys.len()
                invariant
                    k <= keys.len(),
                    kv == keys@.map_values(|k: String| k@),
                    pins_view(out@) == mid + inherited_pins(kv, w@, member.path@, member.text@, k as int),
                decreases keys.len() - k,
            {
                let key = keys[k].as_str();
                assert(kv[k as int] == key@);
                match toml_get(w, key) {
                    Some(TomlValue::Table(dep)) => {
                        match occurrence(key, dep, member.path.as_str(), member.text.as_str()) {
                            Some(p) => {
                                let line = dep_line(member.text.as_str(), key, "workspace");
                                let pin = PinOccurrence {
                                    crate_name: p.crate_name,
                                    url: p.url,
                                    reference: p.reference,
                                    kind: p.kind,
                                    file: p.file,
                                    line,
                                    inherited: true,
                                };
                                let ghost before = pins_view(out@);
                                out.push(pin);
                                assert(pins_view(out@) =~= before.push(pin@));
                            },
                            None => {},
                        }
                    },
                    _ => {},
                }
                k = k + 1;
            }
            assert(pins_view(out@) =~= start + member_pins(Some(w@), member.path@, member.text@, entries@));
        },
    }
}

/// Extracts every captured pin from one repository's manifests: the root
/// `Cargo.toml` plus each workspace member's. A member declaring `{ workspace
/// = true }` for a crate the root pins by git inherits that pin, and the
/// occurrence is attributed to the member. A manifest that does not parse is
/// an error naming it.
pub fn extract_pins(root: &ManifestSource, members: &[ManifestSource]) -> (r: Result<
    Vec<PinOccurrence>,
    GateError,
>)
    ensures
        match r {
            Ok(pins) => extract_pins_spec((root.path@, root.text@), sources_view(members@)) == Ok::<
                Seq<PinView>,
                (Seq<char>, Option<Seq<char>>),
            >(pins_view(pins@)),
            Err(e) => extract_pins_spec((root.path@, root.text@), sources_view(members@)) == Err::<
                Seq<PinView>,
                (Seq<char>, Option<Seq<char>>),
            >(e@),
        },
{
    proof {
        reveal_strlit("workspace");
        reveal_strlit("dependencies");
    }
    let root_entries = match parse_toml(root.text.as_str()) {
        Ok(entries) => entries,
        Err(error) => {
            let mut context = owned("cannot parse ");
            context.append(root.path.as_str());
            return Err(GateError { context, cause: Some(error) });
        },
    };
    let mut pins: Vec<PinOccurrence> = Vec::new();
    let root_deps = collect_git_deps(&root_entries);
    literal_pins_of(&root_deps, root.path.as_str(), root.text.as_str(), &mut pins);
    let ghost root_pins = pins_view(pins@);
    let ws: Option<&Vec<(String, TomlValue)>> = match toml_get(&root_entries, "workspace") {
        Some(TomlValue::Table(w)) => match toml_get(w, "dependencies") {
            Some(TomlValue::Table(d)) => Some(d),
            _ => None,
        },
        _ => None,
    };
    let ghost wsv = match ws {
        Some(w) => Some(w@),
        None => None::<Seq<(String, TomlValue)>>,
    };
    assert(wsv == workspace_deps(root_entries@));
    let ghost mv = sources_view(members@);
    let mut i: usize = 0;
    while i < members.len()
        invariant
            i <= members.len(),
            mv == sources_view(members@),
            wsv == match ws {
                Some(w) => Some(w@),
                None => None::<Seq<(String, TomlValue)>>,
            },
            members_pins(wsv, mv, i as int) matches Ok(acc) && pins_view(pins@) == root_pins + acc,
            wsv == workspace_deps(root_entries@),
            toml_document(root.text@) == Ok::<Seq<(String, TomlValue)>, Seq<char>>(root_entries@),
            root_pins == literal_pins(git_deps(root_entries@), root.path@, root.text@, git_deps(root_entries@).len() as int),
        decreases members.len() - i,
    {
        let member = &members[i];
        assert(mv[i as int] == (member.path@, member.text@));
        let entries = match parse_toml(member.text.as_str()) {
            Ok(entries) => entries,
            Err(error) => {
                let mut context = owned("cannot parse ");
                context.append(member.path.as_str());
                let e = GateError { context, cause: Some(error) };
                assert(members_pins(wsv, mv, i + 1) == Err::<Seq<PinView>, (Seq<char>, Option<Seq<char>>)>(e@));
                proof {
                    lemma_members_error_sticks(wsv, mv, i + 1, members.len() as int);
                }
                return Err(e);
            },
        };
        member_pins_of(ws, member, &entries, &mut pins);
        proof {
            let acc = members_pins(wsv, mv, i as int)->Ok_0;
            assert(pins_view(pins@) =~= root_pins + (acc + member_pins(wsv, member.path@, member.text@, entries@)));
        }
        i = i + 1;
    }
    Ok(pins)
}

/// Once a member fails to parse, the whole extraction reports that failure.
proof fn lemma_members_error_sticks(
    ws: Option<Seq<(String, TomlValue)>>,
    members: Seq<(Seq<char>, Seq<char>)>,
    k: int,
    n: int,
)
    requires
        0 < k <= n,
        members_pins(ws, members, k) is Err,
    ensures
        members_pins(ws, members, n) == members_pins(ws, members, k),
    decreases n - k,
{
    if n > k {
        lemma_members_error_sticks(ws, members, k, n - 1);
    }
}


// ---------------------------------------------------------------------------
// What the gates promise
// ---------------------------------------------------------------------------

/// Under `--allow-pin-drift` gate 1 never reports an error: every
/// disagreement becomes a warning, so gate 1 cannot fail the run.
pub proof fn lemma_downgrade_never_errors(pins: Seq<PinView>, drift: Seq<(Seq<char>, Seq<char>)>)
    ensures
        forall|i: int|
            0 <= i < gate_pin_agreement_spec(pins, drift, true).len() ==> (#[trigger] gate_pin_agreement_spec(
                pins,
                drift,
                true,
            )[i]).0 != Severity::Error,
{
    let cs = crates_in_order(pins);
    lemma_crate_findings_downgraded(pins, drift, cs, cs.len() as int);
}

proof fn lemma_crate_findings_downgraded(
    pins: Seq<PinView>,
    drift: Seq<(Seq<char>, Seq<char>)>,
    cs: Seq<Seq<char>>,
    n: int,
)
    ensures
        forall|i: int|
            0 <= i < crate_findings(pins, drift, true, cs, n).len() ==> (#[trigger] crate_findings(
                pins,
                drift,
                true,
                cs,
                n,
            )[i]).0 != Severity::Error,
    decreases n,
{
    if n > 0 {
        lemma_crate_findings_downgraded(pins, drift, cs, n - 1);
    }
}

/// A crate with an `allow_pin_drift` entry never fails gate 1: its finding,
/// when it has one, is the informational echo of the approved reason.
pub proof fn lemma_drift_entry_tolerates(
    pins: Seq<PinView>,
    drift: Seq<(Seq<char>, Seq<char>)>,
    downgrade: bool,
    c: Seq<char>,
)
    requires
        first_drift(drift, c) is Some,
    ensures
        crate_finding(pins, drift, downgrade, c) matches Some(f) ==> f == (
            Severity::Info,
            "pin drift allowed for crate `"@ + c + "`: "@ + first_drift(drift, c)->Some_0,
        ),
{
}

/// A crate whose pins agree never appears in gate 1's findings, and one
/// whose pins disagree always does.
pub proof fn lemma_only_disagreements_are_reported(
    pins: Seq<PinView>,
    drift: Seq<(Seq<char>, Seq<char>)>,
    downgrade: bool,
    c: Seq<char>,
)
    ensures
        crate_finding(pins, drift, downgrade, c) is None <==> crate_variants(pins, c).len() <= 1,
{
}

/// Gate 1 says one thing of each disagreeing crate and nothing of an
/// agreeing one: over the first `n` crates, the findings number the
/// disagreeing crates, each finding is the one [`crate_finding`] gives for a
/// disagreeing crate, and each disagreeing crate's finding is there.
#[verifier::spinoff_prover]
pub proof fn lemma_gate1_one_finding_per_disagreeing_crate(
    pins: Seq<PinView>,
    drift: Seq<(Seq<char>, Seq<char>)>,
    downgrade: bool,
    cs: Seq<Seq<char>>,
    n: int,
)
    requires
        0 <= n <= cs.len(),
    ensures
        crate_findings(pins, drift, downgrade, cs, n).len() + agreeing_count(pins, cs, n) == n,
        forall|i: int| 0 <= i < crate_findings(pins, drift, downgrade, cs, n).len() ==> exists|k: int|
            0 <= k < n && crate_variants(pins, cs[k]).len() > 1 && Some(
                #[trigger] crate_findings(pins, drift, downgrade, cs, n)[i],
            ) == crate_finding(pins, drift, downgrade, cs[k]),
        forall|k: int| 0 <= k < n && crate_variants(pins, #[trigger] cs[k]).len() > 1 ==> exists|i: int|
            0 <= i < crate_findings(pins, drift, downgrade, cs, n).len() && Some(
                crate_findings(pins, drift, downgrade, cs, n)[i],
            ) == crate_finding(pins, drift, downgrade, cs[k]),
    decreases n,
{
    if n > 0 {
        lemma_gate1_one_finding_per_disagreeing_crate(pins, drift, downgrade, cs, n - 1);
        lemma_only_disagreements_are_reported(pins, drift, downgrade, cs[n - 1]);
        let rest = crate_findings(pins, drift, downgrade, cs, n - 1);
        let all = crate_findings(pins, drift, downgrade, cs, n);
        match crate_finding(pins, drift, downgrade, cs[n - 1]) {
            Some(f) => {
                assert(all == rest.push(f));
                assert forall|i: int| 0 <= i < all.len() implies exists|k: int|
                    0 <= k < n && crate_variants(pins, cs[k]).len() > 1 && Some(#[trigger] all[i])
                        == crate_finding(pins, drift, downgrade, cs[k]) by {
                    if i < rest.len() {
                        assert(all[i] == rest[i]);
                    } else {
                        assert(all[i] == f);
                    }
                }
                assert forall|k: int| 0 <= k < n && crate_variants(pins, #[trigger] cs[k]).len() > 1 implies exists|
                    i: int,
                | 0 <= i < all.len() && Some(all[i]) == crate_finding(pins, drift, downgrade, cs[k]) by {
                    if k < n - 1 {
                        let i = choose|i: int|
                            0 <= i < rest.len() && Some(rest[i]) == crate_finding(pins, drift, downgrade, cs[k]);
                        assert(all[i] == rest[i]);
                    } else {
                        assert(all[rest.len() as int] == f);
                    }
                }
            },
            None => {
                assert(all == rest);
            },
        }
    }
}

/// The crates the pins name form a finite set.
proof fn lemma_crate_set_finite(pins: Seq<PinView>)
    ensures
        crate_set(pins).finite(),
{
    let names = pins.map_values(|p: PinView| p.crate_name);
    assert forall|c: Seq<char>| crate_set(pins).contains(c) <==> #[trigger] names.to_set().contains(c) by {
        if crate_set(pins).contains(c) {
            let i = choose|i: int| 0 <= i < pins.len() && #[trigger] pins[i].crate_name == c;
            assert(names[i] == c);
        }
        if names.to_set().contains(c) {
            let i = choose|i: int| 0 <= i < names.len() && names[i] == c;
            assert(pins[i].crate_name == c);
        }
    }
    assert(crate_set(pins) =~= names.to_set());
    vstd::seq_lib::seq_to_set_is_finite(names);
}

/// The variants crate `c` is pinned at form a finite set.
proof fn lemma_crate_variant_set_finite(pins: Seq<PinView>, c: Seq<char>)
    ensures
        crate_variant_set(pins, c).finite(),
{
    let vs = pins.map_values(|p: PinView| variant_of(p));
    vstd::seq_lib::seq_to_set_is_finite(vs);
    let t = vs.to_set().intersect(crate_variant_set(pins, c));
    vstd::set::axiom_set_intersect_finite(vs.to_set(), crate_variant_set(pins, c));
    assert forall|v: (Seq<char>, RefKind, Seq<char>)| #[trigger] crate_variant_set(pins, c).contains(v) implies vs.to_set().contains(v) by {
        let i = choose|i: int| 0 <= i < pins.len() && pins[i].crate_name == c && #[trigger] variant_of(pins[i]) == v;
        assert(vs[i] == v);
    }
    assert(t =~= crate_variant_set(pins, c));
}

/// A crate whose pins name two different variants has at least two listed.
proof fn lemma_two_variants(pins: Seq<PinView>, c: Seq<char>, i: int, j: int)
    requires
        0 <= i < pins.len(),
        0 <= j < pins.len(),
        pins[i].crate_name == c,
        pins[j].crate_name == c,
        variant_of(pins[i]) != variant_of(pins[j]),
    ensures
        crate_variants(pins, c).len() >= 2,
{
    lemma_variant_order();
    lemma_crate_variant_set_finite(pins, c);
    crate::order::lemma_sorted_by_exists(crate_variant_set(pins, c), variant_order());
    let q = choose|q: Seq<(Seq<char>, RefKind, Seq<char>)>| sorted_by(q, variant_order()) && forall|
        y: (Seq<char>, RefKind, Seq<char>),
    | #[trigger] q.contains(y) <==> crate_variant_set(pins, c).contains(y);
    assert(lists_variants(pins, c, q));
    let cv = crate_variants(pins, c);
    assert(lists_variants(pins, c, cv));
    assert(crate_variant_set(pins, c).contains(variant_of(pins[i])));
    assert(crate_variant_set(pins, c).contains(variant_of(pins[j])));
    assert(cv.contains(variant_of(pins[i])));
    assert(cv.contains(variant_of(pins[j])));
    let a = choose|a: int| 0 <= a < cv.len() && cv[a] == variant_of(pins[i]);
    let b = choose|b: int| 0 <= b < cv.len() && cv[b] == variant_of(pins[j]);
    assert(a != b);
}

/// No drift entry names `c`: then none is found for it.
proof fn lemma_no_drift_entry(drift: Seq<(Seq<char>, Seq<char>)>, c: Seq<char>)
    requires
        forall|k: int| 0 <= k < drift.len() ==> (#[trigger] drift[k]).0 != c,
    ensures
        first_drift(drift, c) is None,
    decreases drift.len(),
{
    if drift.len() > 0 {
        assert(drift[0].0 != c);
        assert forall|k: int| 0 <= k < drift.drop_first().len() implies (#[trigger] drift.drop_first()[k]).0 != c by {
            assert(drift.drop_first()[k] == drift[k + 1]);
        }
        lemma_no_drift_entry(drift.drop_first(), c);
    }
}

/// A drift entry tolerates only the crate it names exactly: a crate whose
/// pins name two different (url, kind, reference) variants, and which no
/// drift entry names, fails gate 1 with its pin disagreement, an error (a
/// warning under `--allow-pin-drift`), whatever other crates the drift
/// entries name.
#[verifier::spinoff_prover]
pub proof fn lemma_only_the_named_crate_is_tolerated(
    pins: Seq<PinView>,
    drift: Seq<(Seq<char>, Seq<char>)>,
    downgrade: bool,
    i: int,
    j: int,
)
    requires
        0 <= i < pins.len(),
        0 <= j < pins.len(),
        pins[i].crate_name == pins[j].crate_name,
        (pins[i].url, pins[i].kind, pins[i].reference) != (pins[j].url, pins[j].kind, pins[j].reference),
        forall|k: int| 0 <= k < drift.len() ==> (#[trigger] drift[k]).0 != pins[i].crate_name,
    ensures
        exists|f: int|
            0 <= f < gate_pin_agreement_spec(pins, drift, downgrade).len() && #[trigger] gate_pin_agreement_spec(
                pins,
                drift,
                downgrade,
            )[f] == (
                if downgrade {
                    Severity::Warn
                } else {
                    Severity::Error
                },
                disagreement_message(pins, pins[i].crate_name),
            ),
{
    let c = pins[i].crate_name;
    lemma_two_variants(pins, c, i, j);
    lemma_no_drift_entry(drift, c);
    lemma_disagreeing_finding(pins, drift, downgrade, c);
    lemma_crate_set_finite(pins);
    crate::order::lemma_sorted_strings_exist(crate_set(pins));
    let cs = crates_in_order(pins);
    assert(crate_set(pins).contains(c));
    assert(cs.contains(c));
    let k = choose|k: int| 0 <= k < cs.len() && cs[k] == c;
    lemma_gate1_one_finding_per_disagreeing_crate(pins, drift, downgrade, cs, cs.len() as int);
    let fs = crate_findings(pins, drift, downgrade, cs, cs.len() as int);
    assert(crate_variants(pins, cs[k]).len() > 1);
    let f = choose|f: int| 0 <= f < fs.len() && Some(fs[f]) == crate_finding(pins, drift, downgrade, cs[k]);
    lemma_agreement_starts_with_crates(pins, drift, downgrade);
    assert(gate_pin_agreement_spec(pins, drift, downgrade)[f] == fs[f]);
}

/// A crate with two or more variants and no drift entry gets its
/// disagreement.
proof fn lemma_disagreeing_finding(
    pins: Seq<PinView>,
    drift: Seq<(Seq<char>, Seq<char>)>,
    downgrade: bool,
    c: Seq<char>,
)
    requires
        crate_variants(pins, c).len() >= 2,
        first_drift(drift, c) is None,
    ensures
        crate_finding(pins, drift, downgrade, c) == Some(
            (
                if downgrade {
                    Severity::Warn
                } else {
                    Severity::Error
                },
                disagreement_message(pins, c),
            ),
        ),
{
}

/// Gate 1's findings begin with the per-crate findings.
proof fn lemma_agreement_starts_with_crates(pins: Seq<PinView>, drift: Seq<(Seq<char>, Seq<char>)>, downgrade: bool)
    ensures
        ({
            let cs = crates_in_order(pins);
            let fs = crate_findings(pins, drift, downgrade, cs, cs.len() as int);
            &&& fs.len() <= gate_pin_agreement_spec(pins, drift, downgrade).len()
            &&& forall|f: int| 0 <= f < fs.len() ==> #[trigger] gate_pin_agreement_spec(pins, drift, downgrade)[f] == fs[f]
        }),
{
}

/// No version is older than itself.
pub proof fn lemma_version_lt_irreflexive(a: Seq<u64>)
    ensures
        !version_lt(a, a),
    decreases a.len(),
{
    if a.len() > 0 {
        lemma_version_lt_irreflexive(a.drop_first());
    }
}

/// Version order is transitive.
pub proof fn lemma_version_lt_transitive(a: Seq<u64>, b: Seq<u64>, c: Seq<u64>)
    requires
        version_lt(a, b),
        version_lt(b, c),
    ensures
        version_lt(a, c),
    decreases a.len(),
{
    if a.len() > 0 && b.len() > 0 && c.len() > 0 && a[0] == b[0] && b[0] == c[0] {
        lemma_version_lt_transitive(a.drop_first(), b.drop_first(), c.drop_first());
    }
}

/// Two different versions are ordered one way or the other.
pub proof fn lemma_version_lt_total(a: Seq<u64>, b: Seq<u64>)
    requires
        a != b,
    ensures
        version_lt(a, b) || version_lt(b, a),
    decreases a.len(),
{
    if a.len() > 0 && b.len() > 0 && a[0] == b[0] {
        if a.drop_first() == b.drop_first() {
            assert(a =~= seq![a[0]] + a.drop_first());
            assert(b =~= seq![b[0]] + b.drop_first());
        }
        lemma_version_lt_total(a.drop_first(), b.drop_first());
    } else if a.len() == 0 && b.len() == 0 {
        assert(a =~= b);
    }
}

/// Version order is asymmetric.
pub proof fn lemma_version_lt_asymmetric(a: Seq<u64>, b: Seq<u64>)
    requires
        version_lt(a, b),
    ensures
        !version_lt(b, a),
{
    if version_lt(b, a) {
        lemma_version_lt_transitive(a, b, a);
        lemma_version_lt_irreflexive(a);
    }
}

/// Tag `t` carries `prefix` and version `w`.
pub open spec fn tagged(t: Seq<char>, prefix: Seq<char>, w: Seq<u64>) -> bool {
    split_tag_spec(t) == Some((prefix, w))
}

/// `m` is the greatest version listed for `prefix`: some listed tag carries
/// it and none carries a newer one.
pub open spec fn greatest_listed(tags: Seq<Seq<char>>, prefix: Seq<char>, m: Seq<u64>) -> bool {
    &&& exists|i: int| 0 <= i < tags.len() && #[trigger] tagged(tags[i], prefix, m)
    &&& forall|i: int, w: Seq<u64>| 0 <= i < tags.len() && #[trigger] tagged(tags[i], prefix, w) ==> !version_lt(m, w)
}

/// No listed tag carries `prefix`.
pub open spec fn none_listed(tags: Seq<Seq<char>>, prefix: Seq<char>) -> bool {
    forall|i: int, w: Seq<u64>| 0 <= i < tags.len() ==> !#[trigger] tagged(tags[i], prefix, w)
}

/// The newest version gate 2 finds among `tags` for `prefix` is the
/// greatest listed one, in version order whatever the listing order; there
/// is none only when no listed tag has that prefix.
#[verifier::spinoff_prover]
pub proof fn lemma_newest_is_the_greatest(tags: Seq<Seq<char>>, prefix: Seq<char>)
    ensures
        match newest_with_prefix(tags, prefix) {
            Some(m) => greatest_listed(tags, prefix, m),
            None => none_listed(tags, prefix),
        },
    decreases tags.len(),
{
    if tags.len() == 0 {
        return;
    }
    let init = tags.drop_last();
    let t = tags.last();
    let last = tags.len() - 1;
    lemma_newest_is_the_greatest(init, prefix);
    assert(tags[last] == t);
    let carries = split_tag_spec(t) is Some && split_tag_spec(t)->Some_0.0 == prefix;
    if !carries {
        assert(newest_with_prefix(tags, prefix) == newest_with_prefix(init, prefix));
        assert forall|w: Seq<u64>| !#[trigger] tagged(t, prefix, w) by {}
        match newest_with_prefix(init, prefix) {
            Some(m) => {
                let i0 = choose|i: int| 0 <= i < init.len() && #[trigger] tagged(init[i], prefix, m);
                assert(tags[i0] == init[i0]);
                assert forall|i: int, w: Seq<u64>| 0 <= i < tags.len() && #[trigger] tagged(tags[i], prefix, w) implies !version_lt(m, w) by {
                    if i < last {
                        assert(tags[i] == init[i]);
                    }
                }
                assert(greatest_listed(tags, prefix, m));
            },
            None => {
                assert forall|i: int, w: Seq<u64>| 0 <= i < tags.len() implies !#[trigger] tagged(tags[i], prefix, w) by {
                    if i < last {
                        assert(tags[i] == init[i]);
                    }
                }
                assert(none_listed(tags, prefix));
            },
        }
    } else {
        let v = split_tag_spec(t)->Some_0.1;
        assert(tagged(tags[last], prefix, v));
        lemma_version_lt_irreflexive(v);
        match newest_with_prefix(init, prefix) {
            Some(m) => {
                if version_lt(v, m) {
                    assert(newest_with_prefix(tags, prefix) == Some(m));
                    lemma_version_lt_asymmetric(v, m);
                    let i0 = choose|i: int| 0 <= i < init.len() && #[trigger] tagged(init[i], prefix, m);
                    assert(tags[i0] == init[i0]);
                    assert forall|i: int, w: Seq<u64>| 0 <= i < tags.len() && #[trigger] tagged(tags[i], prefix, w) implies !version_lt(m, w) by {
                        if i < last {
                            assert(tags[i] == init[i]);
                        } else {
                            assert(w == v);
                        }
                    }
                    assert(greatest_listed(tags, prefix, m));
                } else {
                    assert(newest_with_prefix(tags, prefix) == Some(v));
                    assert forall|i: int, w: Seq<u64>| 0 <= i < tags.len() && #[trigger] tagged(tags[i], prefix, w) implies !version_lt(v, w) by {
                        if i < last {
                            assert(tags[i] == init[i]);
                            assert(!version_lt(m, w));
                            if version_lt(v, w) && v != m {
                                lemma_version_lt_total(v, m);
                                lemma_version_lt_transitive(m, v, w);
                            }
                        } else {
                            assert(w == v);
                        }
                    }
                    assert(greatest_listed(tags, prefix, v));
                }
            },
            None => {
                assert(newest_with_prefix(tags, prefix) == Some(v));
                assert forall|i: int, w: Seq<u64>| 0 <= i < tags.len() && #[trigger] tagged(tags[i], prefix, w) implies !version_lt(v, w) by {
                    if i < last {
                        assert(tags[i] == init[i]);
                    } else {
                        assert(w == v);
                    }
                }
                assert(greatest_listed(tags, prefix, v));
            },
        }
    }
}

/// Gate 2 warns of a stale pin: for a tag pin it checks, at `prefix` and
/// version `v`, when the listing holds a tag of that prefix newer than `v`,
/// the finding is a warning naming the greatest listed version of that
/// prefix.
#[verifier::spinoff_prover]
pub proof fn lemma_stale_pin_warns(pins: Seq<PinView>, i: int, tags: Seq<Seq<char>>, prefix: Seq<char>, v: Seq<u64>, j: int, w: Seq<u64>)
    requires
        0 <= i < pins.len(),
        fresh_checked(pins, i),
        tagged(pins[i].reference, prefix, v),
        0 <= j < tags.len(),
        tagged(tags[j], prefix, w),
        version_lt(v, w),
    ensures
        exists|m: Seq<u64>|
            pin_freshness(pins, i, Some(tags)) == Some((Severity::Warn, behind_message(pins[i], prefix, m)))
                && (exists|k: int| 0 <= k < tags.len() && #[trigger] tagged(tags[k], prefix, m))
                && forall|k: int, x: Seq<u64>| 0 <= k < tags.len() && #[trigger] tagged(tags[k], prefix, x) ==> !version_lt(m, x),
{
    lemma_newest_is_the_greatest(tags, prefix);
    assert(tagged(tags[j], prefix, w));
    let m = newest_with_prefix(tags, prefix)->Some_0;
    assert(!version_lt(m, w));
    if !version_lt(v, m) {
        if v != m {
            lemma_version_lt_total(v, m);
        }
        if v == m {
        } else {
            lemma_version_lt_transitive(m, v, w);
        }
    }
    assert(version_lt(v, m));
    assert(pin_freshness(pins, i, Some(tags)) == Some((Severity::Warn, behind_message(pins[i], prefix, m))));
}

/// Gate 2 does not depend on the order in which the tags are listed: two
/// listings holding the same tags give the same finding.
#[verifier::spinoff_prover]
pub proof fn lemma_freshness_ignores_listing_order(pins: Seq<PinView>, i: int, a: Seq<Seq<char>>, b: Seq<Seq<char>>)
    requires
        forall|t: Seq<char>| a.contains(t) <==> b.contains(t),
    ensures
        pin_freshness(pins, i, Some(a)) == pin_freshness(pins, i, Some(b)),
{
    match split_tag_spec(pins[i].reference) {
        None => {},
        Some((prefix, _)) => {
            lemma_newest_is_the_greatest(a, prefix);
            lemma_newest_is_the_greatest(b, prefix);
            match (newest_with_prefix(a, prefix), newest_with_prefix(b, prefix)) {
                (Some(ma), Some(mb)) => {
                    let ia = choose|k: int| 0 <= k < a.len() && #[trigger] tagged(a[k], prefix, ma);
                    let ib = choose|k: int| 0 <= k < b.len() && #[trigger] tagged(b[k], prefix, mb);
                    assert(a.contains(a[ia]));
                    assert(b.contains(a[ia]));
                    let jb = choose|k: int| 0 <= k < b.len() && b[k] == a[ia];
                    assert(tagged(b[jb], prefix, ma));
                    assert(!version_lt(mb, ma));
                    assert(b.contains(b[ib]));
                    assert(a.contains(b[ib]));
                    let ja = choose|k: int| 0 <= k < a.len() && a[k] == b[ib];
                    assert(tagged(a[ja], prefix, mb));
                    assert(!version_lt(ma, mb));
                    if ma != mb {
                        lemma_version_lt_total(ma, mb);
                    }
                },
                (Some(ma), None) => {
                    let ia = choose|k: int| 0 <= k < a.len() && #[trigger] tagged(a[k], prefix, ma);
                    assert(a.contains(a[ia]));
                    let jb = choose|k: int| 0 <= k < b.len() && b[k] == a[ia];
                    assert(tagged(b[jb], prefix, ma));
                },
                (None, Some(mb)) => {
                    let ib = choose|k: int| 0 <= k < b.len() && #[trigger] tagged(b[k], prefix, mb);
                    assert(b.contains(b[ib]));
                    let ja = choose|k: int| 0 <= k < a.len() && a[k] == b[ib];
                    assert(tagged(a[ja], prefix, mb));
                },
                (None, None) => {},
            }
        },
    }
}

/// Gate 2 never reports an error, whatever the tag listings answer: each
/// of its findings is a warning or an informational note.
pub proof fn lemma_freshness_never_errors(pins: Seq<PinView>, answers: Seq<Option<Seq<Seq<char>>>>)
    ensures
        forall|i: int|
            0 <= i < freshness_findings(pins, answers, pins.len() as int).len() ==> (
            #[trigger] freshness_findings(pins, answers, pins.len() as int)[i]).0 != Severity::Error,
        forall|i: int|
            0 <= i < freshness_findings(pins, answers, pins.len() as int).len() ==> ((
            #[trigger] freshness_findings(pins, answers, pins.len() as int)[i]).0 == Severity::Warn
                || freshness_findings(pins, answers, pins.len() as int)[i].0 == Severity::Info),
{
    lemma_freshness_prefix_never_errors(pins, answers, pins.len() as int);
}

proof fn lemma_freshness_prefix_never_errors(
    pins: Seq<PinView>,
    answers: Seq<Option<Seq<Seq<char>>>>,
    n: int,
)
    ensures
        forall|i: int|
            0 <= i < freshness_findings(pins, answers, n).len() ==> ((
            #[trigger] freshness_findings(pins, answers, n)[i]).0 == Severity::Warn
                || freshness_findings(pins, answers, n)[i].0 == Severity::Info),
    decreases n,
{
    if n > 0 {
        lemma_freshness_prefix_never_errors(pins, answers, n - 1);
    }
}

/// Gate 2 says nothing of rev pins.
pub proof fn lemma_freshness_skips_revs(pins: Seq<PinView>, i: int, answer: Option<Seq<Seq<char>>>)
    requires
        0 <= i < pins.len(),
        pins[i].kind == RefKind::Rev,
    ensures
        pin_freshness(pins, i, answer) is None,
{
}

/// Gate 3 fails exactly when the compiler's version breaks the rule major
/// ==, minor ==, patch >= against the visa service's minimum.
pub proof fn lemma_gate3_rule(zplc: Version3, zplc_file: Seq<char>, minimum: Version3, vs_file: Seq<char>)
    ensures
        (compiler_version_finding(zplc, zplc_file, minimum, vs_file).0 == Severity::Error) <==> !(
        zplc.0 == minimum.0 && zplc.1 == minimum.1 && zplc.2 >= minimum.2),
        (compiler_version_finding(zplc, zplc_file, minimum, vs_file).0 == Severity::Pass) <==> (
        zplc.0 == minimum.0 && zplc.1 == minimum.1 && zplc.2 >= minimum.2),
{
}

} // verus!
