//! The order `str`'s `Ord` gives strings — lexicographic by character, a
//! proper prefix first — and the sorted, duplicate-free string maps built on
//! it, which stand where a `BTreeMap<String, _>` keeps its keys in order.

use vstd::prelude::*;

use crate::text::{owned, to_chars};

verus! {

/// `a < b` in `str`'s order: compared character by character, and a proper
/// prefix sorts first. Character order is code-point order, which is also
/// the order of the UTF-8 bytes `str` compares.
pub open spec fn str_lt(a: Seq<char>, b: Seq<char>) -> bool
    decreases a.len(),
{
    if a.len() == 0 {
        b.len() > 0
    } else if b.len() == 0 {
        false
    } else if a[0] != b[0] {
        a[0] < b[0]
    } else {
        str_lt(a.drop_first(), b.drop_first())
    }
}

/// Every element is below every later one: sorted, with no duplicates.
pub open spec fn strictly_sorted(s: Seq<Seq<char>>) -> bool {
    forall|i: int, j: int| 0 <= i < j < s.len() ==> str_lt(#[trigger] s[i], #[trigger] s[j])
}

/// No string is below itself.
pub proof fn lemma_str_lt_irreflexive(a: Seq<char>)
    ensures
        !str_lt(a, a),
    decreases a.len(),
{
    if a.len() > 0 {
        lemma_str_lt_irreflexive(a.drop_first());
    }
}

/// The order is transitive.
pub proof fn lemma_str_lt_transitive(a: Seq<char>, b: Seq<char>, c: Seq<char>)
    requires
        str_lt(a, b),
        str_lt(b, c),
    ensures
        str_lt(a, c),
    decreases a.len(),
{
    if a.len() > 0 && b.len() > 0 && c.len() > 0 && a[0] == b[0] && b[0] == c[0] {
        lemma_str_lt_transitive(a.drop_first(), b.drop_first(), c.drop_first());
    }
}

/// Two different strings are ordered one way or the other.
pub proof fn lemma_str_lt_total(a: Seq<char>, b: Seq<char>)
    requires
        a != b,
    ensures
        str_lt(a, b) || str_lt(b, a),
    decreases a.len(),
{
    if a.len() > 0 && b.len() > 0 && a[0] == b[0] {
        if a.drop_first() == b.drop_first() {
            assert(a =~= seq![a[0]] + a.drop_first());
            assert(b =~= seq![b[0]] + b.drop_first());
        }
        lemma_str_lt_total(a.drop_first(), b.drop_first());
    } else if a.len() == 0 && b.len() == 0 {
        assert(a =~= b);
    }
}

/// The order is asymmetric.
pub proof fn lemma_str_lt_asymmetric(a: Seq<char>, b: Seq<char>)
    requires
        str_lt(a, b),
    ensures
        !str_lt(b, a),
{
    if str_lt(b, a) {
        lemma_str_lt_transitive(a, b, a);
        lemma_str_lt_irreflexive(a);
    }
}

/// Comparing after an equal prefix.
proof fn lemma_str_lt_skip(a: Seq<char>, b: Seq<char>, i: int)
    requires
        0 <= i <= a.len(),
        i <= b.len(),
        a.take(i) == b.take(i),
    ensures
        str_lt(a, b) == str_lt(a.skip(i), b.skip(i)),
    decreases i,
{
    if i > 0 {
        assert(a[0] == a.take(i)[0]);
        assert(b[0] == b.take(i)[0]);
        assert(a.drop_first().take(i - 1) =~= a.take(i).drop_first());
        assert(b.drop_first().take(i - 1) =~= b.take(i).drop_first());
        lemma_str_lt_skip(a.drop_first(), b.drop_first(), i - 1);
        assert(a.drop_first().skip(i - 1) =~= a.skip(i));
        assert(b.drop_first().skip(i - 1) =~= b.skip(i));
    } else {
        assert(a.skip(0) =~= a);
        assert(b.skip(0) =~= b);
    }
}

/// Two strictly sorted sequences holding the same strings are equal.
pub proof fn lemma_sorted_unique(a: Seq<Seq<char>>, b: Seq<Seq<char>>)
    requires
        strictly_sorted(a),
        strictly_sorted(b),
        forall|x: Seq<char>| a.contains(x) <==> b.contains(x),
    ensures
        a == b,
    decreases a.len(),
{
    if a.len() == 0 {
        if b.len() > 0 {
            assert(b.contains(b[0]));
        }
        assert(a =~= b);
    } else {
        assert(a.contains(a[0]));
        assert(b.len() > 0);
        assert(b.contains(b[0]));
        let j = choose|j: int| 0 <= j < b.len() && b[j] == a[0];
        let i = choose|i: int| 0 <= i < a.len() && a[i] == b[0];
        if j > 0 && i > 0 {
            assert(str_lt(b[0], b[j]));
            assert(str_lt(a[0], a[i]));
            lemma_str_lt_asymmetric(a[0], b[0]);
        } else if j > 0 {
            assert(str_lt(b[0], b[j]));
            lemma_str_lt_irreflexive(a[0]);
        } else if i > 0 {
            assert(str_lt(a[0], a[i]));
            lemma_str_lt_irreflexive(b[0]);
        }
        assert(a[0] == b[0]);
        let ra = a.drop_first();
        let rb = b.drop_first();
        assert forall|i1: int, j1: int| 0 <= i1 < j1 < ra.len() implies str_lt(
            #[trigger] ra[i1],
            #[trigger] ra[j1],
        ) by {
            assert(ra[i1] == a[i1 + 1] && ra[j1] == a[j1 + 1]);
        }
        assert forall|i1: int, j1: int| 0 <= i1 < j1 < rb.len() implies str_lt(
            #[trigger] rb[i1],
            #[trigger] rb[j1],
        ) by {
            assert(rb[i1] == b[i1 + 1] && rb[j1] == b[j1 + 1]);
        }
        assert forall|x: Seq<char>| ra.contains(x) <==> rb.contains(x) by {
            if ra.contains(x) {
                let k = choose|k: int| 0 <= k < ra.len() && ra[k] == x;
                assert(a[k + 1] == x);
                assert(a.contains(x));
                let m = choose|m: int| 0 <= m < b.len() && b[m] == x;
                assert(str_lt(a[0], a[k + 1]));
                if m == 0 {
                    lemma_str_lt_irreflexive(x);
                }
                assert(rb[m - 1] == x);
            }
            if rb.contains(x) {
                let k = choose|k: int| 0 <= k < rb.len() && rb[k] == x;
                assert(b[k + 1] == x);
                assert(b.contains(x));
                let m = choose|m: int| 0 <= m < a.len() && a[m] == x;
                assert(str_lt(b[0], b[k + 1]));
                if m == 0 {
                    lemma_str_lt_irreflexive(x);
                }
                assert(ra[m - 1] == x);
            }
        }
        lemma_sorted_unique(ra, rb);
        assert(a =~= seq![a[0]] + ra);
        assert(b =~= seq![b[0]] + rb);
    }
}

/// `a < b` in `str`'s order.
pub fn str_less(a: &str, b: &str) -> (r: bool)
    ensures
        r == str_lt(a@, b@),
{
    let av = to_chars(a);
    let bv = to_chars(b);
    let mut i: usize = 0;
    proof {
        assert(av@.take(0) =~= bv@.take(0));
        lemma_str_lt_skip(av@, bv@, 0);
    }
    while i < av.len() && i < bv.len()
        invariant
            i <= av.len(),
            i <= bv.len(),
            av@ == a@,
            bv@ == b@,
            av@.take(i as int) == bv@.take(i as int),
            str_lt(a@, b@) == str_lt(av@.skip(i as int), bv@.skip(i as int)),
        decreases av.len() - i,
    {
        if av[i] != bv[i] {
            assert(av@.skip(i as int)[0] == av@[i as int]);
            assert(bv@.skip(i as int)[0] == bv@[i as int]);
            return av[i] < bv[i];
        }
        assert(av@.take(i + 1) =~= av@.take(i as int).push(av@[i as int]));
        assert(bv@.take(i + 1) =~= bv@.take(i as int).push(bv@[i as int]));
        proof {
            lemma_str_lt_skip(av@, bv@, i + 1);
        }
        i = i + 1;
    }
    i < bv.len() && i >= av.len()
}


/// Every element is below every later one under `lt`.
pub open spec fn sorted_by<A>(s: Seq<A>, lt: spec_fn(A, A) -> bool) -> bool {
    forall|i: int, j: int| 0 <= i < j < s.len() ==> lt(#[trigger] s[i], #[trigger] s[j])
}

/// `lt` is irreflexive and transitive.
pub open spec fn is_strict_order<A>(lt: spec_fn(A, A) -> bool) -> bool {
    &&& forall|a: A| !#[trigger] lt(a, a)
    &&& forall|a: A, b: A, c: A| #[trigger] lt(a, b) && #[trigger] lt(b, c) ==> lt(a, c)
}

/// Two sequences sorted by the same strict order and holding the same
/// elements are equal.
pub proof fn lemma_sorted_by_unique<A>(a: Seq<A>, b: Seq<A>, lt: spec_fn(A, A) -> bool)
    requires
        is_strict_order(lt),
        sorted_by(a, lt),
        sorted_by(b, lt),
        forall|x: A| a.contains(x) <==> b.contains(x),
    ensures
        a == b,
    decreases a.len(),
{
    if a.len() == 0 {
        if b.len() > 0 {
            assert(b.contains(b[0]));
        }
        assert(a =~= b);
    } else {
        assert(a.contains(a[0]));
        assert(b.len() > 0);
        assert(b.contains(b[0]));
        let j = choose|j: int| 0 <= j < b.len() && b[j] == a[0];
        let i = choose|i: int| 0 <= i < a.len() && a[i] == b[0];
        if j > 0 && i > 0 {
            assert(lt(b[0], b[j]));
            assert(lt(a[0], a[i]));
            assert(lt(a[0], a[0]));
        } else if j > 0 {
            assert(lt(b[0], b[j]));
        } else if i > 0 {
            assert(lt(a[0], a[i]));
        }
        assert(a[0] == b[0]);
        let ra = a.drop_first();
        let rb = b.drop_first();
        assert forall|i1: int, j1: int| 0 <= i1 < j1 < ra.len() implies lt(
            #[trigger] ra[i1],
            #[trigger] ra[j1],
        ) by {
            assert(ra[i1] == a[i1 + 1] && ra[j1] == a[j1 + 1]);
        }
        assert forall|i1: int, j1: int| 0 <= i1 < j1 < rb.len() implies lt(
            #[trigger] rb[i1],
            #[trigger] rb[j1],
        ) by {
            assert(rb[i1] == b[i1 + 1] && rb[j1] == b[j1 + 1]);
        }
        assert forall|x: A| ra.contains(x) <==> rb.contains(x) by {
            if ra.contains(x) {
                let k = choose|k: int| 0 <= k < ra.len() && ra[k] == x;
                assert(a[k + 1] == x);
                assert(a.contains(x));
                let m = choose|m: int| 0 <= m < b.len() && b[m] == x;
                assert(lt(a[0], a[k + 1]));
                assert(rb[m - 1] == x);
            }
            if rb.contains(x) {
                let k = choose|k: int| 0 <= k < rb.len() && rb[k] == x;
                assert(b[k + 1] == x);
                assert(b.contains(x));
                let m = choose|m: int| 0 <= m < a.len() && a[m] == x;
                assert(lt(b[0], b[k + 1]));
                assert(ra[m - 1] == x);
            }
        }
        lemma_sorted_by_unique(ra, rb, lt);
        assert(a =~= seq![a[0]] + ra);
        assert(b =~= seq![b[0]] + rb);
    }
}

/// A sorted sequence and an element it lacks can be merged into a sorted
/// sequence holding both.
pub proof fn lemma_sorted_by_insert<A>(q: Seq<A>, x: A, lt: spec_fn(A, A) -> bool)
    requires
        sorted_by(q, lt),
        is_strict_order(lt),
        forall|a: A, b: A| a != b ==> #[trigger] lt(a, b) || lt(b, a),
        !q.contains(x),
    ensures
        exists|r: Seq<A>| sorted_by(r, lt) && forall|y: A| #[trigger] r.contains(y) <==> (q.contains(y) || y == x),
    decreases q.len(),
{
    if q.len() == 0 {
        let r = seq![x];
        assert(r[0] == x);
        assert(r.contains(x));
        assert forall|y: A| #[trigger] r.contains(y) <==> (q.contains(y) || y == x) by {
            if r.contains(y) {
                let k = choose|k: int| 0 <= k < r.len() && r[k] == y;
                assert(k == 0);
            }
        }
        assert(sorted_by(r, lt));
        assert(sorted_by(r, lt) && forall|y: A| #[trigger] r.contains(y) <==> (q.contains(y) || y == x));
    } else {
        let last = q.last();
        assert(q.contains(last)) by {
            assert(q[q.len() - 1] == last);
        }
        if lt(last, x) {
            let r = q.push(x);
            assert forall|i: int, j: int| 0 <= i < j < r.len() implies lt(#[trigger] r[i], #[trigger] r[j]) by {
                if j == q.len() {
                    if i < q.len() - 1 {
                        assert(lt(q[i], q[q.len() - 1]));
                    }
                } else {
                    assert(lt(q[i], q[j]));
                }
            }
            assert forall|y: A| #[trigger] r.contains(y) <==> (q.contains(y) || y == x) by {
                if r.contains(y) {
                    let k = choose|k: int| 0 <= k < r.len() && r[k] == y;
                    if k < q.len() {
                        assert(q[k] == y);
                    }
                }
                if q.contains(y) {
                    let k = choose|k: int| 0 <= k < q.len() && q[k] == y;
                    assert(r[k] == y);
                }
                if y == x {
                    assert(r[q.len() as int] == x);
                }
            }
            assert(sorted_by(r, lt) && forall|y: A| #[trigger] r.contains(y) <==> (q.contains(y) || y == x));
        } else {
            assert(last != x);
            assert(lt(x, last));
            let init = q.drop_last();
            assert forall|i: int, j: int| 0 <= i < j < init.len() implies lt(#[trigger] init[i], #[trigger] init[j]) by {
                assert(lt(q[i], q[j]));
            }
            assert(!init.contains(x)) by {
                if init.contains(x) {
                    let k = choose|k: int| 0 <= k < init.len() && init[k] == x;
                    assert(q[k] == x);
                }
            }
            lemma_sorted_by_insert(init, x, lt);
            let r0 = choose|r: Seq<A>|
                sorted_by(r, lt) && forall|y: A| #[trigger] r.contains(y) <==> (init.contains(y) || y == x);
            let r = r0.push(last);
            assert forall|i: int, j: int| 0 <= i < j < r.len() implies lt(#[trigger] r[i], #[trigger] r[j]) by {
                if j == r0.len() {
                    assert(r0.contains(r0[i]));
                    if r0[i] != x {
                        let k = choose|k: int| 0 <= k < init.len() && init[k] == r0[i];
                        assert(lt(q[k], q[q.len() - 1]));
                    }
                } else {
                    assert(lt(r0[i], r0[j]));
                }
            }
            assert forall|y: A| #[trigger] r.contains(y) <==> (q.contains(y) || y == x) by {
                if r.contains(y) {
                    let k = choose|k: int| 0 <= k < r.len() && r[k] == y;
                    if k < r0.len() {
                        assert(r0[k] == y);
                        assert(r0.contains(y));
                        if y != x {
                            let m = choose|m: int| 0 <= m < init.len() && init[m] == y;
                            assert(q[m] == y);
                        }
                    }
                }
                if q.contains(y) {
                    let k = choose|k: int| 0 <= k < q.len() && q[k] == y;
                    if k < q.len() - 1 {
                        assert(init[k] == y);
                        assert(r0.contains(y));
                        let m = choose|m: int| 0 <= m < r0.len() && r0[m] == y;
                        assert(r[m] == y);
                    } else {
                        assert(r[r0.len() as int] == y);
                    }
                }
                if y == x {
                    assert(r0.contains(x));
                    let m = choose|m: int| 0 <= m < r0.len() && r0[m] == x;
                    assert(r[m] == x);
                }
            }
            assert(sorted_by(r, lt) && forall|y: A| #[trigger] r.contains(y) <==> (q.contains(y) || y == x));
        }
    }
}

/// Every finite set has a listing sorted by a strict order that is total on
/// distinct elements.
pub proof fn lemma_sorted_by_exists<A>(s: Set<A>, lt: spec_fn(A, A) -> bool)
    requires
        s.finite(),
        is_strict_order(lt),
        forall|a: A, b: A| a != b ==> #[trigger] lt(a, b) || lt(b, a),
    ensures
        exists|q: Seq<A>| sorted_by(q, lt) && forall|y: A| #[trigger] q.contains(y) <==> s.contains(y),
    decreases s.len(),
{
    if s.len() == 0 {
        s.lemma_len0_is_empty();
        let q = Seq::<A>::empty();
        assert(sorted_by(q, lt));
        assert forall|y: A| #[trigger] q.contains(y) <==> s.contains(y) by {}
    } else {
        let x = s.choose();
        vstd::set::axiom_set_choose_len(s);
        let rest = s.remove(x);
        vstd::set::axiom_set_remove_finite(s, x);
        vstd::set::axiom_set_remove_len(s, x);
        lemma_sorted_by_exists(rest, lt);
        let q = choose|q: Seq<A>| sorted_by(q, lt) && forall|y: A| #[trigger] q.contains(y) <==> rest.contains(y);
        assert(!q.contains(x));
        lemma_sorted_by_insert(q, x, lt);
        let r = choose|r: Seq<A>|
            sorted_by(r, lt) && forall|y: A| #[trigger] r.contains(y) <==> (q.contains(y) || y == x);
        assert forall|y: A| #[trigger] r.contains(y) <==> s.contains(y) by {
            if y != x {
                assert(q.contains(y) <==> rest.contains(y));
            }
        }
    }
}

/// Every finite set of strings has a strictly sorted listing.
pub proof fn lemma_sorted_strings_exist(s: Set<Seq<char>>)
    requires
        s.finite(),
    ensures
        strictly_sorted(sorted_strings(s)),
        forall|x: Seq<char>| #[trigger] sorted_strings(s).contains(x) <==> s.contains(x),
{
    let lt = |a: Seq<char>, b: Seq<char>| str_lt(a, b);
    lemma_str_lt_strict_order();
    assert forall|a: Seq<char>, b: Seq<char>| a != b implies #[trigger] lt(a, b) || lt(b, a) by {
        lemma_str_lt_total(a, b);
    }
    lemma_sorted_by_exists(s, lt);
    let q = choose|q: Seq<Seq<char>>| sorted_by(q, lt) && forall|y: Seq<char>| #[trigger] q.contains(y) <==> s.contains(y);
    assert(strictly_sorted(q)) by {
        assert forall|i: int, j: int| 0 <= i < j < q.len() implies str_lt(#[trigger] q[i], #[trigger] q[j]) by {
            assert(lt(q[i], q[j]));
        }
    }
    assert(strictly_sorted(q) && forall|x: Seq<char>| q.contains(x) <==> s.contains(x));
}

/// `str_lt` is a strict order.
pub proof fn lemma_str_lt_strict_order()
    ensures
        is_strict_order(|a: Seq<char>, b: Seq<char>| str_lt(a, b)),
{
    assert forall|a: Seq<char>| !str_lt(a, a) by {
        lemma_str_lt_irreflexive(a);
    }
    assert forall|a: Seq<char>, b: Seq<char>, c: Seq<char>|
        str_lt(a, b) && str_lt(b, c) implies str_lt(a, c) by {
        lemma_str_lt_transitive(a, b, c);
    }
}

/// The strings of a finite set, in order.
pub open spec fn sorted_strings(s: Set<Seq<char>>) -> Seq<Seq<char>> {
    choose|q: Seq<Seq<char>>| strictly_sorted(q) && forall|x: Seq<char>| q.contains(x) <==> s.contains(x)
}

/// A strictly sorted sequence holding exactly the strings of `s` is
/// `sorted_strings(s)`.
pub proof fn lemma_sorted_strings(q: Seq<Seq<char>>, s: Set<Seq<char>>)
    requires
        strictly_sorted(q),
        forall|x: Seq<char>| q.contains(x) <==> s.contains(x),
    ensures
        sorted_strings(s) == q,
{
    let c = sorted_strings(s);
    assert(strictly_sorted(c) && forall|x: Seq<char>| c.contains(x) <==> s.contains(x));
    lemma_sorted_unique(c, q);
}

/// Equal keys in a strictly sorted sequence sit at the same index.
pub proof fn lemma_sorted_index_unique(s: Seq<Seq<char>>, i: int, j: int)
    requires
        strictly_sorted(s),
        0 <= i < s.len(),
        0 <= j < s.len(),
        s[i] == s[j],
    ensures
        i == j,
{
    if i < j {
        assert(str_lt(s[i], s[j]));
        lemma_str_lt_irreflexive(s[i]);
    } else if j < i {
        assert(str_lt(s[j], s[i]));
        lemma_str_lt_irreflexive(s[i]);
    }
}

/// A string-keyed map that keeps its entries in key order, as `BTreeMap`
/// does: one entry per key, the keys strictly sorted.
#[derive(Debug)]
pub struct StrMap {
    entries: Vec<(String, String)>,
}

impl StrMap {
    /// The keys, in order.
    pub closed spec fn key_seq(&self) -> Seq<Seq<char>> {
        self.entries@.map_values(|e: (String, String)| e.0@)
    }

    /// The entries, in key order.
    pub closed spec fn entry_seq(&self) -> Seq<(Seq<char>, Seq<char>)> {
        self.entries@.map_values(|e: (String, String)| (e.0@, e.1@))
    }

    #[verifier::type_invariant]
    spec fn sorted(&self) -> bool {
        strictly_sorted(self.key_seq())
    }

    /// The map the entries hold.
    pub closed spec fn view(&self) -> Map<Seq<char>, Seq<char>> {
        Map::new(
            |k: Seq<char>| self.key_seq().contains(k),
            |k: Seq<char>|
                self.entry_seq()[choose|i: int|
                    0 <= i < self.key_seq().len() && self.key_seq()[i] == k].1,
        )
    }

    /// A key is in the map exactly when some entry has it.
    pub proof fn lemma_keys_are_entry_keys(&self)
        ensures
            forall|k: Seq<char>| #![trigger self.view().contains_key(k)]
                self.view().contains_key(k) <==> exists|i: int|
                    0 <= i < self.entry_seq().len() && (#[trigger] self.entry_seq()[i]).0 == k,
    {
        assert forall|k: Seq<char>| self.view().contains_key(k) <==> exists|i: int|
            0 <= i < self.entry_seq().len() && (#[trigger] self.entry_seq()[i]).0 == k by {
            if self.view().contains_key(k) {
                let i = choose|i: int| 0 <= i < self.key_seq().len() && self.key_seq()[i] == k;
                assert(self.entry_seq()[i].0 == k);
            }
            if exists|i: int| 0 <= i < self.entry_seq().len() && (#[trigger] self.entry_seq()[i]).0 == k {
                let i = choose|i: int| 0 <= i < self.entry_seq().len() && (#[trigger] self.entry_seq()[i]).0 == k;
                assert(self.key_seq()[i] == k);
                assert(self.key_seq().contains(k));
            }
        }
    }

    /// An empty map.
    pub fn new() -> (m: StrMap)
        ensures
            m.view() == Map::<Seq<char>, Seq<char>>::empty(),
            m.key_seq().len() == 0,
    {
        let m = StrMap { entries: Vec::new() };
        assert(m.view() =~= Map::<Seq<char>, Seq<char>>::empty());
        m
    }

    /// The number of entries.
    pub fn len(&self) -> (n: usize)
        ensures
            n == self.key_seq().len(),
            n == self.entry_seq().len(),
            n == self.view().dom().len(),
            strictly_sorted(self.key_seq()),
            forall|i: int| 0 <= i < n ==> (#[trigger] self.entry_seq()[i]).0 == self.key_seq()[i],
            forall|i: int|
                0 <= i < n ==> self.view().contains_key(#[trigger] self.key_seq()[i])
                    && self.view()[self.key_seq()[i]] == self.entry_seq()[i].1,
            forall|k: Seq<char>| self.view().contains_key(k) <==> self.key_seq().contains(k),
    {
        proof {
            use_type_invariant(self);
            self.lemma_view_len();
            let ks = self.key_seq();
            assert forall|i: int| 0 <= i < ks.len() implies self.view().contains_key(#[trigger] ks[i])
                && self.view()[ks[i]] == self.entry_seq()[i].1 by {
                assert(ks.contains(ks[i]));
                let c = choose|c: int| 0 <= c < ks.len() && ks[c] == ks[i];
                lemma_sorted_index_unique(ks, c, i);
            }
        }
        self.entries.len()
    }

    /// The number of keys is the size of the domain.
    proof fn lemma_view_len(&self)
        requires
            strictly_sorted(self.key_seq()),
        ensures
            self.view().dom().len() == self.key_seq().len(),
            self.view().dom() == self.key_seq().to_set(),
    {
        let ks = self.key_seq();
        assert(self.view().dom() =~= ks.to_set());
        assert forall|i: int, j: int| 0 <= i < ks.len() && 0 <= j < ks.len() && i != j implies ks[i]
            != ks[j] by {
            if ks[i] == ks[j] {
                lemma_sorted_index_unique(ks, i, j);
            }
        }
        assert(ks.no_duplicates());
        ks.unique_seq_to_set();
    }

    /// The keys, in order.
    pub fn keys(&self) -> (r: Vec<String>)
        ensures
            strictly_sorted(r@.map_values(|k: String| k@)),
            forall|k: Seq<char>| r@.map_values(|k: String| k@).contains(k) <==> self.view().contains_key(k),
    {
        proof {
            use_type_invariant(self);
        }
        let ghost ks = self.key_seq();
        let mut r: Vec<String> = Vec::new();
        let mut i: usize = 0;
        while i < self.entries.len()
            invariant
                i <= self.entries.len(),
                ks == self.key_seq(),
                r@.map_values(|k: String| k@) == ks.take(i as int),
            decreases self.entries.len() - i,
        {
            let ghost before = r@;
            let k = owned(self.entries[i].0.as_str());
            r.push(k);
            assert(r@.map_values(|k: String| k@) =~= before.map_values(|k: String| k@).push(k@));
            assert(ks.take(i + 1) =~= ks.take(i as int).push(ks[i as int]));
            i = i + 1;
        }
        assert(ks.take(self.entries.len() as int) =~= ks);
        r
    }

    /// The entry at position `i`, in key order.
    pub fn entry_at(&self, i: usize) -> (r: (&String, &String))
        requires
            i < self.key_seq().len(),
        ensures
            (r.0@, r.1@) == self.entry_seq()[i as int],
    {
        (&self.entries[i].0, &self.entries[i].1)
    }

    /// The value under `key`, if any.
    pub fn get(&self, key: &str) -> (r: Option<&String>)
        ensures
            match r {
                Some(v) => self.view().contains_key(key@) && self.view()[key@] == v@,
                None => !self.view().contains_key(key@),
            },
    {
        proof {
            use_type_invariant(self);
        }
        let ghost ks = self.key_seq();
        let mut i: usize = 0;
        while i < self.entries.len()
            invariant
                i <= self.entries.len(),
                ks == self.key_seq(),
                strictly_sorted(ks),
                forall|j: int| 0 <= j < i ==> ks[j] != key@,
            decreases self.entries.len() - i,
        {
            assert(ks[i as int] == self.entries@[i as int].0@);
            if crate::text::str_eq(self.entries[i].0.as_str(), key) {
                proof {
                    assert(ks.contains(key@));
                    let c = choose|c: int| 0 <= c < ks.len() && ks[c] == key@;
                    lemma_sorted_index_unique(ks, c, i as int);
                }
                return Some(&self.entries[i].1);
            }
            i = i + 1;
        }
        None
    }

    /// Sets `key` to `value`, replacing any value it had; the keys stay in
    /// order.
    pub fn insert(&mut self, key: &str, value: String)
        ensures
            final(self).view() == old(self).view().insert(key@, value@),
    {
        proof {
            use_type_invariant(&*self);
        }
        let mut entries: Vec<(String, String)> = Vec::new();
        std::mem::swap(&mut entries, &mut self.entries);
        let ghost old_entries = entries@;
        let ghost ks = old_entries.map_values(|e: (String, String)| e.0@);
        let mut p: usize = 0;
        while p < entries.len() && str_less(entries[p].0.as_str(), key)
            invariant
                p <= entries.len(),
                entries@ == old_entries,
                ks == old_entries.map_values(|e: (String, String)| e.0@),
                forall|j: int| 0 <= j < p ==> str_lt(#[trigger] ks[j], key@),
            decreases entries.len() - p,
        {
            p = p + 1;
        }
        let replace = p < entries.len() && crate::text::str_eq(entries[p].0.as_str(), key);
        let ghost m_old = Map::new(
            |k: Seq<char>| ks.contains(k),
            |k: Seq<char>|
                old_entries.map_values(|e: (String, String)| (e.0@, e.1@))[choose|i: int|
                    0 <= i < ks.len() && ks[i] == k].1,
        );
        if replace {
            let k = entries[p].0.clone();
            proof {
                assert(k@ == key@);
            }
            entries.set(p, (owned(key), value));
        } else {
            entries.insert(p, (owned(key), value));
        }
        let ghost nks = entries@.map_values(|e: (String, String)| e.0@);
        let ghost nes = entries@.map_values(|e: (String, String)| (e.0@, e.1@));
        proof {
            if replace {
                assert(nks =~= ks.update(p as int, key@));
                assert forall|i: int, j: int| 0 <= i < j < nks.len() implies str_lt(
                    #[trigger] nks[i],
                    #[trigger] nks[j],
                ) by {
                    assert(str_lt(ks[i], ks[j]));
                }
            } else {
                assert(nks =~= ks.insert(p as int, key@));
                assert forall|i: int, j: int| 0 <= i < j < nks.len() implies str_lt(
                    #[trigger] nks[i],
                    #[trigger] nks[j],
                ) by {
                    if j < p {
                        assert(str_lt(ks[i], ks[j]));
                    } else if j == p {
                        assert(str_lt(ks[i], key@));
                    } else if i == p {
                        // key < ks[j - 1]: the loop stopped at p with ks[p] >= key, and ks[p] != key.
                        assert(!str_lt(ks[p as int], key@));
                        assert(ks[p as int] != key@);
                        lemma_str_lt_total(ks[p as int], key@);
                        if j - 1 > p {
                            assert(str_lt(ks[p as int], ks[j - 1]));
                            lemma_str_lt_transitive(key@, ks[p as int], ks[j - 1]);
                        }
                    } else if i < p {
                        assert(str_lt(ks[i], key@));
                        assert(!str_lt(ks[p as int], key@));
                        lemma_str_lt_total(ks[p as int], key@);
                        if ks[p as int] == key@ {
                        } else {
                            if j - 1 > p {
                                assert(str_lt(ks[p as int], ks[j - 1]));
                                lemma_str_lt_transitive(key@, ks[p as int], ks[j - 1]);
                            }
                            lemma_str_lt_transitive(ks[i], key@, ks[j - 1]);
                        }
                    } else {
                        assert(str_lt(ks[i - 1], ks[j - 1]));
                    }
                }
            }
        }
        self.entries = entries;
        proof {
            let target = old(self).view().insert(key@, value@);
            assert(old(self).view() == m_old);
            assert forall|k: Seq<char>| #[trigger] self.view().contains_key(k) <==> target.contains_key(k) by {
                if replace {
                    if k == key@ {
                        assert(nks[p as int] == k);
                    } else if ks.contains(k) {
                        let c = choose|c: int| 0 <= c < ks.len() && ks[c] == k;
                        assert(nks[c] == k);
                    } else if nks.contains(k) {
                        let c = choose|c: int| 0 <= c < nks.len() && nks[c] == k;
                        assert(ks[c] == k);
                    }
                } else {
                    if k == key@ {
                        assert(nks[p as int] == k);
                    } else if ks.contains(k) {
                        let c = choose|c: int| 0 <= c < ks.len() && ks[c] == k;
                        if c < p {
                            assert(nks[c] == k);
                        } else {
                            assert(nks[c + 1] == k);
                        }
                    } else if nks.contains(k) {
                        let c = choose|c: int| 0 <= c < nks.len() && nks[c] == k;
                        if c < p {
                            assert(ks[c] == k);
                        } else {
                            assert(ks[c - 1] == k);
                        }
                    }
                }
            }
            assert forall|k: Seq<char>| #[trigger] self.view().contains_key(k) implies self.view()[k]
                == target[k] by {
                let c = choose|c: int| 0 <= c < nks.len() && nks[c] == k;
                assert(self.view()[k] == nes[c].1);
                if k == key@ {
                    lemma_sorted_index_unique(nks, c, p as int);
                } else {
                    let d = choose|d: int| 0 <= d < ks.len() && ks[d] == k;
                    assert(target[k] == m_old[k]);
                    if replace {
                        lemma_sorted_index_unique(nks, c, d);
                    } else if d < p {
                        assert(nks[d] == k);
                        lemma_sorted_index_unique(nks, c, d);
                    } else {
                        assert(nks[d + 1] == k);
                        lemma_sorted_index_unique(nks, c, d + 1);
                    }
                }
            }
            assert(self.view() =~= target);
        }
    }
}

} // verus!
