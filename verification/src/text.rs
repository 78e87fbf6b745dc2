//! Character-level text helpers with contracts that follow the behaviour of
//! the corresponding `str` methods.

use vstd::prelude::*;

verus! {

// ---------------------------------------------------------------------------
// Specifications
// ---------------------------------------------------------------------------

/// `char::is_whitespace`: the Unicode `White_Space` property.
pub open spec fn is_ws(c: char) -> bool {
    ||| c == ' '
    ||| ('\u{9}' <= c && c <= '\u{d}')
    ||| c == '\u{85}'
    ||| c == '\u{a0}'
    ||| c == '\u{1680}'
    ||| ('\u{2000}' <= c && c <= '\u{200a}')
    ||| c == '\u{2028}'
    ||| c == '\u{2029}'
    ||| c == '\u{202f}'
    ||| c == '\u{205f}'
    ||| c == '\u{3000}'
}

/// `char::is_ascii_digit`.
pub open spec fn is_digit(c: char) -> bool {
    '0' <= c && c <= '9'
}

/// `str::trim_start`.
pub open spec fn trim_start(s: Seq<char>) -> Seq<char>
    decreases s.len(),
{
    if s.len() > 0 && is_ws(s[0]) {
        trim_start(s.drop_first())
    } else {
        s
    }
}

/// `str::trim_end`.
pub open spec fn trim_end(s: Seq<char>) -> Seq<char>
    decreases s.len(),
{
    if s.len() > 0 && is_ws(s.last()) {
        trim_end(s.drop_last())
    } else {
        s
    }
}

/// `str::trim`.
pub open spec fn trim(s: Seq<char>) -> Seq<char> {
    trim_end(trim_start(s))
}

/// `needle` occurs in `s` starting at index `i`.
pub open spec fn occurs_at(s: Seq<char>, needle: Seq<char>, i: int) -> bool {
    0 <= i && i + needle.len() <= s.len() && s.subrange(i, i + needle.len()) == needle
}

/// `str::contains` with a string pattern.
pub open spec fn contains(s: Seq<char>, needle: Seq<char>) -> bool {
    exists|i: int| occurs_at(s, needle, i)
}

/// `str::starts_with`.
pub open spec fn starts_with(s: Seq<char>, prefix: Seq<char>) -> bool {
    prefix.len() <= s.len() && s.subrange(0, prefix.len() as int) == prefix
}

/// `str::ends_with`.
pub open spec fn ends_with(s: Seq<char>, suffix: Seq<char>) -> bool {
    suffix.len() <= s.len() && s.subrange(s.len() - suffix.len(), s.len() as int) == suffix
}

/// The value of a run of ASCII digits, most significant first.
pub open spec fn digits_value(s: Seq<char>) -> int
    decreases s.len(),
{
    if s.len() == 0 {
        0
    } else {
        digits_value(s.drop_last()) * 10 + (s.last() as int - '0' as int)
    }
}

/// All characters are ASCII digits.
pub open spec fn all_digits(s: Seq<char>) -> bool {
    forall|i: int| 0 <= i < s.len() ==> is_digit(#[trigger] s[i])
}

/// `u64::from_str`: an optional `+`, then one or more ASCII digits whose value
/// fits in 64 bits.
pub open spec fn parse_u64(s: Seq<char>) -> Option<u64> {
    let body = if s.len() > 0 && s[0] == '+' { s.drop_first() } else { s };
    if body.len() > 0 && all_digits(body) && digits_value(body) <= u64::MAX {
        Some(digits_value(body) as u64)
    } else {
        None
    }
}

/// The decimal spelling of `n`, as `u64::to_string` writes it.
pub open spec fn decimal(n: nat) -> Seq<char>
    decreases n,
{
    if n < 10 {
        seq![digit_char(n)]
    } else {
        decimal(n / 10).push(digit_char(n % 10))
    }
}

pub open spec fn digit_char(d: nat) -> char {
    if d == 0 { '0' }
    else if d == 1 { '1' }
    else if d == 2 { '2' }
    else if d == 3 { '3' }
    else if d == 4 { '4' }
    else if d == 5 { '5' }
    else if d == 6 { '6' }
    else if d == 7 { '7' }
    else if d == 8 { '8' }
    else { '9' }
}

/// `parts.join(sep)`.
pub open spec fn join(parts: Seq<Seq<char>>, sep: Seq<char>) -> Seq<char>
    decreases parts.len(),
{
    if parts.len() == 0 {
        Seq::empty()
    } else if parts.len() == 1 {
        parts[0]
    } else {
        join(parts.drop_last(), sep) + sep + parts.last()
    }
}

/// The segments of `s` between occurrences of the character `c`, as
/// `str::split(c)` yields them: always one more segment than occurrences.
pub open spec fn split_char(s: Seq<char>, c: char) -> Seq<Seq<char>>
    decreases s.len(),
{
    if s.len() == 0 {
        seq![Seq::empty()]
    } else {
        let rest = split_char(s.drop_last(), c);
        if s.last() == c {
            rest.push(Seq::empty())
        } else {
            rest.update(rest.len() - 1, rest.last().push(s.last()))
        }
    }
}

/// `str::lines`: the segments of `split_char(s, '\n')` with the `\r` of a
/// `\r\n` ending removed and no final empty segment.
pub open spec fn lines(s: Seq<char>) -> Seq<Seq<char>> {
    let parts = split_char(s, '\n');
    let cut = if parts.last().len() == 0 { parts.drop_last() } else { parts };
    Seq::new(cut.len(), |i: int| strip_cr(cut[i], i < parts.len() - 1))
}

/// Removes a trailing `\r` from a segment that was followed by `\n`.
pub open spec fn strip_cr(seg: Seq<char>, had_newline: bool) -> Seq<char> {
    if had_newline && seg.len() > 0 && seg.last() == '\r' { seg.drop_last() } else { seg }
}

// ---------------------------------------------------------------------------
// Lemmas
// ---------------------------------------------------------------------------

/// Membership after a push.
pub proof fn lemma_contains_push<A>(s: Seq<A>, x: A, y: A)
    ensures
        s.push(x).contains(y) == (s.contains(y) || x == y),
{
    if s.contains(y) {
        let j = choose|j: int| 0 <= j < s.len() && s[j] == y;
        assert(s.push(x)[j] == y);
    }
    if x == y {
        assert(s.push(x)[s.len() as int] == y);
    }
    if s.push(x).contains(y) {
        let j = choose|j: int| 0 <= j < s.push(x).len() && s.push(x)[j] == y;
        if j < s.len() {
            assert(s[j] == y);
        }
    }
}

pub proof fn lemma_split_char_len(s: Seq<char>, c: char)
    ensures
        split_char(s, c).len() >= 1,
    decreases s.len(),
{
    if s.len() > 0 {
        lemma_split_char_len(s.drop_last(), c);
    }
}

proof fn lemma_digit_char(d: nat)
    requires
        d < 10,
    ensures
        is_digit(digit_char(d)),
        digit_char(d) as int - '0' as int == d,
{
}

pub proof fn lemma_decimal_digits(n: nat)
    ensures
        all_digits(decimal(n)),
        decimal(n).len() > 0,
        digits_value(decimal(n)) == n,
    decreases n,
{
    if n < 10 {
        lemma_digit_char(n);
        assert(decimal(n).drop_last() =~= Seq::<char>::empty());
        assert(digits_value(Seq::<char>::empty()) == 0);
        assert(decimal(n).last() == digit_char(n));
    } else {
        lemma_decimal_digits(n / 10);
        lemma_digit_char(n % 10);
        let d = decimal(n);
        assert(d.drop_last() =~= decimal(n / 10));
        assert(d.last() == digit_char(n % 10));
        assert(digits_value(d) == digits_value(decimal(n / 10)) * 10 + (n % 10));
        assert((n / 10) * 10 + n % 10 == n);
        assert forall|i: int| 0 <= i < d.len() implies is_digit(#[trigger] d[i]) by {
            if i < d.len() - 1 {
                assert(d[i] == decimal(n / 10)[i]);
            }
        }
    }
}


/// The Debug rendering of a string, as `format!("{s:?}")` writes it: quoted,
/// with std's escapes.
pub uninterp spec fn str_debug(s: Seq<char>) -> Seq<char>;

/// `format!("{s:?}")` for a string slice. Claims only that the rendering is
/// the one std's `Debug` for `str` produces, named by [`str_debug`]; the
/// escaping rules themselves are std's and are not restated here.
#[verifier::external_body]
pub(crate) fn debug_str(s: &str) -> (r: String)
    ensures
        r@ == str_debug(s@),
{
    format!("{s:?}")
}

/// The text of the error `u64::from_str` reports for `s`.
pub uninterp spec fn u64_parse_error(s: Seq<char>) -> Seq<char>;

/// The display text of the `ParseIntError` that `s.parse::<u64>()` returns
/// for a string it rejects. Claims only that the text is a function of `s`,
/// named [`u64_parse_error`]; which of std's messages it is (empty string,
/// invalid digit, too large) is std's and is not restated.
#[verifier::external_body]
pub(crate) fn u64_parse_error_text(s: &str) -> (r: String)
    requires
        parse_u64(s@) is None,
    ensures
        r@ == u64_parse_error(s@),
{
    match s.parse::<u64>() {
        Ok(_) => String::new(),
        Err(e) => e.to_string(),
    }
}

/// `s` with every trailing `c` removed, as `str::trim_end_matches(c)`.
pub open spec fn trim_end_char(s: Seq<char>, c: char) -> Seq<char>
    decreases s.len(),
{
    if s.len() > 0 && s.last() == c {
        trim_end_char(s.drop_last(), c)
    } else {
        s
    }
}

/// `str::trim_end_matches` with a character.
pub fn str_trim_end_char(s: &str, c: char) -> (r: &str)
    ensures
        r@ == trim_end_char(s@, c),
{
    let v = to_chars(s);
    let mut k: usize = v.len();
    assert(v@.take(k as int) =~= v@);
    while k > 0 && v[k - 1] == c
        invariant
            k <= v.len(),
            v@ == s@,
            trim_end_char(s@, c) == trim_end_char(v@.take(k as int), c),
        decreases k,
    {
        assert(v@.take(k as int).drop_last() =~= v@.take(k - 1));
        k = k - 1;
    }
    s.substring_char(0, k)
}

/// The index of the first occurrence of `needle` in `s`.
pub open spec fn first_index(s: Seq<char>, needle: Seq<char>) -> int {
    choose|i: int| occurs_at(s, needle, i) && forall|j: int| 0 <= j < i ==> !occurs_at(s, needle, j)
}

/// What follows the first occurrence of `needle` in `s`, as the second half of
/// `str::split_once`.
pub open spec fn after_first(s: Seq<char>, needle: Seq<char>) -> Option<Seq<char>> {
    if contains(s, needle) {
        Some(s.skip(first_index(s, needle) + needle.len()))
    } else {
        None
    }
}

/// The second half of `str::split_once(needle)`.
pub fn str_after_first<'a>(s: &'a str, needle: &str) -> (r: Option<&'a str>)
    ensures
        match r {
            Some(rest) => after_first(s@, needle@) == Some(rest@),
            None => after_first(s@, needle@) is None,
        },
{
    let h = to_chars(s);
    let n = to_chars(needle);
    match chars_find_from(&h, &n, 0) {
        Some(i) => {
            assert(occurs_at(s@, needle@, i as int));
            assert(contains(s@, needle@));
            let ghost f = first_index(s@, needle@);
            assert(occurs_at(s@, needle@, f) && forall|j: int| 0 <= j < f ==> !occurs_at(s@, needle@, j));
            assert(f == i as int);
            assert(i + n.len() <= h.len());
            let rest = s.substring_char(i + n.len(), h.len());
            assert(rest@ =~= s@.skip(i + needle@.len()));
            Some(rest)
        },
        None => {
            assert(!contains(s@, needle@));
            None
        },
    }
}

/// `Path::join` on paths held as text: an absolute `child` replaces `base`;
/// otherwise a `/` separates them unless `base` is empty or already ends in
/// one.
pub open spec fn path_join(base: Seq<char>, child: Seq<char>) -> Seq<char> {
    if child.len() > 0 && child[0] == '/' {
        child
    } else if base.len() == 0 || base.last() == '/' {
        base + child
    } else {
        base + seq!['/'] + child
    }
}

/// [`path_join`] on strings.
pub fn join_path(base: &str, child: &str) -> (r: String)
    ensures
        r@ == path_join(base@, child@),
{
    let b = to_chars(base);
    let c = to_chars(child);
    if c.len() > 0 && c[0] == '/' {
        return owned(child);
    }
    let mut r = owned(base);
    if !(b.len() == 0 || b[b.len() - 1] == '/') {
        r.append("/");
        proof {
            reveal_strlit("/");
        }
    }
    r.append(child);
    r
}

/// `str::split` on a character.
pub fn str_split_char<'a>(s: &'a str, c: char) -> (r: Vec<&'a str>)
    ensures
        r@.map_values(|p: &'a str| p@) == split_char(s@, c),
{
    let v = to_chars(s);
    let mut r: Vec<&'a str> = Vec::new();
    let mut cur: usize = 0;
    let mut i: usize = 0;
    assert(v@.take(0) =~= Seq::<char>::empty());
    assert(r@.map_values(|p: &'a str| p@).push(v@.subrange(0, 0)) =~= seq![Seq::<char>::empty()]);
    while i < v.len()
        invariant
            cur <= i <= v.len(),
            v@ == s@,
            split_char(v@.take(i as int), c) == r@.map_values(|p: &'a str| p@).push(
                v@.subrange(cur as int, i as int),
            ),
        decreases v.len() - i,
    {
        let ghost old_r = r@.map_values(|p: &'a str| p@);
        assert(v@.take(i + 1).drop_last() =~= v@.take(i as int));
        assert(v@.take(i + 1).last() == v@[i as int]);
        if v[i] == c {
            let piece = s.substring_char(cur, i);
            r.push(piece);
            assert(r@.map_values(|p: &'a str| p@) =~= old_r.push(v@.subrange(cur as int, i as int)));
            cur = i + 1;
            let ghost rest = split_char(v@.take(i as int), c);
            assert(split_char(v@.take(i + 1), c) == rest.push(Seq::<char>::empty()));
            assert(v@.subrange(cur as int, i + 1) =~= Seq::<char>::empty());
            assert(split_char(v@.take(i + 1), c) =~= r@.map_values(|p: &'a str| p@).push(
                v@.subrange(cur as int, i + 1),
            ));
        } else {
            assert(v@.subrange(cur as int, i as int).push(v@[i as int]) =~= v@.subrange(
                cur as int,
                i + 1,
            ));
            let ghost rest = split_char(v@.take(i as int), c);
            assert(rest.last() == v@.subrange(cur as int, i as int));
            assert(split_char(v@.take(i + 1), c) == rest.update(
                rest.len() - 1,
                rest.last().push(v@[i as int]),
            ));
            assert(rest.update(rest.len() - 1, v@.subrange(cur as int, i + 1)) =~= old_r.push(
                v@.subrange(cur as int, i + 1),
            ));
            assert(split_char(v@.take(i + 1), c) =~= r@.map_values(|p: &'a str| p@).push(
                v@.subrange(cur as int, i + 1),
            ));
        }
        i = i + 1;
    }
    let ghost old_r = r@.map_values(|p: &'a str| p@);
    let piece = s.substring_char(cur, v.len());
    r.push(piece);
    assert(r@.map_values(|p: &'a str| p@) =~= old_r.push(v@.subrange(cur as int, v.len() as int)));
    assert(v@.take(v.len() as int) =~= v@);
    r
}

/// `str::lines`.
pub fn str_lines<'a>(s: &'a str) -> (r: Vec<&'a str>)
    ensures
        r@.map_values(|p: &'a str| p@) == lines(s@),
{
    let parts = str_split_char(s, '\n');
    let ghost pv = parts@.map_values(|p: &'a str| p@);
    proof {
        lemma_split_char_len(s@, '\n');
    }
    let m = parts.len();
    let last_empty = to_chars(parts[m - 1]).len() == 0;
    let n = if last_empty { m - 1 } else { m };
    let ghost cut = if pv.last().len() == 0 { pv.drop_last() } else { pv };
    assert(cut.len() == n);
    let mut r: Vec<&'a str> = Vec::new();
    let mut i: usize = 0;
    while i < n
        invariant
            i <= n <= m,
            m == parts.len(),
            pv == parts@.map_values(|p: &'a str| p@),
            pv == split_char(s@, '\n'),
            cut.len() == n,
            forall|k: int| 0 <= k < n ==> cut[k] == pv[k],
            r@.len() == i,
            forall|k: int| 0 <= k < i ==> (#[trigger] r@[k])@ == strip_cr(cut[k], k < m - 1),
        decreases n - i,
    {
        let piece = parts[i];
        let pc = to_chars(piece);
        if i < m - 1 && pc.len() > 0 && pc[pc.len() - 1] == '\r' {
            r.push(piece.substring_char(0, pc.len() - 1));
            assert(pc@.subrange(0, pc.len() - 1) =~= pc@.drop_last());
        } else {
            r.push(piece);
        }
        i = i + 1;
    }
    assert(r@.map_values(|p: &'a str| p@) =~= lines(s@));
    r
}

// ---------------------------------------------------------------------------
// Executable helpers
// ---------------------------------------------------------------------------

/// The characters of `s`, in order.
pub fn to_chars(s: &str) -> (v: Vec<char>)
    ensures
        v@ == s@,
{
    let mut v: Vec<char> = Vec::new();
    for c in it: s.chars()
        invariant
            v@ == it.seq().take(it.index() as int),
    {
        v.push(c);
    }
    v
}

/// A fresh `String` holding `s`.
pub fn owned(s: &str) -> (r: String)
    ensures
        r@ == s@,
{
    String::from_str(s)
}

/// `char::is_whitespace`.
pub fn char_is_ws(c: char) -> (b: bool)
    ensures
        b == is_ws(c),
{
    c == ' ' || ('\u{9}' <= c && c <= '\u{d}') || c == '\u{85}' || c == '\u{a0}' || c
        == '\u{1680}' || ('\u{2000}' <= c && c <= '\u{200a}') || c == '\u{2028}' || c
        == '\u{2029}' || c == '\u{202f}' || c == '\u{205f}' || c == '\u{3000}'
}

/// String equality.
pub fn str_eq(a: &str, b: &str) -> (r: bool)
    ensures
        r == (a@ == b@),
{
    let av = to_chars(a);
    let bv = to_chars(b);
    chars_eq(&av, &bv)
}

/// Equality of two character vectors.
pub fn chars_eq(a: &Vec<char>, b: &Vec<char>) -> (r: bool)
    ensures
        r == (a@ == b@),
{
    if a.len() != b.len() {
        return false;
    }
    let mut i: usize = 0;
    while i < a.len()
        invariant
            a.len() == b.len(),
            i <= a.len(),
            forall|j: int| 0 <= j < i ==> a@[j] == b@[j],
        decreases a.len() - i,
    {
        if a[i] != b[i] {
            return false;
        }
        i = i + 1;
    }
    assert(a@ =~= b@);
    true
}

/// The index just past the leading whitespace of `v`.
fn trim_start_index(v: &Vec<char>) -> (k: usize)
    ensures
        k <= v.len(),
        trim_start(v@) == v@.subrange(k as int, v.len() as int),
{
    let mut k: usize = 0;
    assert(v@.subrange(0, v.len() as int) =~= v@);
    while k < v.len() && char_is_ws(v[k])
        invariant
            k <= v.len(),
            trim_start(v@) == trim_start(v@.subrange(k as int, v.len() as int)),
        decreases v.len() - k,
    {
        assert(v@.subrange(k as int, v.len() as int).drop_first() =~= v@.subrange(
            k + 1,
            v.len() as int,
        ));
        k = k + 1;
    }
    k
}

/// The index at which the trailing whitespace of `v[..end]` starts.
fn trim_end_index(v: &Vec<char>, start: usize) -> (k: usize)
    requires
        start <= v.len(),
    ensures
        start <= k <= v.len(),
        trim_end(v@.subrange(start as int, v.len() as int)) == v@.subrange(start as int, k as int),
{
    let mut k: usize = v.len();
    while k > start && char_is_ws(v[k - 1])
        invariant
            start <= k <= v.len(),
            trim_end(v@.subrange(start as int, v.len() as int)) == trim_end(
                v@.subrange(start as int, k as int),
            ),
        decreases k,
    {
        assert(v@.subrange(start as int, k as int).drop_last() =~= v@.subrange(
            start as int,
            k - 1,
        ));
        k = k - 1;
    }
    k
}

/// `str::trim`.
pub fn str_trim(s: &str) -> (r: &str)
    ensures
        r@ == trim(s@),
{
    let v = to_chars(s);
    let a = trim_start_index(&v);
    let b = trim_end_index(&v, a);
    s.substring_char(a, b)
}

/// `str::trim_start`.
pub fn str_trim_start(s: &str) -> (r: &str)
    ensures
        r@ == trim_start(s@),
{
    let v = to_chars(s);
    let a = trim_start_index(&v);
    s.substring_char(a, v.len())
}

/// `str::trim_end`.
pub fn str_trim_end(s: &str) -> (r: &str)
    ensures
        r@ == trim_end(s@),
{
    let v = to_chars(s);
    let b = trim_end_index(&v, 0);
    assert(v@.subrange(0, v.len() as int) =~= v@);
    s.substring_char(0, b)
}

/// Whether `needle` occurs in `hay` at index `i`.
pub fn chars_occur_at(hay: &Vec<char>, needle: &Vec<char>, i: usize) -> (r: bool)
    ensures
        r == occurs_at(hay@, needle@, i as int),
{
    if i > hay.len() || needle.len() > hay.len() - i {
        return false;
    }
    let mut j: usize = 0;
    while j < needle.len()
        invariant
            i + needle.len() <= hay.len(),
            j <= needle.len(),
            forall|k: int| 0 <= k < j ==> hay@[i + k] == needle@[k],
        decreases needle.len() - j,
    {
        if hay[i + j] != needle[j] {
            assert(hay@.subrange(i as int, i + needle.len())[j as int] != needle@[j as int]);
            return false;
        }
        j = j + 1;
    }
    assert(hay@.subrange(i as int, i + needle.len()) =~= needle@);
    true
}

/// The first index at or after `from` where `needle` occurs in `hay`.
pub fn chars_find_from(hay: &Vec<char>, needle: &Vec<char>, from: usize) -> (r: Option<usize>)
    ensures
        match r {
            Some(i) => from <= i && occurs_at(hay@, needle@, i as int) && forall|j: int|
                from <= j < i ==> !occurs_at(hay@, needle@, j),
            None => forall|j: int| from <= j ==> !occurs_at(hay@, needle@, j),
        },
{
    if from > hay.len() {
        return None;
    }
    let mut i: usize = from;
    while i < hay.len()
        invariant
            from <= i <= hay.len(),
            forall|j: int| from <= j < i ==> !occurs_at(hay@, needle@, j),
        decreases hay.len() - i,
    {
        if chars_occur_at(hay, needle, i) {
            return Some(i);
        }
        i = i + 1;
    }
    if chars_occur_at(hay, needle, i) {
        return Some(i);
    }
    None
}

/// `str::contains` with a string pattern.
pub fn str_contains(s: &str, needle: &str) -> (r: bool)
    ensures
        r == contains(s@, needle@),
{
    let h = to_chars(s);
    let n = to_chars(needle);
    chars_find_from(&h, &n, 0).is_some()
}

/// `str::starts_with`.
pub fn str_starts_with(s: &str, prefix: &str) -> (r: bool)
    ensures
        r == starts_with(s@, prefix@),
{
    let h = to_chars(s);
    let p = to_chars(prefix);
    chars_occur_at(&h, &p, 0)
}

/// `str::ends_with`.
pub fn str_ends_with(s: &str, suffix: &str) -> (r: bool)
    ensures
        r == ends_with(s@, suffix@),
{
    let h = to_chars(s);
    let p = to_chars(suffix);
    if p.len() > h.len() {
        return false;
    }
    chars_occur_at(&h, &p, h.len() - p.len())
}

/// `str::strip_prefix`.
pub fn str_strip_prefix<'a>(s: &'a str, prefix: &str) -> (r: Option<&'a str>)
    ensures
        match r {
            Some(rest) => starts_with(s@, prefix@) && rest@ == s@.subrange(
                prefix@.len() as int,
                s@.len() as int,
            ),
            None => !starts_with(s@, prefix@),
        },
{
    let h = to_chars(s);
    let p = to_chars(prefix);
    if chars_occur_at(&h, &p, 0) {
        Some(s.substring_char(p.len(), h.len()))
    } else {
        None
    }
}

/// `str::strip_suffix`.
pub fn str_strip_suffix<'a>(s: &'a str, suffix: &str) -> (r: Option<&'a str>)
    ensures
        match r {
            Some(rest) => ends_with(s@, suffix@) && rest@ == s@.subrange(
                0,
                s@.len() - suffix@.len(),
            ),
            None => !ends_with(s@, suffix@),
        },
{
    let h = to_chars(s);
    let p = to_chars(suffix);
    if p.len() > h.len() {
        return None;
    }
    if chars_occur_at(&h, &p, h.len() - p.len()) {
        Some(s.substring_char(0, h.len() - p.len()))
    } else {
        None
    }
}

/// Value of the ASCII digit `c`.
fn digit_value(c: char) -> (d: u64)
    requires
        is_digit(c),
    ensures
        d == c as int - '0' as int,
        d < 10,
{
    if c == '0' { 0 }
    else if c == '1' { 1 }
    else if c == '2' { 2 }
    else if c == '3' { 3 }
    else if c == '4' { 4 }
    else if c == '5' { 5 }
    else if c == '6' { 6 }
    else if c == '7' { 7 }
    else if c == '8' { 8 }
    else { 9 }
}

proof fn lemma_digits_value_take(s: Seq<char>, i: int)
    requires
        0 <= i < s.len(),
    ensures
        digits_value(s.take(i + 1)) == digits_value(s.take(i)) * 10 + (s[i] as int - '0' as int),
{
    assert(s.take(i + 1).drop_last() =~= s.take(i));
    assert(s.take(i + 1).last() == s[i]);
}

proof fn lemma_digits_value_nonneg(s: Seq<char>)
    requires
        all_digits(s),
    ensures
        digits_value(s) >= 0,
    decreases s.len(),
{
    if s.len() > 0 {
        assert(all_digits(s.drop_last())) by {
            assert forall|k: int| 0 <= k < s.len() - 1 implies is_digit(#[trigger] s.drop_last()[k]) by {
                assert(s.drop_last()[k] == s[k]);
            }
        }
        lemma_digits_value_nonneg(s.drop_last());
        assert(is_digit(s[s.len() - 1]));
    }
}

proof fn lemma_digits_value_monotone(s: Seq<char>, i: int)
    requires
        0 <= i <= s.len(),
        all_digits(s),
    ensures
        digits_value(s.take(i)) <= digits_value(s),
    decreases s.len() - i,
{
    if i < s.len() {
        lemma_digits_value_take(s, i);
        lemma_digits_value_monotone(s, i + 1);
        assert(is_digit(s[i]));
        assert(all_digits(s.take(i))) by {
            assert forall|k: int| 0 <= k < i implies is_digit(#[trigger] s.take(i)[k]) by {
                assert(s.take(i)[k] == s[k]);
            }
        }
        lemma_digits_value_nonneg(s.take(i));
    } else {
        assert(s.take(i) =~= s);
    }
}

/// `u64::from_str`.
pub fn str_parse_u64(s: &str) -> (r: Option<u64>)
    ensures
        r == parse_u64(s@),
{
    let v = to_chars(s);
    let start: usize = if v.len() > 0 && v[0] == '+' { 1 } else { 0 };
    let ghost body = if s@.len() > 0 && s@[0] == '+' { s@.drop_first() } else { s@ };
    assert(body =~= v@.subrange(start as int, v.len() as int));
    if start >= v.len() {
        return None;
    }
    let mut value: u64 = 0;
    let mut i: usize = start;
    while i < v.len()
        invariant
            start <= i <= v.len(),
            v@ == s@,
            body == (if s@.len() > 0 && s@[0] == '+' { s@.drop_first() } else { s@ }),
            body == v@.subrange(start as int, v.len() as int),
            all_digits(body.take(i - start)),
            value == digits_value(body.take(i - start)),
        decreases v.len() - i,
    {
        let c = v[i];
        if !('0' <= c && c <= '9') {
            assert(body[i - start] == c);
            assert(!is_digit(body[i - start]));
            assert(!all_digits(body));
            assert(parse_u64(s@).is_none());
            return None;
        }
        let d = digit_value(c);
        proof {
            lemma_digits_value_take(body, i - start);
        }
        if value > (u64::MAX - d) / 10 {
            proof {
                assert(body.take(i - start + 1) =~= body.take(i + 1 - start));
                assert(all_digits(body.take(i + 1 - start))) by {
                    assert forall|k: int| 0 <= k < i + 1 - start implies is_digit(
                        #[trigger] body.take(i + 1 - start)[k],
                    ) by {
                        if k < i - start {
                            assert(body.take(i + 1 - start)[k] == body.take(i - start)[k]);
                        }
                    }
                }
                assert(digits_value(body.take(i + 1 - start)) > u64::MAX) by (nonlinear_arith)
                    requires
                        value > (u64::MAX - d) / 10,
                        digits_value(body.take(i + 1 - start)) == value * 10 + d,
                        d < 10,
                ;
                if all_digits(body) {
                    lemma_digits_value_monotone(body, i + 1 - start);
                }
            }
            return None;
        }
        value = value * 10 + d;
        proof {
            assert forall|k: int| 0 <= k < i + 1 - start implies is_digit(
                #[trigger] body.take(i + 1 - start)[k],
            ) by {
                if k < i - start {
                    assert(body.take(i + 1 - start)[k] == body.take(i - start)[k]);
                }
            }
        }
        i = i + 1;
    }
    assert(body.take(i - start) =~= body);
    Some(value)
}

/// The one-character string of the decimal digit `d`.
fn digit_str(d: u64) -> (r: &'static str)
    requires
        d < 10,
    ensures
        r@ == seq![digit_char(d as nat)],
{
    proof {
        reveal_strlit("0");
        reveal_strlit("1");
        reveal_strlit("2");
        reveal_strlit("3");
        reveal_strlit("4");
        reveal_strlit("5");
        reveal_strlit("6");
        reveal_strlit("7");
        reveal_strlit("8");
        reveal_strlit("9");
    }
    if d == 0 { "0" }
    else if d == 1 { "1" }
    else if d == 2 { "2" }
    else if d == 3 { "3" }
    else if d == 4 { "4" }
    else if d == 5 { "5" }
    else if d == 6 { "6" }
    else if d == 7 { "7" }
    else if d == 8 { "8" }
    else { "9" }
}

/// `u64::to_string`.
pub fn u64_to_string(n: u64) -> (r: String)
    ensures
        r@ == decimal(n as nat),
    decreases n,
{
    if n < 10 {
        let mut r = String::new();
        r.append(digit_str(n));
        assert(r@ =~= decimal(n as nat));
        r
    } else {
        let mut r = u64_to_string(n / 10);
        r.append(digit_str(n % 10));
        assert(r@ =~= decimal(n as nat));
        r
    }
}

/// `parts.join(sep)`.
pub fn join_strings(parts: &Vec<String>, sep: &str) -> (r: String)
    ensures
        r@ == join(parts@.map_values(|p: String| p@), sep@),
{
    let ghost views = parts@.map_values(|p: String| p@);
    let mut r = String::new();
    let mut i: usize = 0;
    while i < parts.len()
        invariant
            i <= parts.len(),
            views == parts@.map_values(|p: String| p@),
            r@ == join(views.take(i as int), sep@),
        decreases parts.len() - i,
    {
        if i > 0 {
            r.append(sep);
        }
        r.append(parts[i].as_str());
        proof {
            assert(views.take(i + 1).drop_last() =~= views.take(i as int));
            if i == 0 {
                assert(views.take(1) =~= seq![views[0]]);
            }
        }
        i = i + 1;
    }
    assert(views.take(parts.len() as int) =~= views);
    r
}

} // verus!
