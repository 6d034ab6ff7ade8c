//! Character-level helpers shared by the parsers: splitting on a separator,
//! lines, trimming, whitespace-separated words and decimal integers.
//!
//! Text is handled as a `Vec<char>` holding the whole input; a piece of it is
//! a pair of indices `(lo, hi)` into that vector.

use vstd::prelude::*;

verus! {

/// The pieces of `s` between occurrences of `sep`; never empty (the empty
/// sequence has one empty piece).
pub open spec fn split(s: Seq<char>, sep: char) -> Seq<Seq<char>>
    decreases s.len(),
{
    if s.len() == 0 {
        seq![Seq::<char>::empty()]
    } else {
        let p = split(s.drop_last(), sep);
        if s.last() == sep {
            p.push(Seq::<char>::empty())
        } else {
            p.update(p.len() - 1, p.last().push(s.last()))
        }
    }
}

pub proof fn lemma_split_nonempty(s: Seq<char>, sep: char)
    ensures
        split(s, sep).len() >= 1,
    decreases s.len(),
{
    if s.len() > 0 {
        lemma_split_nonempty(s.drop_last(), sep);
    }
}

/// Appending text without `sep` extends the last piece.
pub proof fn lemma_split_extend(x: Seq<char>, b: Seq<char>, sep: char)
    requires
        !b.contains(sep),
    ensures
        split(x + b, sep) == split(x, sep).update(
            split(x, sep).len() - 1,
            split(x, sep).last() + b,
        ),
    decreases b.len(),
{
    lemma_split_nonempty(x, sep);
    if b.len() == 0 {
        assert(x + b == x);
        assert(split(x, sep).last() + b == split(x, sep).last());
        assert(split(x, sep).update(split(x, sep).len() - 1, split(x, sep).last())
            == split(x, sep));
    } else {
        let c = b.drop_last();
        assert(!c.contains(sep)) by {
            if c.contains(sep) {
                let i = choose|i: int| 0 <= i < c.len() && c[i] == sep;
                assert(b[i] == sep);
            }
        }
        assert(b.last() != sep) by {
            assert(b[b.len() - 1] == b.last());
        }
        lemma_split_extend(x, c, sep);
        assert((x + b).drop_last() == x + c);
        assert((x + b).last() == b.last());
        let ss = split(x, sep);
        let t = split(x + c, sep);
        assert(t.len() == ss.len());
        assert(t.last() == ss.last() + c);
        assert(ss.last() + c + seq![b.last()] == ss.last() + b);
        assert(t.last().push(b.last()) =~= ss.last() + b);
        assert(t == ss.update(ss.len() - 1, ss.last() + c));
        assert(split(x + b, sep) == t.update(t.len() - 1, t.last().push(b.last())));
        assert(t.update(t.len() - 1, t.last().push(b.last())) =~= ss.update(
            ss.len() - 1,
            ss.last() + b,
        ));
    }
}

/// Text without `sep` is one piece.
pub proof fn lemma_split_single(b: Seq<char>, sep: char)
    requires
        !b.contains(sep),
    ensures
        split(b, sep) == seq![b],
{
    lemma_split_extend(Seq::empty(), b, sep);
    assert(Seq::<char>::empty() + b == b);
    assert(Seq::<char>::empty() + b == b);
}

/// Two pieces without `sep`, joined by it, split back into the two.
pub proof fn lemma_split_two(a: Seq<char>, b: Seq<char>, sep: char)
    requires
        !a.contains(sep),
        !b.contains(sep),
    ensures
        split(a + seq![sep] + b, sep) == seq![a, b],
{
    lemma_split_single(a, sep);
    let x = a + seq![sep];
    assert(x.drop_last() == a);
    assert(x.last() == sep);
    assert(split(x, sep) == seq![a, Seq::<char>::empty()]);
    lemma_split_extend(x, b, sep);
    assert(Seq::<char>::empty() + b == b);
    assert(seq![a, Seq::<char>::empty()].update(1, b) == seq![a, b]);
}

pub open spec fn starts_with(l: Seq<char>, p: Seq<char>) -> bool {
    p.len() <= l.len() && l.subrange(0, p.len() as int) == p
}

/// Whether `v[a..b]` starts with `p`, and what follows `p` there.
pub proof fn lemma_prefix_range(v: Seq<char>, a: int, b: int, p: Seq<char>)
    requires
        0 <= a <= b <= v.len(),
    ensures
        starts_with(v.subrange(a, b), p) == (p.len() <= b - a && v.subrange(a, a + p.len()) == p),
        p.len() <= b - a ==> v.subrange(a, b).skip(p.len() as int) == v.subrange(a + p.len(), b),
{
    if p.len() <= b - a {
        assert(v.subrange(a, b).subrange(0, p.len() as int) == v.subrange(a, a + p.len()));
        assert(v.subrange(a, b).skip(p.len() as int) == v.subrange(a + p.len(), b));
    }
}

/// `s` without one trailing carriage return.
pub open spec fn strip_cr(l: Seq<char>) -> Seq<char> {
    if l.len() > 0 && l.last() == '\r' {
        l.drop_last()
    } else {
        l
    }
}

/// The lines of `s` as `str::lines` gives them: pieces between `'\n'`, a
/// `"\r\n"` ending counting as one, and no empty piece after a final `'\n'`.
pub open spec fn lines(s: Seq<char>) -> Seq<Seq<char>> {
    let p = split(s, '\n');
    let body = p.drop_last().map_values(|l: Seq<char>| strip_cr(l));
    if p.last().len() == 0 {
        body
    } else {
        body.push(p.last())
    }
}

/// Unicode white space, as `char::is_whitespace` decides it.
pub open spec fn is_ws(c: char) -> bool {
    ('\u{9}' <= c && c <= '\u{d}') || c == ' ' || c == '\u{85}' || c == '\u{a0}' || c
        == '\u{1680}' || ('\u{2000}' <= c && c <= '\u{200a}') || c == '\u{2028}' || c
        == '\u{2029}' || c == '\u{202f}' || c == '\u{205f}' || c == '\u{3000}'
}

pub open spec fn trim_start(s: Seq<char>) -> Seq<char>
    decreases s.len(),
{
    if s.len() > 0 && is_ws(s[0]) {
        trim_start(s.drop_first())
    } else {
        s
    }
}

pub open spec fn trim_end(s: Seq<char>) -> Seq<char>
    decreases s.len(),
{
    if s.len() > 0 && is_ws(s.last()) {
        trim_end(s.drop_last())
    } else {
        s
    }
}

/// `s` without leading and trailing white space, as `str::trim` gives it.
pub open spec fn trim(s: Seq<char>) -> Seq<char> {
    trim_end(trim_start(s))
}

/// The maximal runs of non-white-space characters of `s`, in order, as
/// `str::split_whitespace` gives them.
pub open spec fn words(s: Seq<char>) -> Seq<Seq<char>>
    decreases s.len(),
{
    if s.len() == 0 {
        Seq::empty()
    } else {
        let w = words(s.drop_last());
        let c = s.last();
        if is_ws(c) {
            w
        } else if s.len() >= 2 && !is_ws(s[s.len() - 2]) {
            w.update(w.len() - 1, w.last().push(c))
        } else {
            w.push(seq![c])
        }
    }
}

pub proof fn lemma_words_open(s: Seq<char>)
    ensures
        s.len() > 0 && !is_ws(s.last()) ==> words(s).len() > 0,
    decreases s.len(),
{
    if s.len() > 0 {
        lemma_words_open(s.drop_last());
    }
}

pub open spec fn is_digit(c: char) -> bool {
    '0' <= c && c <= '9'
}

pub open spec fn all_digits(s: Seq<char>) -> bool {
    forall|i: int| 0 <= i < s.len() ==> is_digit(#[trigger] s[i])
}

/// The value of a run of decimal digits.
pub open spec fn digits_value(s: Seq<char>) -> nat
    decreases s.len(),
{
    if s.len() == 0 {
        0
    } else {
        digits_value(s.drop_last()) * 10 + (s.last() as nat - '0' as nat) as nat
    }
}

/// A non-empty run of decimal digits whose value is at most `bound`.
pub open spec fn magnitude(s: Seq<char>, bound: nat) -> Option<nat> {
    if s.len() > 0 && all_digits(s) && digits_value(s) <= bound {
        Some(digits_value(s))
    } else {
        None
    }
}

/// What `str::parse::<i64>` returns on `s`, with `None` for an error: an
/// optional `+` or `-` followed by at least one decimal digit, within range.
pub open spec fn parse_i64(s: Seq<char>) -> Option<int> {
    if s.len() > 0 && s[0] == '-' {
        match magnitude(s.drop_first(), 0x8000_0000_0000_0000) {
            Some(m) => Some(-m),
            None => None,
        }
    } else if s.len() > 0 && s[0] == '+' {
        match magnitude(s.drop_first(), i64::MAX as nat) {
            Some(m) => Some(m as int),
            None => None,
        }
    } else {
        match magnitude(s, i64::MAX as nat) {
            Some(m) => Some(m as int),
            None => None,
        }
    }
}

/// What `str::parse` returns for an unsigned type whose largest value is
/// `max`, with `None` for an error: an optional `+` and at least one digit.
pub open spec fn parse_unsigned(s: Seq<char>, max: nat) -> Option<nat> {
    if s.len() > 0 && s[0] == '+' {
        magnitude(s.drop_first(), max)
    } else {
        magnitude(s, max)
    }
}

/// The characters of `s`, in order.
pub fn chars_of(s: &str) -> (r: Vec<char>)
    ensures
        r@ == s@,
{
    let mut r: Vec<char> = Vec::new();
    for c in it: s.chars()
        invariant
            r@ == it.seq().subrange(0, it.index() as int),
    {
        r.push(c);
    }
    r
}

/// Relies on `String::push`: appends one character.
#[verifier::external_body]
pub(crate) fn push_char(s: &mut String, c: char)
    ensures
        final(s)@ == old(s)@.push(c),
{
    s.push(c);
}

/// A new string holding `v[lo..hi]`.
pub fn string_of(v: &Vec<char>, lo: usize, hi: usize) -> (r: String)
    requires
        lo <= hi <= v.len(),
    ensures
        r@ == v@.subrange(lo as int, hi as int),
{
    let mut r = String::new();
    let mut i = lo;
    while i < hi
        invariant
            lo <= i <= hi <= v.len(),
            r@ == v@.subrange(lo as int, i as int),
        decreases hi - i,
    {
        push_char(&mut r, v[i]);
        assert(v@.subrange(lo as int, i + 1) == v@.subrange(lo as int, i as int).push(v@[i as int]));
        i = i + 1;
    }
    r
}

/// Whether `v[lo..hi]` begins with `p`.
pub fn has_prefix(v: &Vec<char>, lo: usize, hi: usize, p: &Vec<char>) -> (r: bool)
    requires
        lo <= hi <= v.len(),
    ensures
        r == (p.len() <= hi - lo && v@.subrange(lo as int, lo + p.len()) == p@),
{
    if p.len() > hi - lo {
        return false;
    }
    let mut i: usize = 0;
    while i < p.len()
        invariant
            lo + p.len() <= hi <= v.len(),
            0 <= i <= p.len(),
            v@.subrange(lo as int, lo + i) == p@.subrange(0, i as int),
        decreases p.len() - i,
    {
        if v[lo + i] != p[i] {
            assert(v@.subrange(lo as int, lo + p.len())[i as int] != p@[i as int]);
            return false;
        }
        assert(v@.subrange(lo as int, lo + i + 1) == p@.subrange(0, i + 1));
        i = i + 1;
    }
    assert(p@.subrange(0, p.len() as int) == p@);
    true
}

/// The pieces of `v` that the ranges `r` select, in order.
pub open spec fn pieces(v: Seq<char>, r: Seq<(usize, usize)>) -> Seq<Seq<char>> {
    r.map_values(|p: (usize, usize)| v.subrange(p.0 as int, p.1 as int))
}

/// Every range of `r` lies within `lo..hi`.
pub open spec fn ranges_within(r: Seq<(usize, usize)>, lo: int, hi: int) -> bool {
    forall|k: int| 0 <= k < r.len() ==> lo <= (#[trigger] r[k]).0 <= r[k].1 <= hi
}

/// The ranges of the pieces of `v[lo..hi]` between occurrences of `sep`.
pub fn split_ranges(v: &Vec<char>, lo: usize, hi: usize, sep: char) -> (r: Vec<(usize, usize)>)
    requires
        lo <= hi <= v.len(),
    ensures
        pieces(v@, r@) == split(v@.subrange(lo as int, hi as int), sep),
        ranges_within(r@, lo as int, hi as int),
        r.len() > 0,
        r@[0].0 == lo,
        forall|k: int| 0 <= k < r.len() - 1 ==> (#[trigger] r@[k]).1 < hi,
{
    let mut acc: Vec<(usize, usize)> = Vec::new();
    let mut start = lo;
    let mut i = lo;
    assert(v@.subrange(lo as int, lo as int) =~= Seq::<char>::empty());
    assert(pieces(v@, acc@) =~= Seq::<Seq<char>>::empty());
    assert(split(Seq::<char>::empty(), sep) =~= Seq::<Seq<char>>::empty().push(Seq::<char>::empty()));
    while i < hi
        invariant
            lo <= start <= i <= hi <= v.len(),
            ranges_within(acc@, lo as int, start as int),
            acc.len() == 0 ==> start == lo,
            acc.len() > 0 ==> acc@[0].0 == lo,
            forall|k: int| 0 <= k < acc.len() ==> (#[trigger] acc@[k]).1 < hi,
            split(v@.subrange(lo as int, i as int), sep) == pieces(v@, acc@).push(
                v@.subrange(start as int, i as int),
            ),
        decreases hi - i,
    {
        let ghost before = v@.subrange(lo as int, i as int);
        assert(v@.subrange(lo as int, i + 1).drop_last() == before);
        if v[i] == sep {
            acc.push((start, i));
            assert(pieces(v@, acc@) == pieces(v@, acc@.drop_last()).push(
                v@.subrange(start as int, i as int),
            ));
            start = i + 1;
            assert(v@.subrange(start as int, i + 1) == Seq::<char>::empty());
        } else {
            assert(v@.subrange(start as int, i + 1) == v@.subrange(start as int, i as int).push(
                v@[i as int],
            ));
        }
        i = i + 1;
    }
    acc.push((start, hi));
    assert(pieces(v@, acc@) == pieces(v@, acc@.drop_last()).push(
        v@.subrange(start as int, hi as int),
    ));
    acc
}

/// The ranges of the lines of `v`, as `lines` gives them.
pub fn line_ranges(v: &Vec<char>) -> (r: Vec<(usize, usize)>)
    ensures
        pieces(v@, r@) == lines(v@),
        ranges_within(r@, 0, v.len() as int),
{
    let p = split_ranges(v, 0, v.len(), '\n');
    assert(v@.subrange(0, v.len() as int) == v@);
    proof {
        lemma_split_nonempty(v@, '\n');
    }
    let ghost sp = split(v@, '\n');
    let n = p.len() - 1;
    let mut r: Vec<(usize, usize)> = Vec::new();
    let mut k: usize = 0;
    while k < n
        invariant
            n + 1 == p.len(),
            pieces(v@, p@) == sp,
            ranges_within(p@, 0, v.len() as int),
            0 <= k <= n,
            ranges_within(r@, 0, v.len() as int),
            pieces(v@, r@) == sp.drop_last().map_values(|l: Seq<char>| strip_cr(l)).subrange(
                0,
                k as int,
            ),
        decreases n - k,
    {
        let (a, b) = p[k];
        assert(pieces(v@, p@)[k as int] == v@.subrange(a as int, b as int));
        let e = if b > a && v[b - 1] == '\r' {
            b - 1
        } else {
            b
        };
        assert(v@.subrange(a as int, e as int) == strip_cr(v@.subrange(a as int, b as int)));
        r.push((a, e));
        assert(pieces(v@, r@) == pieces(v@, r@.drop_last()).push(v@.subrange(a as int, e as int)));
        assert(sp.drop_last().map_values(|l: Seq<char>| strip_cr(l)).subrange(0, k + 1)
            == sp.drop_last().map_values(|l: Seq<char>| strip_cr(l)).subrange(0, k as int).push(
            strip_cr(sp[k as int]),
        ));
        k = k + 1;
    }
    assert(sp.drop_last().map_values(|l: Seq<char>| strip_cr(l)).subrange(0, n as int)
        == sp.drop_last().map_values(|l: Seq<char>| strip_cr(l)));
    let (a, b) = p[n];
    assert(pieces(v@, p@)[n as int] == v@.subrange(a as int, b as int));
    if b > a {
        r.push((a, b));
        assert(pieces(v@, r@) == pieces(v@, r@.drop_last()).push(v@.subrange(a as int, b as int)));
    }
    r
}

/// Whether `c` is white space (`char::is_whitespace`).
pub fn is_white_space(c: char) -> (r: bool)
    ensures
        r == is_ws(c),
{
    ('\u{9}' <= c && c <= '\u{d}') || c == ' ' || c == '\u{85}' || c == '\u{a0}' || c
        == '\u{1680}' || ('\u{2000}' <= c && c <= '\u{200a}') || c == '\u{2028}' || c
        == '\u{2029}' || c == '\u{202f}' || c == '\u{205f}' || c == '\u{3000}'
}

/// The range of `v[lo..hi]` without its leading and trailing white space.
pub fn trim_range(v: &Vec<char>, lo: usize, hi: usize) -> (r: (usize, usize))
    requires
        lo <= hi <= v.len(),
    ensures
        lo <= r.0 <= r.1 <= hi,
        v@.subrange(r.0 as int, r.1 as int) == trim(v@.subrange(lo as int, hi as int)),
{
    let mut a = lo;
    while a < hi && is_white_space(v[a])
        invariant
            lo <= a <= hi <= v.len(),
            trim_start(v@.subrange(lo as int, hi as int)) == trim_start(
                v@.subrange(a as int, hi as int),
            ),
        decreases hi - a,
    {
        assert(v@.subrange(a as int, hi as int).drop_first() == v@.subrange(a + 1, hi as int));
        a = a + 1;
    }
    assert(trim_start(v@.subrange(a as int, hi as int)) == v@.subrange(a as int, hi as int));
    let mut b = hi;
    while b > a && is_white_space(v[b - 1])
        invariant
            lo <= a <= b <= hi <= v.len(),
            trim_end(v@.subrange(a as int, hi as int)) == trim_end(
                v@.subrange(a as int, b as int),
            ),
        decreases b - a,
    {
        assert(v@.subrange(a as int, b as int).drop_last() == v@.subrange(a as int, b - 1));
        b = b - 1;
    }
    (a, b)
}

/// The ranges of the white-space separated words of `v[lo..hi]`.
pub fn word_ranges(v: &Vec<char>, lo: usize, hi: usize) -> (r: Vec<(usize, usize)>)
    requires
        lo <= hi <= v.len(),
    ensures
        pieces(v@, r@) == words(v@.subrange(lo as int, hi as int)),
        ranges_within(r@, lo as int, hi as int),
{
    let mut acc: Vec<(usize, usize)> = Vec::new();
    let mut in_word = false;
    let mut start = lo;
    let mut i = lo;
    assert(v@.subrange(lo as int, lo as int) =~= Seq::<char>::empty());
    assert(pieces(v@, acc@) =~= Seq::<Seq<char>>::empty());
    while i < hi
        invariant
            lo <= start <= i <= hi <= v.len(),
            in_word == (i > lo && !is_ws(v@[i - 1])),
            ranges_within(acc@, lo as int, start as int),
            in_word ==> words(v@.subrange(lo as int, i as int)) == pieces(v@, acc@).push(
                v@.subrange(start as int, i as int),
            ),
            !in_word ==> words(v@.subrange(lo as int, i as int)) == pieces(v@, acc@),
        decreases hi - i,
    {
        let ghost sub = v@.subrange(lo as int, i + 1);
        assert(sub.drop_last() == v@.subrange(lo as int, i as int));
        assert(sub.last() == v@[i as int]);
        if is_white_space(v[i]) {
            if in_word {
                acc.push((start, i));
                assert(pieces(v@, acc@) == pieces(v@, acc@.drop_last()).push(
                    v@.subrange(start as int, i as int),
                ));
                start = i;
            }
            in_word = false;
        } else if in_word {
            assert(sub[sub.len() - 2] == v@[i - 1]);
            assert(v@.subrange(start as int, i + 1) == v@.subrange(start as int, i as int).push(
                v@[i as int],
            ));
        } else {
            assert(sub.len() >= 2 ==> sub[sub.len() - 2] == v@[i - 1]);
            start = i;
            in_word = true;
            assert(v@.subrange(start as int, i + 1) == seq![v@[i as int]]);
        }
        i = i + 1;
    }
    if in_word {
        acc.push((start, hi));
        assert(pieces(v@, acc@) == pieces(v@, acc@.drop_last()).push(
            v@.subrange(start as int, hi as int),
        ));
    }
    acc
}

proof fn lemma_digits_value_prefix(s: Seq<char>, j: int)
    requires
        all_digits(s),
        0 <= j <= s.len(),
    ensures
        digits_value(s.subrange(0, j)) <= digits_value(s),
    decreases s.len(),
{
    if j < s.len() {
        let t = s.drop_last();
        assert(all_digits(t)) by {
            assert forall|i: int| 0 <= i < t.len() implies is_digit(#[trigger] t[i]) by {
                assert(t[i] == s[i]);
            }
        }
        lemma_digits_value_prefix(t, j);
        assert(t.subrange(0, j) == s.subrange(0, j));
    } else {
        assert(s.subrange(0, j) == s);
    }
}

/// The value of the digits `v[lo..hi]` where they are at least one digit
/// and the value is at most `bound`; `None` otherwise.
pub fn parse_magnitude(v: &Vec<char>, lo: usize, hi: usize, bound: u64) -> (r: Option<u64>)
    requires
        lo <= hi <= v.len(),
    ensures
        match magnitude(v@.subrange(lo as int, hi as int), bound as nat) {
            Some(m) => r == Some(m as u64),
            None => r is None,
        },
{
    let ghost s = v@.subrange(lo as int, hi as int);
    if lo == hi {
        return None;
    }
    let mut acc: u64 = 0;
    let mut i = lo;
    assert(v@.subrange(lo as int, lo as int) =~= Seq::<char>::empty());
    while i < hi
        invariant
            lo <= i <= hi <= v.len(),
            s == v@.subrange(lo as int, hi as int),
            all_digits(v@.subrange(lo as int, i as int)),
            acc as nat == digits_value(v@.subrange(lo as int, i as int)),
            acc <= bound,
        decreases hi - i,
    {
        let c = v[i];
        if !('0' <= c && c <= '9') {
            assert(s[i - lo] == c);
            return None;
        }
        let d = (c as u32 - '0' as u32) as u64;
        let ghost next = v@.subrange(lo as int, i + 1);
        assert(next.drop_last() == v@.subrange(lo as int, i as int));
        assert(next.last() == c);
        assert(all_digits(next)) by {
            assert forall|k: int| 0 <= k < next.len() implies is_digit(#[trigger] next[k]) by {
                if k < next.len() - 1 {
                    assert(next[k] == v@.subrange(lo as int, i as int)[k]);
                }
            }
        }
        assert(digits_value(next) == acc * 10 + d);
        if d > bound || acc > (bound - d) / 10 {
            assert(acc * 10 + d > bound) by (nonlinear_arith)
                requires
                    d > bound || acc > (bound - d) / 10,
            ;
            proof {
                if all_digits(s) {
                    lemma_digits_value_prefix(s, i + 1 - lo);
                    assert(s.subrange(0, i + 1 - lo) == next);
                }
            }
            return None;
        }
        assert(acc * 10 + d <= bound) by (nonlinear_arith)
            requires
                d <= bound,
                acc <= (bound - d) / 10,
        ;
        acc = acc * 10 + d;
        i = i + 1;
    }
    Some(acc)
}

/// `v[lo..hi]` read as an `i64`, as `str::parse::<i64>` reads it.
pub fn parse_i64_at(v: &Vec<char>, lo: usize, hi: usize) -> (r: Option<i64>)
    requires
        lo <= hi <= v.len(),
    ensures
        match parse_i64(v@.subrange(lo as int, hi as int)) {
            Some(n) => r == Some(n as i64),
            None => r is None,
        },
{
    let ghost s = v@.subrange(lo as int, hi as int);
    if lo < hi && v[lo] == '-' {
        assert(s.drop_first() == v@.subrange(lo + 1, hi as int));
        match parse_magnitude(v, lo + 1, hi, 0x8000_0000_0000_0000) {
            Some(m) => {
                if m == 0x8000_0000_0000_0000 {
                    Some(i64::MIN)
                } else {
                    Some(-(m as i64))
                }
            },
            None => None,
        }
    } else if lo < hi && v[lo] == '+' {
        assert(s.drop_first() == v@.subrange(lo + 1, hi as int));
        match parse_magnitude(v, lo + 1, hi, i64::MAX as u64) {
            Some(m) => Some(m as i64),
            None => None,
        }
    } else {
        match parse_magnitude(v, lo, hi, i64::MAX as u64) {
            Some(m) => Some(m as i64),
            None => None,
        }
    }
}

/// `v[lo..hi]` read as an unsigned integer of at most `max`, as `str::parse`
/// reads it for the unsigned type whose largest value is `max`.
pub fn parse_unsigned_at(v: &Vec<char>, lo: usize, hi: usize, max: u64) -> (r: Option<u64>)
    requires
        lo <= hi <= v.len(),
    ensures
        match parse_unsigned(v@.subrange(lo as int, hi as int), max as nat) {
            Some(n) => r == Some(n as u64),
            None => r is None,
        },
{
    let ghost s = v@.subrange(lo as int, hi as int);
    if lo < hi && v[lo] == '+' {
        assert(s.drop_first() == v@.subrange(lo + 1, hi as int));
        parse_magnitude(v, lo + 1, hi, max)
    } else {
        parse_magnitude(v, lo, hi, max)
    }
}

} // verus!
