//! Small text parsers: splitting at a character, finding a substring,
//! stripping quotes and reading decimal numbers.
use vstd::prelude::*;

use crate::text::{occurs_at, slice_chars};

verus! {

// ── Splitting at a character ─────────────────────────────────────────

/// Position of the first `c` in `s`, or `s.len()` when there is none.
pub open spec fn spec_char_pos(s: Seq<char>, c: char) -> int
    decreases s.len(),
{
    if s.len() == 0 {
        0
    } else if s[0] == c {
        0
    } else {
        1 + spec_char_pos(s.drop_first(), c)
    }
}

pub proof fn lemma_char_pos_bounds(s: Seq<char>, c: char)
    ensures
        0 <= spec_char_pos(s, c) <= s.len(),
        spec_char_pos(s, c) < s.len() ==> s[spec_char_pos(s, c)] == c,
        forall|j: int| 0 <= j < spec_char_pos(s, c) ==> s[j] != c,
    decreases s.len(),
{
    if s.len() > 0 && s[0] != c {
        lemma_char_pos_bounds(s.drop_first(), c);
        assert forall|j: int| 0 <= j < spec_char_pos(s, c) implies s[j] != c by {
            if j > 0 {
                assert(s[j] == s.drop_first()[j - 1]);
            }
        }
    }
}

pub proof fn lemma_char_pos_is(s: Seq<char>, c: char, i: int)
    requires
        0 <= i <= s.len(),
        i < s.len() ==> s[i] == c,
        forall|j: int| 0 <= j < i ==> s[j] != c,
    ensures
        spec_char_pos(s, c) == i,
    decreases s.len(),
{
    if s.len() > 0 && i > 0 {
        lemma_char_pos_is(s.drop_first(), c, i - 1);
    }
}

/// The pieces of `s` between occurrences of `c` (as `str::split` with a char).
pub open spec fn spec_split_char(s: Seq<char>, c: char) -> Seq<Seq<char>>
    decreases s.len(),
{
    let i = spec_char_pos(s, c);
    if i < s.len() {
        proof {
            lemma_char_pos_bounds(s, c);
        }
        seq![s.take(i)] + spec_split_char(s.skip(i + 1), c)
    } else {
        seq![s]
    }
}

/// Position of the first `c` in `cs` at or after `from`, or `cs.len()`.
fn char_pos_from(cs: &Vec<char>, c: char, from: usize) -> (r: usize)
    requires
        from <= cs@.len(),
    ensures
        r - from == spec_char_pos(cs@.skip(from as int), c),
        from <= r <= cs@.len(),
{
    let mut i = from;
    while i < cs.len() && cs[i] != c
        invariant
            from <= i <= cs@.len(),
            forall|j: int| from <= j < i ==> cs@[j] != c,
        decreases cs@.len() - i,
    {
        i = i + 1;
    }
    proof {
        let rest = cs@.skip(from as int);
        assert forall|j: int| 0 <= j < i - from implies rest[j] != c by {
            assert(rest[j] == cs@[from + j]);
        }
        if i < cs@.len() {
            assert(rest[i - from] == cs@[i as int]);
        }
        lemma_char_pos_is(rest, c, i - from);
    }
    i
}

/// The pieces of `cs` between occurrences of `c`, in order.
pub fn split_char(cs: &Vec<char>, c: char) -> (r: Vec<Vec<char>>)
    ensures
        r@.map_values(|e: Vec<char>| e@) == spec_split_char(cs@, c),
{
    let mut r: Vec<Vec<char>> = Vec::new();
    let mut start: usize = 0;
    assert(cs@.skip(0) == cs@);
    loop
        invariant
            start <= cs@.len(),
            spec_split_char(cs@, c) == r@.map_values(|e: Vec<char>| e@) + spec_split_char(cs@.skip(start as int), c),
        decreases cs@.len() - start,
    {
        let ghost rest = cs@.skip(start as int);
        let ghost old_r = r@.map_values(|e: Vec<char>| e@);
        let p = char_pos_from(cs, c, start);
        if p < cs.len() {
            proof {
                lemma_char_pos_bounds(rest, c);
                assert(rest.skip(p - start + 1) == cs@.skip(p + 1));
                assert(cs@.subrange(start as int, p as int) == rest.take(p - start));
            }
            r.push(slice_chars(cs, start, p));
            assert(r@.map_values(|e: Vec<char>| e@) == old_r.push(rest.take(p - start)));
            start = p + 1;
        } else {
            r.push(slice_chars(cs, start, cs.len()));
            assert(cs@.subrange(start as int, cs@.len() as int) == rest);
            assert(r@.map_values(|e: Vec<char>| e@) == old_r.push(rest));
            return r;
        }
    }
}

/// The text before and after the first `c`, as `str::split_once` with a char.
pub open spec fn spec_split_once(s: Seq<char>, c: char) -> Option<(Seq<char>, Seq<char>)> {
    let i = spec_char_pos(s, c);
    if i < s.len() {
        Some((s.take(i), s.skip(i + 1)))
    } else {
        None
    }
}

pub fn split_once(cs: &Vec<char>, c: char) -> (r: Option<(Vec<char>, Vec<char>)>)
    ensures
        match spec_split_once(cs@, c) {
            Some((a, b)) => r matches Some((x, y)) && x@ == a && y@ == b,
            None => r is None,
        },
{
    let p = char_pos_from(cs, c, 0);
    assert(cs@.skip(0) == cs@);
    if p < cs.len() {
        let a = slice_chars(cs, 0, p);
        let b = slice_chars(cs, p + 1, cs.len());
        assert(a@ == cs@.take(p as int));
        assert(b@ == cs@.skip(p + 1));
        Some((a, b))
    } else {
        None
    }
}

/// The text after the last `c` (all of `s` when it has none), as the
/// first item of `str::rsplit` with a char.
pub open spec fn spec_after_last(s: Seq<char>, c: char) -> Seq<char>
    decreases s.len(),
{
    if s.len() == 0 {
        s
    } else if s.last() == c {
        Seq::empty()
    } else {
        spec_after_last(s.drop_last(), c).push(s.last())
    }
}

pub fn after_last(cs: &Vec<char>, c: char) -> (r: Vec<char>)
    ensures
        r@ == spec_after_last(cs@, c),
{
    let mut i = cs.len();
    assert(cs@.take(cs@.len() as int) == cs@);
    assert(cs@.skip(cs@.len() as int) == Seq::<char>::empty());
    while i > 0 && cs[i - 1] != c
        invariant
            i <= cs@.len(),
            spec_after_last(cs@, c) == spec_after_last(cs@.take(i as int), c) + cs@.skip(i as int),
        decreases i,
    {
        proof {
            let t = cs@.take(i as int);
            assert(t.drop_last() == cs@.take(i - 1));
            assert(cs@.skip(i - 1) == seq![cs@[i - 1]] + cs@.skip(i as int));
        }
        i = i - 1;
    }
    proof {
        if i > 0 {
            let t = cs@.take(i as int);
            assert(t.last() == c);
        }
        assert(cs@.take(cs@.len() as int) == cs@);
    }
    let r = slice_chars(cs, i, cs.len());
    assert(r@ == cs@.skip(i as int));
    r
}

// ── Substrings ───────────────────────────────────────────────────────

/// Position of the first occurrence of `pat` in `s`.
pub open spec fn spec_find(s: Seq<char>, pat: Seq<char>) -> Option<int> {
    if exists|i: int| occurs_at(s, pat, i) {
        Some(choose|i: int| occurs_at(s, pat, i) && forall|j: int| 0 <= j < i ==> !occurs_at(s, pat, j))
    } else {
        None
    }
}

fn occurs_at_exec(s: &Vec<char>, pat: &Vec<char>, i: usize) -> (r: bool)
    requires
        i <= s@.len(),
    ensures
        r == occurs_at(s@, pat@, i as int),
{
    if pat.len() > s.len() - i {
        return false;
    }
    let n = s.len();
    let mut j: usize = 0;
    while j < pat.len()
        invariant
            n == s@.len(),
            i <= s@.len(),
            i + pat@.len() <= s@.len(),
            j <= pat@.len(),
            forall|k: int| 0 <= k < j ==> s@[i + k] == pat@[k],
        decreases pat@.len() - j,
    {
        assert(i + j < s@.len());
        if s[i + j] != pat[j] {
            assert(s@.subrange(i as int, i + pat@.len())[j as int] != pat@[j as int]);
            return false;
        }
        j = j + 1;
    }
    assert(s@.subrange(i as int, i + pat@.len()) =~= pat@);
    true
}

/// Position of the first occurrence of `pat` in `s`, if any.
pub fn find(s: &Vec<char>, pat: &Vec<char>) -> (r: Option<usize>)
    ensures
        match r {
            Some(i) => spec_find(s@, pat@) == Some(i as int) && occurs_at(s@, pat@, i as int),
            None => spec_find(s@, pat@) is None,
        },
{
    let mut i: usize = 0;
    while i <= s.len()
        invariant
            i <= s@.len() + 1,
            forall|j: int| 0 <= j < i ==> !occurs_at(s@, pat@, j),
        decreases s@.len() + 1 - i,
    {
        if occurs_at_exec(s, pat, i) {
            proof {
                let w = choose|w: int| occurs_at(s@, pat@, w) && forall|j: int| 0 <= j < w ==> !occurs_at(s@, pat@, j);
                if w > i {
                    assert(!occurs_at(s@, pat@, i as int));
                }
                assert(w == i);
            }
            return Some(i);
        }
        if i == s.len() {
            assert forall|j: int| !occurs_at(s@, pat@, j) by {
                if j > i {
                    assert(!(j + pat@.len() <= s@.len()));
                }
            }
            return None;
        }
        i = i + 1;
    }
    None
}

// ── Quotes ───────────────────────────────────────────────────────────

pub open spec fn spec_lead_quotes(s: Seq<char>) -> nat
    decreases s.len(),
{
    if s.len() > 0 && s[0] == '"' { 1 + spec_lead_quotes(s.drop_first()) } else { 0 }
}

pub open spec fn spec_trail_quotes(s: Seq<char>) -> nat
    decreases s.len(),
{
    if s.len() > 0 && s.last() == '"' { 1 + spec_trail_quotes(s.drop_last()) } else { 0 }
}

/// `s` with leading and trailing `"` removed (as `str::trim_matches('"')`).
pub open spec fn spec_trim_quotes(s: Seq<char>) -> Seq<char> {
    let t = s.skip(spec_lead_quotes(s) as int);
    t.take(t.len() - spec_trail_quotes(t))
}

proof fn lemma_lead_quotes(s: Seq<char>, i: int)
    requires
        0 <= i <= s.len(),
        forall|j: int| 0 <= j < i ==> s[j] == '"',
        i < s.len() ==> s[i] != '"',
    ensures
        spec_lead_quotes(s) == i,
    decreases i,
{
    if i > 0 {
        lemma_lead_quotes(s.drop_first(), i - 1);
    }
}

proof fn lemma_trail_quotes(s: Seq<char>, k: int)
    requires
        0 <= k <= s.len(),
        forall|j: int| s.len() - k <= j < s.len() ==> s[j] == '"',
        k < s.len() ==> s[s.len() - k - 1] != '"',
    ensures
        spec_trail_quotes(s) == k,
    decreases k,
{
    if k > 0 {
        lemma_trail_quotes(s.drop_last(), k - 1);
    }
}

pub fn trim_quotes(cs: &Vec<char>) -> (r: Vec<char>)
    ensures
        r@ == spec_trim_quotes(cs@),
{
    let mut lo: usize = 0;
    while lo < cs.len() && cs[lo] == '"'
        invariant
            lo <= cs@.len(),
            forall|j: int| 0 <= j < lo ==> cs@[j] == '"',
        decreases cs@.len() - lo,
    {
        lo = lo + 1;
    }
    proof {
        lemma_lead_quotes(cs@, lo as int);
    }
    let mut hi: usize = cs.len();
    while hi > lo && cs[hi - 1] == '"'
        invariant
            lo <= hi <= cs@.len(),
            forall|j: int| hi <= j < cs@.len() ==> cs@[j] == '"',
        decreases hi,
    {
        hi = hi - 1;
    }
    proof {
        let t = cs@.skip(lo as int);
        let k = cs@.len() - hi;
        assert forall|j: int| t.len() - k <= j < t.len() implies t[j] == '"' by {
            assert(t[j] == cs@[lo + j]);
        }
        if k < t.len() {
            assert(t[t.len() - k - 1] == cs@[hi - 1]);
        }
        lemma_trail_quotes(t, k);
        assert(cs@.subrange(lo as int, hi as int) == t.take(t.len() - k));
    }
    slice_chars(cs, lo, hi)
}

// ── Decimal numbers ──────────────────────────────────────────────────

pub open spec fn spec_is_digit(c: char) -> bool {
    '0' <= c && c <= '9'
}

/// Value of a string of decimal digits.
pub open spec fn spec_digits_value(s: Seq<char>) -> nat
    decreases s.len(),
{
    if s.len() == 0 {
        0
    } else {
        spec_digits_value(s.drop_last()) * 10 + ((s.last() as u32) - ('0' as u32)) as nat
    }
}

/// Every character of `d` is a decimal digit.
pub open spec fn spec_all_digits(d: Seq<char>) -> bool {
    forall|i: int| 0 <= i < d.len() ==> spec_is_digit(#[trigger] d[i])
}

/// `s` without one leading `+`.
pub open spec fn spec_unsigned_part(s: Seq<char>) -> Seq<char> {
    if s.len() > 0 && s[0] == '+' { s.skip(1) } else { s }
}

/// What `u64::from_str` accepts: an optional `+` and then one or more
/// decimal digits whose value fits in a `u64`.
pub open spec fn spec_parse_u64(s: Seq<char>) -> Option<u64> {
    let d = spec_unsigned_part(s);
    if d.len() > 0 && spec_all_digits(d) && spec_digits_value(d) <= u64::MAX {
        Some(spec_digits_value(d) as u64)
    } else {
        None
    }
}

proof fn lemma_digits_mono(s: Seq<char>, i: int)
    requires
        0 <= i <= s.len(),
        forall|k: int| 0 <= k < s.len() ==> spec_is_digit(#[trigger] s[k]),
    ensures
        spec_digits_value(s.take(i)) <= spec_digits_value(s),
    decreases s.len() - i,
{
    if i < s.len() {
        lemma_digits_mono(s, i + 1);
        assert(s.take(i + 1).drop_last() == s.take(i));
    } else {
        assert(s.take(i) == s);
    }
}

/// Parses a decimal `u64` exactly as `u64::from_str` does (`spec_parse_u64`).
pub fn parse_u64(cs: &Vec<char>) -> (r: Option<u64>)
    ensures
        r == spec_parse_u64(cs@),
{
    let start: usize = if cs.len() > 0 && cs[0] == '+' { 1 } else { 0 };
    let ghost d = spec_unsigned_part(cs@);
    assert(d == cs@.skip(start as int));
    if start >= cs.len() {
        return None;
    }
    let mut value: u64 = 0;
    let mut i = start;
    while i < cs.len()
        invariant
            start <= i <= cs@.len(),
            d == spec_unsigned_part(cs@),
            d == cs@.skip(start as int),
            value as nat == spec_digits_value(d.take(i - start)),
            forall|k: int| 0 <= k < i - start ==> spec_is_digit(#[trigger] d[k]),
        decreases cs@.len() - i,
    {
        let c = cs[i];
        proof {
            assert(d[i - start] == c);
            assert(d.take(i - start + 1).drop_last() == d.take(i - start));
        }
        if !('0' <= c && c <= '9') {
            proof {
                assert(!spec_is_digit(d[i - start]));
                assert(!spec_all_digits(d));
            }
            return None;
        }
        let digit = (c as u32 - '0' as u32) as u64;
        if value > 1844674407370955161 || (value == 1844674407370955161 && digit > 5) {
            proof {
                let v = value as int;
                let dg = digit as int;
                assert(v * 10 + dg > u64::MAX) by (nonlinear_arith)
                    requires
                        v > 1844674407370955161 || (v == 1844674407370955161 && dg > 5),
                        dg >= 0,
                ;
                assert(spec_digits_value(d.take(i - start + 1)) == v * 10 + dg);
                if spec_all_digits(d) {
                    lemma_digits_mono(d, i - start + 1);
                }
            }
            return None;
        }
        value = value * 10 + digit;
        i = i + 1;
    }
    assert(d.take(i - start) == d);
    Some(value)
}

} // verus!
