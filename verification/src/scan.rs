//! Scanning helpers over character sequences: trimming by index and
//! decimal parsing with the grammar of `str::parse` for integers.

use vstd::prelude::*;
use crate::strs::{is_ws, is_whitespace, trim_start, trim_end};

verus! {

/// `c` is an ASCII decimal digit.
pub open spec fn is_digit(c: char) -> bool {
    '0' <= c && c <= '9'
}

/// Every character of `s` is a decimal digit.
pub open spec fn all_digits(s: Seq<char>) -> bool {
    forall|i: int| 0 <= i < s.len() ==> is_digit(#[trigger] s[i])
}

/// The value of a digit string.
pub open spec fn digits_value(s: Seq<char>) -> nat
    decreases s.len(),
{
    if s.len() == 0 {
        0
    } else {
        digits_value(s.drop_last()) * 10 + ((s.last() as u32) - 48) as nat
    }
}

/// The unsigned integer `s` spells (`str::parse` for an unsigned type
/// whose maximum is `max`): an optional `+`, then one or more digits,
/// with a value not above `max`.
pub open spec fn parse_unsigned(s: Seq<char>, max: nat) -> Option<nat> {
    let d = if s.len() > 0 && s[0] == '+' { s.drop_first() } else { s };
    if d.len() == 0 || !all_digits(d) || digits_value(d) > max {
        None
    } else {
        Some(digits_value(d))
    }
}

/// The signed integer `s` spells (`str::parse` for a signed type with
/// bounds `[-(max + 1), max]`): an optional `+` or `-`, then one or more
/// digits.
pub open spec fn parse_signed(s: Seq<char>, max: nat) -> Option<int> {
    if s.len() > 0 && s[0] == '-' {
        let d = s.drop_first();
        if d.len() == 0 || !all_digits(d) || digits_value(d) > max + 1 {
            None
        } else {
            Some(-(digits_value(d) as int))
        }
    } else {
        match parse_unsigned(s, max) {
            Some(v) => Some(v as int),
            None => None,
        }
    }
}

/// The value of the digits `cs[lo..hi]` when they are all digits and the
/// value does not exceed `max`.
pub fn digits_in(cs: &[char], lo: usize, hi: usize, max: u64) -> (r: Option<u64>)
    requires
        lo <= hi <= cs@.len(),
    ensures
        match r {
            Some(v) => all_digits(cs@.subrange(lo as int, hi as int)) && v == digits_value(cs@.subrange(lo as int, hi as int))
                && v <= max,
            None => !all_digits(cs@.subrange(lo as int, hi as int)) || digits_value(cs@.subrange(lo as int, hi as int)) > max,
        },
{
    let mut v: u64 = 0;
    let mut i = lo;
    while i < hi
        invariant
            lo <= i <= hi <= cs@.len(),
            all_digits(cs@.subrange(lo as int, i as int)),
            v == digits_value(cs@.subrange(lo as int, i as int)),
            v <= max,
        decreases hi - i,
    {
        let c = cs[i];
        let ghost prev = cs@.subrange(lo as int, i as int);
        let ghost next = cs@.subrange(lo as int, i + 1);
        assert(next.drop_last() =~= prev);
        assert(next.last() == c);
        if !('0' <= c && c <= '9') {
            proof {
                let rest = cs@.subrange(lo as int, hi as int);
                assert(rest[i - lo] == c);
            }
            return None;
        }
        let d: u64 = (c as u32 - 48) as u64;
        if d > max || v > (max - d) / 10 {
            proof {
                let whole = cs@.subrange(lo as int, hi as int);
                assert(digits_value(next) == v * 10 + d);
                assert(v * 10 + d > max) by (nonlinear_arith)
                    requires
                        d > max || v > (max - d) / 10,
                ;
                if all_digits(whole) {
                    lemma_digits_grow(whole, (i + 1 - lo) as int);
                    assert(whole.subrange(0, (i + 1 - lo) as int) =~= next);
                }
            }
            return None;
        }
        proof {
            assert(v * 10 + d <= max) by (nonlinear_arith)
                requires
                    v <= (max - d) / 10,
                    d <= max;
        }
        v = v * 10 + d;
        i += 1;
    }
    Some(v)
}

/// A digit string's value only grows as digits are appended.
pub proof fn lemma_digits_grow(s: Seq<char>, k: int)
    requires
        0 <= k <= s.len(),
        all_digits(s),
    ensures
        digits_value(s.subrange(0, k)) <= digits_value(s),
        all_digits(s.subrange(0, k)),
    decreases s.len() - k,
{
    if k < s.len() {
        lemma_digits_grow(s, k + 1);
        let a = s.subrange(0, k + 1);
        assert(a.drop_last() =~= s.subrange(0, k));
    } else {
        assert(s.subrange(0, k) =~= s);
    }
}

/// The first index in `[lo, hi)` that is not whitespace (`hi` if none):
/// `trim_start(cs[lo..hi]) == cs[r..hi]`.
pub fn skip_ws(cs: &[char], lo: usize, hi: usize) -> (r: usize)
    requires
        lo <= hi <= cs@.len(),
    ensures
        lo <= r <= hi,
        trim_start(cs@.subrange(lo as int, hi as int)) == cs@.subrange(r as int, hi as int),
{
    let mut i = lo;
    while i < hi && is_whitespace(cs[i])
        invariant
            lo <= i <= hi <= cs@.len(),
            trim_start(cs@.subrange(lo as int, hi as int)) == trim_start(cs@.subrange(i as int, hi as int)),
        decreases hi - i,
    {
        assert(cs@.subrange(i as int, hi as int).drop_first() =~= cs@.subrange(i + 1, hi as int));
        i += 1;
    }
    i
}

/// One past the last index in `[lo, hi)` that is not whitespace (`lo` if
/// none): `trim_end(cs[lo..hi]) == cs[lo..r]`.
pub fn skip_ws_back(cs: &[char], lo: usize, hi: usize) -> (r: usize)
    requires
        lo <= hi <= cs@.len(),
    ensures
        lo <= r <= hi,
        trim_end(cs@.subrange(lo as int, hi as int)) == cs@.subrange(lo as int, r as int),
{
    let mut j = hi;
    while j > lo && is_whitespace(cs[j - 1])
        invariant
            lo <= j <= hi <= cs@.len(),
            trim_end(cs@.subrange(lo as int, hi as int)) == trim_end(cs@.subrange(lo as int, j as int)),
        decreases j - lo,
    {
        assert(cs@.subrange(lo as int, j as int).drop_last() =~= cs@.subrange(lo as int, j - 1));
        j -= 1;
    }
    j
}

/// `parse_unsigned` over `cs[lo..hi]`.
pub fn parse_unsigned_in(cs: &[char], lo: usize, hi: usize, max: u64) -> (r: Option<u64>)
    requires
        lo <= hi <= cs@.len(),
    ensures
        match parse_unsigned(cs@.subrange(lo as int, hi as int), max as nat) {
            Some(v) => r == Some(v as u64),
            None => r is None,
        },
{
    let ghost s = cs@.subrange(lo as int, hi as int);
    let start = if lo < hi && cs[lo] == '+' { lo + 1 } else { lo };
    assert(s.len() > 0 && s[0] == '+' ==> s.drop_first() =~= cs@.subrange(start as int, hi as int));
    assert(!(s.len() > 0 && s[0] == '+') ==> s =~= cs@.subrange(start as int, hi as int));
    if start == hi {
        return None;
    }
    digits_in(cs, start, hi, max)
}

/// `parse_signed` over `cs[lo..hi]`.
pub fn parse_signed_in(cs: &[char], lo: usize, hi: usize, max: u64) -> (r: Option<i128>)
    requires
        lo <= hi <= cs@.len(),
        max < u64::MAX,
    ensures
        match parse_signed(cs@.subrange(lo as int, hi as int), max as nat) {
            Some(v) => r == Some(v as i128),
            None => r is None,
        },
{
    let ghost s = cs@.subrange(lo as int, hi as int);
    if lo < hi && cs[lo] == '-' {
        assert(s.drop_first() =~= cs@.subrange(lo + 1, hi as int));
        if lo + 1 == hi {
            return None;
        }
        match digits_in(cs, lo + 1, hi, max + 1) {
            Some(v) => Some(-(v as i128)),
            None => None,
        }
    } else {
        match parse_unsigned_in(cs, lo, hi, max) {
            Some(v) => Some(v as i128),
            None => None,
        }
    }
}

/// `p` occurs in `s` at position `i`.
pub open spec fn occurs_at(s: Seq<char>, p: Seq<char>, i: int) -> bool {
    0 <= i && i + p.len() <= s.len() && s.subrange(i, i + p.len() as int) == p
}

/// `s` begins with `p` (`str::starts_with`).
pub open spec fn starts_with(s: Seq<char>, p: Seq<char>) -> bool {
    occurs_at(s, p, 0)
}

/// The first position at or after `from` where `p` occurs in `s`
/// (`str::find` on the tail).
pub open spec fn first_occurrence(s: Seq<char>, p: Seq<char>, from: int) -> Option<int>
    decreases s.len() + 1 - from,
{
    if from < 0 || from + p.len() > s.len() {
        None
    } else if occurs_at(s, p, from) {
        Some(from)
    } else {
        first_occurrence(s, p, from + 1)
    }
}

/// What `first_occurrence` finds: an occurrence with none before it.
pub proof fn lemma_first_occurrence(s: Seq<char>, p: Seq<char>, from: int)
    requires
        0 <= from,
    ensures
        match first_occurrence(s, p, from) {
            Some(k) => from <= k && occurs_at(s, p, k)
                && forall|j: int| from <= j < k ==> !occurs_at(s, p, j),
            None => forall|j: int| from <= j ==> !occurs_at(s, p, j),
        },
    decreases s.len() + 1 - from,
{
    if from + p.len() <= s.len() && !occurs_at(s, p, from) {
        lemma_first_occurrence(s, p, from + 1);
    }
}

/// Whether `p` occurs in `cs` at `at`.
pub fn occurs_in(cs: &[char], p: &[char], at: usize) -> (b: bool)
    ensures
        b == occurs_at(cs@, p@, at as int),
{
    if at > cs.len() || p.len() > cs.len() - at {
        return false;
    }
    let mut k: usize = 0;
    while k < p.len()
        invariant
            at + p.len() <= cs.len(),
            k <= p@.len(),
            forall|j: int| 0 <= j < k ==> cs@[at + j] == p@[j],
        decreases p@.len() - k,
    {
        if cs[at + k] != p[k] {
            assert(cs@.subrange(at as int, at + p@.len())[k as int] != p@[k as int]);
            return false;
        }
        k += 1;
    }
    assert(cs@.subrange(at as int, at + p@.len()) =~= p@);
    true
}

/// The first position at or after `from` where `p` occurs in `cs`.
pub fn find_from(cs: &[char], p: &[char], from: usize) -> (r: Option<usize>)
    ensures
        match r {
            Some(i) => first_occurrence(cs@, p@, from as int) == Some(i as int),
            None => first_occurrence(cs@, p@, from as int) is None,
        },
{
    if p.len() > cs.len() {
        return None;
    }
    let last = cs.len() - p.len();
    let mut i = from;
    while i <= last
        invariant
            last + p@.len() == cs@.len(),
            from <= i,
            first_occurrence(cs@, p@, from as int) == first_occurrence(cs@, p@, i as int),
        decreases last + 1 - i,
    {
        if occurs_in(cs, p, i) {
            return Some(i);
        }
        if i == last {
            assert(first_occurrence(cs@, p@, i + 1) is None);
            return None;
        }
        i += 1;
    }
    None
}

/// No occurrence of a character that `p` lacks starts inside an
/// occurrence of `p`.
pub proof fn lemma_char_not_inside(s: Seq<char>, p: Seq<char>, o: int, c: char)
    requires
        occurs_at(s, p, o),
        forall|k: int| 0 <= k < p.len() ==> p[k] != c,
    ensures
        forall|j: int| o <= j < o + p.len() ==> !occurs_at(s, seq![c], j),
{
    assert forall|j: int| o <= j < o + p.len() implies !occurs_at(s, seq![c], j) by {
        assert(s.subrange(o, o + p.len())[j - o] == s[j]);
        if occurs_at(s, seq![c], j) {
            assert(s.subrange(j, j + 1)[0] == s[j]);
        }
    }
}

} // verus!
