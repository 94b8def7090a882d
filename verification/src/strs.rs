//! Character-level helpers shared by the text-facing modules: decimal
//! rendering of integers, whitespace classification and string building.

use vstd::prelude::*;

verus! {


/// The characters of `s`, in order.
pub fn chars_of(s: &str) -> (v: Vec<char>)
    ensures
        v@ == s@,
{
    broadcast use vstd::string::group_string_axioms;
    let mut v: Vec<char> = Vec::new();
    for c in it: s.chars()
        invariant
            v@ == it.seq().take(it.index() as int),
    {
        v.push(c);
    }
    v
}

/// `parts` joined with `sep` between consecutive parts.
pub open spec fn join(parts: Seq<Seq<char>>, sep: Seq<char>) -> Seq<char>
    decreases parts.len(),
{
    if parts.len() == 0 {
        Seq::empty()
    } else if parts.len() == 1 {
        parts[0]
    } else {
        join(parts.drop_last(), sep) + sep + parts.last()
    }
}

/// The character views of a vector of strings.
pub open spec fn views(v: Seq<String>) -> Seq<Seq<char>> {
    v.map_values(|l: String| l@)
}

/// `[String]::join`.
pub fn join_strings(parts: &Vec<String>, sep: &str) -> (s: String)
    ensures
        s@ == join(views(parts@), sep@),
{
    let mut s = String::new();
    let n = parts.len();
    let mut i: usize = 0;
    while i < n
        invariant
            n == parts.len(),
            i <= n,
            s@ == join(views(parts@).take(i as int), sep@),
        decreases n - i,
    {
        let ghost done = views(parts@).take(i as int);
        if i > 0 {
            s.append(sep);
        }
        s.append(parts[i].as_str());
        assert(views(parts@).take(i + 1).drop_last() =~= done);
        assert(views(parts@).take(i + 1).last() == parts@[i as int]@);
        if i == 0 {
            assert(s@ =~= join(views(parts@).take(1), sep@));
        }
        i += 1;
    }
    assert(views(parts@).take(n as int) =~= views(parts@));
    s
}

/// The decimal digit `d` as a character.
pub open spec fn digit_char(d: nat) -> char {
    (d + 48) as char
}

/// Decimal rendering of a natural number, most significant digit first,
/// without leading zeros.
pub open spec fn dec(n: nat) -> Seq<char>
    decreases n,
{
    if n < 10 {
        seq![digit_char(n)]
    } else {
        dec(n / 10).push(digit_char(n % 10))
    }
}

/// Decimal rendering of an integer: a leading `-` for negative values.
pub open spec fn dec_int(n: int) -> Seq<char> {
    if n < 0 {
        seq!['-'] + dec((-n) as nat)
    } else {
        dec(n as nat)
    }
}

/// `char::is_whitespace`: the Unicode `White_Space` property.
pub open spec fn is_ws(c: char) -> bool {
    ||| c == '\t' || c == '\n' || c == '\u{0B}' || c == '\u{0C}' || c == '\r' || c == ' '
    ||| c == '\u{85}' || c == '\u{A0}' || c == '\u{1680}'
    ||| ('\u{2000}' <= c && c <= '\u{200A}')
    ||| c == '\u{2028}' || c == '\u{2029}' || c == '\u{202F}' || c == '\u{205F}'
    ||| c == '\u{3000}'
}

/// `s` with its leading whitespace removed (`str::trim_start`).
pub open spec fn trim_start(s: Seq<char>) -> Seq<char>
    decreases s.len(),
{
    if s.len() > 0 && is_ws(s[0]) {
        trim_start(s.drop_first())
    } else {
        s
    }
}

/// `s` with its trailing whitespace removed (`str::trim_end`).
pub open spec fn trim_end(s: Seq<char>) -> Seq<char>
    decreases s.len(),
{
    if s.len() > 0 && is_ws(s.last()) {
        trim_end(s.drop_last())
    } else {
        s
    }
}

/// `str::trim`.
pub open spec fn trim(s: Seq<char>) -> Seq<char> {
    trim_end(trim_start(s))
}

/// ASCII-only upper-casing of one character (`char::to_ascii_uppercase`).
pub open spec fn ascii_upper(c: char) -> char {
    if 'a' <= c && c <= 'z' {
        ((c as u32) - 32) as char
    } else {
        c
    }
}

/// ASCII-only lower-casing of one character (`char::to_ascii_lowercase`).
pub open spec fn ascii_lower(c: char) -> char {
    if 'A' <= c && c <= 'Z' {
        ((c as u32) + 32) as char
    } else {
        c
    }
}

/// `char::is_whitespace`.
pub fn is_whitespace(c: char) -> (b: bool)
    ensures
        b == is_ws(c),
{
    c == '\t' || c == '\n' || c == '\u{0B}' || c == '\u{0C}' || c == '\r' || c == ' '
        || c == '\u{85}' || c == '\u{A0}' || c == '\u{1680}' || ('\u{2000}' <= c && c
        <= '\u{200A}') || c == '\u{2028}' || c == '\u{2029}' || c == '\u{202F}' || c
        == '\u{205F}' || c == '\u{3000}'
}

/// `char::to_ascii_lowercase`.
pub fn to_ascii_lower(c: char) -> (r: char)
    ensures
        r == ascii_lower(c),
{
    if 'A' <= c && c <= 'Z' {
        let u: u32 = c as u32;
        let v: u32 = u + 32;
        char_from_ascii_code(v)
    } else {
        c
    }
}

/// The character with code point `v`, for a code point below 128.
fn char_from_ascii_code(v: u32) -> (c: char)
    requires
        v < 128,
    ensures
        c == v as char,
        c as u32 == v,
{
    let b: u8 = v as u8;
    b as char
}

/// The decimal digit `d` as a character.
pub fn digit(d: u64) -> (c: char)
    requires
        d < 10,
    ensures
        c == digit_char(d as nat),
{
    let v: u32 = (d as u32) + 48;
    char_from_ascii_code(v)
}

/// `String::push`: the string's text gains the character at its end.
#[verifier::external_body]
pub(crate) fn push_char(s: &mut String, c: char)
    ensures
        final(s)@ == old(s)@.push(c),
{
    s.push(c);
}

/// A new `String` holding exactly the characters `cs`.
pub fn string_from_chars(cs: &[char]) -> (s: String)
    ensures
        s@ == cs@,
{
    let mut s = String::new();
    let mut i: usize = 0;
    while i < cs.len()
        invariant
            i <= cs.len(),
            s@ == cs@.take(i as int),
        decreases cs.len() - i,
    {
        push_char(&mut s, cs[i]);
        assert(cs@.take(i + 1) =~= cs@.take(i as int).push(cs@[i as int]));
        i += 1;
    }
    assert(cs@.take(cs.len() as int) =~= cs@);
    s
}

/// Appends the decimal rendering of `n` to `s`.
pub fn push_u64(s: &mut String, n: u64)
    ensures
        final(s)@ == old(s)@ + dec(n as nat),
    decreases n,
{
    if n < 10 {
        push_char(s, digit(n));
        assert(dec(n as nat) =~= seq![digit_char(n as nat)]);
    } else {
        push_u64(s, n / 10);
        push_char(s, digit(n % 10));
    }
}

/// Appends the decimal rendering of `n` (with a leading `-` when negative)
/// to `s`.
pub fn push_i64(s: &mut String, n: i64)
    ensures
        final(s)@ == old(s)@ + dec_int(n as int),
{
    if n < 0 {
        push_char(s, '-');
        let m: u64 = if n == i64::MIN {
            9223372036854775808u64
        } else {
            (-n) as u64
        };
        push_u64(s, m);
    } else {
        push_u64(s, n as u64);
    }
}

/// The decimal rendering of `n` as a new `String`.
pub fn u64_to_string(n: u64) -> (s: String)
    ensures
        s@ == dec(n as nat),
{
    let mut s = String::new();
    push_u64(&mut s, n);
    s
}

/// `prefix` followed by the decimal rendering of `n`.
pub fn with_u64(prefix: &str, n: u64) -> (s: String)
    ensures
        s@ == prefix@ + dec(n as nat),
{
    let mut s = String::from_str(prefix);
    push_u64(&mut s, n);
    s
}

/// Every character of a decimal rendering is a digit.
pub proof fn lemma_dec_digits(n: nat)
    ensures
        forall|i: int| 0 <= i < dec(n).len() ==> '0' <= #[trigger] dec(n)[i] <= '9',
    decreases n,
{
    if n >= 10 {
        lemma_dec_digits(n / 10);
        assert forall|i: int| 0 <= i < dec(n).len() implies '0' <= #[trigger] dec(n)[i] <= '9' by {
            if i < dec(n / 10).len() {
                assert(dec(n)[i] == dec(n / 10)[i]);
            }
        }
    }
}

/// `s` with ASCII letters lower-cased (`str::to_ascii_lowercase`).
pub open spec fn lower(s: Seq<char>) -> Seq<char> {
    s.map_values(|c: char| ascii_lower(c))
}

/// The characters of `s` with ASCII letters lower-cased.
pub fn lower_chars(s: &str) -> (v: Vec<char>)
    ensures
        v@ == lower(s@),
{
    let cs = chars_of(s);
    let mut lc: Vec<char> = Vec::new();
    let mut i: usize = 0;
    while i < cs.len()
        invariant
            i <= cs.len(),
            lc@ == lower(cs@).subrange(0, i as int),
        decreases cs.len() - i,
    {
        lc.push(to_ascii_lower(cs[i]));
        i += 1;
        assert(lc@ =~= lower(cs@).subrange(0, i as int));
    }
    assert(lc@ =~= lower(s@));
    lc
}

/// Whether two character slices are equal.
pub fn same_chars(a: &[char], b: &[char]) -> (r: bool)
    ensures
        r == (a@ == b@),
{
    if a.len() != b.len() {
        return false;
    }
    let mut i: usize = 0;
    while i < a.len()
        invariant
            i <= a@.len(),
            a@.len() == b@.len(),
            forall|k: int| 0 <= k < i ==> a@[k] == b@[k],
        decreases a@.len() - i,
    {
        if a[i] != b[i] {
            return false;
        }
        i += 1;
    }
    assert(a@ =~= b@);
    true
}

} // verus!

verus! {

/// Two decimal digits of `c < 100`.
pub open spec fn two_digits(c: nat) -> Seq<char> {
    seq![digit_char(c / 10), digit_char(c % 10)]
}

/// A non-negative nanometre length as millimetres with two decimals,
/// rounded half up.
pub open spec fn mm2(nm: nat) -> Seq<char> {
    let c = nm / 10_000 + if nm % 10_000 >= 5_000 { 1nat } else { 0nat };
    dec(c / 100) + "."@ + two_digits(c % 100)
}

/// A signed nanometre length as millimetres with two decimals (a `-`
/// for negative values).
pub open spec fn mm2_signed(nm: int) -> Seq<char> {
    if nm < 0 {
        "-"@ + mm2((-nm) as nat)
    } else {
        mm2(nm as nat)
    }
}

/// Appends `mm2(nm)` to `s`.
pub fn push_mm2(s: &mut String, nm: u64)
    ensures
        final(s)@ == old(s)@ + mm2(nm as nat),
{
    let c: u64 = nm / 10_000 + if nm % 10_000 >= 5_000 { 1 } else { 0 };
    push_u64(s, c / 100);
    s.append(".");
    let r = c % 100;
    push_char(s, digit(r / 10));
    push_char(s, digit(r % 10));
    assert(final(s)@ =~= old(s)@ + mm2(nm as nat));
}

/// Appends `mm2_signed(nm)` to `s`.
pub fn push_mm2_signed(s: &mut String, nm: i64)
    ensures
        final(s)@ == old(s)@ + mm2_signed(nm as int),
{
    if nm < 0 {
        s.append("-");
        let m: u64 = if nm == i64::MIN { 9223372036854775808u64 } else { (-nm) as u64 };
        push_mm2(s, m);
        assert(final(s)@ =~= old(s)@ + mm2_signed(nm as int));
    } else {
        push_mm2(s, nm as u64);
    }
}

/// The `width` digits of the fraction `f / 10^width`, most significant
/// first, stopping once the remaining digits are all zero.
pub open spec fn frac_digits(f: nat, width: nat) -> Seq<char>
    decreases width,
{
    if width == 0 || f == 0 {
        Seq::empty()
    } else {
        let p = pow10((width - 1) as nat);
        seq![digit_char(f / p)] + frac_digits(f % p, (width - 1) as nat)
    }
}

pub open spec fn pow10(n: nat) -> nat
    decreases n,
{
    if n == 0 { 1 } else { 10 * pow10((n - 1) as nat) }
}

/// A nanometre length as millimetres in shortest exact decimal form
/// (`3`, `0.5`, `2.125`).
pub open spec fn mm_plain(nm: nat) -> Seq<char> {
    let f = nm % 1_000_000;
    if f == 0 {
        dec(nm / 1_000_000)
    } else {
        dec(nm / 1_000_000) + "."@ + frac_digits(f, 6)
    }
}

/// Appends `frac_digits(f, width)` to `s`.
fn push_frac_digits(s: &mut String, f: u64, width: u64, p: u64)
    requires
        width <= 6,
        p == pow10(width as nat),
        f < p,
    ensures
        final(s)@ == old(s)@ + frac_digits(f as nat, width as nat),
    decreases width,
{
    if width == 0 || f == 0 {
        return;
    }
    proof {
        assert(p == 10 * pow10((width - 1) as nat));
    }
    let q = p / 10;
    let d = f / q;
    assert(d < 10) by (nonlinear_arith)
        requires
            f < p,
            p == 10 * q,
            d == f / q,
            q > 0;
    push_char(s, digit(d));
    let ghost mid = s@;
    push_frac_digits(s, f % q, width - 1, q);
    assert(final(s)@ =~= old(s)@ + frac_digits(f as nat, width as nat));
}

/// Appends `mm_plain(nm)` to `s`.
pub fn push_mm_plain(s: &mut String, nm: u64)
    ensures
        final(s)@ == old(s)@ + mm_plain(nm as nat),
{
    proof {
        reveal_with_fuel(pow10, 7);
        assert(pow10(6) == 1_000_000);
    }
    push_u64(s, nm / 1_000_000);
    let f = nm % 1_000_000;
    if f != 0 {
        s.append(".");
        push_frac_digits(s, f, 6, 1_000_000);
    }
    assert(final(s)@ =~= old(s)@ + mm_plain(nm as nat));
}

} // verus!
