//! The text side of the gcode preview interpreter: comment stripping, op
//! markers, modal G-word tracking, move classification and the dense
//! gcode-line ↔ toolpath-segment index.

use vstd::prelude::*;
use crate::scan::{parse_unsigned, parse_unsigned_in, skip_ws, skip_ws_back};
use crate::strs::{chars_of, dec, digit_char, is_whitespace, is_ws, push_char, string_from_chars, trim, trim_end, trim_start};
use crate::scan::{all_digits, digits_value};
use vstd::slice::slice_subrange;

verus! {

/// How the tool moves along a preview segment.
#[derive(Clone, Copy, Debug, PartialEq, Eq, Structural)]
pub enum MoveKind {
    Rapid,
    Cut,
    Plunge,
    Retract,
    Arc,
}

/// Marks a gcode line that produced no segment.
pub const NO_SEGMENT: u32 = 0xFFFF_FFFF;

/// Line ↔ segment lookup: `lines_to_segment[n]` is the first segment of
/// gcode line `n + 1` (or [`NO_SEGMENT`]); `segments_to_line[i]` is the
/// 1-based line that produced segment `i`.
#[derive(Clone, Debug)]
pub struct GcodeIndex {
    pub lines_to_segment: Vec<u32>,
    pub segments_to_line: Vec<u32>,
}

/// The text of `s` outside `( … )` comments and before the first `;`
/// (the parentheses themselves dropped), given whether `s` starts inside
/// a parenthesised comment.
pub open spec fn uncommented(s: Seq<char>, in_paren: bool) -> Seq<char>
    decreases s.len(),
{
    if s.len() == 0 {
        Seq::empty()
    } else {
        let c = s[0];
        let rest = s.drop_first();
        if c == '(' {
            uncommented(rest, true)
        } else if c == ')' {
            uncommented(rest, false)
        } else if c == ';' {
            Seq::empty()
        } else if in_paren {
            uncommented(rest, in_paren)
        } else {
            seq![c] + uncommented(rest, in_paren)
        }
    }
}

/// A character that is not a comment delimiter (`(`, `)`, `;`).
pub open spec fn is_plain_char(c: char) -> bool {
    c != '(' && c != ')' && c != ';'
}

/// Text without any comment delimiter.
pub open spec fn no_comment_chars(s: Seq<char>) -> bool {
    forall|i: int| 0 <= i < s.len() ==> is_plain_char(#[trigger] s[i])
}

/// Stripping comments leaves no comment character (`(`, `)`, `;`) behind,
/// and a line without any comment character comes out unchanged.
pub proof fn lemma_uncommented(s: Seq<char>, in_paren: bool)
    ensures
        no_comment_chars(uncommented(s, in_paren)),
        no_comment_chars(s) && !in_paren ==> uncommented(s, in_paren) == s,
    decreases s.len(),
{
    if s.len() > 0 {
        let rest = s.drop_first();
        let c = s[0];
        lemma_uncommented(rest, true);
        lemma_uncommented(rest, false);
        if c != '(' && c != ')' && c != ';' && !in_paren {
            let u = uncommented(rest, false);
            assert(uncommented(s, in_paren) == seq![c] + u);
            assert forall|i: int| 0 <= i < (seq![c] + u).len() implies is_plain_char(#[trigger] (seq![c] + u)[i]) by {
                if i > 0 {
                    assert((seq![c] + u)[i] == u[i - 1]);
                }
            }
            if no_comment_chars(s) {
                assert forall|i: int| 0 <= i < rest.len() implies is_plain_char(#[trigger] rest[i]) by {
                    assert(rest[i] == s[i + 1]);
                }
                assert(seq![c] + rest =~= s);
            }
        } else if no_comment_chars(s) && !in_paren {
            assert(is_plain_char(s[0]));
        }
    }
}

/// The line with `( … )` comments and everything from `;` on removed.
pub fn strip_comment(line: &str) -> (out: String)
    ensures
        out@ == uncommented(line@, false),
        no_comment_chars(out@),
        no_comment_chars(line@) ==> out@ == line@,
{
    let cs = chars_of(line);
    let mut out = String::new();
    let mut in_paren = false;
    let mut i: usize = 0;
    assert(cs@.skip(0) =~= cs@);
    assert(out@ + uncommented(cs@, false) =~= uncommented(cs@, false));
    while i < cs.len()
        invariant
            i <= cs.len(),
            cs@ == line@,
            out@ + uncommented(cs@.skip(i as int), in_paren) == uncommented(cs@, false),
        decreases cs.len() - i,
    {
        let ch = cs[i];
        let ghost rest = cs@.skip(i as int);
        assert(rest.drop_first() =~= cs@.skip(i + 1));
        assert(rest[0] == ch);
        if ch == '(' {
            in_paren = true;
        } else if ch == ')' {
            in_paren = false;
        } else if ch == ';' {
            assert(uncommented(rest, in_paren) =~= Seq::<char>::empty());
            assert(out@ + uncommented(rest, in_paren) =~= out@);
            assert(out@ == uncommented(line@, false));
            proof {
                lemma_uncommented(line@, false);
            }
            return out;
        } else if !in_paren {
            let ghost before = out@;
            push_char(&mut out, ch);
            assert(out@ + uncommented(cs@.skip(i + 1), in_paren)
                =~= before + (seq![ch] + uncommented(cs@.skip(i + 1), in_paren)));
        }
        i += 1;
    }
    assert(out@ + Seq::<char>::empty() =~= out@);
    assert(out@ == uncommented(line@, false));
    proof {
        lemma_uncommented(line@, false);
    }
    out
}

/// `s` with every trailing `)` removed (`trim_end_matches(')')`).
pub open spec fn trim_close_parens(s: Seq<char>) -> Seq<char>
    decreases s.len(),
{
    if s.len() > 0 && s.last() == ')' {
        trim_close_parens(s.drop_last())
    } else {
        s
    }
}

/// The op id of a `; OP <n>` / `(OP <n>)` marker line (`op` in lower case
/// too, whitespace around each part allowed).
pub open spec fn op_marker(raw: Seq<char>) -> Option<u32> {
    let s = trim(raw);
    if s.len() > 0 && (s[0] == ';' || s[0] == '(') {
        let body = trim(trim_close_parens(s.drop_first()));
        if body.len() >= 2 && ((body[0] == 'O' && body[1] == 'P') || (body[0] == 'o' && body[1] == 'p')) {
            match parse_unsigned(trim(body.skip(2)), 0xFFFF_FFFF) {
                Some(v) => Some(v as u32),
                None => None,
            }
        } else {
            None
        }
    } else {
        None
    }
}

/// The digits of a decimal rendering spell its value back.
proof fn lemma_dec_value(n: nat)
    ensures
        dec(n).len() > 0,
        all_digits(dec(n)),
        digits_value(dec(n)) == n,
        '0' <= dec(n).last() <= '9',
    decreases n,
{
    if n >= 10 {
        lemma_dec_value(n / 10);
        let d = dec(n);
        assert(d.drop_last() =~= dec(n / 10));
        assert forall|i: int| 0 <= i < d.len() implies crate::scan::is_digit(#[trigger] d[i]) by {
            if i < d.len() - 1 {
                assert(d[i] == dec(n / 10)[i]);
            }
        }
        assert(((digit_char(n % 10) as u32) - 48) as nat == n % 10);
        assert(d.last() == digit_char(n % 10));
        assert(digits_value(d) == digits_value(dec(n / 10)) * 10 + ((d.last() as u32) - 48) as nat);
        assert((n / 10) * 10 + n % 10 == n);
    } else {
        let d = dec(n);
        assert(d.drop_last() =~= Seq::<char>::empty());
        assert(digits_value(Seq::<char>::empty()) == 0);
        assert(((digit_char(n) as u32) - 48) as nat == n);
        assert(digits_value(d) == digits_value(d.drop_last()) * 10 + ((d.last() as u32) - 48) as nat);
    }
}

/// Text that neither starts nor ends with whitespace is its own trim.
proof fn lemma_trim_plain(s: Seq<char>)
    requires
        s.len() > 0,
        !is_ws(s[0]),
        !is_ws(s.last()),
    ensures
        trim(s) == s,
{
    assert(trim_start(s) == s);
    assert(trim_end(s) == s);
}

/// The marker the emitter writes before an op's body reads back as that
/// op's id: `; OP <n>` parses to `n` for every `u32` id.
pub proof fn lemma_op_marker_round_trip(n: nat)
    requires
        n <= 0xFFFF_FFFF,
    ensures
        op_marker("; OP "@ + dec(n)) == Some(n as u32),
{
    reveal_strlit("; OP ");
    lemma_dec_value(n);
    let d = dec(n);
    let line = "; OP "@ + d;
    assert(line.last() == d.last());
    lemma_trim_plain(line);
    let after = line.drop_first();
    assert(after =~= seq![' ', 'O', 'P', ' '] + d);
    assert(trim_close_parens(after) == after);
    let body = seq!['O', 'P', ' '] + d;
    assert(after.drop_first() =~= body);
    assert(trim_start(after) == trim_start(body));
    lemma_trim_plain(body);
    assert(trim_end(body) == body);
    assert(trim(after) == body);
    let rest = body.skip(2);
    assert(rest =~= seq![' '] + d);
    assert(rest.drop_first() =~= d);
    assert(trim_start(rest) == trim_start(d));
    lemma_trim_plain(d);
    assert(trim_start(d) == d);
    assert(trim_end(d) == d);
    assert(trim(rest) == d);
    assert(parse_unsigned(d, 0xFFFF_FFFF) == Some(n));
}

/// Extracts the op id from a `; OP <n>` or `(OP <n>)` marker line;
/// `None` for any other line.
#[verifier::loop_isolation(false)]
#[verifier::rlimit(40)]
pub fn parse_op_marker(raw: &str) -> (r: Option<u32>)
    ensures
        r == op_marker(raw@),
{
    let cs = chars_of(raw);
    let n = cs.len();
    let a = skip_ws(&cs, 0, n);
    let b = skip_ws_back(&cs, a, n);
    assert(cs@.subrange(0, n as int) =~= cs@);
    let ghost s = trim(cs@);
    assert(s == cs@.subrange(a as int, b as int));
    if a == b || !(cs[a] == ';' || cs[a] == '(') {
        return None;
    }
    let mut e = b;
    assert(s.drop_first() =~= cs@.subrange(a + 1, b as int));
    while e > a + 1 && cs[e - 1] == ')'
        invariant
            a + 1 <= e <= b,
            trim_close_parens(s.drop_first()) == trim_close_parens(cs@.subrange(a + 1, e as int)),
        decreases e,
    {
        assert(cs@.subrange(a + 1, e as int).drop_last() =~= cs@.subrange(a + 1, e - 1));
        e -= 1;
    }
    assert(trim_close_parens(cs@.subrange(a + 1, e as int)) == cs@.subrange(a + 1, e as int));
    let p = skip_ws(&cs, a + 1, e);
    let q = skip_ws_back(&cs, p, e);
    let ghost body = cs@.subrange(p as int, q as int);
    assert(body == trim(trim_close_parens(s.drop_first())));
    if q - p < 2 {
        return None;
    }
    if !((cs[p] == 'O' && cs[p + 1] == 'P') || (cs[p] == 'o' && cs[p + 1] == 'p')) {
        return None;
    }
    let u = skip_ws(&cs, p + 2, q);
    let w = skip_ws_back(&cs, u, q);
    assert(body.skip(2) =~= cs@.subrange(p + 2, q as int));
    assert(trim(body.skip(2)) == cs@.subrange(u as int, w as int));
    match parse_unsigned_in(&cs, u, w, 0xFFFF_FFFF) {
        Some(v) => Some(v as u32),
        None => None,
    }
}

/// The modal state of the interpreter: the active motion / cycle code and
/// the unit system.
#[derive(Clone, Copy, Debug, PartialEq, Eq, Structural)]
pub struct Modal {
    pub active_code: u8,
    pub inch: bool,
}

/// The modal state after a `G<val>` word: `G0`–`G3` and the drill cycles
/// `G73`/`G81`/`G82`/`G83` become the active code, `G20` / `G21` switch to
/// inches / millimetres, anything else (or a value that is not a `u8`)
/// changes nothing.
pub open spec fn after_g_word(m: Modal, val: Seq<char>) -> Modal {
    match parse_unsigned(val, 255) {
        Some(n) => if n <= 3 || n == 73 || n == 81 || n == 82 || n == 83 {
            Modal { active_code: n as u8, ..m }
        } else if n == 20 {
            Modal { inch: true, ..m }
        } else if n == 21 {
            Modal { inch: false, ..m }
        } else {
            m
        },
        None => m,
    }
}

/// Applies a `G<val>` word (`val` is the text after the `G`).
pub fn apply_g_word(m: Modal, val: &str) -> (r: Modal)
    ensures
        r == after_g_word(m, val@),
        match parse_unsigned(val@, 255) {
            Some(n) => (n <= 3 || n == 73 || n == 81 || n == 82 || n == 83) ==> r.active_code == n && r.inch == m.inch,
            None => r == m,
        },
        parse_unsigned(val@, 255) == Some(20nat) ==> r.inch && r.active_code == m.active_code,
        parse_unsigned(val@, 255) == Some(21nat) ==> !r.inch && r.active_code == m.active_code,
        parse_unsigned(val@, 255) is None ==> r == m,
{
    let cs = chars_of(val);
    assert(cs@.subrange(0, cs@.len() as int) =~= cs@);
    match parse_unsigned_in(&cs, 0, cs.len(), 255) {
        Some(n) => {
            let n: u8 = n as u8;
            if n <= 3 || n == 73 || n == 81 || n == 82 || n == 83 {
                Modal { active_code: n, ..m }
            } else if n == 20 {
                Modal { inch: true, ..m }
            } else if n == 21 {
                Modal { inch: false, ..m }
            } else {
                m
            }
        },
        None => m,
    }
}

/// Whether `code` is a drill canned cycle (expanded into rapid, plunge
/// and retract segments).
pub fn is_canned_cycle(code: u8) -> (b: bool)
    ensures
        b == (code == 73 || code == 81 || code == 82 || code == 83),
{
    code == 73 || code == 81 || code == 82 || code == 83
}

/// The kind of a (non-canned) move: rapid under `G0`; under `G1` a purely
/// vertical move with an explicit Z is a retract when it rises and a
/// plunge otherwise, anything else a cut; an arc under `G2` / `G3`; a cut
/// under any other code.
pub open spec fn move_kind(active_code: u8, had_z: bool, same_xy: bool, z_rises: bool) -> MoveKind {
    if active_code == 0 {
        MoveKind::Rapid
    } else if active_code == 1 {
        if had_z && same_xy {
            if z_rises { MoveKind::Retract } else { MoveKind::Plunge }
        } else {
            MoveKind::Cut
        }
    } else if active_code == 2 || active_code == 3 {
        MoveKind::Arc
    } else {
        MoveKind::Cut
    }
}

/// Both circular-interpolation codes are arcs whatever the Z and X/Y of
/// the move; `G0` is always a rapid; under `G1` only a pure vertical move
/// is a plunge or retract (by its direction), and codes past `G3` cut.
pub proof fn lemma_move_kinds(had_z: bool, same_xy: bool, z_rises: bool, code: u8)
    ensures
        move_kind(2, had_z, same_xy, z_rises) == MoveKind::Arc,
        move_kind(3, had_z, same_xy, z_rises) == MoveKind::Arc,
        move_kind(0, had_z, same_xy, z_rises) == MoveKind::Rapid,
        move_kind(1, true, true, true) == MoveKind::Retract,
        move_kind(1, true, true, false) == MoveKind::Plunge,
        !(had_z && same_xy) ==> move_kind(1, had_z, same_xy, z_rises) == MoveKind::Cut,
        code > 3 ==> move_kind(code, had_z, same_xy, z_rises) == MoveKind::Cut,
{
}

/// Classifies a move; `same_xy` says the X/Y target equals the start,
/// `z_rises` that the Z target is above the start.
pub fn classify_move(active_code: u8, had_z: bool, same_xy: bool, z_rises: bool) -> (k: MoveKind)
    ensures
        k == move_kind(active_code, had_z, same_xy, z_rises),
        active_code == 2 || active_code == 3 ==> k == MoveKind::Arc,
        active_code == 0 ==> k == MoveKind::Rapid,
        active_code == 1 && had_z && same_xy ==> k == (if z_rises { MoveKind::Retract } else { MoveKind::Plunge }),
        active_code == 1 && !(had_z && same_xy) ==> k == MoveKind::Cut,
        active_code > 3 ==> k == MoveKind::Cut,
{
    match active_code {
        0 => MoveKind::Rapid,
        1 => {
            if had_z && same_xy {
                if z_rises { MoveKind::Retract } else { MoveKind::Plunge }
            } else {
                MoveKind::Cut
            }
        },
        2 | 3 => MoveKind::Arc,
        _ => MoveKind::Cut,
    }
}

/// The index of the first segment of gcode line `n + 1`, given how many
/// segments each line produced.
pub open spec fn seg_start(counts: Seq<u32>, n: int) -> nat
    decreases n,
{
    if n <= 0 {
        0
    } else {
        seg_start(counts, n - 1) + counts[n - 1] as nat
    }
}

/// `lines_to_segment` / `segments_to_line` index a gcode text whose lines
/// produced `counts[n]` segments each: a line that produced none maps to
/// [`NO_SEGMENT`], any other line to its first segment, and each segment
/// to the 1-based line whose segment range holds it.
pub open spec fn indexes(lines_to_segment: Seq<u32>, segments_to_line: Seq<u32>, counts: Seq<u32>) -> bool {
    &&& lines_to_segment.len() == counts.len()
    &&& segments_to_line.len() == seg_start(counts, counts.len() as int)
    &&& seg_start(counts, counts.len() as int) < NO_SEGMENT
    &&& forall|n: int| 0 <= n < counts.len() ==> (#[trigger] lines_to_segment[n] as int)
        == if counts[n] == 0 { NO_SEGMENT as int } else { seg_start(counts, n) as int }
    &&& forall|i: int| 0 <= i < segments_to_line.len() ==> {
        let l = #[trigger] segments_to_line[i] as int;
        &&& 1 <= l <= counts.len()
        &&& seg_start(counts, l - 1) <= i < seg_start(counts, l)
    }
}

/// Segment starts grow with the line number.
pub proof fn lemma_seg_start_monotone(counts: Seq<u32>, m: int, n: int)
    requires
        0 <= m <= n,
    ensures
        seg_start(counts, m) <= seg_start(counts, n),
    decreases n - m,
{
    if m < n {
        lemma_seg_start_monotone(counts, m, n - 1);
    }
}

/// Builds the line ↔ segment index of a gcode text whose line `n + 1`
/// produced `counts[n]` preview segments.
pub fn build_gcode_index(counts: &[u32]) -> (idx: GcodeIndex)
    requires
        counts@.len() < NO_SEGMENT,
        seg_start(counts@, counts@.len() as int) < NO_SEGMENT,
    ensures
        indexes(idx.lines_to_segment@, idx.segments_to_line@, counts@),
{
    let ghost c = counts@;
    let ghost total_all = seg_start(c, c.len() as int);
    let mut l2s: Vec<u32> = Vec::new();
    let mut s2l: Vec<u32> = Vec::new();
    let mut total: u32 = 0;
    let mut n: usize = 0;
    while n < counts.len()
        invariant
            c == counts@,
            total_all == seg_start(c, c.len() as int),
            total_all < NO_SEGMENT,
            c.len() < NO_SEGMENT,
            n <= c.len(),
            l2s@.len() == n,
            s2l@.len() == total,
            total as int == seg_start(c, n as int),
            forall|m: int| 0 <= m < n ==> (#[trigger] l2s@[m] as int)
                == if c[m] == 0 { NO_SEGMENT as int } else { seg_start(c, m) as int },
            forall|i: int| 0 <= i < s2l@.len() ==> {
                let l = #[trigger] s2l@[i] as int;
                &&& 1 <= l <= n
                &&& seg_start(c, l - 1) <= i < seg_start(c, l)
            },
        decreases c.len() - n,
    {
        let cnt = counts[n];
        proof {
            lemma_seg_start_monotone(c, n as int + 1, c.len() as int);
        }
        if cnt == 0 {
            l2s.push(NO_SEGMENT);
        } else {
            l2s.push(total);
        }
        let line: u32 = (n + 1) as u32;
        let mut k: u32 = 0;
        while k < cnt
            invariant
                k <= cnt,
                line as int == n + 1,
                n < c.len(),
                cnt == c[n as int],
                total as int == seg_start(c, n as int),
                s2l@.len() == total + k,
                forall|i: int| 0 <= i < s2l@.len() ==> {
                    let l = #[trigger] s2l@[i] as int;
                    &&& 1 <= l <= n + 1
                    &&& seg_start(c, l - 1) <= i < seg_start(c, l)
                },
            decreases cnt - k,
        {
            s2l.push(line);
            k += 1;
        }
        total = total + cnt;
        n += 1;
    }
    GcodeIndex { lines_to_segment: l2s, segments_to_line: s2l }
}

/// Round trip of the gcode index: a segment's line leads to a first
/// segment at or before it, and a line's first segment leads back to that
/// line.
pub proof fn lemma_gcode_index_round_trip(lines_to_segment: Seq<u32>, segments_to_line: Seq<u32>, counts: Seq<u32>)
    requires
        indexes(lines_to_segment, segments_to_line, counts),
    ensures
        forall|i: int| 0 <= i < segments_to_line.len() ==> {
            let first = #[trigger] lines_to_segment[segments_to_line[i] - 1];
            first != NO_SEGMENT && first <= i
        },
        forall|n: int| 0 <= n < lines_to_segment.len() && #[trigger] lines_to_segment[n] != NO_SEGMENT ==> {
            &&& lines_to_segment[n] < segments_to_line.len()
            &&& segments_to_line[lines_to_segment[n] as int] == n + 1
        },
{
    let c = counts;
    assert forall|i: int| 0 <= i < segments_to_line.len() implies {
        let first = #[trigger] lines_to_segment[segments_to_line[i] - 1];
        first != NO_SEGMENT && first <= i
    } by {
        let l = segments_to_line[i] as int;
        assert(seg_start(c, l - 1) <= i < seg_start(c, l));
        assert(c[l - 1] > 0);
    }
    assert forall|n: int| 0 <= n < lines_to_segment.len() && #[trigger] lines_to_segment[n] != NO_SEGMENT implies {
        &&& lines_to_segment[n] < segments_to_line.len()
        &&& segments_to_line[lines_to_segment[n] as int] == n + 1
    } by {
        assert(c[n] != 0);
        let j = seg_start(c, n) as int;
        lemma_seg_start_monotone(c, n + 1, c.len() as int);
        assert(j < segments_to_line.len());
        let l = segments_to_line[j] as int;
        assert(seg_start(c, l - 1) <= j < seg_start(c, l));
        if l - 1 < n {
            lemma_seg_start_monotone(c, l, n);
        } else if l - 1 > n {
            lemma_seg_start_monotone(c, n + 1, l - 1);
        }
    }
}

/// One past the end of the run of non-whitespace characters that starts
/// at `k`.
pub open spec fn word_end(s: Seq<char>, k: int) -> int
    decreases s.len() - k,
{
    if 0 <= k < s.len() && !is_ws(s[k]) {
        word_end(s, k + 1)
    } else {
        k
    }
}

/// The whitespace-separated words of `s[k..]` (`str::split_whitespace`).
pub open spec fn words_from(s: Seq<char>, k: int) -> Seq<Seq<char>>
    decreases s.len() - k, 1int,
{
    if k < 0 || k >= s.len() {
        Seq::empty()
    } else if is_ws(s[k]) {
        words_from(s, k + 1)
    } else {
        let e = word_end(s, k);
        if k < e <= s.len() {
            seq![s.subrange(k, e)] + words_from(s, e)
        } else {
            Seq::empty()
        }
    }
}

/// A gcode word as its address letter and value text.
pub open spec fn word_parts(w: Seq<char>) -> (char, Seq<char>) {
    (w[0], w.skip(1))
}

proof fn lemma_word_end(s: Seq<char>, k: int)
    requires
        0 <= k <= s.len(),
    ensures
        k <= word_end(s, k) <= s.len(),
        forall|j: int| k <= j < word_end(s, k) ==> !is_ws(#[trigger] s[j]),
        word_end(s, k) < s.len() ==> is_ws(s[word_end(s, k)]),
    decreases s.len() - k,
{
    if k < s.len() && !is_ws(s[k]) {
        lemma_word_end(s, k + 1);
    }
}

/// The words of a gcode line, each split into its address letter and
/// value text (the letter is the first character of the word, whatever
/// character it is; a caller skips the letters it does not know).
pub fn gcode_words(line: &str) -> (r: Vec<(char, String)>)
    ensures
        r@.len() == words_from(line@, 0).len(),
        forall|i: int| 0 <= i < r@.len() ==> (#[trigger] r@[i]).0 == word_parts(words_from(line@, 0)[i]).0
            && r@[i].1@ == word_parts(words_from(line@, 0)[i]).1,
{
    let cs = chars_of(line);
    let n = cs.len();
    let mut out: Vec<(char, String)> = Vec::new();
    let mut k: usize = 0;
    let ghost all = words_from(cs@, 0);
    while k < n
        invariant
            k <= n,
            n == cs@.len(),
            cs@ == line@,
            all == words_from(cs@, 0),
            out@.len() + words_from(cs@, k as int).len() == all.len(),
            forall|i: int| 0 <= i < out@.len() ==> (#[trigger] out@[i]).0 == word_parts(all[i]).0
                && out@[i].1@ == word_parts(all[i]).1,
            forall|i: int| 0 <= i < words_from(cs@, k as int).len() ==> all[out@.len() + i] == #[trigger] words_from(cs@, k as int)[i],
        decreases n - k,
    {
        if is_whitespace(cs[k]) {
            k += 1;
        } else {
            let mut e = k + 1;
            while e < n && !is_whitespace(cs[e])
                invariant
                    k < e <= n,
                    n == cs@.len(),
                    word_end(cs@, k as int) == word_end(cs@, e as int),
                decreases n - e,
            {
                e += 1;
            }
            proof {
                lemma_word_end(cs@, e as int);
            }
            let ghost w = cs@.subrange(k as int, e as int);
            assert(words_from(cs@, k as int) == seq![w] + words_from(cs@, e as int));
            let head = cs[k];
            let rest = string_from_chars(slice_subrange(&cs, k + 1, e));
            assert(rest@ =~= w.skip(1));
            let ghost before = out@;
            out.push((head, rest));
            assert forall|i: int| 0 <= i < words_from(cs@, e as int).len() implies all[out@.len() + i] == #[trigger] words_from(cs@, e as int)[i] by {
                assert(words_from(cs@, k as int)[i + 1] == words_from(cs@, e as int)[i]);
            }
            assert(all[before.len() as int] == w) by {
                assert(words_from(cs@, k as int)[0] == w);
            }
            k = e;
        }
    }
    out
}

} // verus!
