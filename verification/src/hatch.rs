//! The group-code / value pair stream of a text DXF file, as the HATCH
//! boundary reader walks it.

use vstd::prelude::*;
use vstd::slice::{slice_subrange, slice_to_vec};
use crate::scan::{find_from, first_occurrence, lemma_first_occurrence, parse_signed, parse_signed_in, skip_ws, skip_ws_back};
use crate::strs::{chars_of, string_from_chars, trim};

verus! {

/// `l` without one trailing carriage return.
pub open spec fn strip_cr(l: Seq<char>) -> Seq<char> {
    if l.len() > 0 && l.last() == '\r' {
        l.drop_last()
    } else {
        l
    }
}

/// The lines of `s[k..]` as `str::lines` yields them: split at `\n`, a
/// `\r` right before a `\n` dropped, no empty line after a final `\n`.
pub open spec fn lines_from(s: Seq<char>, k: int) -> Seq<Seq<char>>
    decreases s.len() - k,
{
    if k < 0 || k >= s.len() {
        Seq::empty()
    } else {
        match first_occurrence(s, seq!['\n'], k) {
            None => seq![s.subrange(k, s.len() as int)],
            Some(i) => if k <= i < s.len() {
                seq![strip_cr(s.subrange(k, i))] + lines_from(s, i + 1)
            } else {
                Seq::empty()
            },
        }
    }
}

/// The lines of `s` (`str::lines`).
pub open spec fn lines(s: Seq<char>) -> Seq<Seq<char>> {
    lines_from(s, 0)
}

/// Group-code / value pairs from a list of lines: a line that is an
/// `i32` after trimming is a group code and the next line (trimmed) its
/// value; any other line is skipped, and a code on the last line has no
/// pair.
pub open spec fn group_pairs(ls: Seq<Seq<char>>) -> Seq<(i32, Seq<char>)>
    decreases ls.len(),
{
    if ls.len() == 0 {
        Seq::empty()
    } else {
        match parse_signed(trim(ls[0]), 0x7FFF_FFFF) {
            None => group_pairs(ls.drop_first()),
            Some(code) => if ls.len() == 1 {
                Seq::empty()
            } else {
                seq![(code as i32, trim(ls[1]))] + group_pairs(ls.subrange(2, ls.len() as int))
            },
        }
    }
}

/// Pairs as (code, value text).
pub open spec fn pair_views(p: Seq<(i32, String)>) -> Seq<(i32, Seq<char>)> {
    p.map_values(|x: (i32, String)| (x.0, x.1@))
}

/// Lines as character sequences.
pub open spec fn line_views(v: Seq<Vec<char>>) -> Seq<Seq<char>> {
    v.map_values(|l: Vec<char>| l@)
}

proof fn lemma_line_views_push(v: Seq<Vec<char>>, l: Vec<char>)
    ensures
        line_views(v.push(l)) == line_views(v).push(l@),
{
    assert forall|k: int| 0 <= k < v.len() + 1 implies line_views(v.push(l))[k] == line_views(v).push(l@)[k] by {
        if k < v.len() {
            assert(v.push(l)[k] == v[k]);
        }
    }
    assert(line_views(v.push(l)) =~= line_views(v).push(l@));
}

proof fn lemma_pair_views_push(v: Seq<(i32, String)>, p: (i32, String))
    ensures
        pair_views(v.push(p)) == pair_views(v).push((p.0, p.1@)),
{
    assert forall|k: int| 0 <= k < v.len() + 1 implies pair_views(v.push(p))[k] == pair_views(v).push((p.0, p.1@))[k] by {
        if k < v.len() {
            assert(v.push(p)[k] == v[k]);
        }
    }
    assert(pair_views(v.push(p)) =~= pair_views(v).push((p.0, p.1@)));
}

/// The lines of `text` (`str::lines`).
pub fn text_lines(text: &str) -> (ls: Vec<Vec<char>>)
    ensures
        line_views(ls@) == lines(text@),
{
    let cs = chars_of(text);
    let nl = vec!['\n'];
    assert(nl@ =~= seq!['\n']);
    let mut out: Vec<Vec<char>> = Vec::new();
    let mut k: usize = 0;
    assert(line_views(out@) + lines_from(cs@, 0) =~= lines_from(cs@, 0));
    while k < cs.len()
        invariant
            k <= cs.len(),
            cs@ == text@,
            nl@ == seq!['\n'],
            line_views(out@) + lines_from(cs@, k as int) == lines_from(cs@, 0),
        decreases cs.len() - k,
    {
        let ghost before = line_views(out@);
        proof {
            lemma_first_occurrence(cs@, nl@, k as int);
        }
        match find_from(&cs, &nl, k) {
            None => {
                let l = slice_to_vec(slice_subrange(&cs, k, cs.len()));
                proof {
                    lemma_line_views_push(out@, l);
                }
                out.push(l);
                assert(lines_from(cs@, cs.len() as int) =~= Seq::<Seq<char>>::empty());
                assert(line_views(out@) + lines_from(cs@, cs.len() as int) =~= before + lines_from(cs@, k as int));
                k = cs.len();
            },
            Some(i) => {
                assert(occurs_at_nl(cs@, i as int));
                assert(i < cs.len());
                let e = if i > k && cs[i - 1] == '\r' { i - 1 } else { i };
                assert(cs@.subrange(k as int, e as int) =~= strip_cr(cs@.subrange(k as int, i as int)));
                let l = slice_to_vec(slice_subrange(&cs, k, e));
                proof {
                    lemma_line_views_push(out@, l);
                }
                out.push(l);
                assert(line_views(out@) + lines_from(cs@, i + 1) =~= before + lines_from(cs@, k as int));
                k = i + 1;
            },
        }
    }
    assert(lines_from(cs@, k as int) =~= Seq::<Seq<char>>::empty());
    assert(line_views(out@) + Seq::<Seq<char>>::empty() =~= line_views(out@));
    out
}

/// A newline occurs at `i`.
spec fn occurs_at_nl(s: Seq<char>, i: int) -> bool {
    crate::scan::occurs_at(s, seq!['\n'], i)
}

/// Splits a text DXF stream into (group code, value) pairs.
#[verifier::loop_isolation(false)]
pub fn pairs_from_text(text: &str) -> (r: Vec<(i32, String)>)
    ensures
        pair_views(r@) == group_pairs(lines(text@)),
{
    let ls = text_lines(text);
    let ghost lv = line_views(ls@);
    let mut out: Vec<(i32, String)> = Vec::new();
    let mut i: usize = 0;
    assert(lv.subrange(0, lv.len() as int) =~= lv);
    assert(pair_views(out@) + group_pairs(lv.subrange(0, lv.len() as int)) =~= group_pairs(lv));
    while i < ls.len()
        invariant
            i <= ls.len(),
            lv.len() == ls.len(),
            pair_views(out@) + group_pairs(lv.subrange(i as int, lv.len() as int)) == group_pairs(lv),
        decreases ls.len() - i,
    {
        let ghost rest = lv.subrange(i as int, lv.len() as int);
        let line = &ls[i];
        assert(line@ == rest[0]);
        let a = skip_ws(line.as_slice(), 0, line.len());
        let b = skip_ws_back(line.as_slice(), a, line.len());
        assert(line@.subrange(0, line@.len() as int) =~= line@);
        let code = parse_signed_in(line.as_slice(), a, b, 0x7FFF_FFFF);
        match code {
            None => {
                assert(rest.drop_first() =~= lv.subrange(i + 1, lv.len() as int));
                i += 1;
            },
            Some(c) => {
                if i + 1 == ls.len() {
                    assert(group_pairs(rest) =~= Seq::<(i32, Seq<char>)>::empty());
                    assert(pair_views(out@) + Seq::<(i32, Seq<char>)>::empty() =~= pair_views(out@));
                    return out;
                }
                let val = &ls[i + 1];
                assert(val@ == rest[1]);
                let p = skip_ws(val.as_slice(), 0, val.len());
                let q = skip_ws_back(val.as_slice(), p, val.len());
                assert(val@.subrange(0, val@.len() as int) =~= val@);
                let v = string_from_chars(slice_subrange(val.as_slice(), p, q));
                let ghost before = pair_views(out@);
                let pair: (i32, String) = (c as i32, v);
                proof {
                    lemma_pair_views_push(out@, pair);
                }
                out.push(pair);
                assert(rest.subrange(2, rest.len() as int) =~= lv.subrange(i + 2, lv.len() as int));
                assert(pair_views(out@) + group_pairs(lv.subrange(i + 2, lv.len() as int))
                    =~= before + group_pairs(rest));
                i += 2;
            },
        }
    }
    assert(lv.subrange(i as int, lv.len() as int) =~= Seq::<Seq<char>>::empty());
    assert(pair_views(out@) + Seq::<(i32, Seq<char>)>::empty() =~= pair_views(out@));
    out
}

} // verus!
