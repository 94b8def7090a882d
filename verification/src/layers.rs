//! The per-layer summary of an import: one entry per layer name, in
//! name order, with the colour of the layer's first segment (or of its
//! seed entry) and its segment count.

use vstd::prelude::*;
use crate::geometry::{Layer, Segment};
use crate::strs::chars_of;

verus! {

/// `a` sorts before `b` (the order of `String`: lexicographic by
/// character).
pub open spec fn lex_lt(a: Seq<char>, b: Seq<char>) -> bool
    decreases a.len(),
{
    if a.len() == 0 {
        b.len() > 0
    } else if b.len() == 0 {
        false
    } else if a[0] != b[0] {
        a[0] < b[0]
    } else {
        lex_lt(a.drop_first(), b.drop_first())
    }
}

/// No name sorts before itself.
pub proof fn lemma_lex_irreflexive(a: Seq<char>)
    ensures
        !lex_lt(a, a),
    decreases a.len(),
{
    if a.len() > 0 {
        lemma_lex_irreflexive(a.drop_first());
    }
}

/// The name order is transitive.
pub proof fn lemma_lex_transitive(a: Seq<char>, b: Seq<char>, c: Seq<char>)
    requires
        lex_lt(a, b),
        lex_lt(b, c),
    ensures
        lex_lt(a, c),
    decreases a.len(),
{
    if a.len() > 0 && b.len() > 0 && c.len() > 0 && a[0] == b[0] && b[0] == c[0] {
        lemma_lex_transitive(a.drop_first(), b.drop_first(), c.drop_first());
    }
}

/// Two different names are ordered one way or the other.
pub proof fn lemma_lex_total(a: Seq<char>, b: Seq<char>)
    requires
        a != b,
    ensures
        lex_lt(a, b) || lex_lt(b, a),
    decreases a.len(),
{
    if a.len() > 0 && b.len() > 0 && a[0] == b[0] {
        if a.drop_first() == b.drop_first() {
            assert(a =~= seq![a[0]] + a.drop_first());
            assert(b =~= seq![b[0]] + b.drop_first());
        }
        lemma_lex_total(a.drop_first(), b.drop_first());
    } else if a.len() == 0 && b.len() == 0 {
        assert(a =~= b);
    }
}

/// How many of `segs` lie on layer `name`.
pub open spec fn seg_count(segs: Seq<Segment>, name: Seq<char>) -> nat
    decreases segs.len(),
{
    if segs.len() == 0 {
        0
    } else {
        seg_count(segs.drop_last(), name) + if segs.last().layer@ == name { 1nat } else { 0nat }
    }
}

/// The colour of the first of `segs` on layer `name`.
pub open spec fn first_seg_color(segs: Seq<Segment>, name: Seq<char>) -> Option<i32>
    decreases segs.len(),
{
    if segs.len() == 0 {
        None
    } else {
        match first_seg_color(segs.drop_last(), name) {
            Some(c) => Some(c),
            None => if segs.last().layer@ == name { Some(segs.last().color) } else { None },
        }
    }
}

/// The colour of the first seed entry named `name`.
pub open spec fn first_seed_color(seeds: Seq<(String, i32)>, name: Seq<char>) -> Option<i32>
    decreases seeds.len(),
{
    if seeds.len() == 0 {
        None
    } else {
        match first_seed_color(seeds.drop_last(), name) {
            Some(c) => Some(c),
            None => if seeds.last().0@ == name { Some(seeds.last().1) } else { None },
        }
    }
}

/// A layer has a segment exactly when it has a first segment colour.
pub proof fn lemma_count_color(segs: Seq<Segment>, name: Seq<char>)
    ensures
        (seg_count(segs, name) > 0) == (first_seg_color(segs, name) is Some),
    decreases segs.len(),
{
    if segs.len() > 0 {
        lemma_count_color(segs.drop_last(), name);
    }
}

/// The summary entry a layer name gets: the first segment's colour, or
/// the seed colour for a layer without segments.
pub open spec fn summary_color(segs: Seq<Segment>, seeds: Seq<(String, i32)>, name: Seq<char>) -> i32 {
    match first_seg_color(segs, name) {
        Some(c) => c,
        None => match first_seed_color(seeds, name) {
            Some(c) => c,
            None => 0,
        },
    }
}

/// A name is a layer of the summary: some segment or seed entry carries it.
pub open spec fn has_layer(segs: Seq<Segment>, seeds: Seq<(String, i32)>, name: Seq<char>) -> bool {
    seg_count(segs, name) > 0 || first_seed_color(seeds, name) is Some
}

/// `l` is the summary entry of its layer.
pub open spec fn entry_summarizes(l: Layer, segs: Seq<Segment>, seeds: Seq<(String, i32)>) -> bool {
    &&& has_layer(segs, seeds, l.name@)
    &&& l.segment_count == seg_count(segs, l.name@)
    &&& l.color == summary_color(segs, seeds, l.name@)
}

/// `v` is the layer summary of `segs` and `seeds`: strictly sorted by
/// name, one entry per layer name, with its colour and segment count.
pub open spec fn summarizes(v: Seq<Layer>, segs: Seq<Segment>, seeds: Seq<(String, i32)>) -> bool {
    &&& forall|i: int, j: int| 0 <= i < j < v.len() ==> lex_lt(#[trigger] v[i].name@, #[trigger] v[j].name@)
    &&& forall|i: int| 0 <= i < v.len() ==> entry_summarizes(#[trigger] v[i], segs, seeds)
    &&& forall|n: Seq<char>| #[trigger] has_layer(segs, seeds, n) ==> exists|i: int| 0 <= i < v.len() && v[i].name@ == n
}

/// Where `name` goes in the sorted `v`: every entry before `p` sorts
/// before it, and `found` tells whether the entry at `p` carries it.
fn find_slot(v: &Vec<Layer>, name: &[char]) -> (r: (usize, bool))
    requires
        forall|i: int, j: int| 0 <= i < j < v@.len() ==> lex_lt(#[trigger] v@[i].name@, #[trigger] v@[j].name@),
    ensures
        r.0 <= v@.len(),
        forall|i: int| 0 <= i < r.0 ==> lex_lt(#[trigger] v@[i].name@, name@),
        r.1 ==> r.0 < v@.len() && v@[r.0 as int].name@ == name@,
        !r.1 ==> r.0 == v@.len() || lex_lt(name@, v@[r.0 as int].name@),
        !r.1 ==> forall|i: int| 0 <= i < v@.len() ==> (#[trigger] v@[i].name@) != name@,
{
    let mut p: usize = 0;
    while p < v.len()
        invariant
            p <= v@.len(),
            forall|i: int, j: int| 0 <= i < j < v@.len() ==> lex_lt(#[trigger] v@[i].name@, #[trigger] v@[j].name@),
            forall|i: int| 0 <= i < p ==> lex_lt(#[trigger] v@[i].name@, name@),
        decreases v@.len() - p,
    {
        let cs = chars_of(v[p].name.as_str());
        if !lex_less(&cs, name) {
            if crate::strs::same_chars(&cs, name) {
                return (p, true);
            }
            proof {
                lemma_lex_total(v@[p as int].name@, name@);
                assert forall|i: int| 0 <= i < v@.len() implies (#[trigger] v@[i].name@) != name@ by {
                    if i < p {
                        lemma_lex_irreflexive(name@);
                    } else if i == p {
                    } else {
                        assert(lex_lt(v@[p as int].name@, v@[i].name@));
                        if v@[i].name@ == name@ {
                            lemma_lex_transitive(name@, v@[p as int].name@, name@);
                            lemma_lex_irreflexive(name@);
                        }
                    }
                }
            }
            return (p, false);
        }
        p += 1;
    }
    proof {
        assert forall|i: int| 0 <= i < v@.len() implies (#[trigger] v@[i].name@) != name@ by {
            lemma_lex_irreflexive(name@);
        }
    }
    (p, false)
}

/// Whether `a` sorts before `b`.
fn lex_less(a: &[char], b: &[char]) -> (r: bool)
    ensures
        r == lex_lt(a@, b@),
{
    let mut i: usize = 0;
    assert(a@.skip(0) =~= a@);
    assert(b@.skip(0) =~= b@);
    while i < a.len() && i < b.len() && a[i] == b[i]
        invariant
            i <= a@.len(),
            i <= b@.len(),
            lex_lt(a@, b@) == lex_lt(a@.skip(i as int), b@.skip(i as int)),
        decreases a@.len() - i,
    {
        assert(a@.skip(i as int).drop_first() =~= a@.skip(i + 1));
        assert(b@.skip(i as int).drop_first() =~= b@.skip(i + 1));
        i += 1;
    }
    if i == a.len() {
        i < b.len()
    } else if i == b.len() {
        false
    } else {
        a[i] < b[i]
    }
}

/// Builds the per-layer summary of an import: one entry per layer that
/// carries segments or has a seed colour, sorted by name, with the colour
/// of its first segment (the seed colour for a layer without segments)
/// and its segment count.
pub fn summarize_layers(segments: &[Segment], seed_colors: &[(String, i32)]) -> (v: Vec<Layer>)
    ensures
        summarizes(v@, segments@, seed_colors@),
{
    let ghost segs = segments@;
    let ghost seeds = seed_colors@;
    let mut v: Vec<Layer> = Vec::new();
    let mut k: usize = 0;
    while k < segments.len()
        invariant
            k <= segs.len(),
            segs == segments@,
            summarizes(v@, segs.take(k as int), Seq::empty()),
            forall|i: int| 0 <= i < v@.len() ==> (#[trigger] v@[i]).segment_count <= k,
        decreases segs.len() - k,
    {
        let seg = &segments[k];
        let name = chars_of(seg.layer.as_str());
        let ghost pre = segs.take(k as int);
        let ghost post = segs.take(k + 1);
        assert(post.drop_last() =~= pre);
        assert(post.last() == segs[k as int]);
        let (p, found) = find_slot(&v, &name);
        let ghost old_v = v@;
        if found {
            let old_count = v[p].segment_count;
            let old_color = v[p].color;
            let entry = Layer { name: v[p].name.clone(), color: old_color, segment_count: old_count + 1 };
            v.set(p, entry);
            proof {
                lemma_count_color(pre, name@);
                lemma_summary_bump(old_v, v@, pre, post, p as int);
            }
        } else {
            let entry = Layer { name: seg.layer.clone(), color: seg.color, segment_count: 1 };
            v.insert(p, entry);
            proof {
                lemma_summary_insert(old_v, v@, pre, post, p as int);
            }
        }
        k += 1;
    }
    assert(segs.take(segs.len() as int) =~= segs);
    assert(seeds.take(0) =~= Seq::<(String, i32)>::empty());
    let mut t: usize = 0;
    while t < seed_colors.len()
        invariant
            t <= seeds.len(),
            segs == segments@,
            seeds == seed_colors@,
            summarizes(v@, segs, seeds.take(t as int)),
        decreases seeds.len() - t,
    {
        let name = chars_of(seed_colors[t].0.as_str());
        let ghost pre = seeds.take(t as int);
        let ghost post = seeds.take(t + 1);
        assert(post.drop_last() =~= pre);
        assert(post.last() == seeds[t as int]);
        let (p, found) = find_slot(&v, &name);
        let ghost old_v = v@;
        if !found {
            let entry = Layer { name: seed_colors[t].0.clone(), color: seed_colors[t].1, segment_count: 0 };
            v.insert(p, entry);
            proof {
                lemma_seed_insert(old_v, v@, segs, pre, post, p as int);
            }
        } else {
            proof {
                lemma_seed_present(old_v, segs, pre, post, p as int);
            }
        }
        t += 1;
    }
    assert(seeds.take(seeds.len() as int) =~= seeds);
    v
}

/// Counting one more segment on an existing layer keeps the summary.
proof fn lemma_summary_bump(old_v: Seq<Layer>, v: Seq<Layer>, pre: Seq<Segment>, post: Seq<Segment>, p: int)
    requires
        summarizes(old_v, pre, Seq::empty()),
        post.len() == pre.len() + 1,
        post.drop_last() == pre,
        0 <= p < old_v.len(),
        old_v[p].name@ == post.last().layer@,
        v.len() == old_v.len(),
        forall|i: int| 0 <= i < v.len() && i != p ==> v[i] == old_v[i],
        v[p].name@ == old_v[p].name@,
        v[p].color == old_v[p].color,
        v[p].segment_count == old_v[p].segment_count + 1,
    ensures
        summarizes(v, post, Seq::empty()),
{
    let x = post.last().layer@;
    assert forall|i: int, j: int| 0 <= i < j < v.len() implies lex_lt(#[trigger] v[i].name@, #[trigger] v[j].name@) by {
        assert(lex_lt(old_v[i].name@, old_v[j].name@));
    }
    assert forall|i: int| 0 <= i < v.len() implies entry_summarizes(#[trigger] v[i], post, Seq::empty()) by {
        let n = v[i].name@;
        assert(entry_summarizes(old_v[i], pre, Seq::empty()));
        assert(old_v[i].name@ == n);
        lemma_count_color(pre, n);
        lemma_count_color(post, n);
        if n != x {
            assert(seg_count(post, n) == seg_count(pre, n));
            assert(first_seg_color(post, n) == first_seg_color(pre, n));
        } else {
            if i != p {
                if i < p {
                    assert(lex_lt(old_v[i].name@, old_v[p].name@));
                } else {
                    assert(lex_lt(old_v[p].name@, old_v[i].name@));
                }
                lemma_lex_irreflexive(n);
            }
            assert(seg_count(post, n) == seg_count(pre, n) + 1);
            assert(first_seg_color(post, n) == first_seg_color(pre, n));
        }
    }
    assert forall|n: Seq<char>| #[trigger] has_layer(post, Seq::empty(), n) implies exists|i: int| 0 <= i < v.len() && v[i].name@ == n by {
        if n == x {
            assert(v[p].name@ == n);
        } else {
            assert(has_layer(pre, Seq::empty(), n));
            let i = choose|i: int| 0 <= i < old_v.len() && old_v[i].name@ == n;
            assert(v[i].name@ == n);
        }
    }
}

/// Inserting a new layer at its sorted place keeps the summary.
proof fn lemma_summary_insert(old_v: Seq<Layer>, v: Seq<Layer>, pre: Seq<Segment>, post: Seq<Segment>, p: int)
    requires
        summarizes(old_v, pre, Seq::empty()),
        post.len() == pre.len() + 1,
        post.drop_last() == pre,
        0 <= p <= old_v.len(),
        forall|i: int| 0 <= i < p ==> lex_lt(#[trigger] old_v[i].name@, post.last().layer@),
        p == old_v.len() || lex_lt(post.last().layer@, old_v[p].name@),
        forall|i: int| 0 <= i < old_v.len() ==> (#[trigger] old_v[i].name@) != post.last().layer@,
        v == old_v.insert(p, Layer { name: post.last().layer, color: post.last().color, segment_count: 1 }),
    ensures
        summarizes(v, post, Seq::empty()),
{
    let x = post.last().layer@;
    assert(v[p].name@ == x);
    assert forall|i: int, j: int| 0 <= i < j < v.len() implies lex_lt(#[trigger] v[i].name@, #[trigger] v[j].name@) by {
        if j < p {
            assert(lex_lt(old_v[i].name@, old_v[j].name@));
        } else if j == p {
        } else if i < p {
            assert(v[j] == old_v[j - 1]);
            if j - 1 > p {
                assert(lex_lt(old_v[p].name@, old_v[j - 1].name@));
                lemma_lex_transitive(x, old_v[p].name@, old_v[j - 1].name@);
            }
            lemma_lex_transitive(old_v[i].name@, x, old_v[j - 1].name@);
        } else if i == p {
            assert(v[j] == old_v[j - 1]);
            if j - 1 > p {
                assert(lex_lt(old_v[p].name@, old_v[j - 1].name@));
                lemma_lex_transitive(x, old_v[p].name@, old_v[j - 1].name@);
            }
        } else {
            assert(v[i] == old_v[i - 1]);
            assert(v[j] == old_v[j - 1]);
            assert(lex_lt(old_v[i - 1].name@, old_v[j - 1].name@));
        }
    }
    assert(seg_count(pre, x) == 0) by {
        if seg_count(pre, x) > 0 {
            assert(has_layer(pre, Seq::empty(), x));
            let i = choose|i: int| 0 <= i < old_v.len() && old_v[i].name@ == x;
            assert(old_v[i].name@ != x);
        }
    }
    lemma_count_color(pre, x);
    assert forall|i: int| 0 <= i < v.len() implies entry_summarizes(#[trigger] v[i], post, Seq::empty()) by {
        let n = v[i].name@;
        if i != p {
            let o = if i < p { i } else { i - 1 };
            assert(v[i] == old_v[o]);
            assert(old_v[o].name@ == n);
            assert(n != x);
            lemma_count_color(pre, n);
            assert(seg_count(post, n) == seg_count(pre, n));
            assert(first_seg_color(post, n) == first_seg_color(pre, n));
            assert(has_layer(pre, Seq::empty(), n));
            assert(v[i].segment_count == seg_count(pre, n));
            assert(v[i].color == summary_color(pre, Seq::empty(), n));
        } else {
            assert(n == x);
            assert(seg_count(post, n) == 1);
            assert(first_seg_color(post, n) == Some(post.last().color));
            assert(v[i].segment_count == 1);
            assert(v[i].color == post.last().color);
        }
        lemma_count_color(post, n);
        assert(has_layer(post, Seq::empty(), n));
        assert(v[i].segment_count == seg_count(post, n));
        assert(v[i].color == summary_color(post, Seq::empty(), n));
    }
    assert forall|n: Seq<char>| #[trigger] has_layer(post, Seq::empty(), n) implies exists|i: int| 0 <= i < v.len() && v[i].name@ == n by {
        if n == x {
            assert(v[p].name@ == n);
        } else {
            assert(has_layer(pre, Seq::empty(), n));
            let i = choose|i: int| 0 <= i < old_v.len() && old_v[i].name@ == n;
            if i < p {
                assert(v[i].name@ == n);
            } else {
                assert(v[i + 1] == old_v[i]);
                assert(v[i + 1].name@ == n);
            }
        }
    }
}

/// A seed whose name is already a layer changes nothing.
proof fn lemma_seed_present(v: Seq<Layer>, segs: Seq<Segment>, pre: Seq<(String, i32)>, post: Seq<(String, i32)>, p: int)
    requires
        summarizes(v, segs, pre),
        post.len() == pre.len() + 1,
        post.drop_last() == pre,
        0 <= p < v.len(),
        v[p].name@ == post.last().0@,
    ensures
        summarizes(v, segs, post),
{
    let x = post.last().0@;
    assert(has_layer(segs, pre, x));
    assert forall|i: int| 0 <= i < v.len() implies entry_summarizes(#[trigger] v[i], segs, post) by {
        let n = v[i].name@;
        assert(entry_summarizes(v[i], segs, pre));
        assert(has_layer(segs, pre, n));
        lemma_count_color(segs, n);
        if first_seed_color(pre, n) is Some {
            assert(first_seed_color(post, n) == first_seed_color(pre, n));
        }
    }
    assert forall|n: Seq<char>| #[trigger] has_layer(segs, post, n) implies exists|i: int| 0 <= i < v.len() && v[i].name@ == n by {
        if n == x {
            assert(v[p].name@ == n);
        } else {
            assert(has_layer(segs, pre, n));
        }
    }
}

/// A seed whose name is no layer yet enters at its sorted place with no
/// segments.
proof fn lemma_seed_insert(old_v: Seq<Layer>, v: Seq<Layer>, segs: Seq<Segment>, pre: Seq<(String, i32)>, post: Seq<(String, i32)>, p: int)
    requires
        summarizes(old_v, segs, pre),
        post.len() == pre.len() + 1,
        post.drop_last() == pre,
        0 <= p <= old_v.len(),
        forall|i: int| 0 <= i < p ==> lex_lt(#[trigger] old_v[i].name@, post.last().0@),
        p == old_v.len() || lex_lt(post.last().0@, old_v[p].name@),
        forall|i: int| 0 <= i < old_v.len() ==> (#[trigger] old_v[i].name@) != post.last().0@,
        v == old_v.insert(p, Layer { name: post.last().0, color: post.last().1, segment_count: 0 }),
    ensures
        summarizes(v, segs, post),
{
    let x = post.last().0@;
    assert(v[p].name@ == x);
    assert forall|i: int, j: int| 0 <= i < j < v.len() implies lex_lt(#[trigger] v[i].name@, #[trigger] v[j].name@) by {
        if j < p {
            assert(lex_lt(old_v[i].name@, old_v[j].name@));
        } else if j == p {
        } else if i < p {
            assert(v[j] == old_v[j - 1]);
            if j - 1 > p {
                assert(lex_lt(old_v[p].name@, old_v[j - 1].name@));
                lemma_lex_transitive(x, old_v[p].name@, old_v[j - 1].name@);
            }
            lemma_lex_transitive(old_v[i].name@, x, old_v[j - 1].name@);
        } else if i == p {
            assert(v[j] == old_v[j - 1]);
            if j - 1 > p {
                assert(lex_lt(old_v[p].name@, old_v[j - 1].name@));
                lemma_lex_transitive(x, old_v[p].name@, old_v[j - 1].name@);
            }
        } else {
            assert(v[i] == old_v[i - 1]);
            assert(v[j] == old_v[j - 1]);
            assert(lex_lt(old_v[i - 1].name@, old_v[j - 1].name@));
        }
    }
    assert(!has_layer(segs, pre, x)) by {
        if has_layer(segs, pre, x) {
            let i = choose|i: int| 0 <= i < old_v.len() && old_v[i].name@ == x;
            assert(old_v[i].name@ != x);
        }
    }
    lemma_count_color(segs, x);
    assert forall|i: int| 0 <= i < v.len() implies entry_summarizes(#[trigger] v[i], segs, post) by {
        let n = v[i].name@;
        if i != p {
            let o = if i < p { i } else { i - 1 };
            assert(v[i] == old_v[o]);
            assert(old_v[o].name@ == n);
            assert(n != x);
            assert(has_layer(segs, pre, n));
            assert(first_seed_color(post, n) == first_seed_color(pre, n));
        } else {
            assert(n == x);
            assert(first_seed_color(pre, n) is None);
            assert(first_seed_color(post, n) == Some(post.last().1));
            assert(seg_count(segs, n) == 0);
            assert(v[i].segment_count == 0);
            assert(v[i].color == post.last().1);
        }
        assert(has_layer(segs, post, n));
        assert(v[i].segment_count == seg_count(segs, n));
        assert(v[i].color == summary_color(segs, post, n));
    }
    assert forall|n: Seq<char>| #[trigger] has_layer(segs, post, n) implies exists|i: int| 0 <= i < v.len() && v[i].name@ == n by {
        if n == x {
            assert(v[p].name@ == n);
        } else {
            assert(has_layer(segs, pre, n));
            let i = choose|i: int| 0 <= i < old_v.len() && old_v[i].name@ == n;
            if i < p {
                assert(v[i].name@ == n);
            } else {
                assert(v[i + 1] == old_v[i]);
                assert(v[i + 1].name@ == n);
            }
        }
    }
}

} // verus!
