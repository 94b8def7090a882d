//! Op-source selection: which chained objects an op's source picks, in the
//! user's order, and diagnostics for object ids that no longer exist.

use vstd::prelude::*;
use crate::geometry::Segment;
use crate::pipeline::{PipelineWarning, WarningView, push_warning, warning, wviews};
use crate::project::{Op, OpSource, SourceCombine};
use crate::strs::{dec, push_u64, views};

verus! {

/// A chained object: connected segments on one layer.
#[derive(Clone, Debug)]
pub struct VcObject {
    pub layer: String,
    pub closed: bool,
    pub segments: Vec<Segment>,
}

/// Whether `layer` is one of `layers`.
pub open spec fn on_layers(layers: Seq<Seq<char>>, layer: Seq<char>) -> bool {
    layers.contains(layer)
}

/// Whether a name equal to `layer` occurs in `layers`.
pub fn layer_listed(layers: &Vec<String>, layer: &String) -> (b: bool)
    ensures
        b == on_layers(views(layers@), layer@),
{
    let mut i: usize = 0;
    while i < layers.len()
        invariant
            i <= layers.len(),
            forall|j: int| 0 <= j < i ==> layers@[j]@ != layer@,
        decreases layers.len() - i,
    {
        if layers[i] == *layer {
            assert(views(layers@)[i as int] == layer@);
            return true;
        }
        i += 1;
    }
    proof {
        if on_layers(views(layers@), layer@) {
            let k = choose|k: int| 0 <= k < views(layers@).len() && views(layers@)[k] == layer@;
            assert(layers@[k]@ == layer@);
        }
    }
    false
}

/// Indices `< n` of the objects whose layer is listed, in object order.
pub open spec fn layer_selection(layers: Seq<Seq<char>>, objs: Seq<VcObject>) -> Seq<usize>
    decreases objs.len(),
{
    if objs.len() == 0 {
        Seq::empty()
    } else {
        let rest = layer_selection(layers, objs.drop_last());
        if on_layers(layers, objs.last().layer@) {
            rest.push((objs.len() - 1) as usize)
        } else {
            rest
        }
    }
}

/// The 0-based indices of the 1-based `ids` that name one of `n`
/// objects, in the order of `ids`.
pub open spec fn id_selection(ids: Seq<u32>, n: nat) -> Seq<usize>
    decreases ids.len(),
{
    if ids.len() == 0 {
        Seq::empty()
    } else {
        let rest = id_selection(ids.drop_last(), n);
        let id = ids.last();
        if 1 <= id && id - 1 < n {
            rest.push((id - 1) as usize)
        } else {
            rest
        }
    }
}

/// `0, 1, …, n - 1`.
pub open spec fn all_indices(n: nat) -> Seq<usize> {
    Seq::new(n, |i: int| i as usize)
}

/// The object indices an op selects, in the user's order.
pub open spec fn selection(op: Op, objects: Seq<VcObject>) -> Seq<usize> {
    match op.source {
        OpSource::All => all_indices(objects.len()),
        OpSource::Layers { layers, .. } => layer_selection(views(layers@), objects),
        OpSource::Objects { ids, .. } => id_selection(ids@, objects.len()),
    }
}

/// The object indices the op's source selects, in the user's order:
/// every index for `All`, the objects on a listed layer in object order
/// for `Layers`, and for `Objects` each 1-based id that names an existing
/// object, in id order.
pub fn ordered_selection(op: &Op, objects: &Vec<VcObject>) -> (v: Vec<usize>)
    ensures
        v@ == selection(*op, objects@),
{
    let mut v: Vec<usize> = Vec::new();
    match &op.source {
        OpSource::All => {
            let mut i: usize = 0;
            while i < objects.len()
                invariant
                    i <= objects.len(),
                    v@ =~= all_indices(i as nat),
                decreases objects.len() - i,
            {
                v.push(i);
                i += 1;
            }
        },
        OpSource::Layers { layers, .. } => {
            let mut i: usize = 0;
            while i < objects.len()
                invariant
                    i <= objects.len(),
                    v@ == layer_selection(views(layers@), objects@.take(i as int)),
                decreases objects.len() - i,
            {
                assert(objects@.take(i + 1).drop_last() =~= objects@.take(i as int));
                if layer_listed(layers, &objects[i].layer) {
                    v.push(i);
                }
                i += 1;
            }
            assert(objects@.take(objects.len() as int) =~= objects@);
        },
        OpSource::Objects { ids, .. } => {
            let mut k: usize = 0;
            while k < ids.len()
                invariant
                    k <= ids.len(),
                    v@ == id_selection(ids@.take(k as int), objects@.len()),
                decreases ids.len() - k,
            {
                assert(ids@.take(k + 1).drop_last() =~= ids@.take(k as int));
                let id = ids[k];
                if id >= 1 && ((id - 1) as usize) < objects.len() {
                    v.push((id - 1) as usize);
                }
                k += 1;
            }
            assert(ids@.take(ids.len() as int) =~= ids@);
        },
    }
    v
}

/// The combine mode of an op's source; `All` always combines
/// automatically.
pub fn source_combine_mode(op: &Op) -> (c: SourceCombine)
    ensures
        c == match op.source {
            OpSource::All => SourceCombine::Auto,
            OpSource::Layers { combine, .. } => combine,
            OpSource::Objects { combine, .. } => combine,
        },
{
    match &op.source {
        OpSource::All => SourceCombine::Auto,
        OpSource::Layers { combine, .. } => *combine,
        OpSource::Objects { combine, .. } => *combine,
    }
}

/// Whether object `idx` belongs to the op's source.
pub open spec fn includes(op: Op, obj: VcObject, idx: usize) -> bool {
    match op.source {
        OpSource::All => true,
        OpSource::Layers { layers, .. } => on_layers(views(layers@), obj.layer@),
        OpSource::Objects { ids, .. } => ids@.contains(((idx as u32) + 1) as u32),
    }
}

/// Whether `id` occurs in `ids`.
pub fn contains_id(ids: &Vec<u32>, id: u32) -> (b: bool)
    ensures
        b == ids@.contains(id),
{
    let mut i: usize = 0;
    while i < ids.len()
        invariant
            i <= ids.len(),
            forall|j: int| 0 <= j < i ==> ids@[j] != id,
        decreases ids.len() - i,
    {
        if ids[i] == id {
            return true;
        }
        i += 1;
    }
    false
}

/// Whether object `obj` at index `idx` belongs to the op's source
/// (`Objects` ids are 1-based).
pub fn op_includes_object(op: &Op, obj: &VcObject, idx: usize) -> (b: bool)
    requires
        (idx as u32) < u32::MAX,
    ensures
        b == includes(*op, *obj, idx),
{
    match &op.source {
        OpSource::All => true,
        OpSource::Layers { layers, .. } => layer_listed(layers, &obj.layer),
        OpSource::Objects { ids, .. } => {
            let chain_id: u32 = (idx as u32) + 1;
            contains_id(ids, chain_id)
        },
    }
}

/// Whether 1-based `id` names none of `n` objects.
pub open spec fn id_missing(id: u32, n: nat) -> bool {
    id == 0 || id - 1 >= n
}

/// The number of `ids` that name one of `n` objects.
pub open spec fn present_count(ids: Seq<u32>, n: nat) -> nat
    decreases ids.len(),
{
    if ids.len() == 0 {
        0
    } else {
        present_count(ids.drop_last(), n) + if id_missing(ids.last(), n) { 0nat } else { 1nat }
    }
}

/// The warning for a source id that names no object.
pub open spec fn missing_object_warning(op_id: u32, name: Seq<char>, id: u32) -> WarningView {
    WarningView {
        op_id: Some(op_id),
        kind: "op_source_missing_object"@,
        message: "op '"@ + name + "': source references object id "@ + dec(id as nat)
            + " which is not in the current chained-object set (deleted or replaced by pattern/frame expansion). The id is silently dropped from this op's selection."@,
    }
}

/// The warning for a source whose every id names no object.
pub open spec fn empty_source_warning(op_id: u32, name: Seq<char>, count: nat) -> WarningView {
    WarningView {
        op_id: Some(op_id),
        kind: "op_source_empty"@,
        message: "op '"@ + name + "': every object id in the source ("@ + dec(count)
            + " entries) is missing from the current chained-object set — the op will produce no toolpath. Re-pick the source or remove the op."@,
    }
}

/// One missing-object warning per id that names none of `n` objects, in
/// id order.
pub open spec fn missing_warnings(op_id: u32, name: Seq<char>, ids: Seq<u32>, n: nat) -> Seq<WarningView>
    decreases ids.len(),
{
    if ids.len() == 0 {
        Seq::empty()
    } else {
        let rest = missing_warnings(op_id, name, ids.drop_last(), n);
        if id_missing(ids.last(), n) {
            rest.push(missing_object_warning(op_id, name, ids.last()))
        } else {
            rest
        }
    }
}

/// The warnings an `Objects` source with `ids` raises against `n`
/// objects: one per missing id, then one more when every id is missing.
pub open spec fn source_warnings(op: Op, n: nat) -> Seq<WarningView> {
    match op.source {
        OpSource::Objects { ids, .. } => {
            let ws = missing_warnings(op.id, op.name@, ids@, n);
            if present_count(ids@, n) == 0 && ids@.len() > 0 {
                ws.push(empty_source_warning(op.id, op.name@, ids@.len()))
            } else {
                ws
            }
        },
        _ => Seq::empty(),
    }
}

/// Flags `Objects` source ids that name no current object
/// (`op_source_missing_object`, one per id, in id order) and a source
/// whose every id is missing (`op_source_empty`). Other sources raise
/// nothing.
pub fn validate_op_source_objects(op: &Op, objects: &Vec<VcObject>, warnings: &mut Vec<PipelineWarning>)
    ensures
        wviews(final(warnings)@) == wviews(old(warnings)@) + source_warnings(*op, objects@.len()),
{
    let ids = match &op.source {
        OpSource::Objects { ids, .. } => ids,
        _ => {
            assert(wviews(warnings@) =~= wviews(old(warnings)@) + Seq::<WarningView>::empty());
            return;
        },
    };
    let n = objects.len();
    let mut survivors: usize = 0;
    let mut k: usize = 0;
    while k < ids.len()
        invariant
            k <= ids.len(),
            n == objects@.len(),
            survivors == present_count(ids@.take(k as int), n as nat),
            survivors <= k,
            wviews(warnings@) == wviews(old(warnings)@) + missing_warnings(op.id, op.name@, ids@.take(k as int), n as nat),
        decreases ids.len() - k,
    {
        assert(ids@.take(k + 1).drop_last() =~= ids@.take(k as int));
        let id = ids[k];
        if id == 0 || (id - 1) as usize >= n {
            let mut m = String::from_str("op '");
            m.append(op.name.as_str());
            m.append("': source references object id ");
            push_u64(&mut m, id as u64);
            m.append(" which is not in the current chained-object set (deleted or replaced by pattern/frame expansion). The id is silently dropped from this op's selection.");
            let w = warning(Some(op.id), "op_source_missing_object", m);
            let ghost before = wviews(warnings@);
            push_warning(warnings, w);
            assert(wviews(warnings@) =~= wviews(old(warnings)@) + missing_warnings(op.id, op.name@, ids@.take(k + 1), n as nat));
        } else {
            survivors += 1;
        }
        k += 1;
    }
    assert(ids@.take(ids.len() as int) =~= ids@);
    if survivors == 0 && ids.len() > 0 {
        let mut m = String::from_str("op '");
        m.append(op.name.as_str());
        m.append("': every object id in the source (");
        push_u64(&mut m, ids.len() as u64);
        m.append(" entries) is missing from the current chained-object set — the op will produce no toolpath. Re-pick the source or remove the op.");
        let w = warning(Some(op.id), "op_source_empty", m);
        push_warning(warnings, w);
    }
}

/// The layer selection holds exactly the objects on a listed layer.
proof fn lemma_layer_selection_members(layers: Seq<Seq<char>>, objs: Seq<VcObject>)
    requires
        objs.len() <= usize::MAX,
    ensures
        forall|k: int| 0 <= k < layer_selection(layers, objs).len() ==> (#[trigger] layer_selection(layers, objs)[k]) < objs.len(),
        forall|i: int| 0 <= i < objs.len() ==> (layer_selection(layers, objs).contains(i as usize) <==> on_layers(layers, (#[trigger] objs[i]).layer@)),
    decreases objs.len(),
{
    if objs.len() > 0 {
        let pre = objs.drop_last();
        lemma_layer_selection_members(layers, pre);
        let rest = layer_selection(layers, pre);
        let last = (objs.len() - 1) as usize;
        assert forall|i: int| 0 <= i < objs.len() implies (layer_selection(layers, objs).contains(i as usize) <==> on_layers(layers, (#[trigger] objs[i]).layer@)) by {
            let sel = layer_selection(layers, objs);
            if i < objs.len() - 1 {
                assert(objs[i] == pre[i]);
                assert(rest.contains(i as usize) <==> on_layers(layers, pre[i].layer@));
                if sel.contains(i as usize) {
                    let k = choose|k: int| 0 <= k < sel.len() && sel[k] == i as usize;
                    if k < rest.len() {
                        if on_layers(layers, objs.last().layer@) {
                            assert(sel[k] == rest[k]);
                        }
                        assert(rest.contains(i as usize));
                    } else {
                        assert(sel[k] == last);
                    }
                }
                if rest.contains(i as usize) {
                    let k = choose|k: int| 0 <= k < rest.len() && rest[k] == i as usize;
                    if on_layers(layers, objs.last().layer@) {
                        assert(sel[k] == i as usize);
                    }
                    assert(sel.contains(i as usize));
                }
            } else {
                if on_layers(layers, objs.last().layer@) {
                    assert(rest.push(last)[rest.len() as int] == last);
                }
                if rest.contains(i as usize) {
                    let k = choose|k: int| 0 <= k < rest.len() && rest[k] == i as usize;
                    assert(rest[k] < pre.len());
                }
            }
        }
    }
}

/// The id selection holds exactly the indices whose 1-based id is listed.
proof fn lemma_id_selection_members(ids: Seq<u32>, n: nat)
    requires
        n <= u32::MAX,
    ensures
        forall|k: int| 0 <= k < id_selection(ids, n).len() ==> (#[trigger] id_selection(ids, n)[k]) < n,
        forall|i: int| 0 <= i < n ==> (#[trigger] id_selection(ids, n).contains(i as usize) <==> ids.contains((i + 1) as u32)),
    decreases ids.len(),
{
    if ids.len() > 0 {
        let pre = ids.drop_last();
        lemma_id_selection_members(pre, n);
        let rest = id_selection(pre, n);
        let id = ids.last();
        assert forall|i: int| 0 <= i < n implies (#[trigger] id_selection(ids, n).contains(i as usize) <==> ids.contains((i + 1) as u32)) by {
            let sel = id_selection(ids, n);
            if sel.contains(i as usize) {
                let k = choose|k: int| 0 <= k < sel.len() && sel[k] == i as usize;
                if k < rest.len() {
                    assert(rest.contains(i as usize));
                    let j = choose|j: int| 0 <= j < pre.len() && pre[j] == (i + 1) as u32;
                    assert(ids[j] == (i + 1) as u32);
                } else {
                    assert(ids[ids.len() - 1] == (i + 1) as u32);
                }
            }
            if ids.contains((i + 1) as u32) {
                let j = choose|j: int| 0 <= j < ids.len() && ids[j] == (i + 1) as u32;
                if j < ids.len() - 1 {
                    assert(pre[j] == (i + 1) as u32);
                    assert(rest.contains(i as usize));
                    let k = choose|k: int| 0 <= k < rest.len() && rest[k] == i as usize;
                    if 1 <= id && id - 1 < n {
                        assert(rest.push((id - 1) as usize)[k] == i as usize);
                    }
                } else {
                    assert(sel[sel.len() - 1] == i as usize);
                }
            }
        }
    }
}

/// The ordered selection and the per-object membership test agree: an
/// object index is selected exactly when the op's source includes that
/// object, and every selected index names an existing object.
pub proof fn lemma_selection_matches_membership(op: Op, objects: Seq<VcObject>)
    requires
        objects.len() <= u32::MAX,
    ensures
        forall|k: int| 0 <= k < selection(op, objects).len() ==> (#[trigger] selection(op, objects)[k]) < objects.len(),
        forall|i: int| 0 <= i < objects.len() ==> (selection(op, objects).contains(i as usize) <==> includes(op, #[trigger] objects[i], i as usize)),
{
    match op.source {
        OpSource::All => {
            assert forall|i: int| 0 <= i < objects.len() implies (selection(op, objects).contains(i as usize) <==> includes(op, #[trigger] objects[i], i as usize)) by {
                assert(all_indices(objects.len())[i] == i as usize);
            }
        },
        OpSource::Layers { layers, .. } => {
            lemma_layer_selection_members(views(layers@), objects);
        },
        OpSource::Objects { ids, .. } => {
            lemma_id_selection_members(ids@, objects.len());
            assert forall|i: int| 0 <= i < objects.len() implies (selection(op, objects).contains(i as usize) <==> includes(op, #[trigger] objects[i], i as usize)) by {
                assert(id_selection(ids@, objects.len()).contains(i as usize) <==> ids@.contains((i + 1) as u32));
                assert(((i as usize as u32) + 1) as u32 == (i + 1) as u32);
            }
        },
    }
}

/// The segments of `all` on one of `layers`, in order.
pub open spec fn layer_segments(layers: Seq<Seq<char>>, all: Seq<Segment>) -> Seq<Segment>
    decreases all.len(),
{
    if all.len() == 0 {
        Seq::empty()
    } else {
        let rest = layer_segments(layers, all.drop_last());
        if on_layers(layers, all.last().layer@) { rest.push(all.last()) } else { rest }
    }
}

/// The object a source id points at: ids are 1-based, and id 0 counts as
/// the first object (the index is `id - 1`, saturating).
pub open spec fn id_object_index(id: u32) -> int {
    if id == 0 { 0 } else { id - 1 }
}

/// The segments of the objects `ids` point at, in id order; ids past the
/// last object contribute nothing.
pub open spec fn id_segments(ids: Seq<u32>, objects: Seq<VcObject>) -> Seq<Segment>
    decreases ids.len(),
{
    if ids.len() == 0 {
        Seq::empty()
    } else {
        let k = id_object_index(ids.last());
        id_segments(ids.drop_last(), objects) + if k < objects.len() { objects[k].segments@ } else { Seq::empty() }
    }
}

/// The segments an op consumes: every segment for `All`, the segments on
/// a listed layer for `Layers`, and the segments of each id's object for
/// `Objects`.
pub open spec fn op_segments(op: Op, all: Seq<Segment>, objects: Seq<VcObject>) -> Seq<Segment> {
    match op.source {
        OpSource::All => all,
        OpSource::Layers { layers, .. } => layer_segments(views(layers@), all),
        OpSource::Objects { ids, .. } => id_segments(ids@, objects),
    }
}

/// A copy of `s`.
fn copy_segment(s: &Segment) -> (r: Segment)
    ensures
        r == *s,
{
    Segment { kind: s.kind, start: s.start, end: s.end, layer: s.layer.clone(), color: s.color }
}

/// Appends copies of `src` to `out`.
fn append_segments(out: &mut Vec<Segment>, src: &Vec<Segment>)
    ensures
        final(out)@ == old(out)@ + src@,
{
    let mut i: usize = 0;
    while i < src.len()
        invariant
            i <= src.len(),
            out@ == old(out)@ + src@.take(i as int),
        decreases src.len() - i,
    {
        out.push(copy_segment(&src[i]));
        assert(src@.take(i + 1) =~= src@.take(i as int).push(src@[i as int]));
        assert(old(out)@ + src@.take(i + 1) =~= (old(out)@ + src@.take(i as int)).push(src@[i as int]));
        i += 1;
    }
    assert(src@.take(src.len() as int) =~= src@);
}

/// The segments an op consumes, for hashing into its cache key: all of
/// them, those on a listed layer, or those of each selected object in id
/// order (ids past the current objects are skipped silently).
pub fn resolve_op_segments(op: &Op, all: &Vec<Segment>, objects: &Vec<VcObject>) -> (r: Vec<Segment>)
    ensures
        r@ == op_segments(*op, all@, objects@),
{
    let mut out: Vec<Segment> = Vec::new();
    match &op.source {
        OpSource::All => {
            append_segments(&mut out, all);
            assert(out@ =~= all@);
        },
        OpSource::Layers { layers, .. } => {
            let mut i: usize = 0;
            while i < all.len()
                invariant
                    i <= all.len(),
                    out@ == layer_segments(views(layers@), all@.take(i as int)),
                decreases all.len() - i,
            {
                assert(all@.take(i + 1).drop_last() =~= all@.take(i as int));
                if layer_listed(layers, &all[i].layer) {
                    out.push(copy_segment(&all[i]));
                }
                i += 1;
            }
            assert(all@.take(all.len() as int) =~= all@);
        },
        OpSource::Objects { ids, .. } => {
            let mut k: usize = 0;
            while k < ids.len()
                invariant
                    k <= ids.len(),
                    out@ == id_segments(ids@.take(k as int), objects@),
                decreases ids.len() - k,
            {
                assert(ids@.take(k + 1).drop_last() =~= ids@.take(k as int));
                let id = ids[k];
                let idx: usize = if id == 0 { 0 } else { (id - 1) as usize };
                let ghost before = out@;
                if idx < objects.len() {
                    append_segments(&mut out, &objects[idx].segments);
                } else {
                    assert(before + Seq::<Segment>::empty() =~= before);
                }
                k += 1;
            }
            assert(ids@.take(ids.len() as int) =~= ids@);
        },
    }
    out
}

/// The objects a helix-radius preview considers: every object when no
/// ids are given, otherwise each 1-based id that names an object, in id
/// order.
pub open spec fn helix_selection(ids: Seq<u32>, n: nat) -> Seq<usize> {
    if ids.len() == 0 {
        all_indices(n)
    } else {
        id_selection(ids, n)
    }
}

/// The object indices a helix-radius preview works on.
pub fn helix_candidates(object_ids: &Vec<u32>, n: usize) -> (v: Vec<usize>)
    ensures
        v@ == helix_selection(object_ids@, n as nat),
{
    let mut v: Vec<usize> = Vec::new();
    if object_ids.len() == 0 {
        let mut i: usize = 0;
        while i < n
            invariant
                i <= n,
                v@ =~= all_indices(i as nat),
            decreases n - i,
        {
            v.push(i);
            i += 1;
        }
        return v;
    }
    let mut k: usize = 0;
    while k < object_ids.len()
        invariant
            k <= object_ids.len(),
            v@ == id_selection(object_ids@.take(k as int), n as nat),
        decreases object_ids.len() - k,
    {
        assert(object_ids@.take(k + 1).drop_last() =~= object_ids@.take(k as int));
        let id = object_ids[k];
        if id >= 1 && ((id - 1) as usize) < n {
            v.push((id - 1) as usize);
        }
        k += 1;
    }
    assert(object_ids@.take(object_ids.len() as int) =~= object_ids@);
    v
}

} // verus!
