//! Planning diagnostics: suspicious op orderings, a work origin outside the
//! drawing, trochoidal-pocket overrides, tool / op kind mismatches, tools
//! too large for their geometry, and ramp plunges over arcs.

use vstd::prelude::*;
use crate::cam::{PlungeKind, Setup, ToolOffset};
use crate::geometry::{BBox, SegmentKind, segments_box};
use crate::pipeline::{PipelineWarning, WarningView, push_warning, warning, wviews};
use crate::project::{Op, OpKind, OpSource, PocketStrategy, Project, ToolEntry, ToolKind, find_tool, tool_index, lemma_tool_index};
use crate::selection::{VcObject, contains_id, includes, layer_listed, op_includes_object};
use crate::strs::{mm2, mm2_signed, mm_plain, push_mm2, push_mm2_signed, push_mm_plain, views};

verus! {

/// Whether some element of `a` occurs in `b`.
pub open spec fn overlap<T>(a: Seq<T>, b: Seq<T>) -> bool {
    exists|i: int| 0 <= i < a.len() && b.contains(#[trigger] a[i])
}

/// Whether two ops draw on overlapping sources: either is `All`, two layer
/// lists share a name, two id lists share an id; a layer list against an
/// id list counts as overlapping.
pub open spec fn share_source(a: Op, b: Op) -> bool {
    match a.source {
        OpSource::All => true,
        OpSource::Layers { layers: la, .. } => match b.source {
            OpSource::Layers { layers: lb, .. } => overlap(views(la@), views(lb@)),
            _ => true,
        },
        OpSource::Objects { ids: ia, .. } => match b.source {
            OpSource::Objects { ids: ib, .. } => overlap(ia@, ib@),
            _ => true,
        },
    }
}

/// Whether two ops draw on overlapping sources.
#[verifier::loop_isolation(false)]
pub fn ops_share_source(a: &Op, b: &Op) -> (r: bool)
    ensures
        r == share_source(*a, *b),
{
    match &a.source {
        OpSource::All => true,
        OpSource::Layers { layers: la, .. } => match &b.source {
            OpSource::Layers { layers: lb, .. } => {
                let mut i: usize = 0;
                while i < la.len()
                    invariant
                        i <= la.len(),
                        forall|k: int| 0 <= k < i ==> !views(lb@).contains(#[trigger] views(la@)[k]),
                    decreases la.len() - i,
                {
                    if layer_listed(lb, &la[i]) {
                        assert(views(lb@).contains(views(la@)[i as int]));
                        return true;
                    }
                    i += 1;
                }
                false
            },
            _ => true,
        },
        OpSource::Objects { ids: ia, .. } => match &b.source {
            OpSource::Objects { ids: ib, .. } => {
                let mut i: usize = 0;
                while i < ia.len()
                    invariant
                        i <= ia.len(),
                        forall|k: int| 0 <= k < i ==> !ib@.contains(#[trigger] ia@[k]),
                    decreases ia.len() - i,
                {
                    if contains_id(ib, ia[i]) {
                        assert(ib@.contains(ia@[i as int]));
                        return true;
                    }
                    i += 1;
                }
                false
            },
            _ => true,
        },
    }
}

/// Whether an op cuts the part free: a profile that cuts through or runs
/// outside / inside the contour.
pub open spec fn cuts_part_free(op: Op) -> bool {
    match op.kind {
        OpKind::Profile { offset } => op.params.through_depth_nm > 0 || offset == ToolOffset::Outside
            || offset == ToolOffset::Inside,
        _ => false,
    }
}

/// Contour-style ops (whose tool sizes follow rough-then-finish).
pub open spec fn contour_kind(k: OpKind) -> bool {
    k is Profile || k is Pocket || k is Engrave
}

/// Indices of the enabled ops, in op order.
pub open spec fn enabled_indices(ops: Seq<Op>) -> Seq<usize>
    decreases ops.len(),
{
    if ops.len() == 0 {
        Seq::empty()
    } else if ops.last().enabled {
        enabled_indices(ops.drop_last()).push((ops.len() - 1) as usize)
    } else {
        enabled_indices(ops.drop_last())
    }
}

pub proof fn lemma_enabled_indices(ops: Seq<Op>)
    ensures
        forall|k: int| 0 <= k < enabled_indices(ops).len() ==> enabled_indices(ops)[k] < ops.len(),
    decreases ops.len(),
{
    if ops.len() > 0 {
        lemma_enabled_indices(ops.drop_last());
        let r = enabled_indices(ops.drop_last());
        assert(forall|k: int| 0 <= k < r.len() ==> r[k] < ops.len());
        if ops.last().enabled {
            assert(enabled_indices(ops) == r.push((ops.len() - 1) as usize));
        }
    }
}

/// The drill-after-profile warning for ops `a` (earlier) and `b`.
pub open spec fn drill_after_profile(a: Op, b: Op) -> Seq<WarningView> {
    if cuts_part_free(a) && share_source(a, b) && b.kind is Drill {
        seq![WarningView {
            op_id: Some(b.id),
            kind: "op_order_suspect"@,
            message: "Operation '"@ + b.name@ + "' (drill_after_profile) runs AFTER profile op '"@ + a.name@
                + "' which cuts the part free. Drilling acts on a loose / flown piece. Reorder so the drill precedes the part-freeing profile."@,
        }]
    } else {
        Seq::empty()
    }
}

/// The finish-before-rough warning for ops `a` (earlier) and `b`: both
/// contour-style, on a shared source, with existing tools, the first one
/// smaller.
pub open spec fn finish_before_rough(a: Op, b: Op, tools: Seq<ToolEntry>) -> Seq<WarningView> {
    match (tool_index(tools, a.tool_id), tool_index(tools, b.tool_id)) {
        (Some(ia), Some(ib)) => if share_source(a, b) && contour_kind(a.kind) && contour_kind(b.kind)
            && tools[ia].diameter_nm < tools[ib].diameter_nm {
            seq![WarningView {
                op_id: Some(a.id),
                kind: "op_order_suspect"@,
                message: "Operation '"@ + a.name@ + "' (tool dia "@ + mm2(tools[ia].diameter_nm as nat) + ") runs BEFORE '"@
                    + b.name@ + "' (tool dia "@ + mm2(tools[ib].diameter_nm as nat)
                    + ") on the same source — likely a finish-before-rough order. Move the larger tool first so the finish pass has clearance."@,
            }]
        } else {
            Seq::empty()
        },
        _ => Seq::empty(),
    }
}

/// Pair warnings of op `en[i]` against `en[i+1..j]`, in order.
pub open spec fn pair_run(ops: Seq<Op>, tools: Seq<ToolEntry>, en: Seq<usize>, i: int, j: int, second: bool) -> Seq<WarningView>
    decreases j - i,
{
    if j <= i + 1 {
        Seq::empty()
    } else {
        let a = ops[en[i] as int];
        let b = ops[en[j - 1] as int];
        pair_run(ops, tools, en, i, j - 1, second) + if second {
            finish_before_rough(a, b, tools)
        } else {
            drill_after_profile(a, b)
        }
    }
}

/// Pair warnings of every op `en[..k]` against its successors.
pub open spec fn pairs_upto(ops: Seq<Op>, tools: Seq<ToolEntry>, en: Seq<usize>, k: int, second: bool) -> Seq<WarningView>
    decreases k,
{
    if k <= 0 {
        Seq::empty()
    } else {
        pairs_upto(ops, tools, en, k - 1, second) + pair_run(ops, tools, en, k - 1, en.len() as int, second)
    }
}

/// The op-order warnings of a project: every drill that runs after a
/// part-freeing profile on a shared source, then every contour op that
/// runs before a larger-tool contour op on a shared source. Nothing when
/// fewer than two ops are enabled.
pub open spec fn order_warnings(p: Project) -> Seq<WarningView> {
    let en = enabled_indices(p.operations@);
    if en.len() < 2 {
        Seq::empty()
    } else {
        pairs_upto(p.operations@, p.tools@, en, en.len() as int, false)
            + pairs_upto(p.operations@, p.tools@, en, en.len() as int, true)
    }
}

fn enabled_op_indices(ops: &Vec<Op>) -> (v: Vec<usize>)
    ensures
        v@ == enabled_indices(ops@),
        forall|k: int| 0 <= k < v@.len() ==> v@[k] < ops@.len(),
{
    let mut v: Vec<usize> = Vec::new();
    let mut i: usize = 0;
    while i < ops.len()
        invariant
            i <= ops.len(),
            v@ == enabled_indices(ops@.take(i as int)),
        decreases ops.len() - i,
    {
        assert(ops@.take(i + 1).drop_last() =~= ops@.take(i as int));
        if ops[i].enabled {
            v.push(i);
        }
        i += 1;
    }
    assert(ops@.take(ops.len() as int) =~= ops@);
    proof {
        lemma_enabled_indices(ops@);
    }
    v
}

fn push_drill_after_profile(a: &Op, b: &Op, warnings: &mut Vec<PipelineWarning>)
    ensures
        wviews(final(warnings)@) == wviews(old(warnings)@) + drill_after_profile(*a, *b),
{
    let free = match &a.kind {
        OpKind::Profile { offset } => a.params.through_depth_nm > 0 || matches!(offset, ToolOffset::Outside)
            || matches!(offset, ToolOffset::Inside),
        _ => false,
    };
    if free && ops_share_source(a, b) && matches!(b.kind, OpKind::Drill) {
        let mut m = String::from_str("Operation '");
        m.append(b.name.as_str());
        m.append("' (drill_after_profile) runs AFTER profile op '");
        m.append(a.name.as_str());
        m.append("' which cuts the part free. Drilling acts on a loose / flown piece. Reorder so the drill precedes the part-freeing profile.");
        push_warning(warnings, warning(Some(b.id), "op_order_suspect", m));
        assert(wviews(warnings@) =~= wviews(old(warnings)@) + drill_after_profile(*a, *b));
    } else {
        assert(wviews(warnings@) =~= wviews(old(warnings)@) + drill_after_profile(*a, *b));
    }
}

fn push_finish_before_rough(a: &Op, b: &Op, tools: &Vec<ToolEntry>, warnings: &mut Vec<PipelineWarning>)
    ensures
        wviews(final(warnings)@) == wviews(old(warnings)@) + finish_before_rough(*a, *b, tools@),
{
    proof {
        lemma_tool_index(tools@, a.tool_id);
        lemma_tool_index(tools@, b.tool_id);
    }
    if ops_share_source(a, b) {
        if let (Some(ta), Some(tb)) = (find_tool(tools, a.tool_id), find_tool(tools, b.tool_id)) {
            let ca = matches!(a.kind, OpKind::Profile { .. }) || matches!(a.kind, OpKind::Pocket { .. })
                || matches!(a.kind, OpKind::Engrave);
            let cb = matches!(b.kind, OpKind::Profile { .. }) || matches!(b.kind, OpKind::Pocket { .. })
                || matches!(b.kind, OpKind::Engrave);
            if ca && cb && ta.diameter_nm < tb.diameter_nm {
                let mut m = String::from_str("Operation '");
                m.append(a.name.as_str());
                m.append("' (tool dia ");
                push_mm2(&mut m, ta.diameter_nm);
                m.append(") runs BEFORE '");
                m.append(b.name.as_str());
                m.append("' (tool dia ");
                push_mm2(&mut m, tb.diameter_nm);
                m.append(") on the same source — likely a finish-before-rough order. Move the larger tool first so the finish pass has clearance.");
                push_warning(warnings, warning(Some(a.id), "op_order_suspect", m));
                assert(wviews(warnings@) =~= wviews(old(warnings)@) + finish_before_rough(*a, *b, tools@));
                return;
            }
        }
    }
    assert(wviews(warnings@) =~= wviews(old(warnings)@) + finish_before_rough(*a, *b, tools@));
}

fn push_pairs(project: &Project, en: &Vec<usize>, second: bool, warnings: &mut Vec<PipelineWarning>)
    requires
        forall|k: int| 0 <= k < en@.len() ==> en@[k] < project.operations@.len(),
    ensures
        wviews(final(warnings)@) == wviews(old(warnings)@) + pairs_upto(
            project.operations@,
            project.tools@,
            en@,
            en@.len() as int,
            second,
        ),
{
    let ops = &project.operations;
    let mut i: usize = 0;
    while i < en.len()
        invariant
            i <= en.len(),
            ops == &project.operations,
            forall|k: int| 0 <= k < en@.len() ==> en@[k] < project.operations@.len(),
            wviews(warnings@) == wviews(old(warnings)@) + pairs_upto(ops@, project.tools@, en@, i as int, second),
        decreases en.len() - i,
    {
        let ghost before = wviews(warnings@);
        let mut j: usize = i + 1;
        while j < en.len()
            invariant
                i < en.len(),
                i + 1 <= j <= en.len(),
                ops == &project.operations,
                forall|k: int| 0 <= k < en@.len() ==> en@[k] < project.operations@.len(),
                wviews(warnings@) == before + pair_run(ops@, project.tools@, en@, i as int, j as int, second),
            decreases en.len() - j,
        {
            let a = &ops[en[i]];
            let b = &ops[en[j]];
            let ghost mid = wviews(warnings@);
            if second {
                push_finish_before_rough(a, b, &project.tools, warnings);
            } else {
                push_drill_after_profile(a, b, warnings);
            }
            assert(wviews(warnings@) =~= before + pair_run(ops@, project.tools@, en@, i as int, j + 1, second));
            j += 1;
        }
        assert(wviews(warnings@) =~= wviews(old(warnings)@) + pairs_upto(ops@, project.tools@, en@, i + 1, second));
        i += 1;
    }
}

/// Flags suspicious op orders among the enabled ops: a drill running after
/// a profile that cuts the part free on a shared source (warned on the
/// drill), and a contour op running before a contour op with a larger
/// tool on a shared source (warned on the first op).
pub fn push_op_order_warnings(project: &Project, warnings: &mut Vec<PipelineWarning>)
    ensures
        wviews(final(warnings)@) == wviews(old(warnings)@) + order_warnings(*project),
{
    let en = enabled_op_indices(&project.operations);
    if en.len() < 2 {
        assert(wviews(warnings@) =~= wviews(old(warnings)@) + order_warnings(*project));
        return;
    }
    push_pairs(project, &en, false, warnings);
    push_pairs(project, &en, true, warnings);
    assert(wviews(warnings@) =~= wviews(old(warnings)@) + order_warnings(*project));
}

} // verus!

verus! {

/// Slack around the drawing's box within which the work origin still
/// counts as inside (1 µm).
pub const ORIGIN_SLACK_NM: i64 = 1_000;

/// Whether the work origin lies within the box grown by the slack.
pub open spec fn origin_inside(b: BBox, gx: i64, gy: i64) -> bool {
    b.min_x - ORIGIN_SLACK_NM <= gx <= b.max_x + ORIGIN_SLACK_NM && b.min_y - ORIGIN_SLACK_NM <= gy
        <= b.max_y + ORIGIN_SLACK_NM
}

/// The work-origin warning for drawing box `b` and origin `(gx, gy)`.
pub open spec fn origin_warning(b: BBox, gx: i64, gy: i64) -> WarningView {
    WarningView {
        op_id: None,
        kind: "stock_origin_outside_geometry_bbox"@,
        message: "Geometry bbox ("@ + mm2_signed(b.min_x as int) + ", "@ + mm2_signed(b.min_y as int) + ") → ("@
            + mm2_signed(b.max_x as int) + ", "@ + mm2_signed(b.max_y as int)
            + ") does NOT contain the WCS origin ("@ + mm2_signed(gx as int) + ", "@ + mm2_signed(gy as int)
            + ") in geometry coordinates. The simulator aligns its heightmap to the geometry footprint while the controller cuts at the WCS / G54 origin — if you zeroed the machine somewhere else (e.g. a stock corner) the cuts will land in the wrong place. Translate the geometry, or set Project.work_offset so the WCS origin matches the spot you zeroed against."@,
    }
}

/// The work-origin warnings of a project: one project-wide warning when
/// the drawing is non-empty and its box (with slack) misses the origin.
pub open spec fn origin_warnings(p: Project, b: BBox) -> Seq<WarningView> {
    if p.segments@.len() > 0 && !origin_inside(b, p.work_offset.x_nm, p.work_offset.y_nm) {
        seq![origin_warning(b, p.work_offset.x_nm, p.work_offset.y_nm)]
    } else {
        Seq::empty()
    }
}

/// Warns (project-wide) when the work-coordinate origin, expressed in the
/// drawing's frame, lies outside the drawing's bounding box grown by a
/// 1 µm slack; a project without geometry raises nothing.
pub fn push_wcs_origin_warning(project: &Project, warnings: &mut Vec<PipelineWarning>)
    ensures
        wviews(final(warnings)@) == wviews(old(warnings)@) + origin_warnings(
            *project,
            segments_box(project.segments@),
        ),
        ({
            let b = segments_box(project.segments@);
            let (x, y) = (project.work_offset.x_nm, project.work_offset.y_nm);
            let inside = b.min_x - 1_000 <= x <= b.max_x + 1_000 && b.min_y - 1_000 <= y <= b.max_y + 1_000;
            &&& project.segments@.len() == 0 || inside ==> wviews(final(warnings)@) == wviews(old(warnings)@)
            &&& project.segments@.len() > 0 && !inside ==> wviews(final(warnings)@).len() == wviews(old(warnings)@).len() + 1
                && wviews(final(warnings)@).last().kind == "stock_origin_outside_geometry_bbox"@
                && wviews(final(warnings)@).last().op_id is None
        }),
{
    if project.segments.len() == 0 {
        assert(wviews(warnings@) =~= wviews(old(warnings)@) + Seq::<WarningView>::empty());
        return;
    }
    let b = BBox::from_segments(&project.segments);
    let gx = project.work_offset.x_nm;
    let gy = project.work_offset.y_nm;
    let inside = b.min_x as i128 - ORIGIN_SLACK_NM as i128 <= gx as i128 && gx as i128 <= b.max_x as i128
        + ORIGIN_SLACK_NM as i128 && b.min_y as i128 - ORIGIN_SLACK_NM as i128 <= gy as i128 && gy as i128
        <= b.max_y as i128 + ORIGIN_SLACK_NM as i128;
    if !inside {
        let mut m = String::from_str("Geometry bbox (");
        push_mm2_signed(&mut m, b.min_x);
        m.append(", ");
        push_mm2_signed(&mut m, b.min_y);
        m.append(") → (");
        push_mm2_signed(&mut m, b.max_x);
        m.append(", ");
        push_mm2_signed(&mut m, b.max_y);
        m.append(") does NOT contain the WCS origin (");
        push_mm2_signed(&mut m, gx);
        m.append(", ");
        push_mm2_signed(&mut m, gy);
        m.append(") in geometry coordinates. The simulator aligns its heightmap to the geometry footprint while the controller cuts at the WCS / G54 origin — if you zeroed the machine somewhere else (e.g. a stock corner) the cuts will land in the wrong place. Translate the geometry, or set Project.work_offset so the WCS origin matches the spot you zeroed against.");
        push_warning(warnings, warning(None, "stock_origin_outside_geometry_bbox", m));
    } else {
        assert(wviews(warnings@) =~= wviews(old(warnings)@) + Seq::<WarningView>::empty());
    }
}

/// The trochoidal-pocket warnings of an op: tabs are ignored, and a
/// non-helical plunge is overridden.
pub open spec fn trochoidal_warnings(op: Op) -> Seq<WarningView> {
    if op.kind matches OpKind::Pocket { strategy } && strategy == PocketStrategy::Trochoidal {
        (if op.params.tabs_active {
            seq![WarningView {
                op_id: Some(op.id),
                kind: "tabs_with_trochoidal_unsupported"@,
                message: "op '"@ + op.name@ + "': tabs are not supported on a Trochoidal pocket; ignoring tabs."@,
            }]
        } else {
            Seq::empty()
        }) + (if op.params.plunge != PlungeKind::Helix {
            seq![WarningView {
                op_id: Some(op.id),
                kind: "plunge_overridden"@,
                message: "op '"@ + op.name@ + "': trochoidal pockets require helical descent; overriding plunge to Helix."@,
            }]
        } else {
            Seq::empty()
        })
    } else {
        Seq::empty()
    }
}

/// Warns that a trochoidal pocket ignores tabs and overrides a
/// non-helical plunge; other ops raise nothing.
pub fn push_trochoidal_warnings(op: &Op, warnings: &mut Vec<PipelineWarning>)
    ensures
        wviews(final(warnings)@) == wviews(old(warnings)@) + trochoidal_warnings(*op),
{
    let troch = match &op.kind {
        OpKind::Pocket { strategy } => matches!(strategy, PocketStrategy::Trochoidal),
        _ => false,
    };
    if !troch {
        assert(wviews(warnings@) =~= wviews(old(warnings)@) + trochoidal_warnings(*op));
        return;
    }
    let ghost w0 = wviews(warnings@);
    if op.params.tabs_active {
        let mut m = String::from_str("op '");
        m.append(op.name.as_str());
        m.append("': tabs are not supported on a Trochoidal pocket; ignoring tabs.");
        push_warning(warnings, warning(Some(op.id), "tabs_with_trochoidal_unsupported", m));
    }
    let ghost w1 = wviews(warnings@);
    if !matches!(op.params.plunge, PlungeKind::Helix) {
        let mut m = String::from_str("op '");
        m.append(op.name.as_str());
        m.append("': trochoidal pockets require helical descent; overriding plunge to Helix.");
        push_warning(warnings, warning(Some(op.id), "plunge_overridden", m));
    }
    assert(wviews(warnings@) =~= wviews(old(warnings)@) + trochoidal_warnings(*op));
}

/// The op / tool kind mismatch message, if the pair does not fit.
pub open spec fn kind_mismatch(k: OpKind, t: ToolKind) -> Option<Seq<char>> {
    match k {
        OpKind::Pocket { .. } => match t {
            ToolKind::Drill => Some("pocket op assigned a drill bit"@),
            ToolKind::DragKnife => Some("pocket op assigned a drag knife (cut path won't carve area)"@),
            _ => None,
        },
        OpKind::Profile { .. } => match t {
            ToolKind::Drill => Some("profile op assigned a drill bit"@),
            _ => None,
        },
        OpKind::Thread => match t {
            ToolKind::DragKnife => Some("thread op assigned a drag knife (can't cut a helix)"@),
            ToolKind::LaserBeam => Some("thread op assigned a laser beam (no XY-helix cutting)"@),
            ToolKind::Drill => Some("thread op assigned a drill bit (drill cuts axially, not helically)"@),
            _ => None,
        },
        _ => None,
    }
}

fn kind_mismatch_str(k: &OpKind, t: ToolKind) -> (r: Option<&'static str>)
    ensures
        match (r, kind_mismatch(*k, t)) {
            (Some(s), Some(v)) => s@ == v,
            (None, None) => true,
            _ => false,
        },
{
    match k {
        OpKind::Pocket { .. } => match t {
            ToolKind::Drill => Some("pocket op assigned a drill bit"),
            ToolKind::DragKnife => Some("pocket op assigned a drag knife (cut path won't carve area)"),
            _ => None,
        },
        OpKind::Profile { .. } => match t {
            ToolKind::Drill => Some("profile op assigned a drill bit"),
            _ => None,
        },
        OpKind::Thread => match t {
            ToolKind::DragKnife => Some("thread op assigned a drag knife (can't cut a helix)"),
            ToolKind::LaserBeam => Some("thread op assigned a laser beam (no XY-helix cutting)"),
            ToolKind::Drill => Some("thread op assigned a drill bit (drill cuts axially, not helically)"),
            _ => None,
        },
        _ => None,
    }
}

/// The tool sanity warnings of an op whose tool is `t`: a tip at least as
/// wide as the shank, and an op / tool kind mismatch.
pub open spec fn tool_kind_warnings(op: Op, t: ToolEntry) -> Seq<WarningView> {
    (match t.tip_diameter_nm {
        Some(tip) => if tip >= t.diameter_nm {
            seq![WarningView {
                op_id: Some(op.id),
                kind: "tool_geometry_impossible"@,
                message: "tool '"@ + t.name@ + "': tip diameter "@ + mm_plain(tip as nat) + " ≥ shank diameter "@
                    + mm_plain(t.diameter_nm as nat),
            }]
        } else {
            Seq::empty()
        },
        None => Seq::empty(),
    }) + (match kind_mismatch(op.kind, t.kind) {
        Some(msg) => seq![WarningView {
            op_id: Some(op.id),
            kind: "tool_kind_mismatch"@,
            message: msg + " — '"@ + t.name@ + "' on op '"@ + op.name@ + "'. Pick a different tool kind."@,
        }],
        None => Seq::empty(),
    })
}

/// Warns about impossible tool geometry (tip at least as wide as the
/// shank) and tool kinds that do not fit the op; nothing when the op's
/// tool is not in the project.
pub fn push_tool_fit_kind_warnings(op: &Op, project: &Project, warnings: &mut Vec<PipelineWarning>)
    ensures
        wviews(final(warnings)@) == wviews(old(warnings)@) + match tool_index(project.tools@, op.tool_id) {
            Some(i) => tool_kind_warnings(*op, project.tools@[i]),
            None => Seq::empty(),
        },
{
    let tool = match find_tool(&project.tools, op.tool_id) {
        Some(t) => t,
        None => {
            assert(wviews(warnings@) =~= wviews(old(warnings)@) + Seq::<WarningView>::empty());
            return;
        },
    };
    if let Some(tip) = tool.tip_diameter_nm {
        if tip >= tool.diameter_nm {
            let mut m = String::from_str("tool '");
            m.append(tool.name.as_str());
            m.append("': tip diameter ");
            push_mm_plain(&mut m, tip);
            m.append(" ≥ shank diameter ");
            push_mm_plain(&mut m, tool.diameter_nm);
            push_warning(warnings, warning(Some(op.id), "tool_geometry_impossible", m));
        }
    }
    if let Some(msg) = kind_mismatch_str(&op.kind, tool.kind) {
        let mut m = String::from_str(msg);
        m.append(" — '");
        m.append(tool.name.as_str());
        m.append("' on op '");
        m.append(op.name.as_str());
        m.append("'. Pick a different tool kind.");
        push_warning(warnings, warning(Some(op.id), "tool_kind_mismatch", m));
    }
    assert(wviews(warnings@) =~= wviews(old(warnings)@) + tool_kind_warnings(*op, *tool));
}

/// Whether the op's cut relies on an offset cascade (pockets, outside /
/// inside profiles).
pub open spec fn needs_offset(k: OpKind) -> bool {
    match k {
        OpKind::Pocket { .. } => true,
        OpKind::Profile { offset } => offset == ToolOffset::Outside || offset == ToolOffset::Inside,
        _ => false,
    }
}

/// The tool-size warnings after the offset cascade: `levels` holds each
/// emitted offset's pocket level (0 = boundary ring).
pub open spec fn tool_size_warnings(op: Op, diameter_nm: u64, closed_count: usize, levels: Seq<u32>) -> Seq<WarningView> {
    if closed_count == 0 || !needs_offset(op.kind) {
        Seq::empty()
    } else if levels.len() == 0 {
        seq![WarningView {
            op_id: Some(op.id),
            kind: "tool_too_large"@,
            message: "tool diameter "@ + mm2(diameter_nm as nat) + " mm doesn't fit op '"@ + op.name@
                + "' — offset/cascade produced no toolpath. Try a smaller tool."@,
        }]
    } else if op.kind is Pocket && (exists|i: int| 0 <= i < levels.len() && levels[i] == 0) && !(exists|i: int| 0 <= i < levels.len() && levels[i] >= 1) {
        seq![WarningView {
            op_id: Some(op.id),
            kind: "pocket_fill_incomplete"@,
            message: "tool diameter "@ + mm2(diameter_nm as nat) + " mm fits the pocket boundary in op '"@ + op.name@
                + "' but not the interior — only the wall is cut, not the fill. Use a smaller tool to pocket the inside."@,
        }]
    } else {
        Seq::empty()
    }
}

/// A pocket or an outside / inside profile over closed geometry that got
/// no offset at all raises exactly one `tool_too_large` warning for the
/// op; a profile on the line (or uncompensated), any other kind, or no
/// closed geometry raises none.
pub proof fn lemma_tool_too_large(op: Op, diameter_nm: u64, closed_count: usize, levels: Seq<u32>)
    ensures
        closed_count > 0 && levels.len() == 0 && (op.kind is Pocket
            || op.kind == (OpKind::Profile { offset: ToolOffset::Outside })
            || op.kind == (OpKind::Profile { offset: ToolOffset::Inside }))
            ==> tool_size_warnings(op, diameter_nm, closed_count, levels).len() == 1
                && tool_size_warnings(op, diameter_nm, closed_count, levels)[0].kind == "tool_too_large"@
                && tool_size_warnings(op, diameter_nm, closed_count, levels)[0].op_id == Some(op.id),
        closed_count == 0 || op.kind == (OpKind::Profile { offset: ToolOffset::On })
            || op.kind == (OpKind::Profile { offset: ToolOffset::Off })
            || !(op.kind is Pocket || op.kind is Profile)
            ==> tool_size_warnings(op, diameter_nm, closed_count, levels).len() == 0,
{
}

/// After the offset cascade: warns when closed geometry produced no
/// offset for an op that needs one (`tool_too_large`), or when a pocket
/// got its boundary ring but no interior ring (`pocket_fill_incomplete`).
/// `offset_levels` holds each emitted offset's pocket level.
pub fn push_tool_fit_size_warning(op: &Op, setup: &Setup, closed_count: usize, offset_levels: &Vec<u32>, warnings: &mut Vec<PipelineWarning>)
    ensures
        wviews(final(warnings)@) == wviews(old(warnings)@) + tool_size_warnings(
            *op,
            setup.tool.diameter_nm,
            closed_count,
            offset_levels@,
        ),
        closed_count > 0 && offset_levels@.len() == 0 && (op.kind is Pocket
            || op.kind == (OpKind::Profile { offset: ToolOffset::Outside })
            || op.kind == (OpKind::Profile { offset: ToolOffset::Inside }))
            ==> wviews(final(warnings)@).len() == wviews(old(warnings)@).len() + 1
                && wviews(final(warnings)@).last().kind == "tool_too_large"@
                && wviews(final(warnings)@).last().op_id == Some(op.id),
        closed_count == 0 || op.kind == (OpKind::Profile { offset: ToolOffset::On })
            || op.kind == (OpKind::Profile { offset: ToolOffset::Off })
            || !(op.kind is Pocket || op.kind is Profile) ==> wviews(final(warnings)@) == wviews(old(warnings)@),
{
    let needs = match &op.kind {
        OpKind::Pocket { .. } => true,
        OpKind::Profile { offset } => matches!(offset, ToolOffset::Outside) || matches!(offset, ToolOffset::Inside),
        _ => false,
    };
    if closed_count == 0 || !needs {
        assert(wviews(warnings@) =~= wviews(old(warnings)@) + Seq::<WarningView>::empty());
        return;
    }
    if offset_levels.len() == 0 {
        let mut m = String::from_str("tool diameter ");
        push_mm2(&mut m, setup.tool.diameter_nm);
        m.append(" mm doesn't fit op '");
        m.append(op.name.as_str());
        m.append("' — offset/cascade produced no toolpath. Try a smaller tool.");
        push_warning(warnings, warning(Some(op.id), "tool_too_large", m));
        return;
    }
    let mut has_boundary = false;
    let mut has_ring = false;
    let mut i: usize = 0;
    while i < offset_levels.len()
        invariant
            i <= offset_levels.len(),
            has_boundary == (exists|k: int| 0 <= k < i && offset_levels@[k] == 0),
            has_ring == (exists|k: int| 0 <= k < i && offset_levels@[k] >= 1),
        decreases offset_levels.len() - i,
    {
        if offset_levels[i] == 0 {
            has_boundary = true;
        }
        if offset_levels[i] >= 1 {
            has_ring = true;
        }
        i += 1;
    }
    if matches!(op.kind, OpKind::Pocket { .. }) && has_boundary && !has_ring {
        let mut m = String::from_str("tool diameter ");
        push_mm2(&mut m, setup.tool.diameter_nm);
        m.append(" mm fits the pocket boundary in op '");
        m.append(op.name.as_str());
        m.append("' but not the interior — only the wall is cut, not the fill. Use a smaller tool to pocket the inside.");
        push_warning(warnings, warning(Some(op.id), "pocket_fill_incomplete", m));
    } else {
        assert(wviews(warnings@) =~= wviews(old(warnings)@) + Seq::<WarningView>::empty());
    }
}

/// Whether an object has an arc or circle segment.
pub open spec fn has_arc(obj: VcObject) -> bool {
    exists|k: int| 0 <= k < obj.segments@.len() && (obj.segments@[k].kind == SegmentKind::Arc
        || obj.segments@[k].kind == SegmentKind::Circle)
}

/// The ramp-over-arcs warning of an op: a ramp plunge on a source that
/// includes an object with arcs or circles.
pub open spec fn ramp_arc_warnings(op: Op, objects: Seq<VcObject>) -> Seq<WarningView> {
    if op.params.plunge == PlungeKind::Ramp && exists|i: int| 0 <= i < objects.len() && includes(op, objects[i], i as usize)
        && has_arc(objects[i]) {
        seq![WarningView {
            op_id: Some(op.id),
            kind: "ramp_arcs_at_boundary"@,
            message: "op '"@ + op.name@
                + "': ramp plunge with arc / circle source segments. The cutter ramps along line segments correctly but dives straight down at the start of any arc that crosses the ramp boundary — surface finish near arc entries may show a small step. Use Helix plunge or a finer ramp angle for a smoother entry."@,
        }]
    } else {
        Seq::empty()
    }
}

fn object_has_arc(obj: &VcObject) -> (b: bool)
    ensures
        b == has_arc(*obj),
{
    let mut k: usize = 0;
    while k < obj.segments.len()
        invariant
            k <= obj.segments.len(),
            forall|j: int| 0 <= j < k ==> !(obj.segments@[j].kind == SegmentKind::Arc || obj.segments@[j].kind
                == SegmentKind::Circle),
        decreases obj.segments.len() - k,
    {
        if matches!(obj.segments[k].kind, SegmentKind::Arc) || matches!(obj.segments[k].kind, SegmentKind::Circle) {
            return true;
        }
        k += 1;
    }
    false
}

/// Warns that a ramp plunge dives straight down at arcs when the op's
/// source includes an object with arc or circle segments.
pub fn push_ramp_with_arcs_warning(op: &Op, objects: &Vec<VcObject>, warnings: &mut Vec<PipelineWarning>)
    requires
        objects@.len() < u32::MAX,
    ensures
        wviews(final(warnings)@) == wviews(old(warnings)@) + ramp_arc_warnings(*op, objects@),
{
    if !matches!(op.params.plunge, PlungeKind::Ramp) {
        assert(wviews(warnings@) =~= wviews(old(warnings)@) + Seq::<WarningView>::empty());
        return;
    }
    let mut found = false;
    let mut i: usize = 0;
    while i < objects.len()
        invariant
            i <= objects.len(),
            objects@.len() < u32::MAX,
            found == exists|k: int| 0 <= k < i && includes(*op, objects@[k], k as usize) && has_arc(objects@[k]),
        decreases objects.len() - i,
    {
        if op_includes_object(op, &objects[i], i) && object_has_arc(&objects[i]) {
            found = true;
        }
        i += 1;
    }
    if found {
        let mut m = String::from_str("op '");
        m.append(op.name.as_str());
        m.append("': ramp plunge with arc / circle source segments. The cutter ramps along line segments correctly but dives straight down at the start of any arc that crosses the ramp boundary — surface finish near arc entries may show a small step. Use Helix plunge or a finer ramp angle for a smoother entry.");
        push_warning(warnings, warning(Some(op.id), "ramp_arcs_at_boundary", m));
    } else {
        assert(wviews(warnings@) =~= wviews(old(warnings)@) + Seq::<WarningView>::empty());
    }
}

} // verus!
