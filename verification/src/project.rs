//! The project as the planner sees it: tools, operations and their
//! sources, the machine, the drawing and the work offset. Lengths are
//! integer nanometres; feeds mm/min; spindle speeds RPM.

use vstd::prelude::*;
use crate::cam::{MachineConfig, PlungeKind, ToolOffset};
use crate::geometry::Segment;

verus! {

/// How the selected objects of an op combine into regions.
#[derive(Clone, Copy, Debug, PartialEq, Eq, Structural)]
pub enum SourceCombine {
    Auto,
    Union,
    Difference,
    Intersection,
}

/// Which geometry an op consumes.
#[derive(Clone, Debug)]
pub enum OpSource {
    /// Every chained object.
    All,
    /// The objects on any of these layers.
    Layers { layers: Vec<String>, combine: SourceCombine },
    /// These chained objects, by 1-based id.
    Objects { ids: Vec<u32>, combine: SourceCombine },
}

/// Pocket fill strategy.
#[derive(Clone, Copy, Debug, PartialEq, Eq, Structural)]
pub enum PocketStrategy {
    Cascade,
    Zigzag,
    Spiral,
    Trochoidal,
    Halfpipe,
}

/// What an operation does.
#[derive(Clone, Debug)]
pub enum OpKind {
    Profile { offset: ToolOffset },
    Pocket { strategy: PocketStrategy },
    Drill,
    Engrave,
    DragKnife,
    VCarve,
    Thread,
    Chamfer,
    TSlot,
    Dovetail,
    Helix,
    /// Stops the program with an operator message.
    Pause { message: String },
    Homing,
    Probe,
    CycleMarker,
}

#[derive(Clone, Copy, Debug, PartialEq, Eq, Structural)]
pub enum ToolKind {
    Endmill,
    BallNose,
    BullNose,
    Compression,
    TSlot,
    FormProfile,
    Drill,
    VBit,
    Engraver,
    DragKnife,
    LaserBeam,
}

#[derive(Clone, Copy, Debug, PartialEq, Eq, Structural)]
pub enum Coolant {
    Off,
    Mist,
    Flood,
}

/// Which rate set of a tool applies.
#[derive(Clone, Copy, Debug, PartialEq, Eq, Structural)]
pub enum PassKind {
    Rough,
    Finish,
    Drill,
}

/// One tool-library entry.
#[derive(Clone, Debug)]
pub struct ToolEntry {
    pub id: u32,
    pub name: String,
    pub kind: ToolKind,
    pub diameter_nm: u64,
    pub tip_diameter_nm: Option<u64>,
    /// Plasma kerf (cut width).
    pub kerf_nm: Option<u64>,
    /// General spindle speed.
    pub speed: u32,
    /// General plunge feed.
    pub plunge_rate: u32,
    /// General cutting feed.
    pub feed_rate: u32,
    pub speed_finish: Option<u32>,
    pub plunge_rate_finish: Option<u32>,
    pub feed_rate_finish: Option<u32>,
    pub speed_drill: Option<u32>,
    pub plunge_rate_drill: Option<u32>,
    pub feed_rate_drill: Option<u32>,
    /// Spindle warm-up pause, seconds.
    pub pause: u32,
    /// Depth per pass ops fall back to (a negative step).
    pub default_step_nm: Option<i64>,
    pub coolant: Coolant,
}

/// How tabs are placed on a contour.
#[derive(Clone, Copy, Debug, PartialEq, Eq, Structural)]
pub enum TabPlacementMode {
    Off,
    Auto,
    Manual,
    Mixed,
}

/// Op-level parameters the planner reads.
#[derive(Clone, Debug)]
pub struct OpParams {
    pub feed_rate_override: Option<u32>,
    pub plunge_rate_override: Option<u32>,
    /// Final cut depth (negative = below the work surface).
    pub depth_nm: i64,
    /// Depth the first pass starts from.
    pub start_depth_nm: i64,
    /// Depth per pass (a negative step), overriding the tool's default.
    pub step_nm: Option<i64>,
    /// Height of rapid moves between cuts.
    pub fast_move_z_nm: i64,
    /// Extra depth below the stock bottom; positive = through-cut.
    pub through_depth_nm: u64,
    pub plunge: PlungeKind,
    /// The tab configuration's own on/off flag.
    pub tabs_active: bool,
    /// How tabs are placed (any mode but `Off` turns tabs on).
    pub tab_mode: TabPlacementMode,
    /// Pocket: keep islands uncut.
    pub pocket_islands: bool,
    /// Pocket: clear from the inside out.
    pub pocket_insideout: bool,
    /// Pocket: skip the final contour pass.
    pub pocket_nocontour: bool,
}

/// One operation.
#[derive(Clone, Debug)]
pub struct Op {
    pub id: u32,
    pub name: String,
    pub enabled: bool,
    pub kind: OpKind,
    pub tool_id: u32,
    pub finish_tool_id: Option<u32>,
    pub source: OpSource,
    pub params: OpParams,
}

/// Offset from the drawing origin to the work-coordinate origin.
#[derive(Clone, Copy, Debug, PartialEq, Eq, Structural)]
pub struct WorkOffset {
    pub x_nm: i64,
    pub y_nm: i64,
}

#[derive(Clone, Debug)]
pub struct Project {
    pub segments: Vec<Segment>,
    pub machine: MachineConfig,
    pub tools: Vec<ToolEntry>,
    pub operations: Vec<Op>,
    pub work_offset: WorkOffset,
}

/// Ops that only shape the program (no tool, no geometry).
pub open spec fn program_only(k: OpKind) -> bool {
    match k {
        OpKind::Pause { .. } | OpKind::Homing | OpKind::Probe | OpKind::CycleMarker => true,
        _ => false,
    }
}

impl Op {
    /// Whether this op only shapes the program (pause, homing, probing,
    /// cycle markers) and carries no tool of its own.
    pub fn is_program_only(&self) -> (b: bool)
        ensures
            b == program_only(self.kind),
    {
        match &self.kind {
            OpKind::Pause { .. } | OpKind::Homing | OpKind::Probe | OpKind::CycleMarker => true,
            _ => false,
        }
    }
}

/// The (speed, plunge, feed) triplet of `t` for `pass`: the pass's own
/// value where set, the general value otherwise.
pub open spec fn tool_rates(t: ToolEntry, pass: PassKind) -> (u32, u32, u32) {
    match pass {
        PassKind::Rough => (t.speed, t.plunge_rate, t.feed_rate),
        PassKind::Finish => (
            t.speed_finish.unwrap_or(t.speed),
            t.plunge_rate_finish.unwrap_or(t.plunge_rate),
            t.feed_rate_finish.unwrap_or(t.feed_rate),
        ),
        PassKind::Drill => (
            t.speed_drill.unwrap_or(t.speed),
            t.plunge_rate_drill.unwrap_or(t.plunge_rate),
            t.feed_rate_drill.unwrap_or(t.feed_rate),
        ),
    }
}

/// The (speed, plunge, feed) triplet a pass runs at: the pass-specific
/// override when set, the tool's general rate otherwise.
pub fn resolve_tool_rates(tool: &ToolEntry, pass: PassKind) -> (r: (u32, u32, u32))
    ensures
        r == tool_rates(*tool, pass),
        pass == PassKind::Rough ==> r == (tool.speed, tool.plunge_rate, tool.feed_rate),
        pass == PassKind::Finish ==> r.0 == (if tool.speed_finish is Some { tool.speed_finish->0 } else { tool.speed })
            && r.1 == (if tool.plunge_rate_finish is Some { tool.plunge_rate_finish->0 } else { tool.plunge_rate })
            && r.2 == (if tool.feed_rate_finish is Some { tool.feed_rate_finish->0 } else { tool.feed_rate }),
        pass == PassKind::Drill ==> r.0 == (if tool.speed_drill is Some { tool.speed_drill->0 } else { tool.speed })
            && r.1 == (if tool.plunge_rate_drill is Some { tool.plunge_rate_drill->0 } else { tool.plunge_rate })
            && r.2 == (if tool.feed_rate_drill is Some { tool.feed_rate_drill->0 } else { tool.feed_rate }),
{
    match pass {
        PassKind::Rough => (tool.speed, tool.plunge_rate, tool.feed_rate),
        PassKind::Finish => (
            tool.speed_finish.unwrap_or(tool.speed),
            tool.plunge_rate_finish.unwrap_or(tool.plunge_rate),
            tool.feed_rate_finish.unwrap_or(tool.feed_rate),
        ),
        PassKind::Drill => (
            tool.speed_drill.unwrap_or(tool.speed),
            tool.plunge_rate_drill.unwrap_or(tool.plunge_rate),
            tool.feed_rate_drill.unwrap_or(tool.feed_rate),
        ),
    }
}

/// Index of the first tool with id `id`, if any.
pub open spec fn tool_index(tools: Seq<ToolEntry>, id: u32) -> Option<int>
    decreases tools.len(),
{
    if tools.len() == 0 {
        None
    } else {
        match tool_index(tools.drop_last(), id) {
            Some(i) => Some(i),
            None => if tools.last().id == id { Some(tools.len() - 1) } else { None },
        }
    }
}

pub proof fn lemma_tool_index(tools: Seq<ToolEntry>, id: u32)
    ensures
        tool_index(tools, id) matches Some(i) ==> 0 <= i < tools.len() && tools[i].id == id
            && forall|j: int| 0 <= j < i ==> tools[j].id != id,
        tool_index(tools, id) is None ==> forall|j: int| 0 <= j < tools.len() ==> tools[j].id != id,
    decreases tools.len(),
{
    if tools.len() > 0 {
        let d = tools.drop_last();
        lemma_tool_index(d, id);
        assert(forall|j: int| 0 <= j < d.len() ==> d[j] == tools[j]);
    }
}

/// The first tool with id `id` (`iter().find`).
pub fn find_tool(tools: &Vec<ToolEntry>, id: u32) -> (r: Option<&ToolEntry>)
    ensures
        match tool_index(tools@, id) {
            Some(i) => r == Some(&tools@[i]),
            None => r is None,
        },
{
    proof {
        lemma_tool_index(tools@, id);
    }
    let mut i: usize = 0;
    while i < tools.len()
        invariant
            i <= tools.len(),
            forall|j: int| 0 <= j < i ==> tools@[j].id != id,
        decreases tools.len() - i,
    {
        if tools[i].id == id {
            proof {
                lemma_tool_index(tools@, id);
            }
            return Some(&tools[i]);
        }
        i += 1;
    }
    None
}

/// Some enabled op uses tool `id`.
pub open spec fn tool_in_use(ops: Seq<Op>, id: u32) -> bool {
    exists|k: int| 0 <= k < ops.len() && (#[trigger] ops[k]).enabled && ops[k].tool_id == id
}

/// The warm-up pauses (seconds) of the tools in `tools` that some enabled
/// op uses, summed over the tool list.
pub open spec fn used_pause_total(tools: Seq<ToolEntry>, ops: Seq<Op>) -> nat
    decreases tools.len(),
{
    if tools.len() == 0 {
        0
    } else {
        used_pause_total(tools.drop_last(), ops) + if tool_in_use(ops, tools.last().id) {
            tools.last().pause as nat
        } else {
            0nat
        }
    }
}

/// Whether some enabled op of `ops` uses tool `id`.
fn uses_tool(ops: &Vec<Op>, id: u32) -> (b: bool)
    ensures
        b == tool_in_use(ops@, id),
{
    let mut k: usize = 0;
    while k < ops.len()
        invariant
            k <= ops@.len(),
            forall|m: int| 0 <= m < k ==> !((#[trigger] ops@[m]).enabled && ops@[m].tool_id == id),
        decreases ops@.len() - k,
    {
        if ops[k].enabled && ops[k].tool_id == id {
            assert(ops@[k as int].enabled && ops@[k as int].tool_id == id);
            return true;
        }
        k += 1;
    }
    false
}

/// Total spindle warm-up (seconds) the program spends: the pauses of the
/// tools that enabled ops use.
pub fn spindle_warmup_seconds(project: &Project) -> (t: u64)
    requires
        project.tools@.len() <= u32::MAX,
    ensures
        t == used_pause_total(project.tools@, project.operations@),
{
    let tools = &project.tools;
    let mut t: u64 = 0;
    let mut i: usize = 0;
    while i < tools.len()
        invariant
            i <= tools@.len(),
            tools@.len() <= u32::MAX,
            t == used_pause_total(tools@.take(i as int), project.operations@),
            t <= i * (u32::MAX as nat),
        decreases tools@.len() - i,
    {
        let ghost pre = tools@.take(i as int);
        assert(tools@.take(i + 1).drop_last() =~= pre);
        if uses_tool(&project.operations, tools[i].id) {
            t = t + tools[i].pause as u64;
        }
        i += 1;
    }
    assert(tools@.take(tools@.len() as int) =~= tools@);
    t
}

/// The rates the time estimator clamps an op's moves to.
#[derive(Clone, Copy, Debug, PartialEq, Eq, Structural)]
pub struct OpRates {
    pub op_id: u32,
    pub plunge_rate_mm_min: u32,
    pub feed_rate_mm_min: u32,
}

/// For each op whose tool is in the library, in op order, the op id and
/// that tool's general plunge and cutting feeds.
pub open spec fn op_rates_of(ops: Seq<Op>, tools: Seq<ToolEntry>) -> Seq<OpRates>
    decreases ops.len(),
{
    if ops.len() == 0 {
        Seq::empty()
    } else {
        let rest = op_rates_of(ops.drop_last(), tools);
        match tool_index(tools, ops.last().tool_id) {
            Some(i) => rest.push(OpRates {
                op_id: ops.last().id,
                plunge_rate_mm_min: tools[i].plunge_rate,
                feed_rate_mm_min: tools[i].feed_rate,
            }),
            None => rest,
        }
    }
}

/// The per-op rate table of a project (ops without a library tool are
/// left out).
pub fn op_rates(project: &Project) -> (r: Vec<OpRates>)
    ensures
        r@ == op_rates_of(project.operations@, project.tools@),
{
    let ops = &project.operations;
    let mut out: Vec<OpRates> = Vec::new();
    let mut k: usize = 0;
    while k < ops.len()
        invariant
            k <= ops@.len(),
            out@ == op_rates_of(ops@.take(k as int), project.tools@),
        decreases ops@.len() - k,
    {
        assert(ops@.take(k + 1).drop_last() =~= ops@.take(k as int));
        match find_tool(&project.tools, ops[k].tool_id) {
            Some(t) => out.push(OpRates {
                op_id: ops[k].id,
                plunge_rate_mm_min: t.plunge_rate,
                feed_rate_mm_min: t.feed_rate,
            }),
            None => {},
        }
        k += 1;
    }
    assert(ops@.take(ops@.len() as int) =~= ops@);
    out
}

} // verus!
