//! Per-op setup resolution: the tool a pass runs with, its rates clamped
//! into the machine's limits (with a warning per clamp), the compensation
//! side, plunge and tab choices, and the program-header setup.

use vstd::prelude::*;
use crate::cam::{MachineConfig, MachineMode, MillDepths, PlungeKind, PocketConfig, Setup, ToolConfig, ToolConfigView, ToolOffset};
use crate::pipeline::{PipelineError, PipelineWarning, WarningView, push_warning, warning, wviews};
use crate::project::{
    Coolant, Op, OpKind, PassKind, PocketStrategy, Project, ToolEntry, ToolKind, TabPlacementMode, find_tool, resolve_tool_rates,
    tool_index, tool_rates, program_only, lemma_tool_index,
};
use crate::strs::{dec, push_u64};

verus! {

/// The `Debug` rendering of a pass kind.
pub open spec fn pass_debug(p: PassKind) -> Seq<char> {
    match p {
        PassKind::Rough => "Rough"@,
        PassKind::Finish => "Finish"@,
        PassKind::Drill => "Drill"@,
    }
}

fn pass_debug_str(p: PassKind) -> (s: &'static str)
    ensures
        s@ == pass_debug(p),
{
    match p {
        PassKind::Rough => "Rough",
        PassKind::Finish => "Finish",
        PassKind::Drill => "Drill",
    }
}

/// `rpm` after the machine's ceiling, then its floor.
pub open spec fn rpm_clamped(rpm: u32, m: MachineConfig) -> u32 {
    let a = match m.spindle_rpm_max {
        Some(max) => if rpm > max { max } else { rpm },
        None => rpm,
    };
    match m.spindle_rpm_min {
        Some(min) => if a < min { min } else { a },
        None => a,
    }
}

/// The warnings a spindle clamp raises: one when the ceiling bites, one
/// when the floor bites (reporting the value after the ceiling).
#[verifier::opaque]
pub open spec fn rpm_warnings(rpm: u32, m: MachineConfig, op_id: u32, name: Seq<char>, pass: PassKind) -> Seq<WarningView> {
    let above: Seq<WarningView> = match m.spindle_rpm_max {
        Some(max) => if rpm > max {
            seq![WarningView {
                op_id: Some(op_id),
                kind: "spindle_speed_clamped_above_max"@,
                message: "op '"@ + name + "' ("@ + pass_debug(pass) + " pass): tool RPM "@ + dec(rpm as nat)
                    + " exceeds machine spindle_rpm_max "@ + dec(max as nat) + "; clamped to "@ + dec(max as nat) + "."@,
            }]
        } else {
            Seq::empty()
        },
        None => Seq::empty(),
    };
    let a = match m.spindle_rpm_max {
        Some(max) => if rpm > max { max } else { rpm },
        None => rpm,
    };
    let below: Seq<WarningView> = match m.spindle_rpm_min {
        Some(min) => if a < min {
            seq![WarningView {
                op_id: Some(op_id),
                kind: "spindle_speed_clamped_below_min"@,
                message: "op '"@ + name + "' ("@ + pass_debug(pass) + " pass): tool RPM "@ + dec(a as nat)
                    + " is below machine spindle_rpm_min "@ + dec(min as nat) + "; clamped to "@ + dec(min as nat) + "."@,
            }]
        } else {
            Seq::empty()
        },
        None => Seq::empty(),
    };
    above + below
}

/// Clamps a spindle speed into the machine's `[min, max]` window,
/// warning per clamp with the op, the pass and the bound that applied.
pub fn clamp_spindle_rpm(rpm: u32, machine: &MachineConfig, op: &Op, pass: PassKind, warnings: &mut Vec<PipelineWarning>) -> (r: u32)
    ensures
        r == rpm_clamped(rpm, *machine),
        wviews(final(warnings)@) == wviews(old(warnings)@) + rpm_warnings(rpm, *machine, op.id, op.name@, pass),
{
    reveal(rpm_warnings);
    let mut clamped = rpm;
    if let Some(max) = machine.spindle_rpm_max {
        if rpm > max {
            let mut m = String::from_str("op '");
            m.append(op.name.as_str());
            m.append("' (");
            m.append(pass_debug_str(pass));
            m.append(" pass): tool RPM ");
            push_u64(&mut m, rpm as u64);
            m.append(" exceeds machine spindle_rpm_max ");
            push_u64(&mut m, max as u64);
            m.append("; clamped to ");
            push_u64(&mut m, max as u64);
            m.append(".");
            push_warning(warnings, warning(Some(op.id), "spindle_speed_clamped_above_max", m));
            clamped = max;
        }
    }
    if let Some(min) = machine.spindle_rpm_min {
        if clamped < min {
            let mut m = String::from_str("op '");
            m.append(op.name.as_str());
            m.append("' (");
            m.append(pass_debug_str(pass));
            m.append(" pass): tool RPM ");
            push_u64(&mut m, clamped as u64);
            m.append(" is below machine spindle_rpm_min ");
            push_u64(&mut m, min as u64);
            m.append("; clamped to ");
            push_u64(&mut m, min as u64);
            m.append(".");
            push_warning(warnings, warning(Some(op.id), "spindle_speed_clamped_below_min", m));
            clamped = min;
        }
    }
    assert(wviews(warnings@) =~= wviews(old(warnings)@) + rpm_warnings(rpm, *machine, op.id, op.name@, pass));
    clamped
}

/// `feed` capped at the machine's feed ceiling.
pub open spec fn feed_clamped(feed: u32, m: MachineConfig) -> u32 {
    match m.max_feed_mm_min {
        Some(max) => if feed > max { max } else { feed },
        None => feed,
    }
}

/// The warning a feed clamp raises, if the ceiling bites.
#[verifier::opaque]
pub open spec fn feed_warnings(feed: u32, axis: Seq<char>, m: MachineConfig, op_id: u32, name: Seq<char>, pass: PassKind) -> Seq<WarningView> {
    match m.max_feed_mm_min {
        Some(max) => if feed > max {
            seq![WarningView {
                op_id: Some(op_id),
                kind: "feed_clamped_above_max"@,
                message: "op '"@ + name + "' ("@ + pass_debug(pass) + " pass): "@ + axis + " feed "@ + dec(feed as nat)
                    + " mm/min exceeds machine max_feed_mm_min "@ + dec(max as nat) + "; clamped to "@ + dec(max as nat) + "."@,
            }]
        } else {
            Seq::empty()
        },
        None => Seq::empty(),
    }
}

/// Caps a feed at the machine's ceiling, warning when it bites.
pub fn clamp_feed(feed: u32, axis: &str, machine: &MachineConfig, op: &Op, pass: PassKind, warnings: &mut Vec<PipelineWarning>) -> (r: u32)
    ensures
        r == feed_clamped(feed, *machine),
        wviews(final(warnings)@) == wviews(old(warnings)@) + feed_warnings(feed, axis@, *machine, op.id, op.name@, pass),
{
    reveal(feed_warnings);
    if let Some(max) = machine.max_feed_mm_min {
        if feed > max {
            let mut m = String::from_str("op '");
            m.append(op.name.as_str());
            m.append("' (");
            m.append(pass_debug_str(pass));
            m.append(" pass): ");
            m.append(axis);
            m.append(" feed ");
            push_u64(&mut m, feed as u64);
            m.append(" mm/min exceeds machine max_feed_mm_min ");
            push_u64(&mut m, max as u64);
            m.append("; clamped to ");
            push_u64(&mut m, max as u64);
            m.append(".");
            push_warning(warnings, warning(Some(op.id), "feed_clamped_above_max", m));
            assert(wviews(warnings@) =~= wviews(old(warnings)@) + feed_warnings(feed, axis@, *machine, op.id, op.name@, pass));
            return max;
        }
    }
    assert(wviews(warnings@) =~= wviews(old(warnings)@) + feed_warnings(feed, axis@, *machine, op.id, op.name@, pass));
    feed
}

/// Caps a feed at the machine's ceiling without warning.
pub fn clamp_feed_silent(feed: u32, machine: &MachineConfig) -> (r: u32)
    ensures
        r == feed_clamped(feed, *machine),
{
    match machine.max_feed_mm_min {
        Some(max) => if feed > max { max } else { feed },
        None => feed,
    }
}

/// The spindle clamp keeps the speed inside the machine's window: never
/// below a set minimum, never above a set maximum when the window is not
/// inverted, unchanged when already inside, and clamping again changes
/// nothing.
pub proof fn lemma_rpm_clamp_window(rpm: u32, m: MachineConfig)
    ensures
        rpm_clamped(rpm_clamped(rpm, m), m) == rpm_clamped(rpm, m),
        m.spindle_rpm_min matches Some(lo) ==> rpm_clamped(rpm, m) >= lo,
        m.spindle_rpm_max matches Some(hi) ==> (m.spindle_rpm_min matches Some(lo) ==> lo <= hi) ==> rpm_clamped(rpm, m) <= hi,
        (m.spindle_rpm_min matches Some(lo) ==> lo <= rpm) ==> (m.spindle_rpm_max matches Some(hi) ==> rpm <= hi) ==> rpm_clamped(rpm, m) == rpm,
{
}

/// The feed clamp caps a feed at the machine's ceiling, leaves feeds at
/// or under it unchanged, and clamping again changes nothing.
pub proof fn lemma_feed_clamp_ceiling(feed: u32, m: MachineConfig)
    ensures
        feed_clamped(feed_clamped(feed, m), m) == feed_clamped(feed, m),
        feed_clamped(feed, m) <= feed,
        m.max_feed_mm_min matches Some(hi) ==> feed_clamped(feed, m) <= hi,
        (m.max_feed_mm_min matches Some(hi) ==> feed <= hi) ==> feed_clamped(feed, m) == feed,
{
}

/// Clamps a spindle speed into the machine's window without warning.
pub fn clamp_rpm_silent(rpm: u32, machine: &MachineConfig) -> (r: u32)
    ensures
        r == rpm_clamped(rpm, *machine),
{
    let mut clamped = rpm;
    if let Some(max) = machine.spindle_rpm_max {
        if clamped > max {
            clamped = max;
        }
    }
    if let Some(min) = machine.spindle_rpm_min {
        if clamped < min {
            clamped = min;
        }
    }
    clamped
}

pub open spec fn is_drill(k: OpKind) -> bool {
    k is Drill
}

/// The pass whose rates an op's main passes use.
pub open spec fn main_pass(k: OpKind) -> PassKind {
    if is_drill(k) { PassKind::Drill } else { PassKind::Rough }
}

/// The (speed, plunge, feed) of an op's finish slot: the drill triplet for
/// drill ops, the finish triplet otherwise.
pub open spec fn finish_rates(op: Op, t: ToolEntry) -> (u32, u32, u32) {
    if is_drill(op.kind) { tool_rates(t, PassKind::Drill) } else { tool_rates(t, PassKind::Finish) }
}

/// The cutting diameter: the plasma kerf in plasma mode when one is set,
/// the nominal diameter otherwise.
pub open spec fn cut_diameter(t: ToolEntry, m: MachineConfig) -> u64 {
    match t.kerf_nm {
        Some(k) => if m.mode == MachineMode::Plasma && k > 0 { k } else { t.diameter_nm },
        None => t.diameter_nm,
    }
}

/// The tool an op runs with: rates from the pass sets with op overrides
/// winning, every speed and feed clamped to the machine.
pub open spec fn op_tool(op: Op, t: ToolEntry, m: MachineConfig) -> ToolConfigView {
    let (rs, rp, rf) = tool_rates(t, main_pass(op.kind));
    let (fs, fp, ff) = finish_rates(op, t);
    let speed = rpm_clamped(rs, m);
    ToolConfigView {
        number: t.id,
        name: t.name@,
        diameter_nm: cut_diameter(t, m),
        speed,
        pause: t.pause,
        mist: t.coolant == Coolant::Mist,
        flood: t.coolant == Coolant::Flood,
        rate_v: feed_clamped(op.params.plunge_rate_override.unwrap_or(rp), m),
        rate_h: feed_clamped(op.params.feed_rate_override.unwrap_or(rf), m),
        speed_finish: if is_drill(op.kind) { speed } else { rpm_clamped(fs, m) },
        rate_v_finish: feed_clamped(op.params.plunge_rate_override.unwrap_or(fp), m),
        rate_h_finish: feed_clamped(op.params.feed_rate_override.unwrap_or(ff), m),
    }
}

/// The zero-rate warning, when a resolved feed, plunge or speed is zero.
#[verifier::opaque]
pub open spec fn zero_rate_warnings(op_id: u32, name: Seq<char>, tc: ToolConfigView) -> Seq<WarningView> {
    if tc.rate_h == 0 || tc.rate_v == 0 || tc.speed == 0 {
        seq![WarningView {
            op_id: Some(op_id),
            kind: "zero_rate_emitted"@,
            message: "op '"@ + name + "': resolved tool rates contain a zero value (feed="@ + dec(tc.rate_h as nat)
                + " mm/min, plunge="@ + dec(tc.rate_v as nat) + " mm/min, spindle="@ + dec(tc.speed as nat)
                + " RPM). Emitting F0 / S0 / plunge=0 will stall the cut or refuse to start. Set the missing rate on the tool library entry or as a per-op override."@,
        }]
    } else {
        Seq::empty()
    }
}

/// The clamp warnings resolving an op's rates raises, in order: spindle
/// clamps (main pass, then finish pass unless drilling), then feed clamps
/// (main plunge, main cut, finish plunge, finish cut).
pub open spec fn rate_warnings(op: Op, t: ToolEntry, m: MachineConfig) -> Seq<WarningView> {
    let mp = main_pass(op.kind);
    let (rs, rp, rf) = tool_rates(t, mp);
    let (fs, fp, ff) = finish_rates(op, t);
    rpm_warnings(rs, m, op.id, op.name@, mp)
        + (if is_drill(op.kind) { Seq::empty() } else { rpm_warnings(fs, m, op.id, op.name@, PassKind::Finish) })
        + feed_warnings(op.params.plunge_rate_override.unwrap_or(rp), "plunge"@, m, op.id, op.name@, mp)
        + feed_warnings(op.params.feed_rate_override.unwrap_or(rf), "cut"@, m, op.id, op.name@, mp)
        + feed_warnings(op.params.plunge_rate_override.unwrap_or(fp), "plunge"@, m, op.id, op.name@, PassKind::Finish)
        + feed_warnings(op.params.feed_rate_override.unwrap_or(ff), "cut"@, m, op.id, op.name@, PassKind::Finish)
}

/// The warning a chamfer op raises when its tool is not a V-bit (the cone
/// math assumes a conical cutter).
pub open spec fn chamfer_tool_warnings(op: Op, t: ToolEntry) -> Seq<WarningView> {
    if op.kind is Chamfer && t.kind != ToolKind::VBit {
        seq![WarningView {
            op_id: Some(op.id),
            kind: "chamfer_non_vbit"@,
            message: "Chamfer op '"@ + op.name@ + "' uses tool '"@ + t.name@
                + "' which is not a V-bit. The cone math assumes a conical cutter; flat / ball tools will not produce a true bevel."@,
        }]
    } else {
        Seq::empty()
    }
}

/// The depth per pass an op cuts with: the op's own step, else its tool's
/// default step, and only when that is negative (a depth, not a height).
pub open spec fn effective_step(op: Op, t: ToolEntry) -> Option<i64> {
    let chosen = match op.params.step_nm {
        Some(v) => Some(v),
        None => t.default_step_nm,
    };
    match chosen {
        Some(v) => if v < 0 { Some(v) } else { None },
        None => None,
    }
}

/// The warning an op without a usable depth per pass raises.
pub open spec fn step_warnings(op: Op, t: ToolEntry) -> Seq<WarningView> {
    if effective_step(op, t) is None {
        seq![WarningView {
            op_id: Some(op.id),
            kind: "step_unspecified"@,
            message: "depth-per-pass not set on the operation or its tool's default_step"@,
        }]
    } else {
        Seq::empty()
    }
}

/// Whether an op cuts its floor in one pass (T-slot and dovetail heads
/// must arrive at the floor directly).
pub open spec fn single_pass(k: OpKind) -> bool {
    k is TSlot || k is Dovetail
}

/// The Z schedule of an op: its depths and rapid height, the resolved
/// depth per pass (zero when none) and its through depth; a single-pass
/// op instead steps the whole span from start to final depth at once (a
/// minimal downward step when the span is empty) with no through depth;
/// a chamfer op starts at the surface, has no through depth, and leaves
/// its final depth to the cone math.
pub open spec fn op_mill(op: Op, t: ToolEntry) -> MillDepths {
    let p = op.params;
    let step = match effective_step(op, t) {
        Some(v) => v,
        None => 0,
    };
    if op.kind is Chamfer {
        MillDepths {
            depth_nm: None,
            start_depth_nm: 0,
            step_nm: step,
            fast_move_z_nm: p.fast_move_z_nm,
            through_depth_nm: 0,
        }
    } else if single_pass(op.kind) {
        let span = p.depth_nm - p.start_depth_nm;
        MillDepths {
            depth_nm: Some(p.depth_nm),
            start_depth_nm: p.start_depth_nm,
            step_nm: if span != 0 { span as i64 } else { -1i64 },
            fast_move_z_nm: p.fast_move_z_nm,
            through_depth_nm: 0,
        }
    } else {
        MillDepths {
            depth_nm: Some(p.depth_nm),
            start_depth_nm: p.start_depth_nm,
            step_nm: step,
            fast_move_z_nm: p.fast_move_z_nm,
            through_depth_nm: p.through_depth_nm,
        }
    }
}

/// The pocketing choices of an op: a pocket's islands / inside-out /
/// no-contour flags and whether it zigzags; all off for other ops.
pub open spec fn op_pockets(op: Op) -> PocketConfig {
    match op.kind {
        OpKind::Pocket { strategy } => PocketConfig {
            active: true,
            islands: op.params.pocket_islands,
            zigzag: strategy == PocketStrategy::Zigzag,
            insideout: op.params.pocket_insideout,
            nocontour: op.params.pocket_nocontour,
        },
        _ => PocketConfig { active: false, islands: false, zigzag: false, insideout: false, nocontour: false },
    }
}

/// Op kinds that cut along a contour and carry tab settings.
pub open spec fn contour_kind(k: OpKind) -> bool {
    k is Profile || k is Pocket || k is Engrave || k is DragKnife
}

/// Whether an op's setup emits tabs: a contour op whose tab flag is on or
/// whose tab mode is not `Off`, unless it is a trochoidal pocket.
pub open spec fn op_tabs_active(op: Op) -> bool {
    contour_kind(op.kind) && (op.params.tabs_active || op.params.tab_mode != TabPlacementMode::Off)
        && !trochoidal(op.kind)
}

/// Every warning resolving an op's setup raises: the missing-step
/// warning, the clamp warnings, a zero-rate warning, then the chamfer
/// tool warning.
pub open spec fn setup_warnings(op: Op, t: ToolEntry, m: MachineConfig) -> Seq<WarningView> {
    step_warnings(op, t) + rate_warnings(op, t, m) + zero_rate_warnings(op.id, op.name@, op_tool(op, t, m))
        + chamfer_tool_warnings(op, t)
}

/// The tool settings an op runs with, warning for every clamp.
fn resolve_op_tool(op: &Op, tool: &ToolEntry, machine: &MachineConfig, warnings: &mut Vec<PipelineWarning>) -> (tc: ToolConfig)
    ensures
        tc@ == op_tool(*op, *tool, *machine),
        wviews(final(warnings)@) == wviews(old(warnings)@) + rate_warnings(*op, *tool, *machine),
{
    let ghost w0 = wviews(warnings@);
    let drill = matches!(op.kind, OpKind::Drill);
    let main_pass = if drill { PassKind::Drill } else { PassKind::Rough };
    let (rough_speed_raw, rough_plunge, rough_feed) = resolve_tool_rates(tool, main_pass);
    let (finish_speed_raw, finish_plunge, finish_feed) = if drill {
        (rough_speed_raw, rough_plunge, rough_feed)
    } else {
        resolve_tool_rates(tool, PassKind::Finish)
    };
    let rough_speed = clamp_spindle_rpm(rough_speed_raw, machine, op, main_pass, warnings);
    let ghost w1 = wviews(warnings@);
    let finish_speed = if drill {
        rough_speed
    } else {
        clamp_spindle_rpm(finish_speed_raw, machine, op, PassKind::Finish, warnings)
    };
    let ghost w2 = wviews(warnings@);
    let rate_v = clamp_feed(op.params.plunge_rate_override.unwrap_or(rough_plunge), "plunge", machine, op, main_pass, warnings);
    let ghost w3 = wviews(warnings@);
    let rate_h = clamp_feed(op.params.feed_rate_override.unwrap_or(rough_feed), "cut", machine, op, main_pass, warnings);
    let ghost w4 = wviews(warnings@);
    let rate_v_finish = clamp_feed(op.params.plunge_rate_override.unwrap_or(finish_plunge), "plunge", machine, op, PassKind::Finish, warnings);
    let ghost w5 = wviews(warnings@);
    let rate_h_finish = clamp_feed(op.params.feed_rate_override.unwrap_or(finish_feed), "cut", machine, op, PassKind::Finish, warnings);
    proof {
        reveal_strlit("plunge");
        reveal_strlit("cut");
        if drill {
            assert(w2 == w1);
            assert(w1 =~= w1 + Seq::<WarningView>::empty());
        }
        assert(wviews(warnings@) =~= wviews(old(warnings)@) + rate_warnings(*op, *tool, *machine));
    }
    let diameter_nm = match tool.kerf_nm {
        Some(k) => if matches!(machine.mode, MachineMode::Plasma) && k > 0 { k } else { tool.diameter_nm },
        None => tool.diameter_nm,
    };
    ToolConfig {
        number: tool.id,
        name: tool.name.clone(),
        diameter_nm,
        speed: rough_speed,
        pause: tool.pause,
        mist: matches!(tool.coolant, Coolant::Mist),
        flood: matches!(tool.coolant, Coolant::Flood),
        rate_v,
        rate_h,
        speed_finish: finish_speed,
        rate_v_finish,
        rate_h_finish,
    }
}

/// The compensation side an op kind cuts with.
pub open spec fn op_offset(k: OpKind) -> ToolOffset {
    match k {
        OpKind::Profile { offset } => offset,
        OpKind::Engrave | OpKind::DragKnife | OpKind::TSlot | OpKind::Dovetail => ToolOffset::On,
        _ => ToolOffset::Off,
    }
}

pub open spec fn trochoidal(k: OpKind) -> bool {
    k matches OpKind::Pocket { strategy } && strategy == PocketStrategy::Trochoidal
}

/// The setup an op runs with (given its tool exists).
pub open spec fn op_setup_matches(s: Setup, op: Op, t: ToolEntry, m: MachineConfig) -> bool {
    &&& s.tool@ == op_tool(op, t, m)
    &&& s.machine == (if op.kind is DragKnife { MachineConfig { mode: MachineMode::Drag, ..m } } else { m })
    &&& s.offset == op_offset(op.kind)
    &&& s.plunge == (if trochoidal(op.kind) { PlungeKind::Helix } else { op.params.plunge })
    &&& s.tabs_active == op_tabs_active(op)
    &&& s.mill == op_mill(op, t)
    &&& s.pockets == op_pockets(op)
}

/// A profile is compensated on the side the op asks for, and centre-line
/// kinds (engrave, drag knife, T-slot, dovetail) are cut on the line: in
/// every setup resolved for an op, a `Profile { offset }` op gets exactly
/// that `offset`. A trochoidal pocket plunges helically and any other op
/// as it asks; a drag-knife op runs the machine in drag mode; only a
/// pocket pockets, only a contour op carries tabs, and the tool is the
/// op's tool.
pub proof fn lemma_setup_keeps_profile_side(s: Setup, op: Op, t: ToolEntry, m: MachineConfig)
    requires
        op_setup_matches(s, op, t, m),
    ensures
        op.kind matches OpKind::Profile { offset } ==> s.offset == offset,
        (op.kind is Engrave || op.kind is DragKnife || op.kind is TSlot || op.kind is Dovetail)
            ==> s.offset == ToolOffset::On,
        s.plunge == (if op.kind == (OpKind::Pocket { strategy: PocketStrategy::Trochoidal }) {
            PlungeKind::Helix
        } else {
            op.params.plunge
        }),
        s.machine.mode == (if op.kind is DragKnife { MachineMode::Drag } else { m.mode }),
        s.pockets.active == op.kind is Pocket,
        !(op.kind is Profile || op.kind is Pocket || op.kind is Engrave || op.kind is DragKnife) ==> !s.tabs_active,
        s.tool.number == t.id,
{
}

/// Resolves the setup an op runs with: its tool (error when the op names
/// no tool of the project), rates from the tool's pass sets with op
/// overrides winning, every speed and feed clamped into the machine's
/// limits with a warning per clamp, a warning when a rate resolves to
/// zero, the plasma kerf as cutting diameter, the compensation side, the
/// helical plunge trochoidal pockets need, drag-knife mode for
/// drag-knife ops, and the Z schedule with its depth per pass (a warning
/// when none is set) or, for T-slot and dovetail ops, a single pass.
#[verifier::rlimit(50)]
pub fn synthesize_op_setup(op: &Op, project: &Project, warnings: &mut Vec<PipelineWarning>) -> (r: Result<Setup, PipelineError>)
    requires
        single_pass(op.kind) ==> i64::MIN <= op.params.depth_nm - op.params.start_depth_nm <= i64::MAX,
    ensures
        match tool_index(project.tools@, op.tool_id) {
            None => r matches Err(PipelineError::UnknownTool(a, b)) && a == op.id && b == op.tool_id
                && wviews(final(warnings)@) == wviews(old(warnings)@),
            Some(i) => r matches Ok(s) && op_setup_matches(s, *op, project.tools@[i], project.machine)
                && wviews(final(warnings)@) == wviews(old(warnings)@) + setup_warnings(*op, project.tools@[i], project.machine),
        },
        op.kind matches OpKind::Profile { offset } ==> (r matches Ok(s) ==> s.offset == offset),
        (op.kind is Engrave || op.kind is DragKnife || op.kind is TSlot || op.kind is Dovetail)
            ==> (r matches Ok(s) ==> s.offset == ToolOffset::On),
        r matches Ok(s) ==> s.plunge == (if op.kind == (OpKind::Pocket { strategy: PocketStrategy::Trochoidal }) {
            PlungeKind::Helix
        } else {
            op.params.plunge
        }),
        r matches Ok(s) ==> s.machine.mode == (if op.kind is DragKnife { MachineMode::Drag } else { project.machine.mode }),
        r matches Ok(s) ==> s.pockets.active == op.kind is Pocket,
        !(op.kind is Profile || op.kind is Pocket || op.kind is Engrave || op.kind is DragKnife) ==> (r matches Ok(s) ==> !s.tabs_active),
        r matches Ok(s) ==> s.tool.number == op.tool_id,
{
    let tool = match find_tool(&project.tools, op.tool_id) {
        Some(t) => t,
        None => return Err(PipelineError::UnknownTool(op.id, op.tool_id)),
    };
    let chosen = match op.params.step_nm {
        Some(v) => Some(v),
        None => tool.default_step_nm,
    };
    let step = match chosen {
        Some(v) => if v < 0 { Some(v) } else { None },
        None => None,
    };
    if step.is_none() {
        push_warning(
            warnings,
            warning(
                Some(op.id),
                "step_unspecified",
                String::from_str("depth-per-pass not set on the operation or its tool's default_step"),
            ),
        );
    }
    let ghost w0 = wviews(warnings@);
    assert(w0 == wviews(old(warnings)@) + step_warnings(*op, *tool));
    let p = &op.params;
    let step_nm = match step {
        Some(v) => v,
        None => 0,
    };
    let single = matches!(op.kind, OpKind::TSlot | OpKind::Dovetail);
    let mill = if matches!(op.kind, OpKind::Chamfer) {
        MillDepths { depth_nm: None, start_depth_nm: 0, step_nm, fast_move_z_nm: p.fast_move_z_nm, through_depth_nm: 0 }
    } else if single {
        let span = p.depth_nm - p.start_depth_nm;
        MillDepths {
            depth_nm: Some(p.depth_nm),
            start_depth_nm: p.start_depth_nm,
            step_nm: if span != 0 { span } else { -1 },
            fast_move_z_nm: p.fast_move_z_nm,
            through_depth_nm: 0,
        }
    } else {
        MillDepths {
            depth_nm: Some(p.depth_nm),
            start_depth_nm: p.start_depth_nm,
            step_nm,
            fast_move_z_nm: p.fast_move_z_nm,
            through_depth_nm: p.through_depth_nm,
        }
    };
    let pockets = match &op.kind {
        OpKind::Pocket { strategy } => PocketConfig {
            active: true,
            islands: p.pocket_islands,
            zigzag: matches!(strategy, PocketStrategy::Zigzag),
            insideout: p.pocket_insideout,
            nocontour: p.pocket_nocontour,
        },
        _ => PocketConfig { active: false, islands: false, zigzag: false, insideout: false, nocontour: false },
    };
    let contour = matches!(op.kind, OpKind::Profile { .. } | OpKind::Pocket { .. } | OpKind::Engrave | OpKind::DragKnife);
    let tab_mode_on = !matches!(p.tab_mode, TabPlacementMode::Off);
    let machine = project.machine;
    let tc = resolve_op_tool(op, tool, &machine, warnings);
    let ghost w6 = wviews(warnings@);
    let rate_h = tc.rate_h;
    let rate_v = tc.rate_v;
    let rough_speed = tc.speed;
    let offset = match &op.kind {
        OpKind::Profile { offset } => *offset,
        OpKind::Engrave | OpKind::DragKnife | OpKind::TSlot | OpKind::Dovetail => ToolOffset::On,
        _ => ToolOffset::Off,
    };
    let troch = match &op.kind {
        OpKind::Pocket { strategy } => matches!(strategy, PocketStrategy::Trochoidal),
        _ => false,
    };
    let plunge = if troch && !matches!(op.params.plunge, PlungeKind::Helix) {
        PlungeKind::Helix
    } else {
        op.params.plunge
    };
    let mut setup_machine = machine;
    if matches!(op.kind, OpKind::DragKnife) {
        setup_machine.mode = MachineMode::Drag;
    }
    if rate_h == 0 || rate_v == 0 || rough_speed == 0 {
        let mut m = String::from_str("op '");
        m.append(op.name.as_str());
        m.append("': resolved tool rates contain a zero value (feed=");
        push_u64(&mut m, rate_h as u64);
        m.append(" mm/min, plunge=");
        push_u64(&mut m, rate_v as u64);
        m.append(" mm/min, spindle=");
        push_u64(&mut m, rough_speed as u64);
        m.append(" RPM). Emitting F0 / S0 / plunge=0 will stall the cut or refuse to start. Set the missing rate on the tool library entry or as a per-op override.");
        push_warning(warnings, warning(Some(op.id), "zero_rate_emitted", m));
    }
    proof {
        reveal(zero_rate_warnings);
    }
    let ghost w7 = wviews(warnings@);
    assert(w7 == w6 + zero_rate_warnings(op.id, op.name@, tc@));
    let is_chamfer = matches!(op.kind, OpKind::Chamfer);
    let is_vbit = matches!(tool.kind, ToolKind::VBit);
    if is_chamfer && !is_vbit {
        let mut m = String::from_str("Chamfer op '");
        m.append(op.name.as_str());
        m.append("' uses tool '");
        m.append(tool.name.as_str());
        m.append("' which is not a V-bit. The cone math assumes a conical cutter; flat / ball tools will not produce a true bevel.");
        push_warning(warnings, warning(Some(op.id), "chamfer_non_vbit", m));
    }
    proof {
        lemma_tool_index(project.tools@, op.tool_id);
        assert(wviews(warnings@) =~= w7 + chamfer_tool_warnings(*op, *tool));
        assert(wviews(warnings@) =~= wviews(old(warnings)@) + setup_warnings(*op, *tool, machine));
        assert(mill == op_mill(*op, *tool));
        assert(pockets == op_pockets(*op));
    }
    let tabs_active = contour && (p.tabs_active || tab_mode_on) && !troch;
    let setup = Setup { machine: setup_machine, tool: tc, mill, pockets, offset, plunge, tabs_active };
    proof {
        assert(op_setup_matches(setup, *op, *tool, machine));
        lemma_setup_keeps_profile_side(setup, *op, *tool, machine);
    }
    Ok(setup)
}

} // verus!

verus! {

/// Index of the first enabled op that cuts (not a program-only op).
pub open spec fn first_cut_op(ops: Seq<Op>) -> Option<int>
    decreases ops.len(),
{
    if ops.len() == 0 {
        None
    } else {
        match first_cut_op(ops.drop_last()) {
            Some(i) => Some(i),
            None => if ops.last().enabled && !program_only(ops.last().kind) {
                Some(ops.len() - 1)
            } else {
                None
            },
        }
    }
}

pub proof fn lemma_first_cut_op(ops: Seq<Op>)
    ensures
        first_cut_op(ops) matches Some(i) ==> 0 <= i < ops.len() && ops[i].enabled && !program_only(ops[i].kind)
            && forall|j: int| 0 <= j < i ==> !(ops[j].enabled && !program_only(ops[j].kind)),
        first_cut_op(ops) is None ==> forall|j: int| 0 <= j < ops.len() ==> !(ops[j].enabled && !program_only(ops[j].kind)),
    decreases ops.len(),
{
    if ops.len() > 0 {
        let d = ops.drop_last();
        lemma_first_cut_op(d);
        assert(forall|j: int| 0 <= j < d.len() ==> d[j] == ops[j]);
    }
}

/// The header tool for the first cutting op: the op's tool settings with
/// the nominal diameter.
pub open spec fn header_tool(op: Op, t: ToolEntry, m: MachineConfig) -> ToolConfigView {
    ToolConfigView { diameter_nm: t.diameter_nm, ..op_tool(op, t, m) }
}

/// The header tool when no op cuts: the first tool's general and finish
/// rates, clamped.
pub open spec fn fallback_tool(t: ToolEntry, m: MachineConfig) -> ToolConfigView {
    let (rs, rp, rf) = tool_rates(t, PassKind::Rough);
    let (fs, fp, ff) = tool_rates(t, PassKind::Finish);
    ToolConfigView {
        number: t.id,
        name: t.name@,
        diameter_nm: t.diameter_nm,
        speed: rpm_clamped(rs, m),
        pause: t.pause,
        mist: t.coolant == Coolant::Mist,
        flood: t.coolant == Coolant::Flood,
        rate_v: feed_clamped(rp, m),
        rate_h: feed_clamped(rf, m),
        speed_finish: rpm_clamped(fs, m),
        rate_v_finish: feed_clamped(fp, m),
        rate_h_finish: feed_clamped(ff, m),
    }
}

/// The all-zero tool.
pub open spec fn empty_tool() -> ToolConfigView {
    ToolConfigView {
        number: 0,
        name: Seq::empty(),
        diameter_nm: 0,
        speed: 0,
        pause: 0,
        mist: false,
        flood: false,
        rate_v: 0,
        rate_h: 0,
        speed_finish: 0,
        rate_v_finish: 0,
        rate_h_finish: 0,
    }
}

/// The tool the program header advertises.
pub open spec fn header_tool_of(p: Project) -> ToolConfigView {
    match first_cut_op(p.operations@) {
        Some(i) => match tool_index(p.tools@, p.operations@[i].tool_id) {
            Some(j) => header_tool(p.operations@[i], p.tools@[j], p.machine),
            None => empty_tool(),
        },
        None => if p.tools@.len() > 0 { fallback_tool(p.tools@[0], p.machine) } else { empty_tool() },
    }
}

/// The program header / footer setup: the project's machine and the tool
/// of the first enabled op that actually cuts (program-only ops such as
/// pauses are skipped), with its rates and overrides clamped silently;
/// the first tool of the project when no op cuts. The header cuts
/// nothing: its Z schedule is empty (zero depths, step and through depth)
/// but for the rapid-move height, which is that op's (zero when no op
/// cuts), and it pockets nothing.
pub fn header_setup_for(project: &Project) -> (s: Setup)
    ensures
        s.machine == project.machine,
        s.tool@ == header_tool_of(*project),
        s.mill == (MillDepths {
            depth_nm: Some(0),
            start_depth_nm: 0,
            step_nm: 0,
            fast_move_z_nm: match first_cut_op(project.operations@) {
                Some(i) => project.operations@[i].params.fast_move_z_nm,
                None => 0,
            },
            through_depth_nm: 0,
        }),
        s.pockets == (PocketConfig { active: false, islands: false, zigzag: false, insideout: false, nocontour: false }),
        s.offset == ToolOffset::Off,
        s.plunge == PlungeKind::Direct,
        !s.tabs_active,
{
    let machine = project.machine;
    let mut tool_cfg = ToolConfig::empty();
    let mut mill = MillDepths { depth_nm: Some(0), start_depth_nm: 0, step_nm: 0, fast_move_z_nm: 0, through_depth_nm: 0 };
    let mut k: usize = 0;
    let mut found: Option<usize> = None;
    while k < project.operations.len() && found.is_none()
        invariant
            k <= project.operations.len(),
            found is None ==> forall|j: int| 0 <= j < k ==> !(project.operations@[j].enabled && !program_only(project.operations@[j].kind)),
            found matches Some(f) ==> f < project.operations.len() && project.operations@[f as int].enabled
                && !program_only(project.operations@[f as int].kind)
                && forall|j: int| 0 <= j < f ==> !(project.operations@[j].enabled && !program_only(project.operations@[j].kind)),
        decreases project.operations.len() - k + (if found is None { 1int } else { 0int }),
    {
        let op = &project.operations[k];
        if op.enabled && !op.is_program_only() {
            found = Some(k);
        } else {
            k += 1;
        }
    }
    proof {
        lemma_first_cut_op(project.operations@);
    }
    match found {
        Some(k) => {
            let op = &project.operations[k];
            proof {
                assert(first_cut_op(project.operations@) == Some(k as int));
            }
            mill.fast_move_z_nm = op.params.fast_move_z_nm;
            if let Some(tool) = find_tool(&project.tools, op.tool_id) {
                let drill = matches!(op.kind, OpKind::Drill);
                let main_pass = if drill { PassKind::Drill } else { PassKind::Rough };
                let (rs_raw, rp, rf) = resolve_tool_rates(tool, main_pass);
                let (fs_raw, fp, ff) = if drill { (rs_raw, rp, rf) } else { resolve_tool_rates(tool, PassKind::Finish) };
                let rs = clamp_rpm_silent(rs_raw, &machine);
                let fs = if drill { rs } else { clamp_rpm_silent(fs_raw, &machine) };
                tool_cfg = ToolConfig {
                    number: tool.id,
                    name: tool.name.clone(),
                    diameter_nm: tool.diameter_nm,
                    speed: rs,
                    pause: tool.pause,
                    mist: matches!(tool.coolant, Coolant::Mist),
                    flood: matches!(tool.coolant, Coolant::Flood),
                    rate_v: clamp_feed_silent(op.params.plunge_rate_override.unwrap_or(rp), &machine),
                    rate_h: clamp_feed_silent(op.params.feed_rate_override.unwrap_or(rf), &machine),
                    speed_finish: fs,
                    rate_v_finish: clamp_feed_silent(op.params.plunge_rate_override.unwrap_or(fp), &machine),
                    rate_h_finish: clamp_feed_silent(op.params.feed_rate_override.unwrap_or(ff), &machine),
                };
            }
        },
        None => {
            proof {
                assert(first_cut_op(project.operations@) is None);
            }
            if project.tools.len() > 0 {
                let tool = &project.tools[0];
                let (rs_raw, rp, rf) = resolve_tool_rates(tool, PassKind::Rough);
                let (fs_raw, fp, ff) = resolve_tool_rates(tool, PassKind::Finish);
                tool_cfg = ToolConfig {
                    number: tool.id,
                    name: tool.name.clone(),
                    diameter_nm: tool.diameter_nm,
                    speed: clamp_rpm_silent(rs_raw, &machine),
                    pause: tool.pause,
                    mist: matches!(tool.coolant, Coolant::Mist),
                    flood: matches!(tool.coolant, Coolant::Flood),
                    rate_v: clamp_feed_silent(rp, &machine),
                    rate_h: clamp_feed_silent(rf, &machine),
                    speed_finish: clamp_rpm_silent(fs_raw, &machine),
                    rate_v_finish: clamp_feed_silent(fp, &machine),
                    rate_h_finish: clamp_feed_silent(ff, &machine),
                };
            }
        },
    }
    let pockets = PocketConfig { active: false, islands: false, zigzag: false, insideout: false, nocontour: false };
    Setup { machine, tool: tool_cfg, mill, pockets, offset: ToolOffset::Off, plunge: PlungeKind::Direct, tabs_active: false }
}

/// The finish-tool radius of a dual-tool pocket: half the finish tool's
/// diameter when a pocket op names a finish tool other than its own tool
/// and that tool exists.
pub fn dual_tool_finish_radius(op: &Op, project: &Project) -> (r: Option<u64>)
    ensures
        r == (if op.kind is Pocket {
            match op.finish_tool_id {
                Some(f) => if f == op.tool_id {
                    None
                } else {
                    match tool_index(project.tools@, f) {
                        Some(j) => Some(project.tools@[j].diameter_nm / 2),
                        None => None,
                    }
                },
                None => None,
            }
        } else {
            None
        }),
{
    if !matches!(op.kind, OpKind::Pocket { .. }) {
        return None;
    }
    let finish_id = match op.finish_tool_id {
        Some(f) => f,
        None => return None,
    };
    if finish_id == op.tool_id {
        return None;
    }
    match find_tool(&project.tools, finish_id) {
        Some(t) => Some(t.diameter_nm / 2),
        None => None,
    }
}

} // verus!
