//! Machine / tool setup values the post-processors and the setup resolver
//! work with. Lengths are integer nanometres; feeds are mm/min; spindle
//! speeds are RPM.

use vstd::prelude::*;

verus! {

/// Unit system of the emitted program.
#[derive(Clone, Copy, Debug, PartialEq, Eq, Structural)]
pub enum UnitSystem {
    Mm,
    Inch,
}

/// Cutter-radius compensation side requested by an operation.
#[derive(Clone, Copy, Debug, PartialEq, Eq, Structural)]
pub enum ToolOffset {
    Off,
    Inside,
    Outside,
    On,
}

/// Kind of machine the program drives.
#[derive(Clone, Copy, Debug, PartialEq, Eq, Structural)]
pub enum MachineMode {
    Mill,
    Laser,
    Plasma,
    Drag,
}

/// Plunge strategy requested by an operation.
#[derive(Clone, Copy, Debug, PartialEq, Eq, Structural)]
pub enum PlungeKind {
    Direct,
    Ramp,
    Helix,
}

/// The machine limits and capabilities the resolver consults.
#[derive(Clone, Copy, Debug)]
pub struct MachineConfig {
    pub mode: MachineMode,
    pub unit: UnitSystem,
    /// Spindle floor, RPM (`None` = no floor).
    pub spindle_rpm_min: Option<u32>,
    /// Spindle ceiling, RPM (`None` = no ceiling).
    pub spindle_rpm_max: Option<u32>,
    /// Feed ceiling, mm/min (`None` = no ceiling).
    pub max_feed_mm_min: Option<u32>,
    /// Whether the controller accepts `T<n> M6`.
    pub supports_toolchange: bool,
}

/// Resolved per-op tool settings.
#[derive(Clone, Debug)]
pub struct ToolConfig {
    /// Spindle tool number (the tool entry's id).
    pub number: u32,
    pub name: String,
    /// Effective cutting diameter in nanometres.
    pub diameter_nm: u64,
    /// Rough / general spindle speed, RPM.
    pub speed: u32,
    /// Spindle warm-up pause, seconds.
    pub pause: u32,
    pub mist: bool,
    pub flood: bool,
    /// Rough plunge feed, mm/min.
    pub rate_v: u32,
    /// Rough cutting feed, mm/min.
    pub rate_h: u32,
    /// Finish spindle speed, RPM.
    pub speed_finish: u32,
    /// Finish plunge feed, mm/min.
    pub rate_v_finish: u32,
    /// Finish cutting feed, mm/min.
    pub rate_h_finish: u32,
}

/// A resolved tool's settings as plain values.
pub struct ToolConfigView {
    pub number: u32,
    pub name: Seq<char>,
    pub diameter_nm: u64,
    pub speed: u32,
    pub pause: u32,
    pub mist: bool,
    pub flood: bool,
    pub rate_v: u32,
    pub rate_h: u32,
    pub speed_finish: u32,
    pub rate_v_finish: u32,
    pub rate_h_finish: u32,
}

impl View for ToolConfig {
    type V = ToolConfigView;

    open spec fn view(&self) -> ToolConfigView {
        ToolConfigView {
            number: self.number,
            name: self.name@,
            diameter_nm: self.diameter_nm,
            speed: self.speed,
            pause: self.pause,
            mist: self.mist,
            flood: self.flood,
            rate_v: self.rate_v,
            rate_h: self.rate_h,
            speed_finish: self.speed_finish,
            rate_v_finish: self.rate_v_finish,
            rate_h_finish: self.rate_h_finish,
        }
    }
}

impl ToolConfig {
    /// The all-zero tool a setup starts from before a tool is resolved.
    pub fn empty() -> (t: ToolConfig)
        ensures
            t.number == 0,
            t.name@ == Seq::<char>::empty(),
            t.diameter_nm == 0,
            t.speed == 0,
            t.pause == 0,
            !t.mist,
            !t.flood,
            t.rate_v == 0,
            t.rate_h == 0,
            t.speed_finish == 0,
            t.rate_v_finish == 0,
            t.rate_h_finish == 0,
    {
        ToolConfig {
            number: 0,
            name: String::new(),
            diameter_nm: 0,
            speed: 0,
            pause: 0,
            mist: false,
            flood: false,
            rate_v: 0,
            rate_h: 0,
            speed_finish: 0,
            rate_v_finish: 0,
            rate_h_finish: 0,
        }
    }
}

/// The Z schedule of an op: final depth, start depth, depth per pass,
/// rapid-move height and extra depth below the stock.
#[derive(Clone, Copy, Debug, PartialEq, Eq, Structural)]
pub struct MillDepths {
    /// Final depth; `None` for a chamfer op, whose depth the V-bit cone
    /// math sets from the chamfer width.
    pub depth_nm: Option<i64>,
    pub start_depth_nm: i64,
    /// Depth per pass (negative; zero when none could be resolved).
    pub step_nm: i64,
    pub fast_move_z_nm: i64,
    pub through_depth_nm: u64,
}

/// The pocketing choices of an op (all off for an op that is not a
/// pocket).
#[derive(Clone, Copy, Debug, PartialEq, Eq, Structural)]
pub struct PocketConfig {
    pub active: bool,
    pub islands: bool,
    pub zigzag: bool,
    pub insideout: bool,
    pub nocontour: bool,
}

/// A per-op (or program header) setup: machine, resolved tool, and the
/// op-level choices the emitter reads.
#[derive(Clone, Debug)]
pub struct Setup {
    pub machine: MachineConfig,
    pub tool: ToolConfig,
    /// The Z schedule.
    pub mill: MillDepths,
    /// The pocketing choices.
    pub pockets: PocketConfig,
    /// Cutter compensation side.
    pub offset: ToolOffset,
    /// Resolved plunge strategy.
    pub plunge: PlungeKind,
    /// Whether tabs will be emitted.
    pub tabs_active: bool,
}

} // verus!
