use wiac_core::cam::{MachineConfig, MachineMode, PlungeKind, ToolOffset, UnitSystem};
use wiac_core::geometry::{PointNm, Segment, SegmentKind};
use wiac_core::pipeline::{PipelineError, PipelineWarning};
use wiac_core::project::{
    TabPlacementMode,
    Coolant, Op, OpKind, OpParams, OpSource, PassKind, PocketStrategy, Project, SourceCombine,
    ToolEntry, ToolKind, WorkOffset, resolve_tool_rates,
};
use wiac_core::selection::{VcObject, validate_op_source_objects};
use wiac_core::setup::{header_setup_for, synthesize_op_setup};
use wiac_core::warnings::{push_op_order_warnings, push_wcs_origin_warning};

const NM_PER_MM: f64 = 1_000_000.0;

fn nm(mm: f64) -> i64 {
    (mm * NM_PER_MM).round() as i64
}

fn endmill(id: u32, diameter_mm: f64) -> ToolEntry {
    ToolEntry {
        id,
        name: format!("{diameter_mm} mm endmill"),
        kind: ToolKind::Endmill,
        diameter_nm: nm(diameter_mm) as u64,
        tip_diameter_nm: None,
        kerf_nm: None,
        speed: 18_000,
        plunge_rate: 100,
        feed_rate: 800,
        speed_finish: None,
        plunge_rate_finish: None,
        feed_rate_finish: None,
        speed_drill: None,
        plunge_rate_drill: None,
        feed_rate_drill: None,
        pause: 0,
        default_step_nm: Some(-1_000_000),
        coolant: Coolant::Off,
    }
}

fn default_params() -> OpParams {
    OpParams {
        feed_rate_override: None,
        plunge_rate_override: None,
        depth_nm: -1_000_000,
        start_depth_nm: 0,
        step_nm: None,
        fast_move_z_nm: 5_000_000,
        through_depth_nm: 0,
        plunge: PlungeKind::Direct,
        tabs_active: false,
        tab_mode: TabPlacementMode::Off,
        pocket_islands: false,
        pocket_insideout: false,
        pocket_nocontour: false,
    }
}

fn op_of(id: u32, tool_id: u32, kind: OpKind, source: OpSource) -> Op {
    Op {
        id,
        name: format!("op {id}"),
        enabled: true,
        kind,
        tool_id,
        finish_tool_id: None,
        source,
        params: default_params(),
    }
}

fn profile_op(id: u32, tool_id: u32, offset: ToolOffset) -> Op {
    op_of(id, tool_id, OpKind::Profile { offset }, OpSource::All)
}

fn drill_op(id: u32, tool_id: u32) -> Op {
    op_of(id, tool_id, OpKind::Drill, OpSource::All)
}

fn pocket_op(id: u32, tool_id: u32, source: OpSource) -> Op {
    op_of(id, tool_id, OpKind::Pocket { strategy: PocketStrategy::Cascade }, source)
}

fn machine() -> MachineConfig {
    MachineConfig {
        mode: MachineMode::Mill,
        unit: UnitSystem::Mm,
        spindle_rpm_min: None,
        spindle_rpm_max: None,
        max_feed_mm_min: None,
        supports_toolchange: true,
    }
}

fn project_with_segments(segments: Vec<Segment>, ops: Vec<Op>, tools: Vec<ToolEntry>) -> Project {
    Project {
        segments,
        machine: machine(),
        tools,
        operations: ops,
        work_offset: WorkOffset { x_nm: 0, y_nm: 0 },
    }
}

fn project_with(ops: Vec<Op>, tools: Vec<ToolEntry>) -> Project {
    project_with_segments(Vec::new(), ops, tools)
}

fn line(x0: f64, y0: f64, x1: f64, y1: f64) -> Segment {
    Segment {
        kind: SegmentKind::Line,
        start: PointNm { x: nm(x0), y: nm(y0) },
        end: PointNm { x: nm(x1), y: nm(y1) },
        layer: "0".to_string(),
        color: 7,
    }
}

fn closed_square_offset(x: f64, y: f64, size: f64) -> Vec<Segment> {
    vec![
        line(x, y, x + size, y),
        line(x + size, y, x + size, y + size),
        line(x + size, y + size, x, y + size),
        line(x, y + size, x, y),
    ]
}

fn closed_square(size: f64) -> Vec<Segment> {
    closed_square_offset(0.0, 0.0, size)
}

#[test]
fn validate_op_source_missing_id_warns() {
    let _tool = endmill(1, 3.0);
    let mut op = profile_op(7, 1, ToolOffset::Outside);
    op.source = OpSource::Objects { ids: vec![1, 42], combine: SourceCombine::Auto };
    let mut warnings: Vec<PipelineWarning> = Vec::new();
    let objects: Vec<VcObject> = Vec::new();
    validate_op_source_objects(&op, &objects, &mut warnings);
    assert!(
        warnings.iter().any(|w| w.kind == "op_source_missing_object"
            && w.op_id == Some(7)
            && w.message.contains("42")),
        "expected op_source_missing_object warning for id 42, got {:?}",
        warnings
    );
    assert!(
        warnings.iter().any(|w| w.kind == "op_source_empty"),
        "expected op_source_empty when EVERY id is missing, got {:?}",
        warnings
    );
}

#[test]
fn validate_op_source_all_emits_no_warning() {
    let op = profile_op(1, 1, ToolOffset::Outside);
    let mut warnings: Vec<PipelineWarning> = Vec::new();
    let objects: Vec<VcObject> = Vec::new();
    validate_op_source_objects(&op, &objects, &mut warnings);
    assert!(warnings.is_empty(), "OpSource::All should not warn");
}

#[test]
fn plasma_kerf_overrides_effective_cut_diameter() {
    let mut tool = endmill(1, 10.0);
    tool.kerf_nm = Some(nm(2.0) as u64);
    let op = profile_op(1, 1, ToolOffset::Outside);

    let mut project = project_with(vec![op.clone()], vec![tool.clone()]);
    project.machine.mode = MachineMode::Mill;
    let setup = synthesize_op_setup(&op, &project, &mut Vec::new()).unwrap();
    assert_eq!(setup.tool.diameter_nm, nm(10.0) as u64);

    project.machine.mode = MachineMode::Plasma;
    let setup_p = synthesize_op_setup(&op, &project, &mut Vec::new()).unwrap();
    assert_eq!(
        setup_p.tool.diameter_nm,
        nm(2.0) as u64,
        "plasma kerf should override effective cut diameter, got {}",
        setup_p.tool.diameter_nm
    );

    let mut tool_nk = endmill(1, 10.0);
    tool_nk.kerf_nm = None;
    let mut project_nk = project_with(vec![op.clone()], vec![tool_nk]);
    project_nk.machine.mode = MachineMode::Plasma;
    let setup_nk = synthesize_op_setup(&op, &project_nk, &mut Vec::new()).unwrap();
    assert_eq!(setup_nk.tool.diameter_nm, nm(10.0) as u64);
}

#[test]
fn resolve_tool_rates_falls_back_when_unset() {
    let t = endmill(1, 3.0);
    assert_eq!(resolve_tool_rates(&t, PassKind::Rough), (18_000, 100, 800));
    assert_eq!(resolve_tool_rates(&t, PassKind::Finish), (18_000, 100, 800));
    assert_eq!(resolve_tool_rates(&t, PassKind::Drill), (18_000, 100, 800));
}

#[test]
fn resolve_tool_rates_honors_per_pass_overrides() {
    let mut t = endmill(1, 3.0);
    t.speed_finish = Some(12_000);
    t.feed_rate_finish = Some(400);
    t.speed_drill = Some(8_000);
    t.feed_rate_drill = Some(200);
    t.plunge_rate_drill = Some(50);
    assert_eq!(resolve_tool_rates(&t, PassKind::Rough), (18_000, 100, 800));
    assert_eq!(resolve_tool_rates(&t, PassKind::Finish), (12_000, 100, 400));
    assert_eq!(resolve_tool_rates(&t, PassKind::Drill), (8_000, 50, 200));
}

#[test]
fn header_setup_skips_leading_pause_op() {
    let tool1 = endmill(1, 3.0);
    let mut tool2 = endmill(2, 6.0);
    tool2.feed_rate = 1234;
    tool2.speed = 9876;
    let pause = Op {
        id: 1,
        name: "pause".to_string(),
        enabled: true,
        kind: OpKind::Pause { message: "swap stock".to_string() },
        tool_id: 1,
        finish_tool_id: None,
        source: OpSource::All,
        params: default_params(),
    };
    let cut = profile_op(2, 2, ToolOffset::Outside);
    let project = project_with(vec![pause, cut], vec![tool1, tool2]);
    let header = header_setup_for(&project);
    assert_eq!(header.tool.number, 2, "header should advertise tool 2, not the pause op's tool 1");
    assert_eq!(header.tool.rate_h, 1234, "header feed should be tool 2's");
    assert_eq!(header.tool.speed, 9876, "header spindle should be tool 2's");
}

#[test]
fn header_setup_reads_tool_pause() {
    let mut tool = endmill(1, 3.0);
    tool.pause = 7;
    let op = profile_op(1, 1, ToolOffset::Outside);
    let project = project_with(vec![op], vec![tool]);
    let header = header_setup_for(&project);
    assert_eq!(header.tool.pause, 7, "header_setup_for must propagate tool.pause, got {}", header.tool.pause);
}

#[test]
fn header_setup_fallback_branch_reads_tool_pause() {
    let mut tool = endmill(1, 3.0);
    tool.pause = 4;
    let project = project_with(vec![], vec![tool]);
    let header = header_setup_for(&project);
    assert_eq!(header.tool.pause, 4);
}

#[test]
fn cancelled_lifts_to_none() {
    let err = PipelineError::Cancelled;
    assert!(err.to_structured(None).is_none());
}

#[test]
fn op_order_drill_after_profile_emits_warning() {
    let tool = endmill(1, 3.0);
    let profile = profile_op(1, 1, ToolOffset::Outside);
    let drill = drill_op(2, 1);
    let project = project_with(vec![profile, drill], vec![tool]);
    let mut warnings: Vec<PipelineWarning> = Vec::new();
    push_op_order_warnings(&project, &mut warnings);
    let hit = warnings.iter().find(|w| w.kind == "op_order_suspect").expect("expected op_order_suspect");
    assert_eq!(hit.op_id, Some(2));
    assert!(hit.message.contains("drill_after_profile"), "expected drill_after_profile tag, got {}", hit.message);
}

#[test]
fn op_order_drill_before_profile_no_warning() {
    let tool = endmill(1, 3.0);
    let drill = drill_op(1, 1);
    let profile = profile_op(2, 1, ToolOffset::Outside);
    let project = project_with(vec![drill, profile], vec![tool]);
    let mut warnings: Vec<PipelineWarning> = Vec::new();
    push_op_order_warnings(&project, &mut warnings);
    assert!(
        warnings.iter().all(|w| w.kind != "op_order_suspect"),
        "no op_order_suspect expected in safe order, got {warnings:?}"
    );
}

#[test]
fn op_order_finish_before_rough_emits_warning() {
    let tool_small = endmill(1, 1.0);
    let tool_big = endmill(2, 6.0);
    let pocket_small = pocket_op(1, 1, OpSource::All);
    let pocket_big = pocket_op(2, 2, OpSource::All);
    let project = project_with(vec![pocket_small, pocket_big], vec![tool_small, tool_big]);
    let mut warnings: Vec<PipelineWarning> = Vec::new();
    push_op_order_warnings(&project, &mut warnings);
    let hit = warnings
        .iter()
        .find(|w| w.kind == "op_order_suspect" && w.op_id == Some(1))
        .expect("expected op_order_suspect for the smaller-tool first op");
    assert!(hit.message.contains("finish-before-rough"), "message should mention finish-before-rough: {}", hit.message);
}

#[test]
fn stock_bbox_not_containing_origin_emits_warning() {
    let segs = closed_square_offset(100.0, 100.0, 100.0);
    let tool = endmill(1, 3.0);
    let profile = profile_op(1, 1, ToolOffset::Outside);
    let project = project_with_segments(segs, vec![profile], vec![tool]);
    let mut warnings: Vec<PipelineWarning> = Vec::new();
    push_wcs_origin_warning(&project, &mut warnings);
    let hit = warnings
        .iter()
        .find(|w| w.kind == "stock_origin_outside_geometry_bbox")
        .expect("expected WCS origin warning when geometry doesn't include (0,0)");
    assert_eq!(hit.op_id, None, "WCS warning is project-wide, not per-op");
}

#[test]
fn stock_bbox_containing_origin_no_warning() {
    let segs = closed_square(20.0);
    let tool = endmill(1, 3.0);
    let profile = profile_op(1, 1, ToolOffset::Outside);
    let project = project_with_segments(segs, vec![profile], vec![tool]);
    let mut warnings: Vec<PipelineWarning> = Vec::new();
    push_wcs_origin_warning(&project, &mut warnings);
    assert!(
        warnings.iter().all(|w| w.kind != "stock_origin_outside_geometry_bbox"),
        "no WCS warning expected, got {warnings:?}"
    );
}

#[test]
fn stock_origin_warning_reports_the_box_in_mm() {
    let segs = closed_square_offset(100.0, 100.0, 100.0);
    let project = project_with_segments(segs, vec![], vec![]);
    let mut warnings: Vec<PipelineWarning> = Vec::new();
    push_wcs_origin_warning(&project, &mut warnings);
    assert_eq!(warnings.len(), 1);
    assert!(warnings[0].message.starts_with("Geometry bbox (100.00, 100.00) → (200.00, 200.00)"), "{}", warnings[0].message);
}

#[test]
fn unknown_tool_is_a_structured_error() {
    let op = profile_op(3, 9, ToolOffset::Outside);
    let project = project_with(vec![op.clone()], vec![endmill(1, 3.0)]);
    match synthesize_op_setup(&op, &project, &mut Vec::new()) {
        Err(PipelineError::UnknownTool(op_id, tool_id)) => {
            assert_eq!((op_id, tool_id), (3, 9));
        },
        other => panic!("expected UnknownTool, got {other:?}"),
    }
}

#[test]
fn chamfer_with_non_vbit_warns() {
    let mut op = op_of(1, 1, OpKind::Chamfer, OpSource::All);
    op.name = "Chamfer".to_string();
    let project = project_with_segments(closed_square(50.0), vec![op.clone()], vec![endmill(1, 3.0)]);
    let mut warnings = Vec::new();
    synthesize_op_setup(&op, &project, &mut warnings).unwrap();
    assert!(warnings.iter().any(|w| w.kind == "chamfer_non_vbit"));
    let w = warnings.iter().find(|w| w.kind == "chamfer_non_vbit").unwrap();
    assert_eq!(w.op_id, Some(1));
    assert!(w.message.starts_with("Chamfer op 'Chamfer' uses tool '"));
}

#[test]
fn chamfer_with_vbit_does_not_warn() {
    let op = op_of(1, 1, OpKind::Chamfer, OpSource::All);
    let mut vbit = endmill(1, 6.0);
    vbit.kind = ToolKind::VBit;
    let project = project_with_segments(closed_square(50.0), vec![op.clone()], vec![vbit]);
    let mut warnings = Vec::new();
    synthesize_op_setup(&op, &project, &mut warnings).unwrap();
    assert!(!warnings.iter().any(|w| w.kind == "chamfer_non_vbit"));
}

#[test]
fn op_step_wins_over_tool_default_and_must_be_negative() {
    let tool = endmill(1, 3.0);
    let mut op = profile_op(1, 1, ToolOffset::Outside);
    let project = project_with(vec![op.clone()], vec![tool.clone()]);
    let mut w = Vec::new();
    let s = synthesize_op_setup(&op, &project, &mut w).unwrap();
    assert_eq!(s.mill.step_nm, -1_000_000, "tool default step");
    assert!(!w.iter().any(|w| w.kind == "step_unspecified"));
    op.params.step_nm = Some(-500_000);
    let s = synthesize_op_setup(&op, &project, &mut Vec::new()).unwrap();
    assert_eq!(s.mill.step_nm, -500_000, "op step wins");
    op.params.step_nm = Some(250_000);
    let mut w = Vec::new();
    let s = synthesize_op_setup(&op, &project, &mut w).unwrap();
    assert_eq!(s.mill.step_nm, 0);
    assert_eq!(w[0].kind, "step_unspecified");
    assert_eq!(w[0].op_id, Some(1));
    assert_eq!(w[0].message, "depth-per-pass not set on the operation or its tool's default_step");
    assert_eq!((s.mill.depth_nm, s.mill.start_depth_nm, s.mill.fast_move_z_nm), (Some(-1_000_000), 0, 5_000_000));
}

#[test]
fn tslot_and_dovetail_cut_in_one_pass() {
    let tool = endmill(1, 3.0);
    let mut op = op_of(1, 1, OpKind::TSlot, OpSource::All);
    op.params.depth_nm = -6_000_000;
    op.params.start_depth_nm = -1_000_000;
    op.params.through_depth_nm = 200_000;
    let project = project_with(vec![op.clone()], vec![tool.clone()]);
    let s = synthesize_op_setup(&op, &project, &mut Vec::new()).unwrap();
    assert_eq!((s.mill.step_nm, s.mill.through_depth_nm), (-5_000_000, 0));
    let mut flat = op_of(2, 1, OpKind::Dovetail, OpSource::All);
    flat.params.depth_nm = 0;
    let s = synthesize_op_setup(&flat, &project, &mut Vec::new()).unwrap();
    assert_eq!(s.mill.step_nm, -1);
}

#[test]
fn header_setup_reads_first_cut_ops_rapid_height() {
    let pause = op_of(1, 1, OpKind::Pause { message: String::new() }, OpSource::All);
    let mut cut = profile_op(2, 1, ToolOffset::Outside);
    cut.params.fast_move_z_nm = 7_500_000;
    let project = project_with(vec![pause, cut], vec![endmill(1, 3.0)]);
    assert_eq!(header_setup_for(&project).mill.fast_move_z_nm, 7_500_000);
}

#[test]
fn chamfer_schedule_starts_at_the_surface_without_through_depth() {
    let mut op = op_of(1, 1, OpKind::Chamfer, OpSource::All);
    op.params.start_depth_nm = -2_000_000;
    op.params.through_depth_nm = 300_000;
    let project = project_with(vec![op.clone()], vec![endmill(1, 3.0)]);
    let s = synthesize_op_setup(&op, &project, &mut Vec::new()).unwrap();
    assert_eq!(s.mill.depth_nm, None, "the cone math sets the chamfer depth");
    assert_eq!((s.mill.start_depth_nm, s.mill.through_depth_nm, s.mill.step_nm), (0, 0, -1_000_000));
}

#[test]
fn pocket_settings_and_tab_rule() {
    let mut pocket = op_of(1, 1, OpKind::Pocket { strategy: PocketStrategy::Zigzag }, OpSource::All);
    pocket.params.pocket_islands = true;
    pocket.params.pocket_nocontour = true;
    pocket.params.tab_mode = TabPlacementMode::Auto;
    let project = project_with(vec![pocket.clone()], vec![endmill(1, 3.0)]);
    let s = synthesize_op_setup(&pocket, &project, &mut Vec::new()).unwrap();
    assert_eq!(
        (s.pockets.active, s.pockets.islands, s.pockets.zigzag, s.pockets.insideout, s.pockets.nocontour),
        (true, true, true, false, true)
    );
    assert!(s.tabs_active, "a tab mode other than Off turns tabs on");
    let mut troch = pocket.clone();
    troch.kind = OpKind::Pocket { strategy: PocketStrategy::Trochoidal };
    troch.params.tabs_active = true;
    let s = synthesize_op_setup(&troch, &project, &mut Vec::new()).unwrap();
    assert!(!s.tabs_active && !s.pockets.zigzag);
    let mut drill = drill_op(2, 1);
    drill.params.tabs_active = true;
    drill.params.pocket_islands = true;
    let s = synthesize_op_setup(&drill, &project, &mut Vec::new()).unwrap();
    assert!(!s.tabs_active, "only contour ops carry tabs");
    assert!(!s.pockets.active && !s.pockets.islands);
    let mut legacy = profile_op(3, 1, ToolOffset::Outside);
    legacy.params.tabs_active = true;
    assert!(synthesize_op_setup(&legacy, &project, &mut Vec::new()).unwrap().tabs_active);
}

#[test]
fn header_schedule_is_empty_but_for_the_rapid_height() {
    let project = project_with(vec![], vec![endmill(1, 3.0)]);
    let h = header_setup_for(&project);
    assert_eq!((h.mill.depth_nm, h.mill.step_nm, h.mill.fast_move_z_nm, h.mill.through_depth_nm), (Some(0), 0, 0, 0));
    assert!(!h.pockets.active);
}
