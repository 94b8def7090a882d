use wiac_core::cam::{MachineConfig, MachineMode, PlungeKind, UnitSystem};
use wiac_core::errors::{AutoFix, ErrorKind};
use wiac_core::geometry::{BBox, PointNm, Segment, SegmentKind};
use wiac_core::pipeline::{CancelToken, PipelineError, cancelled};
use wiac_core::project::{
    TabPlacementMode,
    Coolant, Op, OpKind, OpParams, OpRates, OpSource, Project, SourceCombine, ToolEntry, ToolKind, WorkOffset,
    op_rates, spindle_warmup_seconds,
};
use wiac_core::selection::{VcObject, helix_candidates, op_includes_object, ordered_selection, resolve_op_segments};
use wiac_core::setup::{clamp_feed_silent, clamp_rpm_silent};

fn machine(min: Option<u32>, max: Option<u32>, feed_max: Option<u32>) -> MachineConfig {
    MachineConfig {
        mode: MachineMode::Mill,
        unit: UnitSystem::Mm,
        spindle_rpm_min: min,
        spindle_rpm_max: max,
        max_feed_mm_min: feed_max,
        supports_toolchange: true,
    }
}

#[test]
fn bbox_extends() {
    let mut bbox = BBox { min_x: 1_000_000, min_y: 2_000_000, max_x: 1_000_000, max_y: 2_000_000 };
    bbox.extend_point(PointNm { x: 1_000_000, y: 2_000_000 });
    bbox.extend_point(PointNm { x: -3_000_000, y: 4_000_000 });
    assert_eq!(bbox.min_x, -3_000_000);
    assert_eq!(bbox.max_x, 1_000_000);
    assert_eq!(bbox.max_y, 4_000_000);
}

fn seg(x0: i64, y0: i64, x1: i64, y1: i64) -> Segment {
    Segment {
        kind: SegmentKind::Line,
        start: PointNm { x: x0, y: y0 },
        end: PointNm { x: x1, y: y1 },
        layer: "0".to_string(),
        color: 7,
    }
}

#[test]
fn bbox_of_segments_holds_every_end_point() {
    let segs = vec![seg(5, -2, 9, 4), seg(-7, 3, 0, 11)];
    let b = BBox::from_segments(&segs);
    assert_eq!(b, BBox { min_x: -7, min_y: -2, max_x: 9, max_y: 11 });
    assert_eq!((b.width(), b.height()), (16, 13));
    for s in &segs {
        for p in [s.start, s.end] {
            assert!(b.min_x <= p.x && p.x <= b.max_x && b.min_y <= p.y && p.y <= b.max_y);
        }
    }
    assert_eq!(BBox::from_segments(&[]), BBox { min_x: 0, min_y: 0, max_x: 10_000_000, max_y: 10_000_000 });
}

#[test]
fn spindle_clamp_window() {
    let m = machine(Some(6_000), Some(12_000), None);
    assert_eq!(clamp_rpm_silent(24_000, &m), 12_000);
    assert_eq!(clamp_rpm_silent(1_000, &m), 6_000);
    assert_eq!(clamp_rpm_silent(9_000, &m), 9_000);
    assert_eq!(clamp_rpm_silent(clamp_rpm_silent(24_000, &m), &m), 12_000);
    // An inverted window: the floor is applied last and wins.
    let inverted = machine(Some(10), Some(5), None);
    assert_eq!(clamp_rpm_silent(7, &inverted), 10);
    assert_eq!(clamp_rpm_silent(7, &machine(None, None, None)), 7);
}

#[test]
fn feed_clamp_ceiling() {
    let m = machine(None, None, Some(2_000));
    assert_eq!(clamp_feed_silent(5_000, &m), 2_000);
    assert_eq!(clamp_feed_silent(800, &m), 800);
    assert_eq!(clamp_feed_silent(5_000, &machine(None, None, None)), 5_000);
}

fn params() -> OpParams {
    OpParams {
        feed_rate_override: None,
        plunge_rate_override: None,
        depth_nm: -1_000_000,
        start_depth_nm: 0,
        step_nm: None,
        fast_move_z_nm: 5_000_000,
        through_depth_nm: 0,
        plunge: PlungeKind::Direct,
        tabs_active: false,
        tab_mode: TabPlacementMode::Off,
        pocket_islands: false,
        pocket_insideout: false,
        pocket_nocontour: false,
    }
}

fn op(id: u32, tool_id: u32, enabled: bool, source: OpSource) -> Op {
    Op {
        id,
        name: format!("op {id}"),
        enabled,
        kind: OpKind::Engrave,
        tool_id,
        finish_tool_id: None,
        source,
        params: params(),
    }
}

fn object(layer: &str) -> VcObject {
    VcObject { layer: layer.to_string(), closed: true, segments: Vec::new() }
}

#[test]
fn selection_agrees_with_membership() {
    let objects = vec![object("a"), object("b"), object("a")];
    let sources = vec![
        OpSource::All,
        OpSource::Layers { layers: vec!["a".to_string()], combine: SourceCombine::Auto },
        OpSource::Objects { ids: vec![3, 9, 0, 1], combine: SourceCombine::Union },
    ];
    let expected: Vec<Vec<usize>> = vec![vec![0, 1, 2], vec![0, 2], vec![2, 0]];
    for (source, want) in sources.into_iter().zip(expected) {
        let o = op(1, 1, true, source);
        let sel = ordered_selection(&o, &objects);
        assert_eq!(sel, want);
        for (i, obj) in objects.iter().enumerate() {
            assert_eq!(sel.contains(&i), op_includes_object(&o, obj, i));
        }
    }
}

fn tool(id: u32, pause: u32) -> ToolEntry {
    ToolEntry {
        id,
        name: format!("t{id}"),
        kind: ToolKind::Endmill,
        diameter_nm: 3_000_000,
        tip_diameter_nm: None,
        kerf_nm: None,
        speed: 18_000,
        plunge_rate: 100,
        feed_rate: 800,
        speed_finish: None,
        plunge_rate_finish: None,
        feed_rate_finish: None,
        speed_drill: None,
        plunge_rate_drill: None,
        feed_rate_drill: None,
        pause,
        default_step_nm: Some(-1_000_000),
        coolant: Coolant::Off,
    }
}

fn project(ops: Vec<Op>, tools: Vec<ToolEntry>) -> Project {
    Project {
        segments: Vec::new(),
        machine: machine(None, None, None),
        tools,
        operations: ops,
        work_offset: WorkOffset { x_nm: 0, y_nm: 0 },
    }
}

#[test]
fn warmup_sums_pauses_of_used_tools() {
    let p = project(
        vec![op(1, 1, true, OpSource::All), op(2, 3, false, OpSource::All), op(3, 1, true, OpSource::All)],
        vec![tool(1, 2), tool(2, 5), tool(3, 7), tool(1, 4)],
    );
    assert_eq!(spindle_warmup_seconds(&p), 6);
}

#[test]
fn structured_errors() {
    let p = project(vec![], vec![tool(4, 0)]);
    let e = PipelineError::UnknownTool(7, 9).to_structured(Some(&p)).expect("error");
    assert_eq!(e.kind, ErrorKind::Misconfigured);
    assert_eq!(e.message, "op 7 references missing tool 9");
    assert_eq!(e.recovery_hint.as_deref(), Some("Pick a tool from the library."));
    assert_eq!(e.auto_fix, Some(AutoFix::AssignTool { op_id: 7, suggested_tool_id: 4 }));
    let no_fix = PipelineError::UnknownTool(7, 9).to_structured(None).expect("error");
    assert_eq!(no_fix.auto_fix, None);
    let post = PipelineError::UnknownPostProcessor("mach3".to_string()).to_structured(None).expect("error");
    assert_eq!(post.message, "unknown post_processor: mach3");
    let kind = PipelineError::UnimplementedKind(Box::new(OpKind::Probe)).to_structured(None).expect("error");
    assert_eq!(kind.kind, ErrorKind::Unsupported);
    assert_eq!(kind.message, "operation kind Probe is not implemented yet");
    let pause = OpKind::Pause { message: "say \"hi\"\n".to_string() };
    let quoted = PipelineError::UnimplementedKind(Box::new(pause)).to_structured(None).expect("error");
    assert_eq!(quoted.message, "operation kind Pause { message: \"say \\\"hi\\\"\\n\" } is not implemented yet");
    let uncompensated = OpKind::Profile { offset: wiac_core::cam::ToolOffset::Off };
    let off = PipelineError::UnimplementedKind(Box::new(uncompensated)).to_structured(None).expect("error");
    assert_eq!(off.message, "operation kind Profile { offset: None } is not implemented yet");
    let plain_pause = OpKind::Pause { message: "swap stock".to_string() };
    let plain = PipelineError::UnimplementedKind(Box::new(plain_pause)).to_structured(None).expect("error");
    assert_eq!(plain.message, "operation kind Pause { message: \"swap stock\" } is not implemented yet");
    let text = PipelineError::TextRender("no glyphs".to_string()).to_structured(None).expect("error");
    assert_eq!(text.message, "text render: no glyphs");
    assert!(PipelineError::Cancelled.to_structured(Some(&p)).is_none());
}

#[test]
fn cancel_token_is_shared_by_clones() {
    let token = CancelToken::new();
    let clone = token.clone();
    assert!(!cancelled(Some(&token)));
    assert!(!cancelled(None));
    clone.cancel();
    assert!(token.is_cancelled());
    assert!(cancelled(Some(&token)));
}

fn seg_on(layer: &str, x: i64) -> Segment {
    Segment {
        kind: SegmentKind::Line,
        start: PointNm { x, y: 0 },
        end: PointNm { x: x + 1, y: 0 },
        layer: layer.to_string(),
        color: 1,
    }
}

#[test]
fn op_segments_follow_the_source() {
    let all = vec![seg_on("a", 0), seg_on("b", 10), seg_on("a", 20)];
    let objects = vec![
        VcObject { layer: "a".to_string(), closed: false, segments: vec![seg_on("a", 0)] },
        VcObject { layer: "b".to_string(), closed: false, segments: vec![seg_on("b", 10), seg_on("b", 30)] },
    ];
    let xs = |v: Vec<Segment>| v.iter().map(|s| s.start.x).collect::<Vec<i64>>();
    let all_op = op(1, 1, true, OpSource::All);
    assert_eq!(xs(resolve_op_segments(&all_op, &all, &objects)), vec![0, 10, 20]);
    let layer_op = op(1, 1, true, OpSource::Layers { layers: vec!["a".to_string()], combine: SourceCombine::Auto });
    assert_eq!(xs(resolve_op_segments(&layer_op, &all, &objects)), vec![0, 20]);
    // Ids are 1-based; id 0 saturates to the first object; ids past the end add nothing.
    let id_op = op(1, 1, true, OpSource::Objects { ids: vec![2, 7, 0], combine: SourceCombine::Auto });
    assert_eq!(xs(resolve_op_segments(&id_op, &all, &objects)), vec![10, 30, 0]);
}

#[test]
fn op_rates_skip_ops_without_tool() {
    let mut t = tool(2, 0);
    t.plunge_rate = 60;
    t.feed_rate = 900;
    let p = project(vec![op(5, 2, true, OpSource::All), op(6, 8, true, OpSource::All), op(7, 2, false, OpSource::All)], vec![t]);
    let want = OpRates { op_id: 5, plunge_rate_mm_min: 60, feed_rate_mm_min: 900 };
    assert_eq!(op_rates(&p), vec![want, OpRates { op_id: 7, ..want }]);
}

#[test]
fn helix_preview_selection() {
    assert_eq!(helix_candidates(&vec![], 3), vec![0, 1, 2]);
    assert_eq!(helix_candidates(&vec![3, 0, 4, 1], 3), vec![2, 0]);
}
