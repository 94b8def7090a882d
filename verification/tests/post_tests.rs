use wiac_core::cam::{ToolOffset, UnitSystem};
use wiac_core::hpgl;
use wiac_core::linuxcnc;
use wiac_core::op_loop::{OpLoopAction, OpLoopEvent, emit_pause_op, op_loop_step, toolchange_step};
use wiac_core::pipeline::count_tool_changes;
use wiac_core::project::{
    TabPlacementMode,Coolant, Op, OpKind, OpParams, OpSource, ToolEntry, ToolKind};
use wiac_core::cam::PlungeKind;

#[test]
fn linuxcnc_program_text() {
    let mut p = linuxcnc::Post::new();
    p.program_start();
    p.unit(UnitSystem::Mm);
    p.absolute(true);
    p.tool(3);
    p.spindle_cw(12000, 2);
    p.spindle_cw(12000, 2);
    p.feedrate(800);
    p.feedrate(800);
    p.tool_offsets(ToolOffset::Outside);
    p.comment("hello");
    p.coolant_flood();
    p.spindle_off();
    p.program_end();
    assert_eq!(
        p.finish(),
        "(generated by wiaConstructor)\nG21\nG90\nT3 M6\nM3 S12000\nG4 P2\nF800\nG41\n(hello)\nM8\nM5\nM30\n"
    );
}

#[test]
fn linuxcnc_spindle_restart_after_stop() {
    let mut p = linuxcnc::Post::new();
    p.spindle_ccw(9000, 0);
    p.spindle_off();
    p.spindle_ccw(9000, 0);
    assert_eq!(p.finish(), "M4 S9000\nM5\nM4 S9000\n");
}

#[test]
fn linuxcnc_cached_body_replay_reproduces_program() {
    let mut fresh = linuxcnc::Post::new();
    fresh.program_start();
    fresh.reset_state();
    let marker = fresh.out_lines_count();
    fresh.feedrate(500);
    fresh.spindle_cw(10000, 0);
    fresh.raw("G1 X1");
    let body = fresh.out_lines_clone_from(marker);
    let exit = fresh.capture_state();

    let mut replay = linuxcnc::Post::new();
    replay.program_start();
    replay.reset_state();
    replay.out_extend_lines(&body);
    replay.restore_state(&exit);
    assert_eq!(replay.finish(), fresh.finish());
    // The restored modal state suppresses a repeated feed word, as in the fresh program.
    fresh.feedrate(500);
    replay.feedrate(500);
    assert_eq!(replay.finish(), fresh.finish());
    assert!(fresh.out_lines_clone_from(100).is_empty());
}

#[test]
fn linuxcnc_reset_forces_feed_word() {
    let mut p = linuxcnc::Post::new();
    p.feedrate(300);
    p.reset_state();
    p.feedrate(300);
    assert_eq!(p.finish(), "F300\nF300\n");
}

#[test]
fn hpgl_pen_state_and_moves() {
    let mut p = hpgl::Post::new();
    p.program_start();
    p.move_to(Some(40), Some(80));
    p.linear(Some(400), None);
    p.linear(None, Some(-40));
    p.arc_cw(Some(0), Some(0));
    p.move_to(None, None);
    p.program_end();
    assert_eq!(p.finish(), "IN;SP1;PA40,80;PD;PA400,80;PA400,-40;PA0,0;PU;PU;SP0;IN;\n");
}

#[test]
fn hpgl_cut_without_known_position_only_lowers_pen() {
    let mut p = hpgl::Post::new();
    p.linear(Some(10), None);
    assert_eq!(p.finish(), "PD;\n");
}

#[test]
fn hpgl_cached_body_replay() {
    let mut fresh = hpgl::Post::new();
    fresh.move_to(Some(0), Some(0));
    fresh.reset_state();
    let marker = fresh.out_lines_count();
    fresh.linear(Some(10), Some(20));
    let body = fresh.out_lines_clone_from(marker);
    let exit = fresh.capture_state();
    let mut replay = hpgl::Post::new();
    replay.move_to(Some(0), Some(0));
    replay.reset_state();
    replay.out_extend_lines(&body);
    replay.restore_state(&exit);
    // Same lines; the pen state is not part of the captured state.
    assert_eq!(replay.finish(), fresh.finish());
    replay.linear(None, Some(30));
    fresh.linear(None, Some(30));
    assert_eq!(replay.finish(), "PA0,0;PD;PA10,20;PD;PA10,30;\n");
    assert_eq!(fresh.finish(), "PA0,0;PD;PA10,20;PA10,30;\n");
}

fn tool(id: u32, name: &str) -> ToolEntry {
    ToolEntry {
        id,
        name: name.to_string(),
        kind: ToolKind::Endmill,
        diameter_nm: 3_000_000,
        tip_diameter_nm: None,
        kerf_nm: None,
        speed: 18_000,
        plunge_rate: 100,
        feed_rate: 800,
        speed_finish: None,
        plunge_rate_finish: None,
        feed_rate_finish: None,
        speed_drill: None,
        plunge_rate_drill: None,
        feed_rate_drill: None,
        pause: 0,
        default_step_nm: Some(-1_000_000),
        coolant: Coolant::Off,
    }
}

fn op(id: u32, tool_id: u32, kind: OpKind) -> Op {
    Op {
        id,
        name: format!("op{id}"),
        enabled: true,
        kind,
        tool_id,
        finish_tool_id: None,
        source: OpSource::All,
        params: OpParams {
            feed_rate_override: None,
            plunge_rate_override: None,
            depth_nm: -1_000_000,
            start_depth_nm: 0,
            step_nm: None,
            fast_move_z_nm: 5_000_000,
            through_depth_nm: 0,
            plunge: PlungeKind::Direct,
            tabs_active: false,
            tab_mode: TabPlacementMode::Off,
            pocket_islands: false,
            pocket_insideout: false,
            pocket_nocontour: false,
        },
    }
}

#[test]
fn toolchange_decisions() {
    let tools = vec![tool(1, "flat"), tool(2, "vbit")];
    let cut = op(5, 2, OpKind::Drill);
    let s = toolchange_step(None, &cut, &tools, true);
    assert_eq!(s.announce, Some(("toolchange: T2 (vbit) for op 5 (op5)".to_string(), 2)));
    assert_eq!(s.shifted_tool, Some(2));
    assert_eq!(s.next_tool, Some(2));
    let same = toolchange_step(Some(2), &cut, &tools, true);
    assert_eq!((same.announce, same.shifted_tool, same.next_tool), (None, None, Some(2)));
    let quiet = toolchange_step(Some(1), &cut, &tools, false);
    assert_eq!((quiet.announce, quiet.shifted_tool, quiet.next_tool), (None, Some(2), Some(2)));
    let missing = toolchange_step(Some(1), &op(6, 9, OpKind::Drill), &tools, true);
    assert_eq!((missing.announce, missing.shifted_tool, missing.next_tool), (None, None, Some(9)));
    let pause = toolchange_step(Some(1), &op(7, 2, OpKind::Pause { message: String::new() }), &tools, true);
    assert_eq!((pause.announce, pause.shifted_tool, pause.next_tool), (None, None, Some(1)));
}

#[test]
fn pause_op_program_text() {
    let mut p = linuxcnc::Post::new();
    emit_pause_op(&mut p, 4, "swap stock");
    emit_pause_op(&mut p, 5, "");
    assert_eq!(p.finish(), "; OP 4 (pause)\nM5\n(swap stock)\nM0\nM3\n; OP 5 (pause)\nM5\nM0\nM3\n");
}

#[test]
fn tool_change_is_counted_once() {
    let mut p = linuxcnc::Post::new();
    p.program_start();
    p.raw("; M6 in a comment");
    let before = count_tool_changes(&p.finish());
    p.tool(12);
    assert_eq!(count_tool_changes(&p.finish()), before + 1);
    p.tool(3);
    assert_eq!(count_tool_changes(&p.finish()), before + 2);
}

#[test]
fn op_loop_stops_when_cancelled() {
    let tools = vec![tool(1, "flat")];
    let s = op_loop_step(Some(1), &op(5, 1, OpKind::Drill), 2, 4, &tools, true, true, true);
    assert_eq!(s.action, OpLoopAction::Stop);
    assert_eq!(s.events, vec![OpLoopEvent::Cancelled]);
    assert_eq!((s.tool.announce, s.tool.shifted_tool, s.tool.next_tool), (None, None, Some(1)));
    assert_eq!(s.tool_after, Some(1));
}

#[test]
fn op_loop_events_and_actions() {
    let tools = vec![tool(1, "flat"), tool(2, "vbit")];
    let fresh = op_loop_step(None, &op(5, 2, OpKind::Drill), 0, 3, &tools, true, false, false);
    assert_eq!(fresh.action, OpLoopAction::EmitFresh);
    assert_eq!(
        fresh.events,
        vec![
            OpLoopEvent::OpStarted { op_id: 5, idx: 0, total: 3, name: "op5".to_string() },
            OpLoopEvent::OpCompleted { op_id: 5, cached: false },
        ]
    );
    assert_eq!(fresh.tool.announce, Some(("toolchange: T2 (vbit) for op 5 (op5)".to_string(), 2)));
    assert_eq!(fresh.tool_after, Some(2));
    let hit = op_loop_step(Some(2), &op(6, 2, OpKind::Drill), 1, 3, &tools, true, false, true);
    assert_eq!(hit.action, OpLoopAction::ReplayCached);
    assert_eq!(hit.events[1], OpLoopEvent::OpCompleted { op_id: 6, cached: true });
    assert_eq!(hit.tool.announce, None);
    let pause = op_loop_step(Some(2), &op(7, 1, OpKind::Pause { message: "flip".to_string() }), 2, 3, &tools, true, false, true);
    assert_eq!(pause.action, OpLoopAction::EmitPause);
    assert_eq!(pause.events[1], OpLoopEvent::OpCompleted { op_id: 7, cached: false });
    assert_eq!(pause.tool_after, Some(2));
}

#[test]
fn op_loop_leaves_the_finish_tool_loaded_after_a_dual_tool_op() {
    let tools = vec![tool(1, "rough"), tool(2, "finish")];
    let mut dual = op(8, 1, OpKind::Drill);
    dual.finish_tool_id = Some(2);
    let s = op_loop_step(None, &dual, 0, 2, &tools, true, false, false);
    assert_eq!(s.tool.next_tool, Some(1));
    assert_eq!(s.tool_after, Some(2));
    let next = op_loop_step(s.tool_after, &op(9, 1, OpKind::Drill), 1, 2, &tools, true, false, false);
    assert_eq!(next.tool.announce, Some(("toolchange: T1 (rough) for op 9 (op9)".to_string(), 1)));
    let mut same = op(10, 1, OpKind::Drill);
    same.finish_tool_id = Some(1);
    assert_eq!(op_loop_step(None, &same, 0, 1, &tools, true, false, false).tool_after, Some(1));
}

#[test]
fn op_loop_same_tool_ops_change_once() {
    let tools = vec![tool(3, "flat")];
    let ops = [op(1, 3, OpKind::Drill), op(2, 3, OpKind::Pause { message: String::new() }), op(3, 3, OpKind::Engrave)];
    let mut prev = None;
    let mut announced = 0;
    for (i, o) in ops.iter().enumerate() {
        let s = op_loop_step(prev, o, i, ops.len(), &tools, true, false, false);
        if s.tool.announce.is_some() {
            announced += 1;
        }
        prev = s.tool_after;
    }
    assert_eq!(announced, 1);
    assert_eq!(prev, Some(3));
}
