//! Decisions of the per-op emission loop that do not depend on geometry:
//! whether a run stops at an op boundary, which streaming events the op
//! sends, when the boundary changes the spindle tool and what it
//! announces, whether the op's body is replayed from the cache or emitted
//! afresh, which tool is in the spindle after it, and the fixed program
//! text of a pause op.

use vstd::prelude::*;
use crate::linuxcnc::{Post, PostModel, emitted};
use crate::project::{Op, OpKind, ToolEntry, find_tool, tool_index};
use crate::strs::{dec, push_u64};

verus! {

/// What an op boundary does about the spindle tool.
#[derive(Clone, Debug)]
pub struct ToolchangeStep {
    /// The `toolchange: …` comment and the tool number to load, when the
    /// machine changes tools by program.
    pub announce: Option<(String, u32)>,
    /// The tool whose Z shift is applied after the change.
    pub shifted_tool: Option<u32>,
    /// The tool in the spindle afterwards.
    pub next_tool: Option<u32>,
}

/// The comment announcing a tool change.
pub open spec fn toolchange_comment(tool: ToolEntry, op: Op) -> Seq<char> {
    "toolchange: T"@ + dec(tool.id as nat) + " ("@ + tool.name@ + ") for op "@ + dec(op.id as nat) + " ("@
        + op.name@ + ")"@
}

/// The tool step at the boundary before `op`, with `prev` the tool last
/// loaded: pause ops and ops on the loaded tool change nothing; any other
/// op loads its tool — announced (comment and tool number) when the
/// machine supports tool changes and the tool is in the library, Z-shifted
/// when it is in the library — and becomes the loaded tool.
pub open spec fn toolchange(prev: Option<u32>, op: Op, tools: Seq<ToolEntry>, supports_toolchange: bool)
    -> (Option<(Seq<char>, u32)>, Option<u32>, Option<u32>) {
    if op.kind is Pause || prev == Some(op.tool_id) {
        (None, None, prev)
    } else {
        match tool_index(tools, op.tool_id) {
            Some(i) => (
                if supports_toolchange { Some((toolchange_comment(tools[i], op), tools[i].id)) } else { None },
                Some(tools[i].id),
                Some(op.tool_id),
            ),
            None => (None, None, Some(op.tool_id)),
        }
    }
}

/// The step as plain values.
pub open spec fn step_view(s: ToolchangeStep) -> (Option<(Seq<char>, u32)>, Option<u32>, Option<u32>) {
    (
        match s.announce {
            Some((c, n)) => Some((c@, n)),
            None => None,
        },
        s.shifted_tool,
        s.next_tool,
    )
}

/// Decides the tool change at the boundary before `op`.
pub fn toolchange_step(prev: Option<u32>, op: &Op, tools: &Vec<ToolEntry>, supports_toolchange: bool) -> (s: ToolchangeStep)
    ensures
        step_view(s) == toolchange(prev, *op, tools@, supports_toolchange),
        op.kind is Pause || prev == Some(op.tool_id) ==> s.announce is None && s.shifted_tool is None && s.next_tool == prev,
        !(op.kind is Pause) ==> s.next_tool == Some(op.tool_id),
        s.announce matches Some((_, n)) ==> n == op.tool_id && supports_toolchange,
        s.shifted_tool matches Some(n) ==> n == op.tool_id,
        !(op.kind is Pause) && prev != Some(op.tool_id) && (exists|i: int| 0 <= i < tools@.len() && (#[trigger] tools@[i]).id == op.tool_id)
            ==> s.shifted_tool == Some(op.tool_id) && (supports_toolchange ==> s.announce is Some),
{
    let is_pause = match op.kind {
        OpKind::Pause { .. } => true,
        _ => false,
    };
    proof {
        crate::project::lemma_tool_index(tools@, op.tool_id);
    }
    if is_pause || prev == Some(op.tool_id) {
        return ToolchangeStep { announce: None, shifted_tool: None, next_tool: prev };
    }
    match find_tool(tools, op.tool_id) {
        Some(tool) => {
            let announce = if supports_toolchange {
                let mut c = String::from_str("toolchange: T");
                push_u64(&mut c, tool.id as u64);
                c.append(" (");
                c.append(tool.name.as_str());
                c.append(") for op ");
                push_u64(&mut c, op.id as u64);
                c.append(" (");
                c.append(op.name.as_str());
                c.append(")");
                Some((c, tool.id))
            } else {
                None
            };
            ToolchangeStep { announce, shifted_tool: Some(tool.id), next_tool: Some(op.tool_id) }
        },
        None => ToolchangeStep { announce: None, shifted_tool: None, next_tool: Some(op.tool_id) },
    }
}

/// The program after a pause op: its marker, spindle stop, the message as
/// a comment when there is one, program pause, and spindle restart.
pub open spec fn paused(m: PostModel, op_id: u32, message: Seq<char>) -> PostModel {
    let stopped = emitted(emitted(m, "; OP "@ + dec(op_id as nat) + " (pause)"@), "M5"@);
    let noted = if message.len() > 0 { emitted(stopped, "("@ + message + ")"@) } else { stopped };
    emitted(emitted(noted, "M0"@), "M3"@)
}

/// Emits a pause op: `M5`, the message, `M0` (the controller waits for
/// cycle start), `M3` (the spindle resumes at its last speed).
pub fn emit_pause_op(post: &mut Post, op_id: u32, message: &str)
    ensures
        final(post)@ == paused(old(post)@, op_id, message@),
{
    let mut marker = String::from_str("; OP ");
    push_u64(&mut marker, op_id as u64);
    marker.append(" (pause)");
    post.raw(marker.as_str());
    post.raw("M5");
    if !message.is_empty() {
        post.comment(message);
    }
    post.raw("M0");
    post.raw("M3");
}

/// What the loop does with one op.
#[derive(Clone, Copy, Debug, PartialEq, Eq, Structural)]
pub enum OpLoopAction {
    /// The run was cancelled before this op: it ends with
    /// `PipelineError::Cancelled` and the partial program is discarded.
    Stop,
    /// A pause op: its fixed text (`emit_pause_op`), nothing cached.
    EmitPause,
    /// The cache holds this op's body: append it and restore the post
    /// state it left.
    ReplayCached,
    /// Emit the op's body with its driver (and store it in the cache).
    EmitFresh,
}

/// A streaming event of the per-op loop.
#[derive(Clone, Debug, PartialEq, Eq)]
pub enum OpLoopEvent {
    /// Sent when an op is taken up: its id, its place among the enabled
    /// ops, their number, and its name.
    OpStarted { op_id: u32, idx: usize, total: usize, name: String },
    /// Sent when an op's body is in the program; `cached` when it came
    /// from the cache.
    OpCompleted { op_id: u32, cached: bool },
    /// Sent when a run stops because it was cancelled.
    Cancelled,
}

/// The loop's decision for one op. The first of `events` is sent before
/// the tool change and the body; a second one, when there is one, after
/// the body is in the program.
#[derive(Clone, Debug)]
pub struct OpLoopStep {
    pub action: OpLoopAction,
    pub events: Vec<OpLoopEvent>,
    /// The tool change at the op's boundary.
    pub tool: ToolchangeStep,
    /// The tool in the spindle once the op is done.
    pub tool_after: Option<u32>,
}

/// The tool in the spindle after `op`, with `prev` the tool before it: a
/// pause keeps it; any other op leaves its distinct finish tool in the
/// spindle when it has one (dual-tool ops change tools inside their
/// body), otherwise its own tool.
pub open spec fn tool_after_op(prev: Option<u32>, op: Op) -> Option<u32> {
    if op.kind is Pause {
        prev
    } else {
        match op.finish_tool_id {
            Some(f) => if f != op.tool_id { Some(f) } else { Some(op.tool_id) },
            None => Some(op.tool_id),
        }
    }
}

/// Decides one op of the per-op loop: `prev_tool` is the tool in the
/// spindle, `idx` the op's place among the `total` enabled ops,
/// `cancelled` whether the run was cancelled before it, and `cache_hit`
/// whether the cache holds a body for it. A cancelled run stops (sending
/// `Cancelled`, changing no tool); otherwise the op is announced
/// (`OpStarted`), its tool change decided, a pause emits its fixed text,
/// another op replays its cached body or is emitted afresh, and
/// `OpCompleted` follows, cached only for a replayed body.
pub fn op_loop_step(
    prev_tool: Option<u32>,
    op: &Op,
    idx: usize,
    total: usize,
    tools: &Vec<ToolEntry>,
    supports_toolchange: bool,
    cancelled: bool,
    cache_hit: bool,
) -> (s: OpLoopStep)
    ensures
        cancelled ==> {
            &&& s.action == OpLoopAction::Stop
            &&& s.events@.len() == 1
            &&& s.events@[0] is Cancelled
            &&& step_view(s.tool) == (None::<(Seq<char>, u32)>, None::<u32>, prev_tool)
            &&& s.tool_after == prev_tool
        },
        !cancelled ==> {
            &&& s.action == (if op.kind is Pause {
                OpLoopAction::EmitPause
            } else if cache_hit {
                OpLoopAction::ReplayCached
            } else {
                OpLoopAction::EmitFresh
            })
            &&& s.events@.len() == 2
            &&& s.events@[0] matches OpLoopEvent::OpStarted { op_id, idx: i, total: t, name }
                && op_id == op.id && i == idx && t == total && name@ == op.name@
            &&& s.events@[1] == (OpLoopEvent::OpCompleted { op_id: op.id, cached: cache_hit && !(op.kind is Pause) })
            &&& step_view(s.tool) == toolchange(prev_tool, *op, tools@, supports_toolchange)
            &&& s.tool_after == tool_after_op(prev_tool, *op)
        },
{
    if cancelled {
        let mut events: Vec<OpLoopEvent> = Vec::new();
        events.push(OpLoopEvent::Cancelled);
        return OpLoopStep {
            action: OpLoopAction::Stop,
            events,
            tool: ToolchangeStep { announce: None, shifted_tool: None, next_tool: prev_tool },
            tool_after: prev_tool,
        };
    }
    let is_pause = match op.kind {
        OpKind::Pause { .. } => true,
        _ => false,
    };
    let tool = toolchange_step(prev_tool, op, tools, supports_toolchange);
    let action = if is_pause {
        OpLoopAction::EmitPause
    } else if cache_hit {
        OpLoopAction::ReplayCached
    } else {
        OpLoopAction::EmitFresh
    };
    let tool_after = if is_pause {
        prev_tool
    } else {
        match op.finish_tool_id {
            Some(f) => if f != op.tool_id { Some(f) } else { Some(op.tool_id) },
            None => Some(op.tool_id),
        }
    };
    let mut events: Vec<OpLoopEvent> = Vec::new();
    events.push(OpLoopEvent::OpStarted { op_id: op.id, idx, total, name: op.name.clone() });
    events.push(OpLoopEvent::OpCompleted { op_id: op.id, cached: cache_hit && !is_pause });
    OpLoopStep { action, events, tool, tool_after }
}

/// Back-to-back ops on one tool change tools at most once: after an op
/// that is not a pause and leaves no distinct finish tool, the next op on
/// the same tool announces no change, shifts nothing and keeps that tool.
pub proof fn lemma_same_tool_changes_once(
    prev: Option<u32>,
    first: Op,
    second: Op,
    tools: Seq<ToolEntry>,
    supports_toolchange: bool,
)
    requires
        !(first.kind is Pause),
        first.finish_tool_id is None || first.finish_tool_id == Some(first.tool_id),
        second.tool_id == first.tool_id,
    ensures
        toolchange(tool_after_op(prev, first), second, tools, supports_toolchange) == (
            None::<(Seq<char>, u32)>,
            None::<u32>,
            Some(first.tool_id),
        ),
{
}

/// A pause between two ops is invisible to the tool decisions: it changes
/// no tool, and the op after it sees the tool the op before it left.
pub proof fn lemma_pause_keeps_tool(prev: Option<u32>, pause: Op, tools: Seq<ToolEntry>, supports_toolchange: bool)
    requires
        pause.kind is Pause,
    ensures
        tool_after_op(prev, pause) == prev,
        toolchange(prev, pause, tools, supports_toolchange) == (None::<(Seq<char>, u32)>, None::<u32>, prev),
{
}

} // verus!
