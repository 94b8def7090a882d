//! Pipeline-level values: warnings, errors and their structured form, the
//! post-processor choice, run statistics and cooperative cancellation.

use vstd::prelude::*;
use std::sync::Arc;
use std::sync::atomic::AtomicBool;
use crate::errors::{AutoFix, Error, ErrorKind, ErrorView, hinted, plain};
use crate::project::{OpKind, PocketStrategy, Project, ToolEntry};
use crate::cam::ToolOffset;
use crate::strs::{chars_of, dec, is_whitespace, is_ws, join, push_u64};

verus! {

/// Which post-processor renders the program.
#[derive(Clone, Copy, Debug, PartialEq, Eq, Structural)]
pub enum PostProcessorKind {
    Linuxcnc,
    Grbl,
    Hpgl,
}

/// A full generate request: the project and the chosen post-processor
/// (LinuxCNC when unset).
#[derive(Clone, Debug)]
pub struct PipelineRequest {
    pub project: Project,
    pub post_processor: Option<PostProcessorKind>,
}

/// Object / offset counts of a run.
#[derive(Clone, Copy, Debug, PartialEq, Eq, Structural)]
pub struct PipelineStats {
    pub object_count: usize,
    pub closed_object_count: usize,
    pub offset_count: usize,
}

/// One non-fatal warning, attached to an op or (`op_id == None`) to the
/// whole project.
#[derive(Clone, Debug)]
pub struct PipelineWarning {
    pub op_id: Option<u32>,
    /// Stable identifier the frontend branches on.
    pub kind: String,
    /// Human-readable description.
    pub message: String,
}

/// A warning's contents as plain values.
pub struct WarningView {
    pub op_id: Option<u32>,
    pub kind: Seq<char>,
    pub message: Seq<char>,
}

impl View for PipelineWarning {
    type V = WarningView;

    open spec fn view(&self) -> WarningView {
        WarningView { op_id: self.op_id, kind: self.kind@, message: self.message@ }
    }
}

/// The views of a warning list.
pub open spec fn wviews(ws: Seq<PipelineWarning>) -> Seq<WarningView> {
    ws.map_values(|w: PipelineWarning| w@)
}

/// Builds a warning from its parts.
pub fn warning(op_id: Option<u32>, kind: &str, message: String) -> (w: PipelineWarning)
    ensures
        w@ == (WarningView { op_id, kind: kind@, message: message@ }),
{
    PipelineWarning { op_id, kind: String::from_str(kind), message }
}

/// Appends `w` to `warnings`.
pub fn push_warning(warnings: &mut Vec<PipelineWarning>, w: PipelineWarning)
    ensures
        wviews(final(warnings)@) == wviews(old(warnings)@).push(w@),
{
    warnings.push(w);
    assert(wviews(warnings@) =~= wviews(old(warnings)@).push(w@));
}

/// Why a run failed.
#[derive(Debug)]
pub enum PipelineError {
    UnknownPostProcessor(String),
    /// `(op id, tool id)`.
    UnknownTool(u32, u32),
    UnimplementedKind(Box<OpKind>),
    TextRender(String),
    Cancelled,
}

/// The `Debug` rendering of a tool offset (no compensation is written
/// `None`, the variant's name in the project format).
pub open spec fn offset_debug(o: ToolOffset) -> Seq<char> {
    match o {
        ToolOffset::Off => "None"@,
        ToolOffset::Inside => "Inside"@,
        ToolOffset::Outside => "Outside"@,
        ToolOffset::On => "On"@,
    }
}

/// The `Debug` rendering of a pocket strategy.
pub open spec fn strategy_debug(s: PocketStrategy) -> Seq<char> {
    match s {
        PocketStrategy::Cascade => "Cascade"@,
        PocketStrategy::Zigzag => "Zigzag"@,
        PocketStrategy::Spiral => "Spiral"@,
        PocketStrategy::Trochoidal => "Trochoidal"@,
        PocketStrategy::Halfpipe => "Halfpipe"@,
    }
}

/// What `<str as Debug>` writes for a text: the text between double
/// quotes with quotes, backslashes, control and non-printable characters
/// escaped (its escaping rests on std's Unicode tables).
pub uninterp spec fn str_debug(s: Seq<char>) -> Seq<char>;

/// Text made of printable ASCII characters other than `"` and `\`, which
/// `Debug` writes unchanged.
pub open spec fn plain_printable(s: Seq<char>) -> bool {
    forall|i: int| 0 <= i < s.len() ==> ' ' <= #[trigger] s[i] <= '~' && s[i] != '"' && s[i] != '\\'
}

/// `format!("{:?}", s)` for a `&str`: the `Debug` rendering of the text.
/// The contract names the result; of its content it states only that
/// text of printable ASCII characters other than `"` and `\` comes out
/// between quotes unchanged (as the documentation of `char::escape_debug`
/// shows). Which other characters are escaped, and how, is not stated.
#[verifier::external_body]
fn debug_str(s: &str) -> (r: String)
    ensures
        r@ == str_debug(s@),
        plain_printable(s@) ==> r@ == seq!['"'] + s@ + seq!['"'],
{
    format!("{:?}", s)
}

/// The `Debug` rendering of an op kind (a pause message as `str`'s
/// `Debug` writes it).
pub open spec fn kind_debug(k: OpKind) -> Seq<char> {
    match k {
        OpKind::Profile { offset } => "Profile { offset: "@ + offset_debug(offset) + " }"@,
        OpKind::Pocket { strategy } => "Pocket { strategy: "@ + strategy_debug(strategy) + " }"@,
        OpKind::Drill => "Drill"@,
        OpKind::Engrave => "Engrave"@,
        OpKind::DragKnife => "DragKnife"@,
        OpKind::VCarve => "VCarve"@,
        OpKind::Thread => "Thread"@,
        OpKind::Chamfer => "Chamfer"@,
        OpKind::TSlot => "TSlot"@,
        OpKind::Dovetail => "Dovetail"@,
        OpKind::Helix => "Helix"@,
        OpKind::Pause { message } => "Pause { message: "@ + str_debug(message@) + " }"@,
        OpKind::Homing => "Homing"@,
        OpKind::Probe => "Probe"@,
        OpKind::CycleMarker => "CycleMarker"@,
    }
}

fn offset_debug_str(o: ToolOffset) -> (s: &'static str)
    ensures
        s@ == offset_debug(o),
{
    match o {
        ToolOffset::Off => "None",
        ToolOffset::Inside => "Inside",
        ToolOffset::Outside => "Outside",
        ToolOffset::On => "On",
    }
}

fn strategy_debug_str(s: PocketStrategy) -> (r: &'static str)
    ensures
        r@ == strategy_debug(s),
{
    match s {
        PocketStrategy::Cascade => "Cascade",
        PocketStrategy::Zigzag => "Zigzag",
        PocketStrategy::Spiral => "Spiral",
        PocketStrategy::Trochoidal => "Trochoidal",
        PocketStrategy::Halfpipe => "Halfpipe",
    }
}

/// `a`, `b` and `c` concatenated.
pub fn cat3(a: &str, b: &str, c: &str) -> (s: String)
    ensures
        s@ == a@ + b@ + c@,
{
    let mut s = String::from_str(a);
    s.append(b);
    s.append(c);
    s
}

/// Appends the `Debug` rendering of `k` to `s`.
fn push_kind_debug(s: &mut String, k: &OpKind)
    ensures
        final(s)@ == old(s)@ + kind_debug(*k),
{
    match k {
        OpKind::Profile { offset } => {
            s.append("Profile { offset: ");
            s.append(offset_debug_str(*offset));
            s.append(" }");
        },
        OpKind::Pocket { strategy } => {
            s.append("Pocket { strategy: ");
            s.append(strategy_debug_str(*strategy));
            s.append(" }");
        },
        OpKind::Drill => s.append("Drill"),
        OpKind::Engrave => s.append("Engrave"),
        OpKind::DragKnife => s.append("DragKnife"),
        OpKind::VCarve => s.append("VCarve"),
        OpKind::Thread => s.append("Thread"),
        OpKind::Chamfer => s.append("Chamfer"),
        OpKind::TSlot => s.append("TSlot"),
        OpKind::Dovetail => s.append("Dovetail"),
        OpKind::Helix => s.append("Helix"),
        OpKind::Pause { message } => {
            s.append("Pause { message: ");
            let quoted = debug_str(message.as_str());
            s.append(quoted.as_str());
            s.append(" }");
        },
        OpKind::Homing => s.append("Homing"),
        OpKind::Probe => s.append("Probe"),
        OpKind::CycleMarker => s.append("CycleMarker"),
    }
}

/// The id of the first tool of the project, when a project with at least
/// one tool is given.
pub open spec fn first_tool_id(project: Option<&Project>) -> Option<u32> {
    match project {
        Some(p) => if p.tools@.len() > 0 { Some(p.tools@[0].id) } else { None },
        None => None,
    }
}

/// The structured error each pipeline error lifts to (none for a
/// cancellation).
pub open spec fn structured(e: &PipelineError, project: Option<&Project>) -> Option<ErrorView> {
    match e {
        PipelineError::Cancelled => None,
        PipelineError::UnknownPostProcessor(name) => Some(hinted(
            plain(ErrorKind::Misconfigured, "unknown post_processor: "@ + name@),
            "Pick a known post: linuxcnc, grbl, or hpgl."@,
        )),
        PipelineError::UnknownTool(op_id, tool_id) => {
            let e = hinted(
                plain(
                    ErrorKind::Misconfigured,
                    "op "@ + dec(*op_id as nat) + " references missing tool "@ + dec(*tool_id as nat),
                ),
                "Pick a tool from the library."@,
            );
            Some(match first_tool_id(project) {
                Some(t) => ErrorView {
                    auto_fix: Some(AutoFix::AssignTool { op_id: *op_id, suggested_tool_id: t }),
                    ..e
                },
                None => e,
            })
        },
        PipelineError::UnimplementedKind(kind) => Some(hinted(
            plain(ErrorKind::Unsupported, "operation kind "@ + kind_debug(**kind) + " is not implemented yet"@),
            "This op kind is not available yet — disable it or pick another."@,
        )),
        PipelineError::TextRender(msg) => Some(hinted(
            plain(ErrorKind::Misconfigured, "text render: "@ + msg@),
            "Pick a different font or fix the text contents."@,
        )),
    }
}

impl PipelineError {
    /// Lifts the error into the structured frontend error; `None` for a
    /// cancellation. An unknown-tool error carries an auto-fix pointing at
    /// the project's first tool when a project with tools is given.
    pub fn to_structured(&self, project: Option<&Project>) -> (r: Option<Error>)
        ensures
            match (r, structured(self, project)) {
                (Some(e), Some(v)) => e@ == v,
                (None, None) => true,
                _ => false,
            },
    {
        match self {
            PipelineError::Cancelled => None,
            PipelineError::UnknownPostProcessor(name) => {
                let mut m = String::from_str("unknown post_processor: ");
                m.append(name.as_str());
                Some(Error::misconfigured(m).with_hint("Pick a known post: linuxcnc, grbl, or hpgl."))
            },
            PipelineError::UnknownTool(op_id, tool_id) => {
                let mut m = String::from_str("op ");
                push_u64(&mut m, *op_id as u64);
                m.append(" references missing tool ");
                push_u64(&mut m, *tool_id as u64);
                let mut e = Error::misconfigured(m).with_hint("Pick a tool from the library.");
                if let Some(p) = project {
                    if p.tools.len() > 0 {
                        let suggested = p.tools[0].id;
                        e = e.with_auto_fix(AutoFix::AssignTool { op_id: *op_id, suggested_tool_id: suggested });
                    }
                }
                Some(e)
            },
            PipelineError::UnimplementedKind(kind) => {
                let mut m = String::from_str("operation kind ");
                push_kind_debug(&mut m, kind);
                m.append(" is not implemented yet");
                Some(Error::unsupported(m).with_hint("This op kind is not available yet — disable it or pick another."))
            },
            PipelineError::TextRender(msg) => {
                let mut m = String::from_str("text render: ");
                m.append(msg.as_str());
                Some(Error::misconfigured(m).with_hint("Pick a different font or fix the text contents."))
            },
        }
    }
}

/// Cooperative-cancellation handle shared between the caller and a
/// running pipeline; clones share one flag.
#[derive(Clone, Debug)]
pub struct CancelToken(Arc<AtomicBool>);

impl CancelToken {
    /// A token that has not been cancelled.
    pub fn new() -> Self {
        CancelToken(Arc::new(AtomicBool::new(false)))
    }

    /// Raises the shared flag.
    pub fn cancel(&self) {
        self.0.store(true, std::sync::atomic::Ordering::Relaxed);
    }

    /// Reads the shared flag (which any clone may raise at any time).
    pub fn is_cancelled(&self) -> bool {
        self.0.load(std::sync::atomic::Ordering::Relaxed)
    }
}

/// Whether a run should stop: never without a token, otherwise the
/// token's flag.
pub fn cancelled(cancel: Option<&CancelToken>) -> (b: bool)
    ensures
        cancel is None ==> !b,
{
    match cancel {
        Some(c) => c.is_cancelled(),
        None => false,
    }
}

/// `s` with every `;` comment (from the `;` to the end of its line)
/// blanked out with spaces, given whether `s` starts inside one.
pub open spec fn blank_comments(s: Seq<char>, in_comment: bool) -> Seq<char>
    decreases s.len(),
{
    if s.len() == 0 {
        Seq::empty()
    } else {
        let c = s[0];
        if c == '\n' {
            seq!['\n'] + blank_comments(s.drop_first(), false)
        } else if in_comment || c == ';' {
            seq![' '] + blank_comments(s.drop_first(), true)
        } else {
            seq![c] + blank_comments(s.drop_first(), false)
        }
    }
}

/// Blanking comments keeps the length.
pub proof fn lemma_blank_comments_len(s: Seq<char>, in_comment: bool)
    ensures
        blank_comments(s, in_comment).len() == s.len(),
    decreases s.len(),
{
    if s.len() > 0 {
        lemma_blank_comments_len(s.drop_first(), s[0] != '\n' && (in_comment || s[0] == ';'));
    }
}

/// A whitespace-separated `M6` / `m6` token starts at `i` in `v`.
pub open spec fn m6_at(v: Seq<char>, i: int) -> bool {
    &&& 0 <= i && i + 2 <= v.len()
    &&& v[i] == 'M' || v[i] == 'm'
    &&& v[i + 1] == '6'
    &&& i == 0 || is_ws(v[i - 1])
    &&& i + 2 == v.len() || is_ws(v[i + 2])
}

/// How many `M6` tokens start before position `n` of `v`.
pub open spec fn m6_count(v: Seq<char>, n: int) -> nat
    decreases n,
{
    if n <= 0 {
        0
    } else {
        m6_count(v, n - 1) + if m6_at(v, n - 1) { 1nat } else { 0nat }
    }
}

/// The number of tool changes in a program: `M6` tokens (either case)
/// outside `;` comments.
pub open spec fn tool_changes(gcode: Seq<char>) -> nat {
    m6_count(blank_comments(gcode, false), gcode.len() as int)
}

/// Counts the tool changes (`M6` words outside `;` comments) of a program.
pub fn count_tool_changes(gcode: &str) -> (n: u32)
    requires
        gcode@.len() <= u32::MAX,
    ensures
        n == tool_changes(gcode@),
{
    let cs = chars_of(gcode);
    let mut v: Vec<char> = Vec::new();
    let mut in_comment = false;
    let mut i: usize = 0;
    assert(cs@.skip(0) =~= cs@);
    assert(v@ + blank_comments(cs@, false) =~= blank_comments(cs@, false));
    while i < cs.len()
        invariant
            i <= cs.len(),
            v@ + blank_comments(cs@.skip(i as int), in_comment) == blank_comments(cs@, false),
        decreases cs.len() - i,
    {
        let ch = cs[i];
        let ghost rest = cs@.skip(i as int);
        assert(rest.drop_first() =~= cs@.skip(i + 1));
        assert(rest[0] == ch);
        let ghost before = v@;
        let mapped = if ch == '\n' {
            in_comment = false;
            '\n'
        } else if in_comment || ch == ';' {
            in_comment = true;
            ' '
        } else {
            ch
        };
        v.push(mapped);
        assert(v@ + blank_comments(cs@.skip(i + 1), in_comment)
            =~= before + (seq![mapped] + blank_comments(cs@.skip(i + 1), in_comment)));
        i += 1;
    }
    proof {
        assert(cs@.skip(i as int) =~= Seq::<char>::empty());
        assert(v@ + Seq::<char>::empty() =~= v@);
        lemma_blank_comments_len(cs@, false);
    }
    let len = v.len();
    let mut n: u32 = 0;
    let mut j: usize = 0;
    while j < len
        invariant
            len == v@.len(),
            len <= u32::MAX,
            j <= len,
            n == m6_count(v@, j as int),
            n <= j,
        decreases len - j,
    {
        let hit = len - j >= 2 && (v[j] == 'M' || v[j] == 'm') && v[j + 1] == '6'
            && (j == 0 || is_whitespace(v[j - 1])) && (j + 2 == len || is_whitespace(v[j + 2]));
        assert(hit == m6_at(v@, j as int));
        if hit {
            n += 1;
        }
        j += 1;
    }
    n
}

/// A newline ends a `;` comment: blanking a text split at a newline
/// blanks both sides separately, the second starting outside a comment.
pub proof fn lemma_blank_split_newline(a: Seq<char>, b: Seq<char>, in_comment: bool)
    ensures
        blank_comments(a + seq!['\n'] + b, in_comment) == blank_comments(a, in_comment) + seq!['\n']
            + blank_comments(b, false),
    decreases a.len(),
{
    let s = a + seq!['\n'] + b;
    if a.len() == 0 {
        assert(s =~= seq!['\n'] + b);
        assert(s.drop_first() =~= b);
        assert(blank_comments(a, in_comment) =~= Seq::<char>::empty());
        assert(blank_comments(s, in_comment) =~= blank_comments(a, in_comment) + seq!['\n'] + blank_comments(b, false));
    } else {
        let c = a[0];
        let next = c != '\n' && (in_comment || c == ';');
        assert(s[0] == c);
        assert(s.drop_first() =~= a.drop_first() + seq!['\n'] + b);
        lemma_blank_split_newline(a.drop_first(), b, next);
        let m = if c == '\n' { '\n' } else if in_comment || c == ';' { ' ' } else { c };
        assert(blank_comments(s, in_comment) == seq![m] + blank_comments(s.drop_first(), next));
        assert(blank_comments(a, in_comment) == seq![m] + blank_comments(a.drop_first(), next));
        assert(blank_comments(s, in_comment) =~= blank_comments(a, in_comment) + seq!['\n'] + blank_comments(b, false));
    }
}

/// Counting over a prefix only depends on where tokens start there.
proof fn lemma_m6_count_same(v: Seq<char>, u: Seq<char>, n: int)
    requires
        0 <= n,
        forall|i: int| 0 <= i < n ==> m6_at(v, i) == m6_at(u, i),
    ensures
        m6_count(v, n) == m6_count(u, n),
    decreases n,
{
    if n > 0 {
        lemma_m6_count_same(v, u, n - 1);
    }
}

/// Counting past `off` adds the count of a text whose token starts line
/// up with those of `v` after `off`.
proof fn lemma_m6_count_shift(v: Seq<char>, off: int, y: Seq<char>, k: int)
    requires
        0 <= off,
        0 <= k,
        forall|j: int| 0 <= j < k ==> m6_at(v, off + j) == m6_at(y, j),
    ensures
        m6_count(v, off + k) == m6_count(v, off) + m6_count(y, k),
    decreases k,
{
    if k > 0 {
        lemma_m6_count_shift(v, off, y, k - 1);
        assert(m6_at(v, off + (k - 1)) == m6_at(y, k - 1));
    }
}

/// Tokens never cross whitespace: the count of `x`, a whitespace
/// character, then `y` is the count of `x` plus the count of `y`.
pub proof fn lemma_m6_count_concat(x: Seq<char>, w: char, y: Seq<char>)
    requires
        is_ws(w),
    ensures
        ({
            let v = x + seq![w] + y;
            m6_count(v, v.len() as int) == m6_count(x, x.len() as int) + m6_count(y, y.len() as int)
        }),
{
    let v = x + seq![w] + y;
    let n = x.len() as int;
    assert forall|i: int| 0 <= i < n implies m6_at(v, i) == m6_at(x, i) by {
        assert(v[i] == x[i]);
        if i > 0 {
            assert(v[i - 1] == x[i - 1]);
        }
        if i + 1 < n {
            assert(v[i + 1] == x[i + 1]);
        } else {
            assert(v[i + 1] == w);
        }
        if i + 2 < n {
            assert(v[i + 2] == x[i + 2]);
        } else if i + 2 == n {
            assert(v[i + 2] == w);
        }
    }
    lemma_m6_count_same(v, x, n);
    assert(v[n] == w);
    assert(!m6_at(v, n));
    assert forall|j: int| 0 <= j < y.len() implies m6_at(v, (n + 1) + j) == m6_at(y, j) by {
        let i = n + 1 + j;
        assert(v[i] == y[j]);
        if j > 0 {
            assert(v[i - 1] == y[j - 1]);
        } else {
            assert(v[i - 1] == w);
        }
        if j + 1 < y.len() {
            assert(v[i + 1] == y[j + 1]);
        }
        if j + 2 < y.len() {
            assert(v[i + 2] == y[j + 2]);
        }
    }
    lemma_m6_count_shift(v, n + 1, y, y.len() as int);
}

/// No `M` / `m` in the first `n` characters: no tool change there.
pub proof fn lemma_m6_count_none(v: Seq<char>, n: int)
    requires
        0 <= n <= v.len(),
        forall|i: int| 0 <= i < n ==> v[i] != 'M' && v[i] != 'm',
    ensures
        m6_count(v, n) == 0,
    decreases n,
{
    if n > 0 {
        lemma_m6_count_none(v, n - 1);
    }
}

/// Text without `;` is left as it is by comment blanking.
pub proof fn lemma_blank_no_semicolon(s: Seq<char>)
    requires
        forall|i: int| 0 <= i < s.len() ==> s[i] != ';',
    ensures
        blank_comments(s, false) == s,
    decreases s.len(),
{
    if s.len() > 0 {
        lemma_blank_no_semicolon(s.drop_first());
        assert(s =~= seq![s[0]] + s.drop_first());
    }
}

/// Counting tool changes line by line: a program text with one more line
/// (the text joined by newlines with a final newline) has that line's
/// tool changes more.
pub proof fn lemma_tool_changes_add_line(out: Seq<Seq<char>>, l: Seq<char>)
    ensures
        tool_changes(join(out.push(l), "\n"@) + "\n"@) == tool_changes(join(out, "\n"@) + "\n"@) + tool_changes(l + "\n"@),
{
    reveal_strlit("\n");
    let nl = seq!['\n'];
    let y = l + nl;
    lemma_blank_comments_len(y, false);
    if out.len() == 0 {
        assert(join(out.push(l), nl) == l) by {
            assert(out.push(l).len() == 1);
        }
        assert(join(out, nl) =~= Seq::<char>::empty());
        let e = join(out, nl) + nl;
        assert(e =~= nl);
        assert(blank_comments(nl, false) =~= nl) by {
            assert(nl[0] == '\n');
            assert(nl.drop_first() =~= Seq::<char>::empty());
            assert(blank_comments(nl.drop_first(), false) =~= Seq::<char>::empty());
            assert(seq!['\n'] + Seq::<char>::empty() =~= nl);
        }
        assert(m6_count(nl, 1) == 0) by {
            assert(m6_count(nl, 0) == 0);
            assert(!m6_at(nl, 0));
        }
        assert(join(out.push(l), nl) + nl == y);
        assert("\n"@ == nl);
        assert(tool_changes(join(out, nl) + nl) == 0);
    } else {
        let x = join(out, nl);
        assert(out.push(l).drop_last() =~= out);
        assert(join(out.push(l), nl) == x + nl + l);
        let whole = join(out.push(l), nl) + nl;
        assert(whole =~= x + nl + y);
        lemma_blank_split_newline(x, y, false);
        lemma_blank_comments_len(x, false);
        lemma_m6_count_concat(blank_comments(x, false), '\n', blank_comments(y, false));
        let short = x + nl;
        assert(short =~= x + nl + Seq::<char>::empty());
        lemma_blank_split_newline(x, Seq::<char>::empty(), false);
        assert(blank_comments(Seq::<char>::empty(), false) =~= Seq::<char>::empty());
        lemma_m6_count_concat(blank_comments(x, false), '\n', Seq::<char>::empty());
        assert(blank_comments(x, false) + seq!['\n'] + Seq::<char>::empty() =~= blank_comments(x, false) + seq!['\n']);
        let bx = blank_comments(x, false);
        assert(blank_comments(whole, false) == bx + seq!['\n'] + blank_comments(y, false));
        assert(tool_changes(whole) == m6_count(bx, bx.len() as int) + tool_changes(y));
        assert(blank_comments(short, false) == bx + seq!['\n'] + Seq::<char>::empty());
        assert(tool_changes(short) == m6_count(bx, bx.len() as int));
        assert("\n"@ == nl);
    }
}

} // verus!
