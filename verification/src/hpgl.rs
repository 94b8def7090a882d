//! HPGL post-processor: pen-up / pen-down plotter commands for plotters and
//! drag knives. Positions are plotter units (40 per millimetre); absolute
//! `PA<x>,<y>;` moves are emitted with the pen raised (`PU;`) for travel and
//! lowered (`PD;`) for cutting.

use vstd::prelude::*;
use crate::strs::{dec_int, join, views, join_strings, push_i64};

verus! {

/// What an HPGL post holds: the commands emitted so far, the pen state
/// and the last absolute position (plotter units).
pub struct PostModel {
    pub out: Seq<Seq<char>>,
    pub pen_down: bool,
    pub last_x: Option<i64>,
    pub last_y: Option<i64>,
}

/// The pen position saved and restored around cached op bodies, in
/// plotter units.
#[derive(Clone, Copy, Debug, PartialEq, Eq, Structural)]
pub struct PenPosition {
    pub last_x: Option<i64>,
    pub last_y: Option<i64>,
}

#[derive(Debug)]
pub struct Post {
    out: Vec<String>,
    pen_down: bool,
    last_x: Option<i64>,
    last_y: Option<i64>,
}

impl View for Post {
    type V = PostModel;

    closed spec fn view(&self) -> PostModel {
        PostModel {
            out: views(self.out@),
            pen_down: self.pen_down,
            last_x: self.last_x,
            last_y: self.last_y,
        }
    }
}

/// `m` with `cmd` appended.
pub open spec fn emitted(m: PostModel, cmd: Seq<char>) -> PostModel {
    PostModel { out: m.out.push(cmd), ..m }
}

/// The absolute-move command `PA<x>,<y>;`.
pub open spec fn pa(x: i64, y: i64) -> Seq<char> {
    "PA"@ + dec_int(x as int) + ","@ + dec_int(y as int) + ";"@
}

/// `m` after an absolute move to `(x, y)` when both are known; unchanged
/// otherwise.
pub open spec fn move_abs(m: PostModel, x: Option<i64>, y: Option<i64>) -> PostModel {
    match (x, y) {
        (Some(x), Some(y)) => PostModel { last_x: Some(x), last_y: Some(y), ..emitted(m, pa(x, y)) },
        _ => m,
    }
}

/// The program after a travel move: pen up when it was down, then the move.
pub open spec fn travel(m: PostModel, x: Option<i64>, y: Option<i64>) -> PostModel {
    let raised = if m.pen_down {
        PostModel { pen_down: false, ..emitted(m, "PU;"@) }
    } else {
        m
    };
    move_abs(raised, x, y)
}

/// The program after a cutting move: pen down when it was up, then the
/// move, where a missing coordinate keeps its last value.
pub open spec fn cut(m: PostModel, x: Option<i64>, y: Option<i64>) -> PostModel {
    let lowered = if !m.pen_down {
        PostModel { pen_down: true, ..emitted(m, "PD;"@) }
    } else {
        m
    };
    let cx = if x.is_some() { x } else { lowered.last_x };
    let cy = if y.is_some() { y } else { lowered.last_y };
    move_abs(lowered, cx, cy)
}

/// The commands from position `start` on (none when `start` is past the
/// end).
pub open spec fn lines_after(out: Seq<Seq<char>>, start: int) -> Seq<Seq<char>> {
    if start >= out.len() {
        Seq::empty()
    } else {
        out.skip(start)
    }
}

/// `m` with `lines` appended verbatim.
pub open spec fn with_lines(m: PostModel, lines: Seq<Seq<char>>) -> PostModel {
    PostModel { out: m.out + lines, ..m }
}

/// The last position of `m`.
pub open spec fn captured(m: PostModel) -> PenPosition {
    PenPosition { last_x: m.last_x, last_y: m.last_y }
}

/// `m` with the last position `c`.
pub open spec fn restored(m: PostModel, c: PenPosition) -> PostModel {
    PostModel { last_x: c.last_x, last_y: c.last_y, ..m }
}

/// `m` with its last position forgotten.
pub open spec fn reset(m: PostModel) -> PostModel {
    PostModel { last_x: None, last_y: None, ..m }
}

impl Post {
    /// An empty program, pen up, no known position.
    pub fn new() -> (p: Post)
        ensures
            p@.out == Seq::<Seq<char>>::empty(),
            !p@.pen_down,
            p@.last_x.is_none(),
            p@.last_y.is_none(),
    {
        let p = Post { out: Vec::new(), pen_down: false, last_x: None, last_y: None };
        assert(views(p.out@) =~= Seq::<Seq<char>>::empty());
        p
    }

    fn write(&mut self, cmd: String)
        ensures
            final(self)@ == emitted(old(self)@, cmd@),
    {
        self.out.push(cmd);
        assert(views(self.out@) =~= views(old(self).out@).push(cmd@));
    }

    /// `IN;SP1;`: initialise and select pen 1.
    pub fn program_start(&mut self)
        ensures
            final(self)@ == emitted(old(self)@, "IN;SP1;"@),
    {
        self.write(String::from_str("IN;SP1;"));
    }

    /// `PU;SP0;IN;`: pen up, put the pen away, reinitialise.
    pub fn program_end(&mut self)
        ensures
            final(self)@ == emitted(old(self)@, "PU;SP0;IN;"@),
    {
        self.write(String::from_str("PU;SP0;IN;"));
    }

    fn write_pa(&mut self, x: i64, y: i64)
        ensures
            final(self)@ == (PostModel { last_x: Some(x), last_y: Some(y), ..emitted(old(self)@, pa(x, y)) }),
    {
        let mut s = String::from_str("PA");
        push_i64(&mut s, x);
        s.append(",");
        push_i64(&mut s, y);
        s.append(";");
        self.write(s);
        self.last_x = Some(x);
        self.last_y = Some(y);
    }

    /// Travel move: raises the pen if it is down, then moves to `(x, y)`
    /// when both coordinates are given.
    pub fn move_to(&mut self, x: Option<i64>, y: Option<i64>)
        ensures
            final(self)@ == travel(old(self)@, x, y),
            !final(self)@.pen_down,
            ({
                let raised = if old(self)@.pen_down { old(self)@.out.push("PU;"@) } else { old(self)@.out };
                match (x, y) {
                    (Some(xv), Some(yv)) => final(self)@.out == raised.push("PA"@ + dec_int(xv as int) + ","@ + dec_int(yv as int) + ";"@)
                        && final(self)@.last_x == x && final(self)@.last_y == y,
                    _ => final(self)@.out == raised && final(self)@.last_x == old(self)@.last_x
                        && final(self)@.last_y == old(self)@.last_y,
                }
            }),
    {
        if self.pen_down {
            self.write(String::from_str("PU;"));
            self.pen_down = false;
        }
        if let (Some(x), Some(y)) = (x, y) {
            self.write_pa(x, y);
        }
    }

    /// Cutting move: lowers the pen if it is up, then moves to `(x, y)`,
    /// a missing coordinate keeping its last value; no move when a
    /// coordinate is neither given nor known.
    pub fn linear(&mut self, x: Option<i64>, y: Option<i64>)
        ensures
            final(self)@ == cut(old(self)@, x, y),
            final(self)@.pen_down,
            ({
                let tx = if x is Some { x } else { old(self)@.last_x };
                let ty = if y is Some { y } else { old(self)@.last_y };
                let lowered = if old(self)@.pen_down { old(self)@.out } else { old(self)@.out.push("PD;"@) };
                match (tx, ty) {
                    (Some(xv), Some(yv)) => final(self)@.out == lowered.push("PA"@ + dec_int(xv as int) + ","@ + dec_int(yv as int) + ";"@)
                        && final(self)@.last_x == tx && final(self)@.last_y == ty,
                    _ => final(self)@.out == lowered,
                }
            }),
    {
        if !self.pen_down {
            self.write(String::from_str("PD;"));
            self.pen_down = true;
        }
        let cx = if x.is_some() { x } else { self.last_x };
        let cy = if y.is_some() { y } else { self.last_y };
        if let (Some(cx), Some(cy)) = (cx, cy) {
            self.write_pa(cx, cy);
        }
    }

    /// Clockwise arc, drawn as a straight cut to its end point.
    pub fn arc_cw(&mut self, x: Option<i64>, y: Option<i64>)
        ensures
            final(self)@ == cut(old(self)@, x, y),
    {
        self.linear(x, y);
    }

    /// Counter-clockwise arc, drawn as a straight cut to its end point.
    pub fn arc_ccw(&mut self, x: Option<i64>, y: Option<i64>)
        ensures
            final(self)@ == cut(old(self)@, x, y),
    {
        self.linear(x, y);
    }

    /// The whole program: the commands concatenated, then a newline.
    pub fn finish(&self) -> (s: String)
        ensures
            s@ == join(self@.out, ""@) + "\n"@,
    {
        let mut s = join_strings(&self.out, "");
        s.append("\n");
        s
    }

    /// Number of commands emitted so far.
    pub fn out_lines_count(&self) -> (n: usize)
        ensures
            n == self@.out.len(),
    {
        self.out.len()
    }

    /// The commands emitted from position `start` on (empty when `start`
    /// is past the end).
    pub fn out_lines_clone_from(&self, start: usize) -> (v: Vec<String>)
        ensures
            views(v@) == lines_after(self@.out, start as int),
    {
        let mut v: Vec<String> = Vec::new();
        let n = self.out.len();
        if start >= n {
            assert(views(v@) =~= Seq::<Seq<char>>::empty());
            return v;
        }
        let mut i = start;
        while i < n
            invariant
                n == self.out.len(),
                start <= i <= n,
                views(v@) =~= views(self.out@).subrange(start as int, i as int),
            decreases n - i,
        {
            let line = self.out[i].clone();
            let ghost before = v@;
            v.push(line);
            assert(views(v@) =~= views(before).push(self.out@[i as int]@));
            assert(views(self.out@).subrange(start as int, i + 1) =~= views(self.out@).subrange(start as int, i as int).push(self.out@[i as int]@));
            i += 1;
        }
        assert(views(self.out@).subrange(start as int, n as int) =~= views(self.out@).skip(start as int));
        v
    }

    /// Appends `lines` verbatim.
    pub fn out_extend_lines(&mut self, lines: &[String])
        ensures
            final(self)@ == with_lines(old(self)@, views(lines@)),
    {
        let mut i: usize = 0;
        while i < lines.len()
            invariant
                i <= lines.len(),
                self@ == (PostModel { out: old(self)@.out + views(lines@).take(i as int), ..old(self)@ }),
            decreases lines.len() - i,
        {
            self.write(lines[i].clone());
            assert(views(lines@).take(i + 1) =~= views(lines@).take(i as int).push(lines@[i as int]@));
            assert(old(self)@.out + views(lines@).take(i + 1) =~= (old(self)@.out + views(lines@).take(i as int)).push(lines@[i as int]@));
            i += 1;
        }
        assert(views(lines@).take(lines.len() as int) =~= views(lines@));
    }

    /// Forgets the last position so the next move is emitted explicitly;
    /// the pen state is kept.
    pub fn reset_state(&mut self)
        ensures
            final(self)@ == reset(old(self)@),
    {
        self.last_x = None;
        self.last_y = None;
    }

    /// The last position.
    pub fn capture_state(&self) -> (c: PenPosition)
        ensures
            c == captured(self@),
    {
        PenPosition { last_x: self.last_x, last_y: self.last_y }
    }

    /// Reinstates a captured position.
    pub fn restore_state(&mut self, s: &PenPosition)
        ensures
            final(self)@ == restored(old(self)@, *s),
    {
        self.last_x = s.last_x;
        self.last_y = s.last_y;
    }
}

/// Replaying a cached body appends exactly the lines emitted after
/// `marker` and leaves the position the fresh emission ended at; the pen
/// state is the replaying program's own (it is not part of the captured
/// state), so the replay equals the fresh program when that program held
/// the same earlier commands and pen state as the fresh one ended with.
pub proof fn lemma_cached_body_replays(fresh: PostModel, marker: int, entry: PostModel)
    requires
        0 <= marker <= fresh.out.len(),
    ensures
        ({
            let r = restored(with_lines(entry, lines_after(fresh.out, marker)), captured(fresh));
            &&& r.out == entry.out + fresh.out.skip(marker)
            &&& r.pen_down == entry.pen_down
            &&& r.last_x == fresh.last_x
            &&& r.last_y == fresh.last_y
            &&& (entry.out == fresh.out.take(marker) && entry.pen_down == fresh.pen_down ==> r == fresh)
        }),
{
    assert(lines_after(fresh.out, marker) =~= fresh.out.skip(marker));
    if entry.out == fresh.out.take(marker) {
        assert(entry.out + fresh.out.skip(marker) =~= fresh.out);
    }
}

/// A cut always leaves the pen down and a travel always leaves it up; the
/// pen command is emitted only on a change, so consecutive cuts (or
/// travels) never repeat it.
pub proof fn lemma_pen_state(m: PostModel, x: Option<i64>, y: Option<i64>)
    ensures
        cut(m, x, y).pen_down,
        !travel(m, x, y).pen_down,
        m.pen_down ==> cut(m, x, y) == move_abs(m, if x.is_some() { x } else { m.last_x }, if y.is_some() { y } else { m.last_y }),
        !m.pen_down ==> travel(m, x, y) == move_abs(m, x, y),
{
}

/// A cut to a known point lowers the pen only when it was up and then
/// writes `PA<x>,<y>;`, a missing coordinate taking its last value; a
/// travel raises the pen only when it was down and moves only when both
/// coordinates are given.
pub proof fn lemma_hpgl_moves(m: PostModel, x: i64, y: i64)
    ensures
        cut(m, Some(x), Some(y)).out == (if m.pen_down { m.out } else { m.out.push("PD;"@) })
            .push("PA"@ + dec_int(x as int) + ","@ + dec_int(y as int) + ";"@),
        m.last_y matches Some(ly) ==> cut(m, Some(x), None).out == (if m.pen_down { m.out } else { m.out.push("PD;"@) })
            .push("PA"@ + dec_int(x as int) + ","@ + dec_int(ly as int) + ";"@),
        travel(m, Some(x), Some(y)).out == (if m.pen_down { m.out.push("PU;"@) } else { m.out })
            .push("PA"@ + dec_int(x as int) + ","@ + dec_int(y as int) + ";"@),
        travel(m, Some(x), None).out == (if m.pen_down { m.out.push("PU;"@) } else { m.out }),
{
}

/// Capturing and restoring the position is a round trip.
pub proof fn lemma_capture_restore(m: PostModel)
    ensures
        restored(m, captured(m)) == m,
{
}

} // verus!
