//! LinuxCNC post-processor: the modal, integer-valued part of the program
//! text (program envelope, units, tool changes, spindle, coolant, feeds,
//! cutter compensation and canned-cycle control). Every emitted line is
//! appended to the program buffer in order.

use vstd::prelude::*;
use crate::cam::{ToolOffset, UnitSystem};
use crate::strs::{dec, join, views, join_strings, push_u64, with_u64};
use crate::pipeline::{m6_at, m6_count, tool_changes};

verus! {

/// What a LinuxCNC post holds: the program lines emitted so far and the
/// modal state that decides whether a word must be re-emitted.
pub struct PostModel {
    pub out: Seq<Seq<char>>,
    pub absolute: bool,
    pub last_rate: Option<u32>,
    pub last_speed: Option<u32>,
}

/// The modal feed / spindle state saved and restored around cached op
/// bodies.
#[derive(Clone, Copy, Debug, PartialEq, Eq, Structural)]
pub struct CapturedRates {
    pub last_rate: Option<u32>,
    pub last_speed: Option<u32>,
}

#[derive(Debug)]
pub struct Post {
    out: Vec<String>,
    absolute: bool,
    last_rate: Option<u32>,
    last_speed: Option<u32>,
}

impl View for Post {
    type V = PostModel;

    closed spec fn view(&self) -> PostModel {
        PostModel {
            out: views(self.out@),
            absolute: self.absolute,
            last_rate: self.last_rate,
            last_speed: self.last_speed,
        }
    }
}

/// `m` with `line` appended to its program.
pub open spec fn emitted(m: PostModel, line: Seq<char>) -> PostModel {
    PostModel { out: m.out.push(line), ..m }
}

/// The spindle word that follows `M3` / `M4`.
pub open spec fn speed_word(speed: u32) -> Seq<char> {
    " S"@ + dec(speed as nat)
}

/// The program after a spindle start with command `m_word` at `speed`,
/// dwelling `pause` seconds: nothing when the spindle already runs at
/// that speed.
pub open spec fn spindle_start(m: PostModel, m_word: Seq<char>, speed: u32, pause: u32) -> PostModel {
    if m.last_speed == Some(speed) {
        m
    } else {
        let started = PostModel { last_speed: Some(speed), ..emitted(m, m_word + speed_word(speed)) };
        if pause > 0 {
            emitted(started, "G4 P"@ + dec(pause as nat))
        } else {
            started
        }
    }
}

/// `m` after `F<rate>`: the feed word is emitted only when the modal
/// feed differs from `rate`.
pub open spec fn fed(m: PostModel, rate: u32) -> PostModel {
    if m.last_rate == Some(rate) {
        m
    } else {
        PostModel { last_rate: Some(rate), ..emitted(m, "F"@ + dec(rate as nat)) }
    }
}

/// A feed that differs from the modal one is always written: the program
/// gains exactly the line `F<rate>` and the rate becomes modal; the same
/// feed again writes nothing.
pub proof fn lemma_new_feed_is_written(m: PostModel, rate: u32)
    ensures
        m.last_rate != Some(rate) ==> fed(m, rate).out == m.out.push("F"@ + dec(rate as nat))
            && fed(m, rate).last_rate == Some(rate),
        m.last_rate == Some(rate) ==> fed(m, rate) == m,
        fed(fed(m, rate), rate) == fed(m, rate),
{
}

/// A spindle start at a new speed always writes `M3 S<speed>` (or
/// `M4 …`) followed by a `G4 P<pause>` dwell when there is a pause, and
/// makes the speed modal without touching the modal feed; a start at the
/// running speed writes nothing.
pub proof fn lemma_new_speed_is_written(m: PostModel, m_word: Seq<char>, speed: u32, pause: u32)
    ensures
        m.last_speed == Some(speed) ==> spindle_start(m, m_word, speed, pause) == m,
        m.last_speed != Some(speed) ==> spindle_start(m, m_word, speed, pause).last_speed == Some(speed)
            && spindle_start(m, m_word, speed, pause).last_rate == m.last_rate
            && spindle_start(m, m_word, speed, pause).out == (if pause > 0 {
                m.out.push(m_word + (" S"@ + dec(speed as nat))).push("G4 P"@ + dec(pause as nat))
            } else {
                m.out.push(m_word + (" S"@ + dec(speed as nat)))
            }),
{
}

/// The program lines from position `start` on (none when `start` is past
/// the end).
pub open spec fn lines_after(out: Seq<Seq<char>>, start: int) -> Seq<Seq<char>> {
    if start >= out.len() {
        Seq::empty()
    } else {
        out.skip(start)
    }
}

/// `m` with `lines` appended verbatim.
pub open spec fn with_lines(m: PostModel, lines: Seq<Seq<char>>) -> PostModel {
    PostModel { out: m.out + lines, ..m }
}

/// The modal feed / spindle state of `m`.
pub open spec fn captured(m: PostModel) -> CapturedRates {
    CapturedRates { last_rate: m.last_rate, last_speed: m.last_speed }
}

/// `m` with the modal feed / spindle state `c`.
pub open spec fn restored(m: PostModel, c: CapturedRates) -> PostModel {
    PostModel { last_rate: c.last_rate, last_speed: c.last_speed, ..m }
}

/// `m` with the modal feed and spindle speed forgotten.
pub open spec fn reset(m: PostModel) -> PostModel {
    PostModel { last_rate: None, last_speed: None, ..m }
}

impl Post {
    /// An empty program in relative-unset state with no modal feed or
    /// spindle speed.
    pub fn new() -> (p: Post)
        ensures
            p@.out == Seq::<Seq<char>>::empty(),
            !p@.absolute,
            p@.last_rate.is_none(),
            p@.last_speed.is_none(),
    {
        let p = Post { out: Vec::new(), absolute: false, last_rate: None, last_speed: None };
        assert(views(p.out@) =~= Seq::<Seq<char>>::empty());
        p
    }

    /// Appends one program line.
    fn write(&mut self, line: String)
        ensures
            final(self)@ == emitted(old(self)@, line@),
    {
        self.out.push(line);
        assert(views(self.out@) =~= views(old(self).out@).push(line@));
    }

    fn write_str(&mut self, line: &str)
        ensures
            final(self)@ == emitted(old(self)@, line@),
    {
        self.write(String::from_str(line));
    }

    /// A blank separator line.
    pub fn separation(&mut self)
        ensures
            final(self)@ == emitted(old(self)@, Seq::empty()),
    {
        self.write(String::new());
    }

    /// A verbatim line.
    pub fn raw(&mut self, cmd: &str)
        ensures
            final(self)@ == emitted(old(self)@, cmd@),
    {
        self.write_str(cmd);
    }

    /// A `(text)` comment line.
    pub fn comment(&mut self, text: &str)
        ensures
            final(self)@ == emitted(old(self)@, "("@ + text@ + ")"@),
    {
        let mut s = String::from_str("(");
        s.append(text);
        s.append(")");
        proof {
            reveal_strlit("(");
            reveal_strlit(")");
        }
        self.write(s);
    }

    /// `G21` for millimetres, `G20` for inches.
    pub fn unit(&mut self, unit: UnitSystem)
        ensures
            final(self)@ == emitted(
                old(self)@,
                match unit {
                    UnitSystem::Mm => "G21"@,
                    UnitSystem::Inch => "G20"@,
                },
            ),
    {
        match unit {
            UnitSystem::Mm => self.write_str("G21"),
            UnitSystem::Inch => self.write_str("G20"),
        }
    }

    /// `G90` (absolute) or `G91` (incremental) distance mode.
    pub fn absolute(&mut self, active: bool)
        ensures
            final(self)@ == (PostModel {
                absolute: active,
                ..emitted(
                    old(self)@,
                    if active {
                        "G90"@
                    } else {
                        "G91"@
                    },
                )
            }),
    {
        if active {
            self.absolute = true;
            self.write_str("G90");
        } else {
            self.absolute = false;
            self.write_str("G91");
        }
    }

    /// `F<rate>` when the modal feed differs from `rate`; nothing otherwise.
    pub fn feedrate(&mut self, rate: u32)
        ensures
            final(self)@ == fed(old(self)@, rate),
            old(self)@.last_rate != Some(rate) ==> final(self)@.out == old(self)@.out.push("F"@ + dec(rate as nat))
                && final(self)@.last_rate == Some(rate),
            old(self)@.last_rate == Some(rate) ==> final(self)@ == old(self)@,
    {
        if self.last_rate != Some(rate) {
            self.write(with_u64("F", rate as u64));
            self.last_rate = Some(rate);
        }
    }

    /// The program header line.
    pub fn program_start(&mut self)
        ensures
            final(self)@ == emitted(old(self)@, "(generated by wiaConstructor)"@),
    {
        self.write_str("(generated by wiaConstructor)");
    }

    /// `M30`, the program end.
    pub fn program_end(&mut self)
        ensures
            final(self)@ == emitted(old(self)@, "M30"@),
    {
        self.write_str("M30");
    }

    /// `T<n> M6`, a tool change.
    pub fn tool(&mut self, n: u32)
        ensures
            final(self)@ == emitted(old(self)@, "T"@ + dec(n as nat) + " M6"@),
    {
        let mut s = with_u64("T", n as u64);
        s.append(" M6");
        self.write(s);
    }

    /// Cutter compensation: `G40` (off / on the line), `G41` (outside),
    /// `G42` (inside).
    pub fn tool_offsets(&mut self, offset: ToolOffset)
        ensures
            final(self)@ == emitted(
                old(self)@,
                match offset {
                    ToolOffset::Outside => "G41"@,
                    ToolOffset::Inside => "G42"@,
                    _ => "G40"@,
                },
            ),
    {
        match offset {
            ToolOffset::Off => self.write_str("G40"),
            ToolOffset::Inside => self.write_str("G42"),
            ToolOffset::Outside => self.write_str("G41"),
            ToolOffset::On => self.write_str("G40"),
        }
    }

    /// `M7`, mist coolant on.
    pub fn coolant_mist(&mut self)
        ensures
            final(self)@ == emitted(old(self)@, "M7"@),
    {
        self.write_str("M7");
    }

    /// `M8`, flood coolant on.
    pub fn coolant_flood(&mut self)
        ensures
            final(self)@ == emitted(old(self)@, "M8"@),
    {
        self.write_str("M8");
    }

    /// `M9`, coolant off.
    pub fn coolant_off(&mut self)
        ensures
            final(self)@ == emitted(old(self)@, "M9"@),
    {
        self.write_str("M9");
    }

    /// `M5`, spindle stop; forgets the modal speed.
    pub fn spindle_off(&mut self)
        ensures
            final(self)@ == (PostModel { last_speed: None, ..emitted(old(self)@, "M5"@) }),
    {
        self.write_str("M5");
        self.last_speed = None;
    }

    /// The ` S<rpm>` word that follows `M3` / `M4`.
    fn render_speed(&self, speed: u32) -> (s: String)
        ensures
            s@ == speed_word(speed),
    {
        with_u64(" S", speed as u64)
    }

    fn spindle_start(&mut self, m_word: &str, speed: u32, pause: u32)
        ensures
            final(self)@ == spindle_start(old(self)@, m_word@, speed, pause),
    {
        if self.last_speed != Some(speed) {
            let mut s = String::from_str(m_word);
            let rendered = self.render_speed(speed);
            s.append(rendered.as_str());
            self.write(s);
            self.last_speed = Some(speed);
            if pause > 0 {
                self.write(with_u64("G4 P", pause as u64));
            }
        }
    }

    /// `M3 S<speed>` (clockwise), then `G4 P<pause>` when `pause > 0`;
    /// nothing when the spindle already runs at `speed`.
    pub fn spindle_cw(&mut self, speed: u32, pause: u32)
        ensures
            final(self)@ == spindle_start(old(self)@, "M3"@, speed, pause),
            old(self)@.last_speed == Some(speed) ==> final(self)@ == old(self)@,
            old(self)@.last_speed != Some(speed) ==> final(self)@.last_speed == Some(speed)
                && final(self)@.last_rate == old(self)@.last_rate
                && final(self)@.out == (if pause > 0 {
                    old(self)@.out.push("M3"@ + (" S"@ + dec(speed as nat))).push("G4 P"@ + dec(pause as nat))
                } else {
                    old(self)@.out.push("M3"@ + (" S"@ + dec(speed as nat)))
                }),
    {
        self.spindle_start("M3", speed, pause);
    }

    /// `M4 S<speed>` (counter-clockwise), then `G4 P<pause>` when
    /// `pause > 0`; nothing when the spindle already runs at `speed`.
    pub fn spindle_ccw(&mut self, speed: u32, pause: u32)
        ensures
            final(self)@ == spindle_start(old(self)@, "M4"@, speed, pause),
            old(self)@.last_speed == Some(speed) ==> final(self)@ == old(self)@,
            old(self)@.last_speed != Some(speed) ==> final(self)@.last_speed == Some(speed)
                && final(self)@.last_rate == old(self)@.last_rate
                && final(self)@.out == (if pause > 0 {
                    old(self)@.out.push("M4"@ + (" S"@ + dec(speed as nat))).push("G4 P"@ + dec(pause as nat))
                } else {
                    old(self)@.out.push("M4"@ + (" S"@ + dec(speed as nat)))
                }),
    {
        self.spindle_start("M4", speed, pause);
    }

    /// `G17`, XY plane.
    pub fn plane_xy(&mut self)
        ensures
            final(self)@ == emitted(old(self)@, "G17"@),
    {
        self.write_str("G17");
    }

    /// `G40`, cutter compensation off.
    pub fn cutter_comp_off(&mut self)
        ensures
            final(self)@ == emitted(old(self)@, "G40"@),
    {
        self.write_str("G40");
    }

    /// `G94`, units-per-minute feed mode.
    pub fn feed_per_minute(&mut self)
        ensures
            final(self)@ == emitted(old(self)@, "G94"@),
    {
        self.write_str("G94");
    }

    /// `G80`, cancels a canned cycle; modal state is kept.
    pub fn cancel_canned_cycle(&mut self)
        ensures
            final(self)@ == emitted(old(self)@, "G80"@),
    {
        self.write_str("G80");
    }

    /// The whole program: the lines joined by newlines, with a final newline.
    pub fn finish(&self) -> (s: String)
        ensures
            s@ == join(self@.out, "\n"@) + "\n"@,
    {
        let mut s = join_strings(&self.out, "\n");
        s.append("\n");
        s
    }

    /// Number of lines emitted so far.
    pub fn out_lines_count(&self) -> (n: usize)
        ensures
            n == self@.out.len(),
    {
        self.out.len()
    }

    /// The lines emitted from position `start` on (empty when `start` is
    /// past the end).
    pub fn out_lines_clone_from(&self, start: usize) -> (v: Vec<String>)
        ensures
            views(v@) == lines_after(self@.out, start as int),
    {
        let mut v: Vec<String> = Vec::new();
        let n = self.out.len();
        if start >= n {
            assert(views(v@) =~= Seq::<Seq<char>>::empty());
            return v;
        }
        let mut i = start;
        while i < n
            invariant
                n == self.out.len(),
                start <= i <= n,
                views(v@) =~= views(self.out@).subrange(start as int, i as int),
            decreases n - i,
        {
            let line = self.out[i].clone();
            let ghost before = v@;
            v.push(line);
            assert(views(v@) =~= views(before).push(self.out@[i as int]@));
            assert(views(self.out@).subrange(start as int, i + 1) =~= views(self.out@).subrange(start as int, i as int).push(self.out@[i as int]@));
            i += 1;
        }
        assert(views(self.out@).subrange(start as int, n as int) =~= views(self.out@).skip(start as int));
        v
    }

    /// Appends `lines` verbatim.
    pub fn out_extend_lines(&mut self, lines: &[String])
        ensures
            final(self)@ == with_lines(old(self)@, views(lines@)),
    {
        let mut i: usize = 0;
        while i < lines.len()
            invariant
                i <= lines.len(),
                self@ == (PostModel { out: old(self)@.out + views(lines@).take(i as int), ..old(self)@ }),
            decreases lines.len() - i,
        {
            self.write(lines[i].clone());
            assert(views(lines@).take(i + 1) =~= views(lines@).take(i as int).push(lines@[i as int]@));
            assert(old(self)@.out + views(lines@).take(i + 1) =~= (old(self)@.out + views(lines@).take(i as int)).push(lines@[i as int]@));
            i += 1;
        }
        assert(views(lines@).take(lines.len() as int) =~= views(lines@));
    }

    /// Forgets the modal feed and spindle speed so the next feed / spindle
    /// word is emitted explicitly.
    pub fn reset_state(&mut self)
        ensures
            final(self)@ == reset(old(self)@),
    {
        self.last_rate = None;
        self.last_speed = None;
    }

    /// The modal feed / spindle state.
    pub fn capture_state(&self) -> (c: CapturedRates)
        ensures
            c == captured(self@),
    {
        CapturedRates { last_rate: self.last_rate, last_speed: self.last_speed }
    }

    /// Reinstates a captured modal feed / spindle state.
    pub fn restore_state(&mut self, s: &CapturedRates)
        ensures
            final(self)@ == restored(old(self)@, *s),
    {
        self.last_rate = s.last_rate;
        self.last_speed = s.last_speed;
    }
}

/// Replaying a cached op body reproduces the fresh emission: the lines
/// emitted after `marker`, appended to a program that holds the same
/// lines before `marker` and the same distance mode, followed by the
/// captured feed / spindle state, give back the fresh program exactly.
pub proof fn lemma_cached_body_replays(fresh: PostModel, marker: int, entry: PostModel)
    requires
        0 <= marker <= fresh.out.len(),
        entry.out == fresh.out.take(marker),
        entry.absolute == fresh.absolute,
    ensures
        restored(with_lines(entry, lines_after(fresh.out, marker)), captured(fresh)) == fresh,
{
    assert(entry.out + lines_after(fresh.out, marker) =~= fresh.out);
}

/// On any program, replaying a cached body appends exactly the captured
/// lines and leaves the modal feed / spindle state the fresh emission
/// ended with.
pub proof fn lemma_replay_appends(fresh: PostModel, marker: int, entry: PostModel)
    requires
        0 <= marker <= fresh.out.len(),
    ensures
        ({
            let r = restored(with_lines(entry, lines_after(fresh.out, marker)), captured(fresh));
            &&& r.out == entry.out + fresh.out.skip(marker)
            &&& r.absolute == entry.absolute
            &&& r.last_rate == fresh.last_rate
            &&& r.last_speed == fresh.last_speed
        }),
{
    if marker == fresh.out.len() {
        assert(fresh.out.skip(marker) =~= Seq::<Seq<char>>::empty());
    }
}

/// A repeated feed word is suppressed: setting the same feed twice emits
/// it once.
pub proof fn lemma_feedrate_idempotent(m: PostModel, rate: u32)
    ensures
        fed(fed(m, rate), rate) == fed(m, rate),
{
}

/// After a state reset the next feed word is always emitted.
pub proof fn lemma_reset_forces_feed(m: PostModel, rate: u32)
    ensures
        fed(reset(m), rate).out == m.out.push("F"@ + dec(rate as nat)),
{
}

/// Starting the spindle again at the speed it already runs at (in either
/// direction) emits nothing.
pub proof fn lemma_spindle_start_idempotent(m: PostModel, w1: Seq<char>, w2: Seq<char>, speed: u32, p1: u32, p2: u32)
    ensures
        spindle_start(spindle_start(m, w1, speed, p1), w2, speed, p2) == spindle_start(m, w1, speed, p1),
{
}

/// Capturing and restoring the modal state is a round trip.
pub proof fn lemma_capture_restore(m: PostModel)
    ensures
        restored(m, captured(m)) == m,
        captured(restored(m, captured(m))) == captured(m),
{
}

/// The tool-change count of a tool-change line (with its newline) is one.
proof fn lemma_tool_line_counts_once(n: u32)
    ensures
        tool_changes("T"@ + dec(n as nat) + " M6"@ + "\n"@) == 1,
{
    reveal_strlit("T");
    reveal_strlit(" M6");
    reveal_strlit("\n");
    let d = dec(n as nat);
    crate::strs::lemma_dec_digits(n as nat);
    let t = "T"@ + d + " M6"@ + "\n"@;
    let p: int = d.len() as int + 2;
    assert(t =~= seq!['T'] + d + seq![' ', 'M', '6', '\n']);
    assert(t.len() == p + 3);
    assert forall|i: int| 0 <= i < t.len() implies t[i] != ';' by {
        if 1 <= i < d.len() + 1 {
            assert(t[i] == d[i - 1]);
        }
    }
    crate::pipeline::lemma_blank_no_semicolon(t);
    assert forall|i: int| 0 <= i < p implies t[i] != 'M' && t[i] != 'm' by {
        if 1 <= i < d.len() + 1 {
            assert(t[i] == d[i - 1]);
        }
    }
    crate::pipeline::lemma_m6_count_none(t, p);
    assert(t[p] == 'M' && t[p + 1] == '6' && t[p - 1] == ' ');
    assert(m6_at(t, p));
    assert(m6_count(t, p + 1) == 1);
    assert(!m6_at(t, p + 1));
    assert(m6_count(t, p + 2) == 1);
    assert(!m6_at(t, p + 2));
    assert(m6_count(t, p + 3) == 1);
}

/// Every tool change the post emits counts exactly once: after `T<n> M6`
/// the finished program has one tool change more than before.
pub proof fn lemma_tool_change_counted_once(m: PostModel, n: u32)
    ensures
        tool_changes(join(emitted(m, "T"@ + dec(n as nat) + " M6"@).out, "\n"@) + "\n"@)
            == tool_changes(join(m.out, "\n"@) + "\n"@) + 1,
{
    crate::pipeline::lemma_tool_changes_add_line(m.out, "T"@ + dec(n as nat) + " M6"@);
    lemma_tool_line_counts_once(n);
}

} // verus!
