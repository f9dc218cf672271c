//! Time-lapses: the session, the schedule of its frames, and the film that is
//! made of them.

use vstd::prelude::*;

use crate::camera;
use crate::camera::TL_DIR;
use crate::gallery;
use crate::settings;
use crate::settings::push_flag;
use crate::text;
use crate::text::{dec, push_text};

verus! {

// ── The session ───────────────────────────────────────────────────────────────

/// The time-lapse: how many frames the last session has, where they are, and
/// whether it runs.
pub struct Timelapse {
    frame_count: usize,
    session_dir: Option<String>,
    running: bool,
}

/// What the time-lapse holds.
pub struct TimelapseView {
    pub frame_count: usize,
    pub session_dir: Option<Seq<char>>,
    pub running: bool,
}

impl View for Timelapse {
    type V = TimelapseView;

    closed spec fn view(&self) -> TimelapseView {
        TimelapseView {
            frame_count: self.frame_count,
            session_dir: match self.session_dir {
                Some(dir) => Some(dir@),
                None => None,
            },
            running: self.running,
        }
    }
}

/// The directory of a session begun at a time.
pub open spec fn session_path(ts: nat) -> Seq<char> {
    TL_DIR@ + "/session_"@ + text::decimal(ts)
}

/// The time-lapse with a session begun at a time.
pub open spec fn started(ts: nat) -> TimelapseView {
    TimelapseView { frame_count: 0, session_dir: Some(session_path(ts)), running: true }
}

/// The time-lapse once it is asked to end.
pub open spec fn stopped(t: TimelapseView) -> TimelapseView {
    TimelapseView { running: false, ..t }
}

/// The time-lapse with the frame with an index.
pub open spec fn counted(t: TimelapseView, index: usize) -> TimelapseView {
    TimelapseView { frame_count: (index + 1) as usize, ..t }
}

/// The time-lapse after a step of its session.
pub open spec fn advanced(t: TimelapseView, step: RunStep) -> TimelapseView {
    if step == RunStep::Done {
        stopped(t)
    } else {
        t
    }
}

/// The path of a film made at a time.
pub open spec fn film_path(ts: nat) -> Seq<char> {
    TL_DIR@ + "/timelapse_"@ + text::decimal(ts) + ".mp4"@
}

/// The names of a session's frames as `ffmpeg` is told them.
pub open spec fn frame_pattern(dir: Seq<char>) -> Seq<char> {
    dir + "/frame_%06d.jpg"@
}

/// The arguments of `ffmpeg` that make a film of a session's frames.
pub open spec fn film_args(dir: Seq<char>, out: Seq<char>) -> Seq<Seq<char>> {
    let a = Seq::<Seq<char>>::empty().push("-y"@);
    let b = settings::with_flag(a, "-framerate"@, "24"@);
    let c = settings::with_flag(b, "-i"@, frame_pattern(dir));
    let d = settings::with_flag(
        c,
        "-vf"@,
        "scale=1920:1080:force_original_aspect_ratio=decrease,pad=1920:1080:-1:-1"@,
    );
    let e = settings::with_flag(d, "-c:v"@, "libx264"@);
    let f = settings::with_flag(e, "-pix_fmt"@, "yuv420p"@);
    f.push(out)
}

/// A film to make: where it goes, and the arguments of `ffmpeg`.
pub struct FilmPlan {
    pub out: String,
    pub args: Vec<String>,
}

impl Timelapse {
    /// No session yet.
    pub fn new() -> (r: Self)
        ensures
            r@ == (TimelapseView {
                frame_count: 0,
                session_dir: None::<Seq<char>>,
                running: false,
            }),
    {
        Timelapse { frame_count: 0, session_dir: None, running: false }
    }

    /// Whether a session runs.
    pub fn is_running(&self) -> (r: bool)
        ensures
            r == self@.running,
    {
        self.running
    }

    /// Begins a session at a time, and says in which directory; does nothing if
    /// one runs.
    pub fn start(&mut self, ts: u128) -> (r: Option<String>)
        ensures
            old(self)@.running ==> r is None && final(self)@ == old(self)@,
            !old(self)@.running ==> {
                &&& r matches Some(dir) && dir@ == session_path(ts as nat)
                &&& final(self)@ == started(ts as nat)
            },
    {
        if self.running {
            return None;
        }
        let mut dir = TL_DIR.to_owned();
        dir.append("/session_");
        let time = dec(ts);
        dir.append(time.as_str());
        self.frame_count = 0;
        self.session_dir = Some(dir.as_str().to_owned());
        self.running = true;
        Some(dir)
    }

    /// Asks the session to end. Also called when it has come to its end.
    pub fn stop(&mut self)
        ensures
            final(self)@ == stopped(old(self)@),
    {
        self.running = false;
    }

    /// What the running session does next. Where it comes to its end, it no
    /// longer runs.
    pub fn advance(&mut self, run: &mut TimelapseRun) -> (r: RunStep)
        requires
            old(run)@.wf(),
        ensures
            r == run_step(old(run)@, old(self)@.running),
            final(run)@ == run_next(old(run)@, old(self)@.running),
            final(run)@.wf(),
            final(self)@ == advanced(old(self)@, r),
    {
        let step = run.step(self.running);
        match step {
            RunStep::Done => {
                self.running = false;
            },
            _ => {},
        }
        step
    }

    /// Notes that the frame with an index, counted from 0, was taken and is
    /// there; gives the count of frames.
    pub fn frame_taken(&mut self, index: usize) -> (r: usize)
        requires
            index < usize::MAX,
        ensures
            r == index + 1,
            final(self)@ == counted(old(self)@, index),
    {
        self.frame_count = index + 1;
        self.frame_count
    }

    /// How many frames the session has.
    pub fn current_frame_count(&self) -> (r: usize)
        ensures
            r == self@.frame_count,
    {
        self.frame_count
    }

    /// The film to make of the last session's frames; none if there was no
    /// session.
    pub fn render(&self, ts: u128) -> (r: Option<FilmPlan>)
        ensures
            r is Some <==> self@.session_dir is Some,
            r matches Some(plan) ==> {
                &&& plan.out@ == film_path(ts as nat)
                &&& text::texts(plan.args@) == film_args(
                    self@.session_dir->0,
                    film_path(ts as nat),
                )
            },
    {
        let dir = match &self.session_dir {
            Some(dir) => dir,
            None => {
                return None;
            },
        };
        let mut out = TL_DIR.to_owned();
        out.append("/timelapse_");
        let time = dec(ts);
        out.append(time.as_str());
        out.append(".mp4");
        let mut pattern = dir.as_str().to_owned();
        pattern.append("/frame_%06d.jpg");
        let mut args: Vec<String> = Vec::new();
        assert(text::texts(args@) =~= Seq::empty());
        push_text(&mut args, "-y");
        push_flag(&mut args, "-framerate", "24");
        push_flag(&mut args, "-i", pattern.as_str());
        push_flag(
            &mut args,
            "-vf",
            "scale=1920:1080:force_original_aspect_ratio=decrease,pad=1920:1080:-1:-1",
        );
        push_flag(&mut args, "-c:v", "libx264");
        push_flag(&mut args, "-pix_fmt", "yuv420p");
        push_text(&mut args, out.as_str());
        Some(FilmPlan { out, args })
    }
}

/// The film, if and only if `ffmpeg` ran and exited with 0. `status` is the exit
/// code, none after a signal, or why it could not be run.
pub fn render_result(out: String, status: &Result<Option<i32>, String>) -> (r: Option<String>)
    ensures
        r is Some <==> (*status matches Ok(code) && code == Some(0i32)),
        r matches Some(film) ==> film@ == out@,
{
    match status {
        Ok(Some(0)) => Some(out),
        _ => None,
    }
}

// ── The schedule ──────────────────────────────────────────────────────────────

/// How many frames a session takes: one per interval, and one per second where
/// the interval is 0.
pub open spec fn frames_in(duration_secs: u64, interval_secs: u64) -> usize {
    if interval_secs == 0 {
        duration_secs as usize
    } else {
        (duration_secs / interval_secs) as usize
    }
}

/// How many frames a session takes.
pub fn total_frames(duration_secs: u64, interval_secs: u64) -> (r: usize)
    ensures
        r == frames_in(duration_secs, interval_secs),
{
    let interval: u64 = if interval_secs == 0 {
        1
    } else {
        interval_secs
    };
    (duration_secs / interval) as usize
}

/// How long a session waits between two looks at whether it was stopped, in
/// milliseconds.
pub const WAIT_MS: u64 = 100;

/// What a running session does next.
#[derive(Clone, Copy, Debug, PartialEq, Eq, Structural)]
pub enum RunStep {
    /// Take the frame with this index.
    Capture(usize),
    /// Wait for `WAIT_MS`.
    Wait,
    /// The session has just come to its end.
    Done,
    /// The session ended before.
    Over,
}

/// A session as it runs.
pub struct TimelapseRun {
    total: usize,
    waits: u64,
    next: usize,
    left: u64,
    over: bool,
}

/// Where a session stands: how many frames it takes, how often it waits after
/// each, the index of the next frame, the waits left before it, and whether it
/// has come to its end.
pub struct RunView {
    pub total: int,
    pub waits: int,
    pub next: int,
    pub left: int,
    pub over: bool,
}

impl View for TimelapseRun {
    type V = RunView;

    closed spec fn view(&self) -> RunView {
        RunView {
            total: self.total as int,
            waits: self.waits as int,
            next: self.next as int,
            left: self.left as int,
            over: self.over,
        }
    }
}

/// What a session does next, given whether it is to go on.
pub open spec fn run_step(v: RunView, running: bool) -> RunStep {
    if v.over {
        RunStep::Over
    } else if !running {
        RunStep::Done
    } else if v.left > 0 {
        RunStep::Wait
    } else if v.next < v.total {
        RunStep::Capture(v.next as usize)
    } else {
        RunStep::Done
    }
}

/// Where the session stands after that.
pub open spec fn run_next(v: RunView, running: bool) -> RunView {
    match run_step(v, running) {
        RunStep::Capture(_) => RunView { next: v.next + 1, left: v.waits, ..v },
        RunStep::Wait => RunView { left: v.left - 1, ..v },
        RunStep::Done => RunView { over: true, ..v },
        RunStep::Over => v,
    }
}

/// A session before its first frame.
pub open spec fn run_start(duration_secs: u64, interval_secs: u64) -> RunView {
    let total = frames_in(duration_secs, interval_secs) as int;
    RunView {
        total,
        waits: if total > 0 {
            interval_secs * 10
        } else {
            0
        },
        next: 0,
        left: 0,
        over: false,
    }
}

impl RunView {
    /// The next frame is one of the session's, or there is none left.
    pub open spec fn wf(self) -> bool {
        &&& 0 <= self.next <= self.total <= usize::MAX
        &&& 0 <= self.left
        &&& 0 <= self.waits
    }
}

impl TimelapseRun {
    /// A session that is to take a frame each interval for a duration.
    pub fn new(duration_secs: u64, interval_secs: u64) -> (r: Self)
        requires
            frames_in(duration_secs, interval_secs) > 0 ==> interval_secs * 10 <= u64::MAX,
        ensures
            r@ == run_start(duration_secs, interval_secs),
            r@.wf(),
    {
        let total = total_frames(duration_secs, interval_secs);
        let waits: u64 = if total > 0 {
            interval_secs * 10
        } else {
            0
        };
        TimelapseRun { total, waits, next: 0, left: 0, over: false }
    }

    /// What the session does next, given whether it is to go on.
    pub fn step(&mut self, running: bool) -> (r: RunStep)
        requires
            old(self)@.wf(),
        ensures
            r == run_step(old(self)@, running),
            final(self)@ == run_next(old(self)@, running),
            final(self)@.wf(),
    {
        if self.over {
            RunStep::Over
        } else if running && self.left > 0 {
            self.left = self.left - 1;
            RunStep::Wait
        } else if running && self.next < self.total {
            let index = self.next;
            self.next = index + 1;
            self.left = self.waits;
            RunStep::Capture(index)
        } else {
            self.over = true;
            RunStep::Done
        }
    }
}

// ── What the schedule promises ────────────────────────────────────────────────

/// What happens to a session.
pub enum SessionEvent {
    /// It is asked to end.
    Stop,
    /// It takes a step. `there` tells whether the file of a frame that is taken
    /// in it is there afterwards.
    Step { there: bool },
}

/// A session: the time-lapse, where it stands, the indices of the frames taken,
/// whether their files were there, the counts that were reported, and how often
/// its end was reported.
pub struct Session {
    pub lapse: TimelapseView,
    pub run: RunView,
    pub taken: Seq<usize>,
    pub there: Seq<bool>,
    pub told: Seq<usize>,
    pub ends: nat,
}

/// A session at its start.
pub open spec fn session_start(ts: nat, duration_secs: u64, interval_secs: u64) -> Session {
    Session {
        lapse: started(ts),
        run: run_start(duration_secs, interval_secs),
        taken: Seq::empty(),
        there: Seq::empty(),
        told: Seq::empty(),
        ends: 0,
    }
}

/// A session after one event more.
pub open spec fn session_next(s: Session, event: SessionEvent) -> Session {
    match event {
        SessionEvent::Stop => Session { lapse: stopped(s.lapse), ..s },
        SessionEvent::Step { there } => {
            let step = run_step(s.run, s.lapse.running);
            let next = Session {
                lapse: advanced(s.lapse, step),
                run: run_next(s.run, s.lapse.running),
                ..s
            };
            match step {
                RunStep::Capture(i) => if there {
                    Session {
                        lapse: counted(next.lapse, i),
                        taken: s.taken.push(i),
                        there: s.there.push(true),
                        told: s.told.push((i + 1) as usize),
                        ..next
                    }
                } else {
                    Session { taken: s.taken.push(i), there: s.there.push(false), ..next }
                },
                RunStep::Done => Session { ends: s.ends + 1, ..next },
                _ => next,
            }
        },
    }
}

/// A session after some events.
pub open spec fn session_after(s: Session, events: Seq<SessionEvent>) -> Session
    decreases events.len(),
{
    if events.len() == 0 {
        s
    } else {
        session_next(session_after(s, events.drop_last()), events.last())
    }
}

/// How many steps are among some events.
pub open spec fn steps_among(events: Seq<SessionEvent>) -> int
    decreases events.len(),
{
    if events.len() == 0 {
        0
    } else {
        steps_among(events.drop_last()) + (if events.last() is Stop {
            0int
        } else {
            1
        })
    }
}

/// How many steps a session takes in all: each frame, and the waits after it.
pub open spec fn steps_in_all(v: RunView) -> int {
    v.total * (1 + v.waits)
}

/// The steps that are left of a session.
spec fn steps_left(v: RunView) -> int {
    (v.total - v.next) * (1 + v.waits) + v.left
}

proof fn lemma_step_counts(v: RunView)
    requires
        v.wf(),
        !v.over,
        run_step(v, true) != RunStep::Done,
    ensures
        steps_left(run_next(v, true)) == steps_left(v) - 1,
        run_next(v, true).wf(),
{
    if v.left == 0 {
        let k = v.total - v.next;
        let w = 1 + v.waits;
        assert((k - 1) * w == k * w - w) by (nonlinear_arith);
    }
}

proof fn lemma_some_left(v: RunView)
    requires
        v.wf(),
    ensures
        steps_left(v) >= 0,
{
    let k = v.total - v.next;
    let w = 1 + v.waits;
    assert(k >= 0 ==> k * w >= 0) by (nonlinear_arith)
        requires
            w >= 1,
    ;
}

/// What holds of a session that takes so many frames at every moment.
pub open spec fn session_holds(s: Session, total: int) -> bool {
    // The frames taken are the first so many, in order, each once.
    &&& s.taken == Seq::new(s.taken.len(), |i: int| i as usize)
    &&& s.taken.len() <= total
    &&& s.there.len() == s.taken.len()
    // A count is reported exactly where the frame is there, and counts grow.
    &&& forall|n: usize| #[trigger]
        s.told.contains(n) <==> 1 <= n <= s.taken.len() && s.there[n - 1]
    &&& forall|i: int, j: int|
        0 <= i < j < s.told.len() ==> #[trigger] s.told[i] < #[trigger] s.told[j]
    // The count of frames is the one reported last.
    &&& s.lapse.frame_count == (if s.told.len() > 0 {
        s.told.last()
    } else {
        0
    })
    &&& s.lapse.frame_count <= total
    // The end is reported at most once, and then the session no longer runs.
    &&& s.ends == (if s.run.over {
        1nat
    } else {
        0
    })
    &&& s.run.over ==> !s.lapse.running
}

proof fn lemma_told_more(s: Session, n: Session, there: bool, total: int)
    requires
        session_holds(s, total),
        s.run.wf(),
        s.run.next == s.taken.len(),
        s.run.total == total,
        n == session_next(s, SessionEvent::Step { there }),
        run_step(s.run, s.lapse.running) is Capture,
    ensures
        session_holds(n, total),
        n.run.next == n.taken.len(),
{
    let k = s.taken.len();
    let c = (k + 1) as usize;
    assert(n.taken =~= Seq::new(n.taken.len(), |i: int| i as usize));
    assert forall|x: usize| #[trigger] n.told.contains(x) <==> 1 <= x <= n.taken.len()
        && n.there[x - 1] by {
        assert(s.told.contains(x) <==> 1 <= x <= k && s.there[x - 1]);
        if s.told.contains(x) {
            let i = choose|i: int| 0 <= i < s.told.len() && s.told[i] == x;
            assert(n.told[i] == x);
        }
        if there {
            assert(n.told[n.told.len() - 1] == c);
        }
        if n.told.contains(x) {
            let i = choose|i: int| 0 <= i < n.told.len() && n.told[i] == x;
            if i < s.told.len() {
                assert(s.told[i] == x);
            }
        }
    }
    assert forall|i: int, j: int| 0 <= i < j < n.told.len() implies #[trigger] n.told[i]
        < #[trigger] n.told[j] by {
        assert(s.told[i] == n.told[i]);
        assert(s.told.contains(s.told[i]));
        if j < s.told.len() {
            assert(s.told[j] == n.told[j]);
        }
    }
}

proof fn lemma_session(
    ts: nat,
    duration_secs: u64,
    interval_secs: u64,
    events: Seq<SessionEvent>,
)
    ensures
        ({
            let start = session_start(ts, duration_secs, interval_secs);
            let s = session_after(start, events);
            let total = frames_in(duration_secs, interval_secs) as int;
            &&& session_holds(s, total)
            &&& s.lapse.session_dir == Some(session_path(ts))
            &&& s.run.wf()
            &&& s.run.total == total
            &&& s.run.waits == start.run.waits
            &&& s.run.next == s.taken.len()
            &&& !s.run.over ==> steps_left(s.run) + steps_among(events) == steps_in_all(start.run)
            &&& (forall|i: int| 0 <= i < events.len() ==> !((#[trigger] events[i]) is Stop)) ==> {
                &&& !s.run.over ==> s.lapse.running
                &&& s.run.over ==> s.taken.len() == total
            }
        }),
    decreases events.len(),
{
    let start = session_start(ts, duration_secs, interval_secs);
    let total = frames_in(duration_secs, interval_secs) as int;
    let s = session_after(start, events);
    if events.len() == 0 {
        assert(s.taken =~= Seq::new(s.taken.len(), |i: int| i as usize));
        assert((total - 0) * (1 + start.run.waits) == total * (1 + start.run.waits));
    } else {
        let head = events.drop_last();
        lemma_session(ts, duration_secs, interval_secs, head);
        let before = session_after(start, head);
        assert forall|i: int| 0 <= i < head.len() implies head[i] == events[i] by {}
        if forall|i: int| 0 <= i < events.len() ==> !((#[trigger] events[i]) is Stop) {
            assert forall|i: int| 0 <= i < head.len() implies !((#[trigger] head[i]) is Stop) by {
                assert(!(events[i] is Stop));
            }
            assert(!(events[events.len() - 1] is Stop));
        }
        match events.last() {
            SessionEvent::Stop => {},
            SessionEvent::Step { there } => {
                let step = run_step(before.run, before.lapse.running);
                if step is Capture || step is Wait {
                    lemma_step_counts(before.run);
                }
                if step is Capture {
                    lemma_told_more(before, s, there, total);
                }
            },
        }
    }
}

/// Whatever happens to a session, its frames are the first so many, its counts
/// are those of the frames that are there and only grow, it has no more frames
/// than it was to take, and its end is reported at most once.
pub proof fn session_keeps_its_promises(
    ts: nat,
    duration_secs: u64,
    interval_secs: u64,
    events: Seq<SessionEvent>,
)
    ensures
        session_holds(
            session_after(session_start(ts, duration_secs, interval_secs), events),
            frames_in(duration_secs, interval_secs) as int,
        ),
        session_after(
            session_start(ts, duration_secs, interval_secs),
            events,
        ).lapse.session_dir == Some(session_path(ts)),
{
    lemma_session(ts, duration_secs, interval_secs, events);
}

/// Every session comes to its end: at the latest when it has taken one step more
/// than its frames and waits are.
pub proof fn every_session_ends(
    ts: nat,
    duration_secs: u64,
    interval_secs: u64,
    events: Seq<SessionEvent>,
)
    requires
        steps_among(events) > steps_in_all(run_start(duration_secs, interval_secs)),
    ensures
        ({
            let s = session_after(session_start(ts, duration_secs, interval_secs), events);
            s.ends == 1 && !s.lapse.running
        }),
{
    lemma_session(ts, duration_secs, interval_secs, events);
    let s = session_after(session_start(ts, duration_secs, interval_secs), events);
    lemma_some_left(s.run);
}

/// A session that nobody stops has taken every frame when it ends.
pub proof fn uninterrupted_session_takes_every_frame(
    ts: nat,
    duration_secs: u64,
    interval_secs: u64,
    events: Seq<SessionEvent>,
)
    requires
        forall|i: int| 0 <= i < events.len() ==> !((#[trigger] events[i]) is Stop),
        session_after(session_start(ts, duration_secs, interval_secs), events).ends == 1,
    ensures
        session_after(session_start(ts, duration_secs, interval_secs), events).taken == Seq::new(
            frames_in(duration_secs, interval_secs) as nat,
            |i: int| i as usize,
        ),
{
    lemma_session(ts, duration_secs, interval_secs, events);
}

/// After its end nothing comes from a session any more: no frame, no count and
/// no second end.
pub proof fn ended_session_is_silent(s: Session, more: Seq<SessionEvent>)
    requires
        s.run.over,
    ensures
        ({
            let t = session_after(s, more);
            t.run.over && t.taken == s.taken && t.told == s.told && t.ends == s.ends
        }),
    decreases more.len(),
{
    if more.len() > 0 {
        ended_session_is_silent(s, more.drop_last());
    }
}

/// A session waits no longer in all than it was asked to last.
pub proof fn session_keeps_to_its_duration(duration_secs: u64, interval_secs: u64)
    requires
        duration_secs <= usize::MAX,
    ensures
        ({
            let v = run_start(duration_secs, interval_secs);
            v.total * v.waits * WAIT_MS <= duration_secs * 1_000
        }),
{
    let v = run_start(duration_secs, interval_secs);
    if v.total > 0 && interval_secs > 0 {
        let q = (duration_secs / interval_secs) as int;
        assert(q * interval_secs <= duration_secs && q <= duration_secs) by (nonlinear_arith)
            requires
                q == duration_secs as int / interval_secs as int,
                interval_secs > 0,
        ;
        assert(v.total == q);
        assert(q * (interval_secs * 10) == (q * interval_secs) * 10) by (nonlinear_arith);
    } else if interval_secs == 0 {
        assert(v.total * 0 == 0) by (nonlinear_arith);
    }
}

/// Once stopped, a session takes no further frame, and ends at its next step.
pub proof fn stopped_session_ends(s: Session, there: bool)
    requires
        !s.run.over,
    ensures
        ({
            let t = session_next(
                session_next(s, SessionEvent::Stop),
                SessionEvent::Step { there },
            );
            t.run.over && !t.lapse.running && t.taken == s.taken && t.told == s.told && t.ends
                == s.ends + 1
        }),
{
}

/// The frames that are taken are the ones the film is made of: their names are
/// the pattern's, with the index in place of `%06d`.
pub proof fn film_is_made_of_the_frames(ts: nat, index: nat)
    ensures
        camera::frame_path(session_path(ts), index) == session_path(ts) + "/frame_"@ + text::padded(
            index,
            6,
        ) + ".jpg"@,
        frame_pattern(session_path(ts)) == session_path(ts) + "/frame_"@ + "%06d"@ + ".jpg"@,
{
    reveal_strlit("/frame_%06d.jpg");
    reveal_strlit("/frame_");
    reveal_strlit("frame_");
    reveal_strlit("%06d");
    reveal_strlit(".jpg");
    reveal_strlit("/");
    let dir = session_path(ts);
    let d = text::decimal(ts);
    text::decimal_reads_back(ts);
    assert(dir.last() == d.last());
    assert("/"@ + "frame_"@ =~= "/frame_"@);
    assert(dir + "/"@ + "frame_"@ =~= dir + "/frame_"@);
    assert("/frame_%06d.jpg"@ =~= "/frame_"@ + "%06d"@ + ".jpg"@);
    assert(frame_pattern(dir) =~= dir + "/frame_"@ + "%06d"@ + ".jpg"@);
}

/// A film is made of the frames of its own session, 24 of them a second, fitted
/// into a full-HD picture, and goes to its own path.
pub proof fn films_are_made_of_their_sessions(dir: Seq<char>, out: Seq<char>)
    ensures
        ({
            let args = film_args(dir, out);
            &&& settings::ffmpeg_reads(args)
            &&& args.last() == out
            &&& forall|name: Seq<char>| #[trigger]
                settings::input_given(args, name) == (if name == "-i"@ {
                    seq![dir + "/frame_%06d.jpg"@]
                } else if name == "-framerate"@ {
                    seq!["24"@]
                } else {
                    Seq::empty()
                })
            &&& forall|name: Seq<char>| #[trigger]
                settings::output_given(args, name) == (if name == "-vf"@ {
                    seq![
                        "scale=1920:1080:force_original_aspect_ratio=decrease,pad=1920:1080:-1:-1"@,
                    ]
                } else if name == "-c:v"@ {
                    seq!["libx264"@]
                } else if name == "-pix_fmt"@ {
                    seq!["yuv420p"@]
                } else {
                    Seq::empty()
                })
        }),
{
    settings::lemma_ffmpeg_names();
    let sw = settings::ffmpeg_switches();
    settings::lemma_nothing_given(sw);
    let none = Seq::<Seq<char>>::empty();
    let frames = frame_pattern(dir);
    let fit = "scale=1920:1080:force_original_aspect_ratio=decrease,pad=1920:1080:-1:-1"@;
    settings::switch_is_read(none, sw, "-y"@);
    let a = none.push("-y"@);
    settings::option_is_read(a, sw, "-framerate"@, "24"@);
    let b = settings::with_flag(a, "-framerate"@, "24"@);
    settings::option_is_read(b, sw, "-i"@, frames);
    settings::option_is_read(none, sw, "-vf"@, fit);
    let c = settings::with_flag(none, "-vf"@, fit);
    settings::option_is_read(c, sw, "-c:v"@, "libx264"@);
    let d = settings::with_flag(c, "-c:v"@, "libx264"@);
    settings::option_is_read(d, sw, "-pix_fmt"@, "yuv420p"@);
    let e = settings::with_flag(d, "-pix_fmt"@, "yuv420p"@);
    assert(film_args(dir, out) =~= settings::with_flag(b, "-i"@, frames) + e.push(out));
    settings::ffmpeg_args_fall_apart(b, frames, e, out);
}

/// The name of a film tells the gallery when it was made.
pub proof fn films_carry_their_times(ts: nat)
    requires
        ts <= u128::MAX,
    ensures
        gallery::capture_time(
            vstd::utf8::encode_utf8("timelapse_"@ + text::decimal(ts) + ".mp4"@),
        ) == Some(ts),
{
    reveal_strlit("timelapse_");
    reveal_strlit(".mp4");
    assert(".mp4"@[0] == '.');
    gallery::time_is_the_number_in_the_name("timelapse_"@, ts, ".mp4"@);
}

/// Every film that is made shows in the gallery as a video.
pub proof fn films_show_in_the_gallery(ts: nat)
    ensures
        ({
            let name = "timelapse_"@ + text::decimal(ts) + ".mp4"@;
            gallery::item_of(TL_DIR@, vstd::utf8::encode_utf8(name)) == Some(
                gallery::ItemView { path: film_path(ts), name, is_video: true },
            )
        }),
{
    reveal_strlit("/home/pi/Pictures/timelapse");
    reveal_strlit("timelapse_");
    reveal_strlit("/timelapse_");
    reveal_strlit(".mp4");
    reveal_strlit("mp4");
    let d = text::decimal(ts);
    text::decimal_reads_back(ts);
    let stem = "timelapse_"@ + d;
    let name = "timelapse_"@ + d + ".mp4"@;
    assert(name =~= stem + seq!['.'] + "mp4"@);
    assert(stem.last() == d.last());
    gallery::lemma_capture_is_item(TL_DIR@, stem, "mp4"@);
    assert(TL_DIR@ + seq!['/'] + name =~= film_path(ts));
}

/// A session takes as many frames as its intervals fit into its duration, and
/// not one more or less. Without an interval it is one a second.
pub proof fn frames_fill_the_duration(duration_secs: u64, interval_secs: u64)
    requires
        duration_secs <= usize::MAX,
    ensures
        ({
            let n = frames_in(duration_secs, interval_secs) as int;
            interval_secs > 0 ==> n * interval_secs <= duration_secs < (n + 1) * interval_secs
        }),
        frames_in(duration_secs, 0) == duration_secs,
{
    if interval_secs > 0 {
        let q = duration_secs as int / interval_secs as int;
        vstd::arithmetic::div_mod::lemma_fundamental_div_mod(
            duration_secs as int,
            interval_secs as int,
        );
        assert(q <= duration_secs) by (nonlinear_arith)
            requires
                q == duration_secs as int / interval_secs as int,
                interval_secs > 0,
                duration_secs >= 0,
        ;
        assert(frames_in(duration_secs, interval_secs) as int == q);
        assert(q * interval_secs == interval_secs * q) by (nonlinear_arith);
        assert((q + 1) * interval_secs == q * interval_secs + interval_secs) by (nonlinear_arith);
    }
}

/// Where a session that is left alone stands after so many steps.
pub open spec fn run_after(v: RunView, steps: nat) -> RunView
    decreases steps,
{
    if steps == 0 {
        v
    } else {
        run_next(run_after(v, (steps - 1) as nat), true)
    }
}

proof fn lemma_waiting(v: RunView, steps: nat)
    requires
        v.wf(),
        !v.over,
        v.left == 0,
        v.next < v.total,
        1 <= steps <= v.waits + 1,
    ensures
        run_after(v, steps) == (RunView { next: v.next + 1, left: v.waits - (steps - 1), ..v }),
    decreases steps,
{
    if steps > 1 {
        lemma_waiting(v, (steps - 1) as nat);
    } else {
        assert(run_after(v, 0) == v);
    }
}

/// Between two frames exactly the interval passes: behind a frame come only
/// waits, together as long as the interval, and then the next frame, or the end
/// where there is none.
pub proof fn frames_are_an_interval_apart(
    duration_secs: u64,
    interval_secs: u64,
    v: RunView,
    steps: nat,
)
    requires
        v.wf(),
        !v.over,
        v.left == 0,
        v.next < v.total,
        v.total == run_start(duration_secs, interval_secs).total,
        v.waits == run_start(duration_secs, interval_secs).waits,
    ensures
        v.waits * WAIT_MS == interval_secs * 1_000,
        run_step(v, true) == RunStep::Capture(v.next as usize),
        1 <= steps <= v.waits ==> run_step(run_after(v, steps), true) == RunStep::Wait,
        run_step(run_after(v, (v.waits + 1) as nat), true) == (if v.next + 1 < v.total {
            RunStep::Capture((v.next + 1) as usize)
        } else {
            RunStep::Done
        }),
{
    if 1 <= steps <= v.waits {
        lemma_waiting(v, steps);
    }
    lemma_waiting(v, (v.waits + 1) as nat);
}

/// A film counts as made exactly where `ffmpeg` ran and exited with 0, and then
/// it is at its own path.
pub proof fn only_clean_exits_make_films(
    out: String,
    status: Result<Option<i32>, String>,
    r: Option<String>,
)
    requires
        call_ensures(render_result, (out, &status), r),
    ensures
        r is Some <==> status == Ok::<Option<i32>, String>(Some(0i32)),
        r matches Some(film) ==> film@ == out@,
{
}

/// Sessions and films of two times have their own directories and files.
pub proof fn sessions_have_their_own_places(a: nat, b: nat)
    ensures
        session_path(a) == session_path(b) ==> a == b,
        film_path(a) == film_path(b) ==> a == b,
        text::has_prefix(session_path(a), "/home/pi/Pictures/timelapse/"@),
        text::has_prefix(film_path(a), "/home/pi/Pictures/timelapse/"@),
{
    reveal_strlit("/home/pi/Pictures/timelapse");
    reveal_strlit("/home/pi/Pictures/timelapse/");
    reveal_strlit("/session_");
    reveal_strlit("/timelapse_");
    let da = text::decimal(a);
    let db = text::decimal(b);
    let n = "/home/pi/Pictures/timelapse/"@.len() as int;
    assert(session_path(a).take(n) =~= "/home/pi/Pictures/timelapse/"@);
    assert(film_path(a).take(n) =~= "/home/pi/Pictures/timelapse/"@);
    if session_path(a) == session_path(b) {
        let k = (TL_DIR@ + "/session_"@).len() as int;
        assert(da =~= session_path(a).skip(k));
        assert(db =~= session_path(b).skip(k));
        text::decimal_is_injective(a, b);
    }
    if film_path(a) == film_path(b) {
        let k = (TL_DIR@ + "/timelapse_"@).len() as int;
        let e = film_path(a).len() - ".mp4"@.len();
        assert(da =~= film_path(a).subrange(k, e));
        assert(db =~= film_path(b).subrange(k, e));
        text::decimal_is_injective(a, b);
    }
}

// ── What the commands promise ─────────────────────────────────────────────────

/// A session begins exactly where none runs: with no frame yet, in a directory
/// of its own, which is the one that is given out. Else nothing changes.
pub proof fn sessions_begin_one_at_a_time(call: (&mut Timelapse, u128), r: Option<String>)
    requires
        call_ensures(Timelapse::start, call, r),
    ensures
        r is Some <==> !old(call.0)@.running,
        r is None ==> final(call.0)@ == old(call.0)@,
        r matches Some(dir) ==> {
            &&& final(call.0)@.running
            &&& final(call.0)@.frame_count == 0
            &&& final(call.0)@.session_dir == Some(dir@)
            &&& dir@ == "/home/pi/Pictures/timelapse"@ + "/session_"@ + text::decimal(
                call.1 as nat,
            )
        },
{
}

/// A stop ends the session and keeps its frames for the film; a frame that was
/// taken counts by its number.
pub proof fn stops_keep_the_frames(
    stop: (&mut Timelapse,),
    taken: (&mut Timelapse, usize),
    count: usize,
)
    requires
        call_ensures(Timelapse::stop, stop, ()),
        taken.1 < usize::MAX,
        call_ensures(Timelapse::frame_taken, taken, count),
    ensures
        !final(stop.0)@.running,
        final(stop.0)@.frame_count == old(stop.0)@.frame_count,
        final(stop.0)@.session_dir == old(stop.0)@.session_dir,
        count == taken.1 + 1,
        final(taken.0)@.frame_count == count,
        final(taken.0)@.running == old(taken.0)@.running,
        final(taken.0)@.session_dir == old(taken.0)@.session_dir,
{
}

/// A film is made exactly where there was a session: of the frames in that
/// session's directory, to a path of its own.
pub proof fn films_are_made_of_the_last_session(lapse: Timelapse, ts: u128, r: Option<FilmPlan>)
    requires
        call_ensures(Timelapse::render, (&lapse, ts), r),
    ensures
        r is Some <==> lapse@.session_dir is Some,
        r matches Some(plan) ==> {
            let args = text::texts(plan.args@);
            let dir = lapse@.session_dir->0;
            &&& plan.out@ == "/home/pi/Pictures/timelapse"@ + "/timelapse_"@ + text::decimal(
                ts as nat,
            ) + ".mp4"@
            &&& args.last() == plan.out@
            &&& settings::ffmpeg_reads(args)
            &&& settings::input_given(args, "-i"@) == seq![dir + "/frame_%06d.jpg"@]
            &&& settings::input_given(args, "-framerate"@) == seq!["24"@]
            &&& settings::output_given(args, "-c:v"@) == seq!["libx264"@]
            &&& settings::output_given(args, "-pix_fmt"@) == seq!["yuv420p"@]
        },
{
    if let Some(plan) = r {
        settings::lemma_ffmpeg_names();
        films_are_made_of_their_sessions(lapse@.session_dir->0, film_path(ts as nat));
    }
}

/// A session does nothing more once it has come to its end, ends at once where
/// it is stopped, and takes its frames in order.
pub proof fn steps_follow_the_session(call: (&mut TimelapseRun, bool), r: RunStep)
    requires
        old(call.0)@.wf(),
        call_ensures(TimelapseRun::step, call, r),
    ensures
        ({
            let v = old(call.0)@;
            let w = final(call.0)@;
            &&& r == RunStep::Over <==> v.over
            &&& !v.over && !call.1 ==> r == RunStep::Done
            &&& r == RunStep::Done ==> w.over
            &&& r matches RunStep::Capture(i) ==> i == v.next && v.left == 0 && w.next == v.next + 1
                && w.left == v.waits
            &&& r == RunStep::Wait ==> v.left > 0 && w.left == v.left - 1 && w.next == v.next
            &&& w.total == v.total && w.waits == v.waits
        }),
{
}

/// A new session is to take as many frames as fit, an interval apart, and has
/// taken none; where it advances to its end it no longer runs.
pub proof fn sessions_start_at_the_first_frame(
    duration_secs: u64,
    interval_secs: u64,
    r: TimelapseRun,
    total: usize,
    call: (&mut Timelapse, &mut TimelapseRun),
    step: RunStep,
)
    requires
        frames_in(duration_secs, interval_secs) > 0 ==> interval_secs * 10 <= u64::MAX,
        duration_secs <= usize::MAX,
        call_ensures(TimelapseRun::new, (duration_secs, interval_secs), r),
        call_ensures(total_frames, (duration_secs, interval_secs), total),
        old(call.1)@.wf(),
        call_ensures(Timelapse::advance, call, step),
    ensures
        r@.next == 0 && r@.left == 0 && !r@.over,
        r@.total == total,
        interval_secs > 0 ==> total * interval_secs <= duration_secs < (total + 1) * interval_secs,
        interval_secs == 0 ==> total == duration_secs,
        total > 0 ==> r@.waits * WAIT_MS == interval_secs * 1_000,
        step == RunStep::Done ==> !final(call.0)@.running,
        step != RunStep::Done ==> final(call.0)@.running == old(call.0)@.running,
        final(call.0)@.frame_count == old(call.0)@.frame_count,
        final(call.0)@.session_dir == old(call.0)@.session_dir,
        step is Capture ==> old(call.0)@.running && step->Capture_0 == old(call.1)@.next,
        !old(call.0)@.running && !old(call.1)@.over ==> step == RunStep::Done,
{
    frames_fill_the_duration(duration_secs, interval_secs);
}

} // verus!
