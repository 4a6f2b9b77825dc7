//! The fixed-interval frame loop: when a tick is due, how long to sleep
//! otherwise, frame-rate accounting, and what the loop does with the
//! transition that the active view reports.
use vstd::prelude::*;

verus! {

/// Fixed tick interval, in milliseconds (a 60 Hz target).
pub const FRAME_INTERVAL_MS: u32 = 1_000 / 60;

/// Length of one frame-rate report period, in milliseconds.
pub const FPS_PERIOD_MS: u32 = 1_000;

/// Abstract state of the frame clock: the time of the last tick, the time of
/// the last frame-rate report, and the frames counted since that report.
pub struct ClockState {
    pub before: int,
    pub last_second: int,
    pub frames: int,
}

/// What the clock says at a given time.
#[derive(Clone, Copy, Debug, PartialEq, Eq, Structural)]
pub enum Tick {
    /// No tick is due: sleep this many milliseconds, then ask again.
    Wait(u32),
    /// A tick is due. `elapsed_ms` is the time since the previous tick; `fps`
    /// holds the number of frames in the period that just closed, when one
    /// closed with this tick.
    Run { elapsed_ms: u32, fps: Option<u32> },
}

/// Milliseconds since the last tick; a reading earlier than the last tick
/// counts as no time elapsed.
pub open spec fn elapsed_at(s: ClockState, now: u32) -> int {
    if now >= s.before {
        now - s.before
    } else {
        0
    }
}

/// Whether a tick is due at time `now`.
pub open spec fn tick_due(s: ClockState, now: u32) -> bool {
    elapsed_at(s, now) >= FRAME_INTERVAL_MS
}

/// The clock's state after it is asked at time `now`.
pub open spec fn clock_next(s: ClockState, now: u32) -> ClockState {
    if !tick_due(s, now) {
        s
    } else if now - s.last_second > FPS_PERIOD_MS {
        ClockState { before: now as int, last_second: now as int, frames: 0 }
    } else {
        ClockState { before: now as int, last_second: s.last_second, frames: s.frames + 1 }
    }
}

/// What the clock answers when asked at time `now`.
pub open spec fn clock_answer(s: ClockState, now: u32) -> Tick {
    if !tick_due(s, now) {
        Tick::Wait((FRAME_INTERVAL_MS - elapsed_at(s, now)) as u32)
    } else if now - s.last_second > FPS_PERIOD_MS {
        Tick::Run { elapsed_ms: elapsed_at(s, now) as u32, fps: Some((s.frames + 1) as u32) }
    } else {
        Tick::Run { elapsed_ms: elapsed_at(s, now) as u32, fps: None }
    }
}

/// The frame clock. Times are milliseconds on the platform's tick counter.
pub struct FrameClock {
    before: u32,
    last_second: u32,
    frames: u32,
}

impl View for FrameClock {
    type V = ClockState;

    closed spec fn view(&self) -> ClockState {
        ClockState {
            before: self.before as int,
            last_second: self.last_second as int,
            frames: self.frames as int,
        }
    }
}

impl FrameClock {
    #[verifier::type_invariant]
    spec fn inv(self) -> bool {
        &&& self.last_second <= self.before
        &&& self.before - self.last_second <= FPS_PERIOD_MS
        &&& self.frames <= self.before - self.last_second + 1
    }

    /// A clock whose first tick falls one interval after `start`.
    pub fn new(start: u32) -> (r: FrameClock)
        ensures
            r@ == (ClockState { before: start as int, last_second: start as int, frames: 0 }),
    {
        FrameClock { before: start, last_second: start, frames: 0 }
    }

    /// Asks the clock at time `now`. Before one interval has passed since the
    /// last tick the state is left as it is and the answer is how long to
    /// sleep. Otherwise the tick happens: its time becomes the new baseline,
    /// the frame is counted, and when more than one report period has passed
    /// since the last report the count is reported and restarted.
    pub fn tick(&mut self, now: u32) -> (r: Tick)
        ensures
            final(self)@ == clock_next(old(self)@, now),
            r == clock_answer(old(self)@, now),
    {
        proof {
            use_type_invariant(&*self);
        }
        let dt: u32 = if now >= self.before {
            now - self.before
        } else {
            0
        };
        if dt < FRAME_INTERVAL_MS {
            return Tick::Wait(FRAME_INTERVAL_MS - dt);
        }
        let frames = self.frames + 1;
        if now - self.last_second > FPS_PERIOD_MS {
            *self = FrameClock { before: now, last_second: now, frames: 0 };
            Tick::Run { elapsed_ms: dt, fps: Some(frames) }
        } else {
            *self = FrameClock { before: now, last_second: self.last_second, frames };
            Tick::Run { elapsed_ms: dt, fps: None }
        }
    }
}

/// What a view reports at the end of its frame.
pub enum ViewAction<V> {
    /// Keep this view active.
    Continue,
    /// Stop the loop.
    Quit,
    /// Make the carried view the active one.
    ChangeView(V),
}

/// What the loop does once a view's frame is over.
pub enum FrameEnd<V> {
    /// Present the drawing surface and go on.
    Present,
    /// Leave the loop; no view is called again.
    Stop,
    /// Make the carried view the active one. Nothing is presented for this
    /// tick: the new view draws on its first call.
    Replace(V),
}

/// Abstract state of the loop: whether it still runs, and its clock.
pub struct LoopState {
    pub running: bool,
    pub clock: ClockState,
}

/// The loop's state and answer when polled at time `now`: a stopped loop
/// gives no tick; a running one asks its clock.
pub open spec fn poll_result(s: LoopState, now: u32) -> (LoopState, Option<Tick>) {
    if !s.running {
        (s, None)
    } else {
        (LoopState { running: true, clock: clock_next(s.clock, now) }, Some(clock_answer(s.clock, now)))
    }
}

/// The loop's state and decision once the active view reported `action`.
pub open spec fn frame_result<V>(s: LoopState, action: ViewAction<V>) -> (LoopState, FrameEnd<V>) {
    if !s.running {
        (s, FrameEnd::Stop)
    } else {
        match action {
            ViewAction::Continue => (s, FrameEnd::Present),
            ViewAction::Quit => (LoopState { running: false, clock: s.clock }, FrameEnd::Stop),
            ViewAction::ChangeView(v) => (s, FrameEnd::Replace(v)),
        }
    }
}

/// The decisions of the frame loop, with the running/stopped state. The
/// caller measures time, sleeps, pumps input, calls the active view and
/// presents; this type says when and what.
pub struct Scheduler {
    clock: FrameClock,
    running: bool,
}

impl View for Scheduler {
    type V = LoopState;

    closed spec fn view(&self) -> LoopState {
        LoopState { running: self.running, clock: self.clock@ }
    }
}

impl Scheduler {
    /// A running loop whose clock starts at `start`.
    pub fn new(start: u32) -> (r: Scheduler)
        ensures
            r@ == (LoopState {
                running: true,
                clock: ClockState { before: start as int, last_second: start as int, frames: 0 },
            }),
    {
        Scheduler { clock: FrameClock::new(start), running: true }
    }

    /// Whether the loop still runs.
    pub fn is_running(&self) -> (r: bool)
        ensures
            r == self@.running,
    {
        self.running
    }

    /// Polls the loop at time `now`: `None` once it has stopped, else what
    /// the clock answers.
    pub fn poll(&mut self, now: u32) -> (r: Option<Tick>)
        ensures
            (final(self)@, r) == poll_result(old(self)@, now),
    {
        if !self.running {
            return None;
        }
        let t = self.clock.tick(now);
        Some(t)
    }

    /// Interprets what the active view reported for this tick.
    pub fn finish<V>(&mut self, action: ViewAction<V>) -> (r: FrameEnd<V>)
        ensures
            (final(self)@, r) == frame_result(old(self)@, action),
    {
        if !self.running {
            return FrameEnd::Stop;
        }
        match action {
            ViewAction::Continue => FrameEnd::Present,
            ViewAction::Quit => {
                self.running = false;
                FrameEnd::Stop
            },
            ViewAction::ChangeView(v) => FrameEnd::Replace(v),
        }
    }
}

/// The clock's state after it was asked at each time of `reads` in turn.
pub open spec fn clock_after(s: ClockState, reads: Seq<u32>) -> ClockState
    decreases reads.len(),
{
    if reads.len() == 0 {
        s
    } else {
        clock_next(clock_after(s, reads.drop_last()), reads.last())
    }
}

/// No tick happens before one interval has passed since the last one: while
/// every reading stays below that mark the clock answers `Wait` and keeps its
/// state; the first reading at or past the mark runs the tick, with the time
/// since the last tick as elapsed time, and makes that reading the new
/// baseline.
pub proof fn lemma_no_tick_before_interval(s: ClockState, reads: Seq<u32>, next: u32)
    requires
        0 <= s.before,
        forall|i: int| 0 <= i < reads.len() ==> reads[i] < s.before + FRAME_INTERVAL_MS,
    ensures
        clock_after(s, reads) == s,
        forall|i: int|
            0 <= i < reads.len() ==> clock_after(s, #[trigger] reads.take(i)) == s
                && clock_answer(s, reads[i]) is Wait,
        next >= s.before + FRAME_INTERVAL_MS ==> {
            &&& clock_answer(clock_after(s, reads), next) is Run
            &&& clock_answer(clock_after(s, reads), next)->elapsed_ms == next - s.before
            &&& clock_next(clock_after(s, reads), next).before == next
        },
    decreases reads.len(),
{
    if reads.len() > 0 {
        let p = reads.drop_last();
        lemma_no_tick_before_interval(s, p, next);
        assert forall|i: int| 0 <= i < reads.len() implies clock_after(s, #[trigger] reads.take(i)) == s
            && clock_answer(s, reads[i]) is Wait by {
            if i < p.len() {
                assert(reads.take(i) =~= p.take(i));
                assert(p[i] == reads[i]);
            } else {
                assert(reads.take(i) =~= p);
            }
        }
    }
}

/// A view that asks to be replaced hands the loop exactly the new view and
/// leaves the loop running, so the next tick calls the new view and never the
/// old one; when that view then asks to stop, the loop stops, and from then on
/// no poll, at any time, yields a tick.
pub proof fn lemma_replace_then_stop<V>(s: LoopState, next: V, now: u32)
    requires
        s.running,
    ensures
        frame_result(s, ViewAction::ChangeView(next)).1 == FrameEnd::Replace(next),
        frame_result(s, ViewAction::ChangeView(next)).0.running,
        frame_result(frame_result(s, ViewAction::ChangeView(next)).0, ViewAction::<V>::Quit).1 is Stop,
        !frame_result(frame_result(s, ViewAction::ChangeView(next)).0, ViewAction::<V>::Quit).0.running,
        poll_result(frame_result(frame_result(s, ViewAction::ChangeView(next)).0, ViewAction::<V>::Quit).0, now).1 is None,
{
}

/// A stopped loop stays stopped: polling it yields no tick and whatever a
/// view reports, the decision is to stop.
pub proof fn lemma_stopped_is_final<V>(s: LoopState, now: u32, action: ViewAction<V>)
    requires
        !s.running,
    ensures
        poll_result(s, now) == (s, Option::<Tick>::None),
        frame_result(s, action).0 == s,
        frame_result(s, action).1 is Stop,
{
}

} // verus!
