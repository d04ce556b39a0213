//! The fixed-step clock: how many simulation ticks a frame has to run.
//!
//! Time is counted in whole steps of 1/60000 of a second, so that one tick
//! (1/60 s) and the catch-up cap (0.2 s) are whole numbers of steps.

use vstd::prelude::*;

verus! {

/// Simulation ticks per second.
pub const TICKS_PER_SEC: i32 = 60;

/// Clock steps in one second.
pub const TIME_STEPS_PER_SEC: u64 = 60_000;

/// Clock steps in one tick.
pub const TICK_RATE: u64 = 1_000;

/// The farthest the simulation may lag behind the wall clock, in clock steps
/// (0.2 s). A longer lag is forgotten, not caught up.
pub const MAX_TIME_BEHIND: u64 = 12_000;

/// The most ticks that a single frame can run.
pub const MAX_TICKS_PER_FRAME: u32 = 12;

/// Simulated time so far: the time up to which ticks have been run.
#[derive(Clone, Copy, Debug, PartialEq, Eq)]
pub struct SimulationClock {
    pub tick_time: u64,
}

/// Simulated time from which a frame at `now` catches up: `tick_time`, or,
/// where that lies more than `MAX_TIME_BEHIND` back, `now - MAX_TIME_BEHIND`.
pub open spec fn catch_up_from(tick_time: int, now: int) -> int {
    if now > tick_time + MAX_TIME_BEHIND {
        now - MAX_TIME_BEHIND
    } else {
        tick_time
    }
}

/// `a / b`, rounded up.
pub open spec fn ceil_div(a: int, b: int) -> int {
    (a + b - 1) / b
}

/// Number of ticks that a frame at `now` runs when ticks have been run up to
/// `tick_time`: the lag after clamping, in ticks, rounded up; none where
/// simulated time has reached `now`.
pub open spec fn ticks_due(tick_time: int, now: int) -> int {
    let from = catch_up_from(tick_time, now);
    if from >= now {
        0
    } else {
        ceil_div(now - from, TICK_RATE as int)
    }
}

impl SimulationClock {
    /// A clock that has nothing to catch up at time `now`.
    pub fn new(now: u64) -> (clock: SimulationClock)
        ensures
            clock.tick_time == now,
    {
        SimulationClock { tick_time: now }
    }

    /// Forgets any lag beyond `MAX_TIME_BEHIND`.
    pub fn clamp_lag(&mut self, now: u64)
        ensures
            final(self).tick_time == catch_up_from(old(self).tick_time as int, now as int),
    {
        if now >= MAX_TIME_BEHIND && now - MAX_TIME_BEHIND > self.tick_time {
            self.tick_time = now - MAX_TIME_BEHIND;
        }
    }

    /// Whether a tick is due at `now`: simulated time has not reached it.
    pub fn tick_due(&self, now: u64) -> (due: bool)
        ensures
            due == (self.tick_time < now),
    {
        self.tick_time < now
    }

    /// Accounts for the frame at wall-clock time `now` and returns the number
    /// of ticks to run in it.
    ///
    /// Lag beyond `MAX_TIME_BEHIND` is dropped first. Then simulated time is
    /// moved on tick by tick for as long as it is behind `now`. A tick is
    /// never counted while simulated time has reached `now`.
    pub fn begin_frame(&mut self, now: u64) -> (ticks: u32)
        requires
            now <= u64::MAX - TICK_RATE,
        ensures
            ticks == ticks_due(old(self).tick_time as int, now as int),
            final(self).tick_time == catch_up_from(old(self).tick_time as int, now as int) + ticks
                * TICK_RATE,
            ticks <= MAX_TICKS_PER_FRAME,
            ticks == 0 <==> old(self).tick_time >= now,
            final(self).tick_time >= now,
            ticks > 0 ==> final(self).tick_time < now + TICK_RATE,
    {
        self.clamp_lag(now);
        let ghost from: u64 = self.tick_time;
        let mut ticks: u32 = 0;
        while self.tick_time < now
            invariant
                now <= u64::MAX - TICK_RATE,
                from + MAX_TIME_BEHIND >= now,
                self.tick_time == from + ticks * TICK_RATE,
                ticks > 0 ==> self.tick_time < now + TICK_RATE,
                ticks <= MAX_TICKS_PER_FRAME,
            decreases now + TICK_RATE - self.tick_time,
        {
            self.tick_time = self.tick_time + TICK_RATE;
            ticks = ticks + 1;
        }
        ticks
    }
}

/// A frame never runs more ticks than fit into `MAX_TIME_BEHIND`, and runs
/// none exactly when simulated time has reached the wall clock.
pub proof fn lemma_ticks_due_bounds(tick_time: int, now: int)
    ensures
        0 <= ticks_due(tick_time, now) <= MAX_TICKS_PER_FRAME,
        ticks_due(tick_time, now) == 0 <==> tick_time >= now,
{
}

/// After the ticks that are due simulated time has reached the wall clock and
/// is less than one tick ahead of it.
pub proof fn lemma_ticks_due_reach_now(tick_time: int, now: int)
    requires
        tick_time < now,
    ensures
        now <= catch_up_from(tick_time, now) + ticks_due(tick_time, now) * TICK_RATE < now
            + TICK_RATE,
        catch_up_from(tick_time, now) + (ticks_due(tick_time, now) - 1) * TICK_RATE < now,
{
}

/// Simulated time after the frames at the times `frames`, one after the
/// other, when ticks had been run up to `tick_time` before the first.
pub open spec fn clock_after(tick_time: int, frames: Seq<int>) -> int
    decreases frames.len(),
{
    if frames.len() == 0 {
        tick_time
    } else {
        let before = clock_after(tick_time, frames.drop_last());
        catch_up_from(before, frames.last()) + ticks_due(before, frames.last()) * TICK_RATE
    }
}

/// Number of ticks that the frames at the times `frames` run in all.
pub open spec fn ticks_over(tick_time: int, frames: Seq<int>) -> int
    decreases frames.len(),
{
    if frames.len() == 0 {
        0
    } else {
        ticks_over(tick_time, frames.drop_last()) + ticks_due(
            clock_after(tick_time, frames.drop_last()),
            frames.last(),
        )
    }
}

/// The simulation runs at the fixed rate whatever the frame rate: while no
/// frame comes later than `MAX_TIME_BEHIND` after the one before it, the
/// frames up to some time have together run just the ticks that the time
/// since the start holds, rounded up, however many frames there were and
/// however they were spaced.
pub proof fn lemma_steady_rate(start: int, frames: Seq<int>)
    requires
        frames.len() > 0,
        start <= frames[0] <= start + MAX_TIME_BEHIND,
        forall|i: int|
            0 < i < frames.len() ==> frames[i - 1] <= #[trigger] frames[i] <= frames[i - 1]
                + MAX_TIME_BEHIND,
    ensures
        ticks_over(start, frames) == ceil_div(frames.last() - start, TICK_RATE as int),
        clock_after(start, frames) == start + ticks_over(start, frames) * TICK_RATE,
        frames.last() <= clock_after(start, frames) < frames.last() + TICK_RATE,
    decreases frames.len(),
{
    let now = frames.last();
    let earlier = frames.drop_last();
    if earlier.len() == 0 {
        assert(clock_after(start, earlier) == start);
        assert(ticks_over(start, earlier) == 0);
    } else {
        assert forall|i: int| 0 < i < earlier.len() implies earlier[i - 1] <= #[trigger] earlier[i]
            <= earlier[i - 1] + MAX_TIME_BEHIND by {
            assert(earlier[i] == frames[i]);
            assert(earlier[i - 1] == frames[i - 1]);
        }
        assert(earlier[0] == frames[0]);
        lemma_steady_rate(start, earlier);
        assert(earlier.last() == frames[frames.len() - 2]);
        assert(frames[frames.len() - 1 - 1] <= frames[frames.len() - 1]);
    }
}

} // verus!
