//! The tick scheduler: converts wall-clock elapsed time into a monotonically
//! increasing discrete tick count, reporting at most one simulation step per
//! real tick boundary.

use vstd::prelude::*;

verus! {

/// Number of nanoseconds in one second.
pub const NANOS_PER_SECOND: u128 = 1_000_000_000;

#[verifier::external_type_specification]
#[verifier::external_body]
pub struct ExInstant(std::time::Instant);

/// Relies on std::time::Instant::now: a monotonic reference point taken at
/// the moment of the call. Nothing is assumed of the value.
pub assume_specification[ std::time::Instant::now ]() -> std::time::Instant;

/// Relies on std::time::Instant::elapsed: the time that passed since the
/// reference point. The value depends on the wall clock, so nothing is
/// assumed of it.
pub assume_specification[ std::time::Instant::elapsed ](t: &std::time::Instant) -> std::time::Duration;

/// Relies on std::time::Duration::as_nanos: the duration in whole
/// nanoseconds. Nothing is assumed of the value.
pub assume_specification[ std::time::Duration::as_nanos ](d: &std::time::Duration) -> u128;

/// Keeps track of time throughout a game session.
///
/// The stored tick index only ever grows, and a tick is reported exactly
/// when the index computed from the elapsed time passes the stored one.
pub struct TickCounter {
    pub start: std::time::Instant,
    pub nanos_per_tick: u128,
    pub tick: u128,
}

impl TickCounter {
    pub open spec fn wf(self) -> bool {
        self.nanos_per_tick >= 1
    }

    /// Index of the tick window that a poll at `elapsed` nanoseconds falls in.
    pub open spec fn tick_index(self, elapsed: u128) -> int {
        elapsed as int / self.nanos_per_tick as int
    }

    /// Begins counting ticks at the moment of the call.
    ///
    /// A zero tick rate would mean division by zero, and a rate above one
    /// tick per nanosecond would leave no whole nanosecond per tick; both
    /// are fatal configuration errors and are excluded here.
    pub fn start(ticks_per_second: u128) -> (c: TickCounter)
        requires
            1 <= ticks_per_second <= NANOS_PER_SECOND,
        ensures
            c.wf(),
            c.nanos_per_tick == NANOS_PER_SECOND / ticks_per_second,
            c.tick == 0,
    {
        proof {
            vstd::arithmetic::div_mod::lemma_div_is_ordered(
                ticks_per_second as int,
                NANOS_PER_SECOND as int,
                ticks_per_second as int,
            );
            vstd::arithmetic::div_mod::lemma_div_by_self(ticks_per_second as int);
        }
        TickCounter {
            start: std::time::Instant::now(),
            nanos_per_tick: NANOS_PER_SECOND / ticks_per_second,
            tick: 0,
        }
    }

    /// The scheduler decision on an elapsed-time sample handed in by the
    /// caller: reports a tick, and stores the sample's tick index, exactly
    /// when that index strictly exceeds the stored one.
    pub fn next_tick_at(&mut self, elapsed_nanos: u128) -> (r: bool)
        requires
            old(self).wf(),
        ensures
            final(self).wf(),
            final(self).nanos_per_tick == old(self).nanos_per_tick,
            final(self).start == old(self).start,
            r == (old(self).tick_index(elapsed_nanos) > old(self).tick),
            r ==> final(self).tick == old(self).tick_index(elapsed_nanos),
            !r ==> final(self).tick == old(self).tick,
    {
        let curr = elapsed_nanos / self.nanos_per_tick;
        if curr > self.tick {
            self.tick = curr;
            true
        } else {
            false
        }
    }

    /// Polls the real clock. Whatever elapsed time came back, the stored
    /// tick index never decreases, and it advances exactly when a tick is
    /// reported.
    pub fn is_next_tick(&mut self) -> (r: bool)
        requires
            old(self).wf(),
        ensures
            final(self).wf(),
            final(self).nanos_per_tick == old(self).nanos_per_tick,
            final(self).start == old(self).start,
            final(self).tick >= old(self).tick,
            r == (final(self).tick > old(self).tick),
    {
        let elapsed = self.start.elapsed().as_nanos();
        self.next_tick_at(elapsed)
    }
}

/// Tick scheduler law: within one tick window the scheduler fires at most
/// once. If a poll at elapsed time `e1` reports a tick, then a later poll at
/// `e2` in the same window — in particular, at the very same sample — does
/// not report another.
pub proof fn lemma_one_tick_per_window(c: TickCounter, e1: u128, e2: u128)
    requires
        c.wf(),
        e1 <= e2,
        c.tick_index(e1) == c.tick_index(e2),
    ensures
        ({
            let fired1 = c.tick_index(e1) > c.tick;
            let after1 = if fired1 {
                c.tick_index(e1)
            } else {
                c.tick as int
            };
            let fired2 = c.tick_index(e2) > after1;
            !(fired1 && fired2)
        }),
{
}

} // verus!
