//! The host's monotonic timer as a clock of nanosecond ticks.

use vstd::prelude::*;
use crate::clock::Clock;
use crate::duration::Width;
use crate::error::ClockError;
use crate::fraction::Fraction;
use crate::instant::Instant;

verus! {

/// The host's monotonic time stamp, of which nothing is known but that it can
/// be carried around.
#[verifier::external_type_specification]
#[verifier::external_body]
pub struct ExHostInstant(std::time::Instant);

/// `std::time::Instant::now` reads the host's monotonic timer. The value
/// differs from call to call, so nothing is claimed of it.
pub assume_specification[ std::time::Instant::now ]() -> std::time::Instant;

/// The length of time from the time stamp `earlier` to the time stamp
/// `later`, as `std::time::Instant::duration_since` gives it: zero where
/// `earlier` is the later of the two.
pub uninterp spec fn elapsed_between(
    later: std::time::Instant,
    earlier: std::time::Instant,
) -> core::time::Duration;

/// The whole number of nanoseconds in a length of time, as
/// `core::time::Duration::as_nanos` gives it.
pub uninterp spec fn nanos_in(elapsed: core::time::Duration) -> nat;

/// `std::time::Instant::duration_since` gives the time from `earlier` to the
/// receiver, and zero where `earlier` is the later of the two. The result
/// depends on the two time stamps alone, and is claimed to be
/// [`elapsed_between`] of them; nothing is claimed of what it holds.
pub assume_specification[ std::time::Instant::duration_since ](
    now: &std::time::Instant,
    earlier: std::time::Instant,
) -> (elapsed: core::time::Duration)
    ensures
        elapsed == elapsed_between(*now, earlier),
;

/// `core::time::Duration::as_nanos` gives the whole number of nanoseconds in
/// a `core::time::Duration`. The number depends on the length of time alone,
/// and is claimed to be [`nanos_in`] of it; nothing is claimed of its size.
pub assume_specification[ core::time::Duration::as_nanos ](
    elapsed: &core::time::Duration,
) -> (nanos: u128)
    ensures
        nanos == nanos_in(*elapsed),
;

/// The number of values of a 64-bit tick counter.
pub open spec fn rollover_period() -> nat {
    0x1_0000_0000_0000_0000
}

/// The tick count that a 64-bit nanosecond counter shows `nanos` nanoseconds
/// after its epoch: the counter rolls over to zero after its largest value.
pub open spec fn ticks_after(nanos: nat) -> nat {
    nanos % rollover_period()
}

/// As long as the counter has not rolled over, a later reading never shows
/// fewer ticks than an earlier one.
pub proof fn lemma_ticks_monotonic(earlier: nat, later: nat)
    requires
        earlier <= later,
        later < rollover_period(),
    ensures
        ticks_after(earlier) <= ticks_after(later),
        ticks_after(earlier) == earlier,
        ticks_after(later) == later,
{
}

/// A clock with nanosecond precision, backed by the host's monotonic timer.
///
/// The clock is started when it is made, and counts the nanoseconds since
/// then in 64 bits: it rolls over after about 584 years.
#[derive(Copy, Clone, Debug)]
pub struct StandardClock {
    start: std::time::Instant,
}

impl Default for StandardClock {
    /// A clock whose epoch is the moment of the call.
    fn default() -> (clock: StandardClock)
        ensures
            clock.running(),
    {
        StandardClock { start: std::time::Instant::now() }
    }
}

impl StandardClock {
    /// The time stamp of the host's timer at which the clock was started.
    pub closed spec fn epoch(self) -> std::time::Instant {
        self.start
    }

    /// The instant that the clock shows at the time stamp `now` of the
    /// host's timer: the nanoseconds from the clock's epoch to `now`, counted
    /// in 64 bits.
    pub open spec fn reading_at(self, now: std::time::Instant) -> nat {
        ticks_after(nanos_in(elapsed_between(now, self.epoch())))
    }

    /// The instant that the clock shows `nanos` nanoseconds after it was
    /// started; only the low 64 bits of the number are kept.
    pub fn instant_after(nanos: u128) -> (i: Instant<StandardClock>)
        ensures
            i.count() == ticks_after(nanos as nat),
    {
        let ticks: u128 = nanos % 0x1_0000_0000_0000_0000u128;
        Instant::new(ticks as u64)
    }
}

impl Clock for StandardClock {
    /// Each tick is one nanosecond.
    open spec fn tick_unit() -> Fraction {
        Fraction::ratio(1, 1_000_000_000)
    }

    /// The ticks are counted in 64 bits.
    open spec fn tick_width() -> Width {
        Width::Bits64
    }

    /// The clock runs from the moment it is made.
    open spec fn running(&self) -> bool {
        true
    }

    fn scaling_factor() -> (f: Fraction) {
        Fraction::new(1, 1_000_000_000)
    }

    fn width() -> (w: Width) {
        Width::Bits64
    }

    /// Reads the host's timer and gives the nanoseconds since the clock was
    /// started as an instant. The clock is always running, so this never
    /// fails.
    ///
    /// Which time stamp the timer gives is not known before the call; the
    /// instant is the clock's reading at that time stamp.
    fn try_now(&self) -> (r: Result<Instant<StandardClock>, ClockError>)
        ensures
            r is Ok,
            exists|now: std::time::Instant| r->Ok_0.count() == #[trigger] self.reading_at(now),
    {
        let now = std::time::Instant::now();
        let elapsed = now.duration_since(self.start);
        let instant = StandardClock::instant_after(elapsed.as_nanos());
        assert(instant.count() == self.reading_at(now));
        Ok(instant)
    }
}

} // verus!
