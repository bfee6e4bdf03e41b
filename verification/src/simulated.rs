//! A clock that is advanced by hand, for code that must be run against a
//! known sequence of readings.

use vstd::prelude::*;
use vstd::arithmetic::div_mod::{lemma_small_mod, lemma_sub_mod_noop};
use crate::clock::Clock;
use crate::duration::Width;
use crate::error::ClockError;
use crate::fraction::Fraction;
use crate::instant::{wrapped_difference, Instant};

verus! {

/// A clock of millisecond ticks, counted in 32 bits, that stands still until
/// it is advanced.
///
/// It is made unstarted and reports `NotRunning` until it is started. Once
/// started it never stops. Its counter rolls over to zero after `u32::MAX`,
/// as a hardware counter does.
#[derive(Clone, Copy, Debug, PartialEq, Eq, Structural)]
pub struct SimulatedClock {
    pub(crate) started: bool,
    pub(crate) elapsed: u32,
}

impl SimulatedClock {
    /// The clock has been started.
    pub open(crate) spec fn has_started(self) -> bool {
        self.started
    }

    /// The ticks counted so far.
    pub open(crate) spec fn elapsed(self) -> nat {
        self.elapsed as nat
    }

    /// The clock as it is made: unstarted, with no tick counted.
    pub open(crate) spec fn unstarted() -> SimulatedClock {
        SimulatedClock { started: false, elapsed: 0 }
    }

    /// The clock after `start`: running, with the same count.
    pub open(crate) spec fn after_start(self) -> SimulatedClock {
        SimulatedClock { started: true, elapsed: self.elapsed }
    }

    /// The clock after `ticks` more ticks: a running clock counts them and
    /// rolls over after `u32::MAX`; an unstarted clock counts nothing.
    pub open(crate) spec fn after_advance(self, ticks: u32) -> SimulatedClock {
        if self.started {
            SimulatedClock {
                started: true,
                elapsed: ((self.elapsed + ticks) % 0x1_0000_0000) as u32,
            }
        } else {
            self
        }
    }

    /// Counting `ticks` more ticks takes the counter past its largest value.
    pub open spec fn rolls_over(self, ticks: u32) -> bool {
        self.running() && self.elapsed() + ticks > u32::MAX
    }

    /// An unstarted clock.
    pub fn new() -> (clock: SimulatedClock)
        ensures
            clock == SimulatedClock::unstarted(),
            !clock.running(),
            clock.elapsed() == 0,
    {
        SimulatedClock { started: false, elapsed: 0 }
    }

    /// Starts the clock; a running clock stays as it is.
    pub fn start(&mut self)
        ensures
            *final(self) == old(self).after_start(),
            final(self).running(),
            final(self).elapsed() == old(self).elapsed(),
    {
        self.started = true;
    }

    /// Lets `ticks` ticks pass, and says whether the counter rolled over.
    pub fn advance(&mut self, ticks: u32) -> (rolled_over: bool)
        ensures
            *final(self) == old(self).after_advance(ticks),
            rolled_over == old(self).rolls_over(ticks),
            final(self).running() == old(self).running(),
            old(self).running() && !rolled_over ==> final(self).elapsed() == old(self).elapsed()
                + ticks,
            !old(self).running() ==> final(self).elapsed() == old(self).elapsed(),
    {
        if !self.started {
            return false;
        }
        let sum: u64 = self.elapsed as u64 + ticks as u64;
        self.elapsed = (sum % 0x1_0000_0000u64) as u32;
        sum > u32::MAX as u64
    }

    /// The clock has been started.
    pub fn is_running(&self) -> (r: bool)
        ensures
            r == self.running(),
    {
        self.started
    }
}

impl Clock for SimulatedClock {
    /// Each tick is one millisecond.
    open spec fn tick_unit() -> Fraction {
        Fraction::ratio(1, 1_000)
    }

    /// The ticks are counted in 32 bits.
    open spec fn tick_width() -> Width {
        Width::Bits32
    }

    open spec fn running(&self) -> bool {
        self.has_started()
    }

    fn scaling_factor() -> (f: Fraction) {
        Fraction::new(1, 1_000)
    }

    fn width() -> (w: Width) {
        Width::Bits32
    }

    /// The ticks counted so far as an instant, once the clock is started.
    fn try_now(&self) -> (r: Result<Instant<SimulatedClock>, ClockError>)
        ensures
            r is Ok ==> r->Ok_0.count() == self.elapsed(),
    {
        if self.started {
            Ok(Instant::new(self.elapsed as u64))
        } else {
            Err(ClockError::NotRunning)
        }
    }
}

/// A running clock that is advanced without rolling over never shows fewer
/// ticks than before, and shows exactly the ticks that passed.
pub proof fn lemma_advance_monotonic(clock: SimulatedClock, ticks: u32)
    requires
        clock.running(),
        !clock.rolls_over(ticks),
    ensures
        clock.after_advance(ticks).running(),
        clock.after_advance(ticks).elapsed() >= clock.elapsed(),
        clock.after_advance(ticks).elapsed() == clock.elapsed() + ticks,
{
}

/// However many ticks pass on a running clock, the difference of the two
/// readings that allows for one rollover is the number of ticks that passed.
pub proof fn lemma_wrapped_difference_is_ticks_passed(clock: SimulatedClock, ticks: u32)
    requires
        clock.running(),
    ensures
        wrapped_difference(clock.after_advance(ticks).elapsed(), clock.elapsed(), Width::Bits32)
            == ticks,
{
    let period: int = 0x1_0000_0000;
    let sum: int = clock.elapsed() + ticks;
    lemma_sub_mod_noop(sum, clock.elapsed() as int, period);
    lemma_small_mod(clock.elapsed(), period as nat);
    lemma_small_mod(ticks as nat, period as nat);
}

/// Starting a clock, and letting time pass on a running one, never stops it:
/// the only way between the two states is from unstarted to running.
pub proof fn lemma_running_is_kept(clock: SimulatedClock, ticks: u32)
    ensures
        clock.after_start().running(),
        clock.running() ==> clock.after_advance(ticks).running(),
        !clock.running() ==> clock.after_advance(ticks) == clock,
{
}

} // verus!
