//! Points in time as raw tick counts of one clock.

use vstd::prelude::*;
use vstd::arithmetic::div_mod::{lemma_mod_add_multiples_vanish, lemma_sub_mod_noop};
use core::marker::PhantomData;
use crate::clock::Clock;
use crate::duration::{Duration, Width};
use crate::error::ConversionError;

verus! {

/// A point in time: the number of ticks of the clock `C` since that clock's
/// epoch.
///
/// The clock is part of the type, so that instants of different clocks,
/// whose epochs have nothing to do with each other, cannot be subtracted.
#[derive(Debug)]
pub struct Instant<C> {
    pub(crate) ticks: u64,
    pub(crate) clock: PhantomData<C>,
}

/// The ticks from the count `earlier` to the count `later` of a counter of
/// the given width that rolled over at most once in between: the difference
/// modulo the number of values of the counter.
pub open spec fn wrapped_difference(later: nat, earlier: nat, width: Width) -> nat {
    ((later - earlier) % (width.limit() + 1) as int) as nat
}

impl<C> Clone for Instant<C> {
    fn clone(&self) -> (i: Self)
        ensures
            i == *self,
    {
        *self
    }
}

impl<C> Copy for Instant<C> {

}

impl<C> View for Instant<C> {
    type V = nat;

    /// The number of ticks since the clock's epoch.
    open spec fn view(&self) -> nat {
        self.count()
    }
}

impl<C> Instant<C> {
    /// The number of ticks since the clock's epoch.
    pub open(crate) spec fn count(self) -> nat {
        self.ticks as nat
    }

    /// The instant `ticks` ticks after the clock's epoch.
    pub fn new(ticks: u64) -> (i: Instant<C>)
        ensures
            i@ == ticks,
    {
        Instant { ticks, clock: PhantomData }
    }

    /// The number of ticks since the clock's epoch.
    pub fn ticks(&self) -> (t: u64)
        ensures
            t == self@,
    {
        self.ticks
    }
}

impl<C: Clock> Instant<C> {
    /// The time from `earlier` to this instant, in the clock's ticks.
    ///
    /// No rollover of the counter is assumed between the two: an `earlier`
    /// with the larger count is the caller's error, `NegDuration`. A
    /// difference that the clock's tick width does not hold, which no two
    /// readings of the clock give, is a `ConversionOverflow`.
    pub open spec fn elapsed_since(self, earlier: Instant<C>) -> Result<Duration, ConversionError> {
        if self.count() < earlier.count() {
            Err(ConversionError::NegDuration)
        } else {
            Duration::of((self.count() - earlier.count()) as nat, C::tick_unit(), C::tick_width())
        }
    }

    /// The time from the clock's epoch to this instant, in the clock's ticks;
    /// there is none where the clock's tick width does not hold the count.
    pub open spec fn since_epoch(self) -> Result<Duration, ConversionError> {
        Duration::of(self.count(), C::tick_unit(), C::tick_width())
    }

    /// The time from the clock's epoch to this instant as a duration in the
    /// clock's own unit and width.
    ///
    /// Fails with `ConversionOverflow` where the count is beyond the clock's
    /// tick width, which no reading of the clock is.
    pub fn duration_since_epoch(&self) -> (r: Result<Duration, ConversionError>)
        ensures
            r == self.since_epoch(),
            r is Ok <==> self.count() <= C::tick_width().limit(),
            r is Ok ==> r->Ok_0.wf() && r->Ok_0.count() == self.count() && r->Ok_0.unit()
                == C::tick_unit() && r->Ok_0.width() == C::tick_width(),
            r is Err ==> r->Err_0 == ConversionError::ConversionOverflow,
    {
        Duration::new(self.ticks, C::scaling_factor(), C::width())
    }

    /// The time from `earlier` to this instant where the counter may have
    /// rolled over once in between: the difference of the counts modulo the
    /// number of values of the counter.
    ///
    /// This is for clocks whose counter is narrow enough to roll over while
    /// the program runs, and for callers who know which of the two readings
    /// came first: the result is the time from `earlier` until the counter
    /// next shows the count of this instant.
    pub fn wrapping_duration_since(&self, earlier: &Instant<C>) -> (d: Duration)
        ensures
            d.wf(),
            d.count() == wrapped_difference(self.count(), earlier.count(), C::tick_width()),
            d.unit() == C::tick_unit(),
            d.width() == C::tick_width(),
    {
        let width: Width = C::width();
        let period: u128 = width.max_value() as u128 + 1;
        let later: u128 = self.ticks as u128 % period;
        let before: u128 = earlier.ticks as u128 % period;
        let diff: u128 = (later + period - before) % period;
        proof {
            lemma_sub_mod_noop(self.ticks as int, earlier.ticks as int, period as int);
            lemma_mod_add_multiples_vanish(later - before, period as int);
        }
        let unit = C::scaling_factor();
        proof {
            use_type_invariant(&unit);
        }
        Duration { count: diff as u64, unit, width }
    }

    /// The time from `earlier` to this instant as a duration in the clock's
    /// own unit and width.
    ///
    /// The two counts are subtracted as they are. Fails with `NegDuration`
    /// where `earlier` has the larger count: the counter is taken not to have
    /// rolled over between the two readings, so that order is a mistake of
    /// the caller and is never answered with a wrapped difference.
    pub fn checked_duration_since(&self, earlier: &Instant<C>) -> (r: Result<
        Duration,
        ConversionError,
    >)
        ensures
            r == self.elapsed_since(*earlier),
            self.count() < earlier.count() <==> r == Err::<Duration, ConversionError>(
                ConversionError::NegDuration,
            ),
            r is Ok <==> earlier.count() <= self.count() && self.count() - earlier.count()
                <= C::tick_width().limit(),
            r is Ok ==> r->Ok_0.wf() && r->Ok_0.count() == self.count() - earlier.count()
                && r->Ok_0.unit() == C::tick_unit() && r->Ok_0.width() == C::tick_width(),
    {
        if self.ticks < earlier.ticks {
            Err(ConversionError::NegDuration)
        } else {
            Duration::new(self.ticks - earlier.ticks, C::scaling_factor(), C::width())
        }
    }
}

} // verus!
