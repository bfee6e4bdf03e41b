//! Clocks: sources of instants that never run backwards.

use vstd::prelude::*;
use crate::duration::Width;
use crate::error::ClockError;
use crate::fraction::Fraction;
use crate::instant::Instant;

verus! {

/// A monotonic time source with a tick counter of fixed width and a fixed
/// tick length.
///
/// A clock is either running or not yet started. Reading a running clock
/// gives an instant; reading any other gives `NotRunning`. Of two readings of
/// a running clock the later one never has the smaller count, unless the
/// counter rolled over in between.
pub trait Clock: Sized {
    /// The length of one tick in seconds.
    spec fn tick_unit() -> Fraction;

    /// The width of the tick counter.
    spec fn tick_width() -> Width;

    /// The clock has been started.
    spec fn running(&self) -> bool;

    /// The length of one tick in seconds.
    fn scaling_factor() -> (f: Fraction)
        ensures
            f == Self::tick_unit(),
            f.wf(),
    ;

    /// The width of the tick counter.
    fn width() -> (w: Width)
        ensures
            w == Self::tick_width(),
    ;

    /// The current instant.
    fn try_now(&self) -> (r: Result<Instant<Self>, ClockError>)
        ensures
            r is Ok <==> self.running(),
            r is Err ==> r->Err_0 == ClockError::NotRunning,
            r is Ok ==> r->Ok_0.count() <= Self::tick_width().limit(),
    ;
}

} // verus!
