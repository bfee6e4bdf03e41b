//! A monotonic clock for host-side code together with the integer arithmetic
//! that turns its tick counts into durations.
//!
//! A [`Clock`] yields [`Instant`]s: raw tick counts since the clock's private
//! epoch. The difference of two instants of one clock is a [`Duration`] in the
//! clock's native tick unit, and a duration is converted to any other unit
//! through the ratio of the two units' [`Fraction`]s. Nothing here uses
//! floating point, and nothing overflows silently: an operation returns
//! either the value that its contract names or a typed error.
//!
//! [`StandardClock`] reads the host's monotonic timer in nanoseconds;
//! [`SimulatedClock`] is advanced by hand.
//!
//! ```rust,ignore
//! use std_embedded_time::{Clock, StandardClock, Unit, Width};
//!
//! let clock = StandardClock::default();
//! let start = clock.try_now().unwrap();
//! let end = clock.try_now().unwrap();
//! let elapsed = end.checked_duration_since(&start).unwrap();
//! let millis = elapsed.convert(Unit::Milliseconds.scaling_factor(), Width::Bits64).unwrap();
//! println!("{} ms", millis.integer());
//! ```
//!
//! # Rollover
//!
//! A tick counter of bounded width rolls over to zero after its largest
//! value. [`Instant::checked_duration_since`] takes the counter not to have
//! rolled over between the two readings and treats a later instant with the
//! smaller count as the caller's error. That is safe for [`StandardClock`],
//! whose 64-bit nanosecond counter rolls over after about 584 years. For a
//! narrower counter, [`Instant::wrapping_duration_since`] gives the
//! difference across one rollover.

pub mod clock;
pub mod comparison;
pub mod duration;
pub mod error;
pub mod fraction;
pub mod gcd;
pub mod instant;
pub mod simulated;
pub mod standard;

pub use clock::Clock;
pub use duration::{Duration, Unit, Width};
pub use error::{ClockError, ConversionError};
pub use fraction::Fraction;
pub use instant::Instant;
pub use simulated::SimulatedClock;
pub use standard::StandardClock;
