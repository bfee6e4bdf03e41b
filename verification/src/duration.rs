//! Lengths of time as a whole count of some unit, and the checked conversion
//! between units.

use vstd::prelude::*;
use vstd::arithmetic::div_mod::{
    lemma_div_multiples_vanish, lemma_div_multiples_vanish_quotient, lemma_fundamental_div_mod,
    lemma_mod_multiples_basic,
};
use crate::error::ConversionError;
use crate::gcd::gcd;
use crate::fraction::{lowest_terms, lemma_lowest_terms, widening_mul, Fraction};

verus! {

/// The width of the integer that holds a count.
#[derive(Clone, Copy, Debug, PartialEq, Eq, Structural)]
pub enum Width {
    /// An 8-bit count.
    Bits8,
    /// A 16-bit count.
    Bits16,
    /// A 32-bit count.
    Bits32,
    /// A 64-bit count.
    Bits64,
}

impl Width {
    /// The largest count that the width holds.
    pub open spec fn limit(self) -> nat {
        match self {
            Width::Bits8 => 0xff,
            Width::Bits16 => 0xffff,
            Width::Bits32 => 0xffff_ffff,
            Width::Bits64 => 0xffff_ffff_ffff_ffff,
        }
    }

    /// The largest count that the width holds.
    pub fn max_value(self) -> (m: u64)
        ensures
            m == self.limit(),
    {
        match self {
            Width::Bits8 => 0xff,
            Width::Bits16 => 0xffff,
            Width::Bits32 => 0xffff_ffff,
            Width::Bits64 => 0xffff_ffff_ffff_ffff,
        }
    }
}

/// The units of time that have a name.
#[derive(Clone, Copy, Debug, PartialEq, Eq, Structural)]
pub enum Unit {
    /// 3600 seconds.
    Hours,
    /// 60 seconds.
    Minutes,
    /// One second.
    Seconds,
    /// A thousandth of a second.
    Milliseconds,
    /// A millionth of a second.
    Microseconds,
    /// A thousand-millionth of a second.
    Nanoseconds,
}

impl Unit {
    /// The numerator and the denominator of the unit's length in seconds.
    pub open spec fn seconds(self) -> (nat, nat) {
        match self {
            Unit::Hours => (3600, 1),
            Unit::Minutes => (60, 1),
            Unit::Seconds => (1, 1),
            Unit::Milliseconds => (1, 1_000),
            Unit::Microseconds => (1, 1_000_000),
            Unit::Nanoseconds => (1, 1_000_000_000),
        }
    }

    /// The length of the unit in seconds.
    pub fn scaling_factor(self) -> (f: Fraction)
        ensures
            f.wf(),
            f@ == self.seconds(),
    {
        match self {
            Unit::Hours => Fraction::new(3600, 1),
            Unit::Minutes => Fraction::new(60, 1),
            Unit::Seconds => Fraction::new(1, 1),
            Unit::Milliseconds => Fraction::new(1, 1_000),
            Unit::Microseconds => Fraction::new(1, 1_000_000),
            Unit::Nanoseconds => Fraction::new(1, 1_000_000_000),
        }
    }
}

/// The count that `count` units of length `from` make in units of length
/// `to`, rounded down: `count * (from / to)`.
pub open spec fn scaled_count(count: nat, from: Fraction, to: Fraction) -> nat {
    (count * (from.numer() * to.denom())) / (from.denom() * to.numer())
}

/// `count` units of length `from` are a whole number of units of length `to`.
pub open spec fn scales_exactly(count: nat, from: Fraction, to: Fraction) -> bool {
    (count * (from.numer() * to.denom())) % (from.denom() * to.numer()) == 0
}

/// Where the ratio of two units fits a fraction, multiplying a count by that
/// fraction and rounding down is the conversion between the units.
pub proof fn lemma_conversion_factor_scales(count: nat, from: Fraction, to: Fraction)
    requires
        from.wf(),
        to.wf(),
        from.quotient(to) is Ok,
    ensures
        (count * from.quotient(to)->Ok_0.numer()) / from.quotient(to)->Ok_0.denom()
            == scaled_count(count, from, to),
{
    let n = from.numer() * to.denom();
    let d = from.denom() * to.numer();
    assert(d > 0) by (nonlinear_arith)
        requires
            d == from.denom() * to.numer(),
            from.denom() > 0,
            to.numer() > 0,
    ;
    let (p, q) = lowest_terms(n, d);
    let g = gcd(n, d);
    lemma_lowest_terms(n, d);
    assert(g > 0) by (nonlinear_arith)
        requires
            d == g * q,
            d > 0,
    ;
    lemma_div_multiples_vanish_quotient(g as int, (count * p) as int, q as int);
    assert(g * (count * p) == count * n && g * q == d) by (nonlinear_arith)
        requires
            n == g * p,
            d == g * q,
    ;
}

/// A count that scales exactly from one unit to another scales back to
/// itself.
pub proof fn lemma_scale_there_and_back(count: nat, from: Fraction, to: Fraction)
    requires
        from.numer() > 0,
        from.denom() > 0,
        to.numer() > 0,
        to.denom() > 0,
        scales_exactly(count, from, to),
    ensures
        scaled_count(scaled_count(count, from, to), to, from) == count,
        scales_exactly(scaled_count(count, from, to), to, from),
{
    let n = from.numer() * to.denom();
    let d = from.denom() * to.numer();
    let there = scaled_count(count, from, to);
    assert(n > 0 && d > 0 && n == to.denom() * from.numer() && d == to.numer() * from.denom())
        by (nonlinear_arith)
        requires
            n == from.numer() * to.denom(),
            d == from.denom() * to.numer(),
            from.numer() > 0,
            from.denom() > 0,
            to.numer() > 0,
            to.denom() > 0,
    ;
    lemma_fundamental_div_mod((count * n) as int, d as int);
    assert(there * d == count * n) by (nonlinear_arith)
        requires
            count * n == d * there,
    ;
    assert(count * n == n * count) by (nonlinear_arith);
    lemma_div_multiples_vanish(count as int, n as int);
    lemma_mod_multiples_basic(count as int, n as int);
}

/// A length of time: `count` units, each `unit` seconds long, with the count
/// held in an integer of the given width.
///
/// The count never exceeds what the width holds.
#[derive(Clone, Copy, Debug)]
pub struct Duration {
    pub(crate) count: u64,
    pub(crate) unit: Fraction,
    pub(crate) width: Width,
}

impl View for Duration {
    type V = (nat, (nat, nat), Width);

    /// The count, the two parts of the unit, and the width.
    open spec fn view(&self) -> (nat, (nat, nat), Width) {
        (self.count(), self.unit()@, self.width())
    }
}

impl Duration {
    /// The count fits the width, and the unit is a fraction.
    #[verifier::type_invariant]
    pub open(crate) spec fn wf(self) -> bool {
        self.count <= self.width.limit() && self.unit.wf()
    }

    /// The number of units.
    pub open(crate) spec fn count(self) -> nat {
        self.count as nat
    }

    /// The length of one unit in seconds.
    pub open(crate) spec fn unit(self) -> Fraction {
        self.unit
    }

    /// The width of the count.
    pub open(crate) spec fn width(self) -> Width {
        self.width
    }

    /// The duration of `count` units of length `unit` at the given width,
    /// where the count fits the width.
    pub open(crate) spec fn of(count: nat, unit: Fraction, width: Width) -> Result<
        Duration,
        ConversionError,
    > {
        if count <= width.limit() {
            Ok(Duration { count: count as u64, unit, width })
        } else {
            Err(ConversionError::ConversionOverflow)
        }
    }

    /// This duration in units of length `unit` at the given width, rounded
    /// down to a whole count.
    ///
    /// There is none where `unit` is zero, nor where the count does not fit
    /// the width.
    pub open spec fn converted(self, unit: Fraction, width: Width) -> Result<
        Duration,
        ConversionError,
    > {
        if unit.numer() == 0 {
            Err(ConversionError::DivByZero)
        } else {
            Duration::of(scaled_count(self.count(), self.unit(), unit), unit, width)
        }
    }

    /// The conversion succeeds and loses nothing: the duration is a whole
    /// number of the new units.
    pub open spec fn converts_exactly(self, unit: Fraction, width: Width) -> bool {
        self.converted(unit, width) is Ok && scales_exactly(self.count(), self.unit(), unit)
    }

    /// The length in seconds multiplied by both units' denominators: the
    /// whole number by which this duration is compared with `other`.
    pub open spec fn weight(self, other: Duration) -> nat {
        self.count() * (self.unit().numer() * other.unit().denom())
    }

    /// This duration is strictly shorter than `other`, whatever their units.
    pub open spec fn shorter_than(self, other: Duration) -> bool {
        self.weight(other) < other.weight(self)
    }

    /// The two durations are equally long, whatever their units.
    pub open spec fn same_length(self, other: Duration) -> bool {
        self.weight(other) == other.weight(self)
    }

    /// What is left of this duration after `rhs`, in this duration's unit and
    /// width, `rhs` being first converted to that unit, rounding down.
    ///
    /// There is none where this duration's unit is zero, nor where the
    /// converted `rhs` is the longer of the two.
    pub open(crate) spec fn difference(self, rhs: Duration) -> Result<Duration, ConversionError> {
        let taken = scaled_count(rhs.count(), rhs.unit(), self.unit);
        if self.unit.numer() == 0 {
            Err(ConversionError::DivByZero)
        } else if taken > self.count {
            Err(ConversionError::NegDuration)
        } else {
            Ok(Duration { count: (self.count - taken) as u64, unit: self.unit, width: self.width })
        }
    }

    /// A duration of `count` units of length `unit`; `ConversionOverflow`
    /// where the count does not fit the width.
    pub fn new(count: u64, unit: Fraction, width: Width) -> (r: Result<Duration, ConversionError>)
        ensures
            r == Duration::of(count as nat, unit, width),
            r is Ok <==> count <= width.limit(),
            r is Ok ==> r->Ok_0.wf() && r->Ok_0.count() == count && r->Ok_0.unit() == unit
                && r->Ok_0.width() == width,
            r is Err ==> r->Err_0 == ConversionError::ConversionOverflow,
    {
        proof {
            use_type_invariant(&unit);
        }
        if count <= width.max_value() {
            Ok(Duration { count, unit, width })
        } else {
            Err(ConversionError::ConversionOverflow)
        }
    }

    /// The number of units.
    pub fn integer(&self) -> (c: u64)
        ensures
            c == self.count(),
            c <= self.width().limit(),
    {
        proof {
            use_type_invariant(self);
        }
        self.count
    }

    /// The length of one unit in seconds.
    pub fn scaling_factor(&self) -> (f: Fraction)
        ensures
            f == self.unit(),
            f.wf(),
    {
        proof {
            use_type_invariant(self);
        }
        self.unit
    }

    /// The width of the count.
    pub fn bits(&self) -> (w: Width)
        ensures
            w == self.width(),
    {
        self.width
    }

    /// Converts to units of length `unit`, with the count held at `width`.
    ///
    /// The new count is `count * (self.unit / unit)` rounded down. The
    /// product is formed in 128 bits, which hold it whatever the two units
    /// are, so that the only failures are `DivByZero`, where `unit` is zero,
    /// and `ConversionOverflow`, where the new count does not fit `width`.
    pub fn convert(&self, unit: Fraction, width: Width) -> (r: Result<Duration, ConversionError>)
        ensures
            r == self.converted(unit, width),
            r is Ok <==> unit.numer() != 0 && scaled_count(self.count(), self.unit(), unit)
                <= width.limit(),
            r is Ok ==> r->Ok_0.wf() && r->Ok_0.count() == scaled_count(
                self.count(),
                self.unit(),
                unit,
            ) && r->Ok_0.unit() == unit && r->Ok_0.width() == width,
            unit.numer() == 0 <==> r == Err::<Duration, ConversionError>(
                ConversionError::DivByZero,
            ),
            unit.numer() != 0 && scaled_count(self.count(), self.unit(), unit) > width.limit()
                <==> r == Err::<Duration, ConversionError>(ConversionError::ConversionOverflow),
    {
        proof {
            use_type_invariant(self);
            use_type_invariant(&unit);
        }
        if unit.numerator() == 0 {
            return Err(ConversionError::DivByZero);
        }
        let n: u64 = widening_mul(self.unit.numerator(), unit.denominator());
        let d: u64 = widening_mul(self.unit.denominator(), unit.numerator());
        assert(self.count * n <= u128::MAX) by (nonlinear_arith)
            requires
                self.count <= u64::MAX,
                n <= u64::MAX,
        ;
        let scaled: u128 = (self.count as u128) * (n as u128) / (d as u128);
        if scaled <= width.max_value() as u128 {
            Ok(Duration { count: scaled as u64, unit, width })
        } else {
            Err(ConversionError::ConversionOverflow)
        }
    }

    /// Subtracts `rhs`, which may be in another unit, from this duration.
    ///
    /// `rhs` is converted to this duration's unit, rounding down, and the
    /// result keeps this duration's unit and width. Fails with `DivByZero`
    /// where this duration's unit is zero, and with `NegDuration` where the
    /// converted `rhs` is the longer of the two.
    pub fn checked_sub(&self, rhs: &Duration) -> (r: Result<Duration, ConversionError>)
        ensures
            r == self.difference(*rhs),
            r is Ok <==> self.unit().numer() != 0 && scaled_count(
                rhs.count(),
                rhs.unit(),
                self.unit(),
            ) <= self.count(),
            r is Ok ==> r->Ok_0.wf() && r->Ok_0.count() == self.count() - scaled_count(
                rhs.count(),
                rhs.unit(),
                self.unit(),
            ) && r->Ok_0.unit() == self.unit() && r->Ok_0.width() == self.width(),
            self.unit().numer() == 0 <==> r == Err::<Duration, ConversionError>(
                ConversionError::DivByZero,
            ),
    {
        proof {
            use_type_invariant(self);
        }
        match rhs.convert(self.unit, self.width) {
            Ok(taken) => {
                if taken.count > self.count {
                    Err(ConversionError::NegDuration)
                } else {
                    Ok(
                        Duration {
                            count: self.count - taken.count,
                            unit: self.unit,
                            width: self.width,
                        },
                    )
                }
            },
            Err(ConversionError::DivByZero) => Err(ConversionError::DivByZero),
            Err(_) => Err(ConversionError::NegDuration),
        }
    }

    /// The whole number by which this duration is compared with `other`.
    pub(crate) fn cross_weight(&self, other: &Duration) -> (w: u128)
        ensures
            w == self.weight(*other),
    {
        proof {
            use_type_invariant(self);
            use_type_invariant(other);
        }
        let factor: u64 = widening_mul(self.unit.numerator(), other.unit.denominator());
        assert(self.count * factor <= u128::MAX) by (nonlinear_arith)
            requires
                self.count <= u64::MAX,
                factor <= u64::MAX,
        ;
        (self.count as u128) * (factor as u128)
    }
}

/// A duration that converts exactly to another unit, and whose own unit is
/// not zero, converts exactly back from there.
pub proof fn lemma_exact_conversion_reverses(d: Duration, unit: Fraction, width: Width)
    requires
        d.wf(),
        unit.wf(),
        d.unit().numer() > 0,
        d.converts_exactly(unit, width),
    ensures
        d.converted(unit, width)->Ok_0.converts_exactly(d.unit(), d.width()),
        d.converted(unit, width)->Ok_0.converted(d.unit(), d.width()) == Ok::<
            Duration,
            ConversionError,
        >(d),
{
    lemma_scale_there_and_back(d.count(), d.unit(), unit);
}

/// A converted duration is never longer than the duration it was made from,
/// and is as long where nothing was lost.
pub proof fn lemma_conversion_never_lengthens(d: Duration, unit: Fraction, width: Width)
    requires
        d.wf(),
        unit.wf(),
        d.converted(unit, width) is Ok,
    ensures
        !d.shorter_than(d.converted(unit, width)->Ok_0),
        d.converts_exactly(unit, width) <==> d.same_length(d.converted(unit, width)->Ok_0),
{
    let from = d.unit();
    let n = from.numer() * unit.denom();
    let m = from.denom() * unit.numer();
    let there = scaled_count(d.count(), from, unit);
    assert(m > 0 && unit.numer() * from.denom() == m) by (nonlinear_arith)
        requires
            m == from.denom() * unit.numer(),
            from.denom() > 0,
            unit.numer() > 0,
    ;
    lemma_fundamental_div_mod((d.count() * n) as int, m as int);
    assert(there * m == m * there) by (nonlinear_arith);
}

/// Converting a duration to another unit and back gives the duration itself,
/// where both conversions succeed and lose nothing.
pub proof fn lemma_round_trip(d: Duration, unit: Fraction, width: Width)
    requires
        d.wf(),
        unit.wf(),
        d.converts_exactly(unit, width),
        d.converted(unit, width)->Ok_0.converts_exactly(d.unit(), d.width()),
    ensures
        d.converted(unit, width)->Ok_0.converted(d.unit(), d.width()) == Ok::<
            Duration,
            ConversionError,
        >(d),
{
    lemma_exact_conversion_reverses(d, unit, width);
}

} // verus!
