//! Rational scaling factors: how many seconds one tick, or one unit of a
//! duration, lasts.

use vstd::prelude::*;
use crate::error::ConversionError;
use vstd::arithmetic::div_mod::lemma_small_mod;
use crate::gcd::{
    gcd, gcd_u64, lemma_coprime_divides_product, lemma_divides_factor, lemma_gcd_divides,
    lemma_gcd_of_quotients, lemma_gcd_symmetric, lemma_multiple_divides,
};

verus! {

/// A non-negative rational number `numerator / denominator`.
///
/// The denominator is never zero. The two parts are kept as given: `2/4` and
/// `1/2` are different fractions with the same value (see
/// [`Fraction::same_value`]), and only the arithmetic operations reduce.
#[derive(Clone, Copy, Debug, PartialEq, Eq, Structural)]
pub struct Fraction {
    pub(crate) numerator: u32,
    pub(crate) denominator: u32,
}

/// The pair `(n / g, d / g)` with `g` the greatest common divisor of `n` and
/// `d`: the fraction `n / d` in lowest terms.
pub open spec fn lowest_terms(n: nat, d: nat) -> (nat, nat) {
    (n / gcd(n, d), d / gcd(n, d))
}

/// The fraction `n / d` in lowest terms, where both of its parts fit 32 bits.
pub open(crate) spec fn reduced_ratio(n: nat, d: nat) -> Result<Fraction, ConversionError> {
    let (p, q) = lowest_terms(n, d);
    if p <= u32::MAX && q <= u32::MAX {
        Ok(Fraction { numerator: p as u32, denominator: q as u32 })
    } else {
        Err(ConversionError::FractionOverflow)
    }
}

/// Bringing `n / d` to lowest terms keeps its value, leaves a positive
/// denominator and parts without a common divisor, and enlarges neither part.
pub proof fn lemma_lowest_terms(n: nat, d: nat)
    requires
        d > 0,
    ensures
        lowest_terms(n, d).1 > 0,
        lowest_terms(n, d).0 * d == n * lowest_terms(n, d).1,
        gcd(lowest_terms(n, d).0, lowest_terms(n, d).1) == 1,
        n == gcd(n, d) * lowest_terms(n, d).0,
        d == gcd(n, d) * lowest_terms(n, d).1,
        lowest_terms(n, d).0 <= n,
        lowest_terms(n, d).1 <= d,
{
    let g = gcd(n, d);
    let p = n / g;
    let q = d / g;
    lemma_gcd_divides(n, d);
    lemma_gcd_of_quotients(n, d);
    lemma_divides_factor(g, n);
    lemma_divides_factor(g, d);
    assert(q > 0 && p * d == n * q && p <= n && q <= d) by (nonlinear_arith)
        requires
            g > 0,
            d > 0,
            n == g * p,
            d == g * q,
    ;
}

/// No fraction of the same value has a smaller part than the one in lowest
/// terms: where `p / q` equals `n / d`, the parts of `n / d` in lowest terms
/// divide `p` and `q`.
pub proof fn lemma_lowest_terms_least(n: nat, d: nat, p: nat, q: nat)
    requires
        d > 0,
        q > 0,
        p * d == n * q,
    ensures
        lowest_terms(n, d).0 <= p,
        lowest_terms(n, d).1 <= q,
        q % lowest_terms(n, d).1 == 0,
{
    let (a, b) = lowest_terms(n, d);
    lemma_lowest_terms(n, d);
    assert(a * q == p * b) by (nonlinear_arith)
        requires
            d > 0,
            a * d == n * b,
            p * d == n * q,
    ;
    lemma_gcd_symmetric(a, b);
    lemma_multiple_divides(b, p);
    lemma_coprime_divides_product(b, a, q);
    if q < b {
        lemma_small_mod(q, b);
    }
    assert(a <= p) by (nonlinear_arith)
        requires
            a * q == p * b,
            b <= q,
            b > 0,
    ;
}

/// Bringing `n / d` to lowest terms fails only where no fraction at all has
/// the value `n / d`; where it succeeds, the result has that value and is in
/// lowest terms.
pub proof fn lemma_reduced_ratio(n: nat, d: nat)
    requires
        d > 0,
    ensures
        reduced_ratio(n, d) is Ok ==> reduced_ratio(n, d)->Ok_0.wf() && reduced_ratio(
            n,
            d,
        )->Ok_0.is_reduced() && reduced_ratio(n, d)->Ok_0.is_ratio(n, d),
        reduced_ratio(n, d) is Err ==> reduced_ratio(n, d)->Err_0
            == ConversionError::FractionOverflow,
        forall|f: Fraction| f.wf() && #[trigger] f.is_ratio(n, d) ==> reduced_ratio(n, d) is Ok,
{
    lemma_lowest_terms(n, d);
    assert forall|f: Fraction| f.wf() && #[trigger] f.is_ratio(n, d) implies reduced_ratio(
        n,
        d,
    ) is Ok by {
        lemma_lowest_terms_least(n, d, f.numer(), f.denom());
    }
}

/// The product of two fractions, where there is one, has the value of the
/// true product and is in lowest terms; there is none only where no fraction
/// at all has that value.
pub proof fn lemma_product_is_exact(a: Fraction, b: Fraction)
    requires
        a.wf(),
        b.wf(),
    ensures
        a.product(b) is Ok ==> a.product(b)->Ok_0.wf() && a.product(b)->Ok_0.is_reduced()
            && a.product(b)->Ok_0.is_ratio(a.numer() * b.numer(), a.denom() * b.denom()),
        a.product(b) is Err ==> a.product(b)->Err_0 == ConversionError::FractionOverflow,
        forall|f: Fraction|
            f.wf() && #[trigger] f.is_ratio(a.numer() * b.numer(), a.denom() * b.denom())
                ==> a.product(b) is Ok,
{
    assert(a.denom() * b.denom() > 0) by (nonlinear_arith)
        requires
            a.denom() > 0,
            b.denom() > 0,
    ;
    lemma_reduced_ratio(a.numer() * b.numer(), a.denom() * b.denom());
}

/// The quotient of two fractions, where there is one, has the value of the
/// true quotient and is in lowest terms; there is none only where the divisor
/// is zero or no fraction at all has that value.
pub proof fn lemma_quotient_is_exact(a: Fraction, b: Fraction)
    requires
        a.wf(),
        b.wf(),
    ensures
        a.quotient(b) is Ok ==> a.quotient(b)->Ok_0.wf() && a.quotient(b)->Ok_0.is_reduced()
            && a.quotient(b)->Ok_0.is_ratio(a.numer() * b.denom(), a.denom() * b.numer()),
        a.quotient(b) is Err ==> (if b.numer() == 0 {
            a.quotient(b)->Err_0 == ConversionError::DivByZero
        } else {
            a.quotient(b)->Err_0 == ConversionError::FractionOverflow
        }),
        forall|f: Fraction|
            b.numer() != 0 && f.wf() && #[trigger] f.is_ratio(
                a.numer() * b.denom(),
                a.denom() * b.numer(),
            ) ==> a.quotient(b) is Ok,
{
    if b.numer() != 0 {
        assert(a.denom() * b.numer() > 0) by (nonlinear_arith)
            requires
                a.denom() > 0,
                b.numer() > 0,
        ;
        lemma_reduced_ratio(a.numer() * b.denom(), a.denom() * b.numer());
    }
}

impl View for Fraction {
    type V = (nat, nat);

    /// The numerator and the denominator as mathematical integers.
    open spec fn view(&self) -> (nat, nat) {
        (self.numer(), self.denom())
    }
}

impl Fraction {
    /// The denominator is not zero.
    #[verifier::type_invariant]
    pub open(crate) spec fn wf(self) -> bool {
        self.denominator != 0
    }

    /// The numerator, as a mathematical integer.
    pub open(crate) spec fn numer(self) -> nat {
        self.numerator as nat
    }

    /// The denominator, as a mathematical integer.
    pub open(crate) spec fn denom(self) -> nat {
        self.denominator as nat
    }

    /// The fraction with the given parts.
    pub open(crate) spec fn ratio(numerator: u32, denominator: u32) -> Fraction {
        Fraction { numerator, denominator }
    }

    /// The fraction has the value `n / d`.
    pub open spec fn is_ratio(self, n: nat, d: nat) -> bool {
        self.numer() * d == n * self.denom()
    }

    /// The two fractions stand for the same rational number.
    pub open spec fn same_value(self, other: Fraction) -> bool {
        self.is_ratio(other.numer(), other.denom())
    }

    /// The numerator and the denominator have no common divisor but one.
    pub open spec fn is_reduced(self) -> bool {
        gcd(self.numer(), self.denom()) == 1
    }

    /// The fraction with the two parts exchanged, where the numerator is not
    /// zero.
    pub open(crate) spec fn reciprocal(self) -> Result<Fraction, ConversionError> {
        if self.numerator == 0 {
            Err(ConversionError::DivByZero)
        } else {
            Ok(Fraction { numerator: self.denominator, denominator: self.numerator })
        }
    }

    /// The product of two fractions in lowest terms, where it fits.
    pub open spec fn product(self, rhs: Fraction) -> Result<Fraction, ConversionError> {
        reduced_ratio(self.numer() * rhs.numer(), self.denom() * rhs.denom())
    }

    /// The quotient of two fractions in lowest terms, where the divisor is
    /// not zero and the result fits.
    pub open spec fn quotient(self, rhs: Fraction) -> Result<Fraction, ConversionError> {
        if rhs.numer() == 0 {
            Err(ConversionError::DivByZero)
        } else {
            reduced_ratio(self.numer() * rhs.denom(), self.denom() * rhs.numer())
        }
    }

    /// The fraction `numerator / denominator`, with its parts as given.
    pub fn new(numerator: u32, denominator: u32) -> (f: Fraction)
        requires
            denominator != 0,
        ensures
            f == Fraction::ratio(numerator, denominator),
            f@ == (numerator as nat, denominator as nat),
            f.wf(),
    {
        Fraction { numerator, denominator }
    }

    /// The fraction `numerator / denominator` in lowest terms; `DivByZero`
    /// where the denominator is zero.
    pub fn new_reduce(numerator: u32, denominator: u32) -> (r: Result<Fraction, ConversionError>)
        ensures
            denominator == 0 <==> r == Err::<Fraction, ConversionError>(
                ConversionError::DivByZero,
            ),
            denominator != 0 ==> r == reduced_ratio(numerator as nat, denominator as nat),
            r is Ok <==> denominator != 0,
            r is Ok ==> r->Ok_0.wf() && r->Ok_0.is_reduced() && r->Ok_0@ == lowest_terms(
                numerator as nat,
                denominator as nat,
            ),
    {
        if denominator == 0 {
            Err(ConversionError::DivByZero)
        } else {
            proof {
                lemma_lowest_terms(numerator as nat, denominator as nat);
            }
            reduce_wide(numerator as u64, denominator as u64)
        }
    }

    /// The numerator.
    pub fn numerator(&self) -> (n: u32)
        ensures
            n == self@.0,
    {
        self.numerator
    }

    /// The denominator, which is never zero.
    pub fn denominator(&self) -> (d: u32)
        ensures
            d == self@.1,
            d != 0,
    {
        proof {
            use_type_invariant(self);
        }
        self.denominator
    }

    /// The same value in lowest terms.
    pub fn reduce(&self) -> (r: Fraction)
        ensures
            r.wf(),
            r@ == lowest_terms(self.numer(), self.denom()),
            r.is_reduced(),
            r.same_value(*self),
    {
        proof {
            use_type_invariant(self);
            lemma_lowest_terms(self.numer(), self.denom());
            lemma_gcd_divides(self.numer(), self.denom());
        }
        let g: u64 = gcd_u64(self.numerator as u64, self.denominator as u64);
        let p: u64 = self.numerator as u64 / g;
        let q: u64 = self.denominator as u64 / g;
        Fraction { numerator: p as u32, denominator: q as u32 }
    }

    /// The reciprocal, with the parts exchanged as they are; a fraction whose
    /// value is zero has none.
    pub fn recip(&self) -> (r: Result<Fraction, ConversionError>)
        ensures
            r == self.reciprocal(),
            r is Ok ==> r->Ok_0.wf(),
    {
        if self.numerator == 0 {
            Err(ConversionError::DivByZero)
        } else {
            Ok(Fraction { numerator: self.denominator, denominator: self.numerator })
        }
    }

    /// Multiplies two fractions and reduces the product.
    ///
    /// The parts are multiplied in 64 bits, so the only failure is a product
    /// that in lowest terms has a part beyond 32 bits.
    pub fn checked_mul(&self, rhs: &Fraction) -> (r: Result<Fraction, ConversionError>)
        ensures
            r == self.product(*rhs),
            r is Ok ==> r->Ok_0.wf() && r->Ok_0.is_reduced() && r->Ok_0.is_ratio(
                self.numer() * rhs.numer(),
                self.denom() * rhs.denom(),
            ),
            r is Err ==> r->Err_0 == ConversionError::FractionOverflow,
    {
        proof {
            use_type_invariant(self);
            use_type_invariant(rhs);
            lemma_product_is_exact(*self, *rhs);
        }
        reduce_wide(
            widening_mul(self.numerator, rhs.numerator),
            widening_mul(self.denominator, rhs.denominator),
        )
    }

    /// Divides this fraction by `rhs` and reduces the quotient.
    ///
    /// Fails with `DivByZero` where `rhs` is zero, and else only where the
    /// quotient in lowest terms has a part beyond 32 bits.
    pub fn checked_div(&self, rhs: &Fraction) -> (r: Result<Fraction, ConversionError>)
        ensures
            r == self.quotient(*rhs),
            r is Ok ==> r->Ok_0.wf() && r->Ok_0.is_reduced() && r->Ok_0.is_ratio(
                self.numer() * rhs.denom(),
                self.denom() * rhs.numer(),
            ),
            rhs.numer() == 0 <==> r == Err::<Fraction, ConversionError>(
                ConversionError::DivByZero,
            ),
    {
        proof {
            use_type_invariant(self);
            use_type_invariant(rhs);
            lemma_quotient_is_exact(*self, *rhs);
        }
        if rhs.numerator == 0 {
            return Err(ConversionError::DivByZero);
        }
        reduce_wide(
            widening_mul(self.numerator, rhs.denominator),
            widening_mul(self.denominator, rhs.numerator),
        )
    }

    /// The factor by which a count in units of `self` is multiplied to give
    /// the count in units of `target`: the quotient `self / target`.
    pub fn conversion_factor(&self, target: &Fraction) -> (r: Result<Fraction, ConversionError>)
        ensures
            r == self.quotient(*target),
            r is Ok ==> r->Ok_0.wf() && r->Ok_0.is_reduced() && r->Ok_0.is_ratio(
                self.numer() * target.denom(),
                self.denom() * target.numer(),
            ),
            target.numer() == 0 <==> r == Err::<Fraction, ConversionError>(
                ConversionError::DivByZero,
            ),
    {
        self.checked_div(target)
    }
}

/// The product of two 32-bit numbers, which always fits 64 bits.
pub(crate) fn widening_mul(a: u32, b: u32) -> (p: u64)
    ensures
        p == a * b,
        b != 0 && a != 0 ==> p != 0,
{
    assert(a * b <= u64::MAX && (a != 0 && b != 0 ==> a * b != 0)) by (nonlinear_arith)
        requires
            a <= u32::MAX,
            b <= u32::MAX,
    ;
    (a as u64) * (b as u64)
}

/// Brings `n / d` to lowest terms and narrows the parts to 32 bits.
fn reduce_wide(n: u64, d: u64) -> (r: Result<Fraction, ConversionError>)
    requires
        d != 0,
    ensures
        r == reduced_ratio(n as nat, d as nat),
        r is Ok ==> r->Ok_0.wf() && r->Ok_0.is_reduced(),
{
    proof {
        lemma_lowest_terms(n as nat, d as nat);
        lemma_gcd_divides(n as nat, d as nat);
    }
    let g: u64 = gcd_u64(n, d);
    let p: u64 = n / g;
    let q: u64 = d / g;
    if p > u32::MAX as u64 || q > u32::MAX as u64 {
        Err(ConversionError::FractionOverflow)
    } else {
        Ok(Fraction { numerator: p as u32, denominator: q as u32 })
    }
}

} // verus!
