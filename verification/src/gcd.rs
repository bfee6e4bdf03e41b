//! The greatest common divisor, by which fractions are brought to lowest terms.

use vstd::prelude::*;
use vstd::arithmetic::div_mod::{
    lemma_fundamental_div_mod, lemma_mod_multiples_basic, lemma_small_mod, lemma_truncate_middle,
};

verus! {

/// The greatest common divisor of `a` and `b`, with `gcd(0, 0) == 0`.
///
/// It is defined by Euclid's recurrence; [`lemma_gcd_divides`] and
/// [`lemma_gcd_greatest`] show that the value is what the name says.
pub open spec fn gcd(a: nat, b: nat) -> nat
    decreases b,
{
    if b == 0 {
        a
    } else {
        gcd(b, a % b)
    }
}

/// `n` is a whole multiple of `d`.
pub open spec fn divides(d: nat, n: nat) -> bool {
    d > 0 && n % d == 0
}

/// A multiple of `d` leaves no remainder on division by `d`.
pub proof fn lemma_multiple_divides(d: nat, k: nat)
    requires
        d > 0,
    ensures
        divides(d, k * d),
        divides(d, d * k),
{
    lemma_mod_multiples_basic(k as int, d as int);
    assert(k * d == d * k) by (nonlinear_arith);
}

/// What `d` divides is `d` times the quotient.
pub proof fn lemma_divides_factor(d: nat, n: nat)
    requires
        divides(d, n),
    ensures
        n == d * (n / d),
{
    lemma_fundamental_div_mod(n as int, d as int);
}

/// A common divisor of `a` and `b` divides the remainder of `a` by `b`.
proof fn lemma_divides_remainder(c: nat, a: nat, b: nat)
    requires
        b > 0,
        divides(c, a),
        divides(c, b),
    ensures
        divides(c, a % b),
{
    lemma_divides_factor(c, a);
    lemma_divides_factor(c, b);
    lemma_fundamental_div_mod(a as int, b as int);
    let x = a / c;
    let y = b / c;
    let q = a / b;
    let r = a % b;
    assert(x >= y * q) by (nonlinear_arith)
        requires
            c > 0,
            a == c * x,
            b == c * y,
            a == b * q + r,
            r >= 0,
    ;
    let k = (x - y * q) as nat;
    assert(r == k * c) by (nonlinear_arith)
        requires
            a == c * x,
            b == c * y,
            a == b * q + r,
            k == x - y * q,
    ;
    lemma_multiple_divides(c, k);
}

/// What divides `b` and the remainder of `a` by `b` divides `a`.
proof fn lemma_divides_dividend(c: nat, a: nat, b: nat)
    requires
        b > 0,
        divides(c, b),
        divides(c, a % b),
    ensures
        divides(c, a),
{
    lemma_divides_factor(c, b);
    lemma_divides_factor(c, a % b);
    lemma_fundamental_div_mod(a as int, b as int);
    let y = b / c;
    let z = (a % b) / c;
    let q = a / b;
    let k = y * q + z;
    assert(a == k * c) by (nonlinear_arith)
        requires
            b == c * y,
            a % b == c * z,
            a == b * q + a % b,
            k == y * q + z,
    ;
    lemma_multiple_divides(c, k);
}

/// The greatest common divisor of two numbers that are not both zero is
/// positive and divides each of them.
pub proof fn lemma_gcd_divides(a: nat, b: nat)
    requires
        a > 0 || b > 0,
    ensures
        divides(gcd(a, b), a),
        divides(gcd(a, b), b),
    decreases b,
{
    if b == 0 {
        lemma_multiple_divides(a, 1);
        lemma_multiple_divides(a, 0);
    } else {
        lemma_gcd_divides(b, a % b);
        lemma_divides_dividend(gcd(a, b), a, b);
    }
}

/// Every common divisor of `a` and `b` divides their greatest common divisor,
/// and so is no larger than it.
pub proof fn lemma_gcd_greatest(a: nat, b: nat, c: nat)
    requires
        a > 0 || b > 0,
        divides(c, a),
        divides(c, b),
    ensures
        divides(c, gcd(a, b)),
        c <= gcd(a, b),
    decreases b,
{
    if b > 0 {
        lemma_divides_remainder(c, a, b);
        lemma_gcd_greatest(b, a % b, c);
    }
    lemma_gcd_divides(a, b);
    if gcd(a, b) < c {
        lemma_small_mod(gcd(a, b), c);
    }
}

/// The greatest common divisor does not depend on the order of the two
/// numbers.
pub proof fn lemma_gcd_symmetric(a: nat, b: nat)
    ensures
        gcd(a, b) == gcd(b, a),
{
    if a < b {
        lemma_small_mod(a, b);
        assert(gcd(a, b) == gcd(b, a % b));
    } else if b < a {
        lemma_small_mod(b, a);
        assert(gcd(b, a) == gcd(a, b % a));
    }
}

/// Multiplying both numbers by `k` multiplies their greatest common divisor
/// by `k`.
pub proof fn lemma_gcd_scales(k: nat, a: nat, b: nat)
    ensures
        gcd(k * a, k * b) == k * gcd(a, b),
    decreases b,
{
    if k == 0 {
        assert(k * a == 0 && k * b == 0 && k * gcd(a, b) == 0) by (nonlinear_arith)
            requires
                k == 0,
        ;
    } else if b == 0 {
        assert(k * b == 0) by (nonlinear_arith)
            requires
                b == 0,
        ;
    } else {
        lemma_truncate_middle(a as int, k as int, b as int);
        lemma_gcd_scales(k, b, a % b);
    }
}

/// Euclid's lemma: what divides a product and has no divisor in common with
/// one factor divides the other factor.
pub proof fn lemma_coprime_divides_product(c: nat, a: nat, b: nat)
    requires
        gcd(c, a) == 1,
        divides(c, a * b),
    ensures
        divides(c, b),
{
    if b > 0 {
        lemma_gcd_scales(b, c, a);
        lemma_multiple_divides(c, b);
        assert(b * a == a * b) by (nonlinear_arith);
        assert(b * c > 0) by (nonlinear_arith)
            requires
                b > 0,
                c > 0,
        ;
        lemma_gcd_greatest(b * c, b * a, c);
    } else {
        lemma_multiple_divides(c, 0);
    }
}

/// Dividing two numbers by their greatest common divisor leaves numbers with
/// no common divisor but one.
pub proof fn lemma_gcd_of_quotients(a: nat, b: nat)
    requires
        a > 0 || b > 0,
    ensures
        gcd(a / gcd(a, b), b / gcd(a, b)) == 1,
{
    let g = gcd(a, b);
    lemma_gcd_divides(a, b);
    lemma_divides_factor(g, a);
    lemma_divides_factor(g, b);
    let x = a / g;
    let y = b / g;
    assert(x > 0 || y > 0) by (nonlinear_arith)
        requires
            a == g * x,
            b == g * y,
            a > 0 || b > 0,
    ;
    let h = gcd(x, y);
    lemma_gcd_divides(x, y);
    lemma_divides_factor(h, x);
    lemma_divides_factor(h, y);
    let gh = g * h;
    assert(gh > 0 && a == (x / h) * gh && b == (y / h) * gh) by (nonlinear_arith)
        requires
            g > 0,
            h > 0,
            gh == g * h,
            a == g * x,
            b == g * y,
            x == h * (x / h),
            y == h * (y / h),
    ;
    lemma_multiple_divides(gh, x / h);
    lemma_multiple_divides(gh, y / h);
    lemma_gcd_greatest(a, b, gh);
    assert(h == 1) by (nonlinear_arith)
        requires
            g > 0,
            h > 0,
            g * h <= g,
    ;
}

/// Computes the greatest common divisor by Euclid's algorithm.
pub fn gcd_u64(a: u64, b: u64) -> (g: u64)
    ensures
        g == gcd(a as nat, b as nat),
{
    let mut x: u64 = a;
    let mut y: u64 = b;
    while y != 0
        invariant
            gcd(x as nat, y as nat) == gcd(a as nat, b as nat),
        decreases y,
    {
        let r: u64 = x % y;
        x = y;
        y = r;
    }
    x
}

} // verus!
