use std_embedded_time::{ConversionError, Fraction, Unit};

fn parts(f: Fraction) -> (u32, u32) {
    (f.numerator(), f.denominator())
}

#[test]
fn new_keeps_the_parts_as_given() {
    let f = Fraction::new(2, 4);
    assert_eq!(f.numerator(), 2);
    assert_eq!(f.denominator(), 4);
    assert_ne!(f, Fraction::new(1, 2));
    assert_eq!(f, Fraction::new(2, 4));
}

#[test]
fn new_reduce_gives_lowest_terms() {
    assert_eq!(Fraction::new_reduce(6, 4), Ok(Fraction::new(3, 2)));
    assert_eq!(Fraction::new_reduce(0, 5), Ok(Fraction::new(0, 1)));
    assert_eq!(Fraction::new_reduce(7, 7), Ok(Fraction::new(1, 1)));
    assert_eq!(Fraction::new_reduce(1, 1_000_000_000), Ok(Fraction::new(1, 1_000_000_000)));
    assert_eq!(
        Fraction::new_reduce(u32::MAX, u32::MAX - 1),
        Ok(Fraction::new(u32::MAX, u32::MAX - 1))
    );
}

#[test]
fn new_reduce_rejects_a_zero_denominator() {
    assert_eq!(Fraction::new_reduce(1, 0), Err(ConversionError::DivByZero));
    assert_eq!(Fraction::new_reduce(0, 0), Err(ConversionError::DivByZero));
}

#[test]
fn reduce_divides_out_the_common_divisor() {
    assert_eq!(parts(Fraction::new(2, 4).reduce()), (1, 2));
    assert_eq!(parts(Fraction::new(3600, 60).reduce()), (60, 1));
    assert_eq!(parts(Fraction::new(0, 9).reduce()), (0, 1));
    assert_eq!(parts(Fraction::new(17, 5).reduce()), (17, 5));
    assert_eq!(parts(Fraction::new(1 << 31, 1 << 31).reduce()), (1, 1));
}

#[test]
fn recip_exchanges_the_parts() {
    assert_eq!(Fraction::new(3, 4).recip(), Ok(Fraction::new(4, 3)));
    assert_eq!(Fraction::new(2, 4).recip(), Ok(Fraction::new(4, 2)));
    assert_eq!(Fraction::new(1, 1_000).recip(), Ok(Fraction::new(1_000, 1)));
}

#[test]
fn recip_of_zero_is_an_error() {
    assert_eq!(Fraction::new(0, 1).recip(), Err(ConversionError::DivByZero));
}

#[test]
fn checked_mul_reduces_the_product() {
    assert_eq!(
        Fraction::new(1000, 1).checked_mul(&Fraction::new(5, 5)),
        Ok(Fraction::new(1000, 1))
    );
    assert_eq!(Fraction::new(2, 3).checked_mul(&Fraction::new(3, 4)), Ok(Fraction::new(1, 2)));
    assert_eq!(Fraction::new(0, 3).checked_mul(&Fraction::new(3, 4)), Ok(Fraction::new(0, 1)));
    assert_eq!(
        Fraction::new(1, 1_000).checked_mul(&Fraction::new(1, 1_000)),
        Ok(Fraction::new(1, 1_000_000))
    );
}

#[test]
fn checked_mul_reports_a_product_that_does_not_fit() {
    assert_eq!(
        Fraction::new(u32::MAX, 1).checked_mul(&Fraction::new(2, 1)),
        Err(ConversionError::FractionOverflow)
    );
    assert_eq!(
        Fraction::new(1, u32::MAX).checked_mul(&Fraction::new(1, 2)),
        Err(ConversionError::FractionOverflow)
    );
}

#[test]
fn checked_mul_does_not_overflow_on_unreduced_parts() {
    let one = Fraction::new(1 << 31, 1 << 31);
    assert_eq!(one.checked_mul(&Fraction::new(3, 5)), Ok(Fraction::new(3, 5)));
    assert_eq!(
        Fraction::new(u32::MAX, u32::MAX).checked_mul(&Fraction::new(u32::MAX, u32::MAX)),
        Ok(Fraction::new(1, 1))
    );
    assert_eq!(
        Fraction::new(u32::MAX, 3).checked_mul(&Fraction::new(3, u32::MAX)),
        Ok(Fraction::new(1, 1))
    );
}

#[test]
fn checked_div_reduces_the_quotient() {
    assert_eq!(
        Fraction::new(1000, 1).checked_div(&Fraction::new(10, 1000)),
        Ok(Fraction::new(100_000, 1))
    );
    assert_eq!(Fraction::new(1, 2).checked_div(&Fraction::new(1, 2)), Ok(Fraction::new(1, 1)));
    assert_eq!(Fraction::new(0, 2).checked_div(&Fraction::new(1, 2)), Ok(Fraction::new(0, 1)));
    assert_eq!(Fraction::new(3, 4).checked_div(&Fraction::new(9, 8)), Ok(Fraction::new(2, 3)));
}

#[test]
fn checked_div_reports_a_quotient_that_does_not_fit() {
    assert_eq!(
        Fraction::new(1, u32::MAX).checked_div(&Fraction::new(2, 1)),
        Err(ConversionError::FractionOverflow)
    );
    assert_eq!(
        Fraction::new(u32::MAX, 1).checked_div(&Fraction::new(1, u32::MAX)),
        Err(ConversionError::FractionOverflow)
    );
}

#[test]
fn checked_div_by_zero_is_an_error() {
    assert_eq!(
        Fraction::new(1, 2).checked_div(&Fraction::new(0, 7)),
        Err(ConversionError::DivByZero)
    );
    assert_eq!(
        Fraction::new(0, 2).checked_div(&Fraction::new(0, 7)),
        Err(ConversionError::DivByZero)
    );
}

#[test]
fn milliseconds_over_nanoseconds_is_a_million() {
    let ms = Fraction::new(1, 1_000);
    let ns = Fraction::new(1, 1_000_000_000);
    assert_eq!(ms.conversion_factor(&ns), Ok(Fraction::new(1_000_000, 1)));
    assert_eq!(ns.conversion_factor(&ms), Ok(Fraction::new(1, 1_000_000)));
    assert_eq!(
        Unit::Milliseconds.scaling_factor().conversion_factor(&Unit::Nanoseconds.scaling_factor()),
        Ok(Fraction::new(1_000_000, 1))
    );
}

#[test]
fn conversion_factor_is_the_quotient() {
    let hours = Fraction::new(3600, 1);
    let minutes = Fraction::new(60, 1);
    assert_eq!(hours.conversion_factor(&minutes), Ok(Fraction::new(60, 1)));
    assert_eq!(minutes.conversion_factor(&hours), Ok(Fraction::new(1, 60)));
    assert_eq!(hours.conversion_factor(&Fraction::new(0, 1)), Err(ConversionError::DivByZero));
    assert_eq!(hours.conversion_factor(&minutes), hours.checked_div(&minutes));
}

#[test]
fn products_of_reduced_fractions_agree_with_embedded_time() {
    let samples: [(u32, u32); 8] = [
        (1, 1),
        (1, 1_000),
        (1, 1_000_000_000),
        (3600, 1),
        (60, 1),
        (7, 13),
        (u32::MAX, 1),
        (0, 1),
    ];
    for (an, ad) in samples {
        for (bn, bd) in samples {
            let ours = Fraction::new(an, ad).checked_mul(&Fraction::new(bn, bd)).ok().map(parts);
            let theirs = embedded_time::fraction::Fraction::new(an, ad)
                .checked_mul(&embedded_time::fraction::Fraction::new(bn, bd))
                .map(|f| (*f.numerator(), *f.denominator()));
            assert_eq!(ours, theirs);
        }
    }
}

#[test]
fn quotients_of_reduced_fractions_agree_with_embedded_time() {
    let samples: [(u32, u32); 7] = [
        (1, 1),
        (1, 1_000),
        (1, 1_000_000_000),
        (3600, 1),
        (60, 1),
        (7, 13),
        (u32::MAX, 1),
    ];
    for (an, ad) in samples {
        for (bn, bd) in samples {
            let ours = Fraction::new(an, ad).checked_div(&Fraction::new(bn, bd)).ok().map(parts);
            let theirs = embedded_time::fraction::Fraction::new(an, ad)
                .checked_div(&embedded_time::fraction::Fraction::new(bn, bd))
                .map(|f| (*f.numerator(), *f.denominator()));
            assert_eq!(ours, theirs);
        }
    }
}
