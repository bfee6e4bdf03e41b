use std_embedded_time::{
    Clock, ConversionError, Duration, Fraction, Instant, SimulatedClock, StandardClock, Unit,
    Width,
};

#[test]
fn an_instant_keeps_its_ticks() {
    assert_eq!(Instant::<StandardClock>::new(23).ticks(), 23);
    assert_eq!(Instant::<StandardClock>::new(u64::MAX).ticks(), u64::MAX);
    assert_eq!(Instant::<SimulatedClock>::new(0).ticks(), 0);
    let i = Instant::<SimulatedClock>::new(7);
    let copy = i;
    assert_eq!(i.ticks(), copy.clone().ticks());
}

#[test]
fn one_second_between_two_instants() {
    let earlier = Instant::<StandardClock>::new(5);
    let later = Instant::<StandardClock>::new(1_000_000_005);
    let elapsed = later.checked_duration_since(&earlier).unwrap();
    assert_eq!(elapsed.integer(), 1_000_000_000);
    assert_eq!(elapsed.scaling_factor(), Fraction::new(1, 1_000_000_000));
    assert_eq!(elapsed.bits(), Width::Bits64);
    let secs = elapsed.convert(Unit::Seconds.scaling_factor(), Width::Bits64).unwrap();
    assert_eq!(secs.integer(), 1);
    let one_second = Duration::new(1, Unit::Seconds.scaling_factor(), Width::Bits32).unwrap();
    assert!(elapsed == one_second);
}

#[test]
fn no_time_between_an_instant_and_itself() {
    let i = Instant::<StandardClock>::new(77);
    assert_eq!(i.checked_duration_since(&i).unwrap().integer(), 0);
}

#[test]
fn the_difference_is_in_the_clocks_own_unit() {
    let earlier = Instant::<SimulatedClock>::new(3);
    let later = Instant::<SimulatedClock>::new(5);
    let elapsed = later.checked_duration_since(&earlier).unwrap();
    assert_eq!(elapsed.integer(), 2);
    assert_eq!(elapsed.scaling_factor(), SimulatedClock::scaling_factor());
    assert_eq!(elapsed.bits(), SimulatedClock::width());
    let micros = elapsed.convert(Unit::Microseconds.scaling_factor(), Width::Bits32).unwrap();
    assert_eq!(micros.integer(), 2_000);
}

#[test]
fn reversed_instants_are_an_error_not_a_wrapped_difference() {
    let earlier = Instant::<StandardClock>::new(5);
    let later = Instant::<StandardClock>::new(1_000_000_005);
    assert_eq!(
        earlier.checked_duration_since(&later).map(|d| d.integer()),
        Err(ConversionError::NegDuration)
    );
    let zero = Instant::<StandardClock>::new(0);
    let one = Instant::<StandardClock>::new(1);
    assert_eq!(
        zero.checked_duration_since(&one).map(|d| d.integer()),
        Err(ConversionError::NegDuration)
    );
    let last = Instant::<SimulatedClock>::new(u32::MAX as u64);
    let first = Instant::<SimulatedClock>::new(0);
    assert_eq!(
        first.checked_duration_since(&last).map(|d| d.integer()),
        Err(ConversionError::NegDuration)
    );
    assert_eq!(last.checked_duration_since(&first).unwrap().integer(), u32::MAX as u64);
}

#[test]
fn a_difference_beyond_the_tick_width_is_an_overflow() {
    let first = Instant::<SimulatedClock>::new(0);
    let beyond = Instant::<SimulatedClock>::new(1 << 32);
    assert_eq!(
        beyond.checked_duration_since(&first).map(|d| d.integer()),
        Err(ConversionError::ConversionOverflow)
    );
}

#[test]
fn the_time_since_the_epoch_is_the_count() {
    let i = Instant::<StandardClock>::new(1_000_000_005);
    let since = i.duration_since_epoch().unwrap();
    assert_eq!(since.integer(), 1_000_000_005);
    assert_eq!(since.scaling_factor(), Fraction::new(1, 1_000_000_000));
    assert_eq!(since.bits(), Width::Bits64);
    let millis = since.convert(Unit::Milliseconds.scaling_factor(), Width::Bits32).unwrap();
    assert_eq!(millis.integer(), 1_000);

    let i = Instant::<SimulatedClock>::new(u32::MAX as u64);
    let since = i.duration_since_epoch().unwrap();
    assert_eq!(since.integer(), u32::MAX as u64);
    assert_eq!(since.bits(), Width::Bits32);
    let secs = since.convert(Unit::Seconds.scaling_factor(), Width::Bits32).unwrap();
    assert_eq!(secs.integer(), 4_294_967);
}

#[test]
fn a_count_beyond_the_tick_width_has_no_time_since_the_epoch() {
    let i = Instant::<SimulatedClock>::new(1 << 32);
    assert_eq!(
        i.duration_since_epoch().map(|d| d.integer()),
        Err(ConversionError::ConversionOverflow)
    );
}

#[test]
fn the_wrapped_difference_without_rollover_is_the_plain_difference() {
    let earlier = Instant::<StandardClock>::new(5);
    let later = Instant::<StandardClock>::new(1_000_000_005);
    let elapsed = later.wrapping_duration_since(&earlier);
    assert_eq!(elapsed.integer(), 1_000_000_000);
    assert_eq!(elapsed.scaling_factor(), Fraction::new(1, 1_000_000_000));
    assert_eq!(elapsed.bits(), Width::Bits64);
    assert_eq!(later.wrapping_duration_since(&later).integer(), 0);

    let earlier = Instant::<SimulatedClock>::new(3);
    let later = Instant::<SimulatedClock>::new(5);
    let elapsed = later.wrapping_duration_since(&earlier);
    assert_eq!(elapsed.integer(), 2);
    assert_eq!(elapsed.scaling_factor(), Fraction::new(1, 1_000));
    assert_eq!(elapsed.bits(), Width::Bits32);
}

#[test]
fn the_wrapped_difference_spans_one_rollover() {
    let before = Instant::<SimulatedClock>::new(u32::MAX as u64);
    let after = Instant::<SimulatedClock>::new(0);
    assert_eq!(after.wrapping_duration_since(&before).integer(), 1);
    let before = Instant::<SimulatedClock>::new(u32::MAX as u64 - 9);
    let after = Instant::<SimulatedClock>::new(90);
    assert_eq!(after.wrapping_duration_since(&before).integer(), 100);
    assert_eq!(before.wrapping_duration_since(&after).integer(), (1u64 << 32) - 100);

    let before = Instant::<StandardClock>::new(u64::MAX);
    let after = Instant::<StandardClock>::new(0);
    assert_eq!(after.wrapping_duration_since(&before).integer(), 1);
    assert_eq!(before.wrapping_duration_since(&after).integer(), u64::MAX);
}
