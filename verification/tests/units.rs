use power_monitor::units::{
    Joules, PowerReading, Watts, MAX_DOMAIN_MICROWATTS, MICROS_PER_WATT, MIN_ELAPSED_NANOS,
    NANOS_PER_JOULE,
};

const SECOND: u64 = 1_000_000_000;

#[test]
fn constants_have_their_physical_values() {
    assert_eq!(NANOS_PER_JOULE, 1_000_000_000);
    assert_eq!(MICROS_PER_WATT, 1_000_000);
    assert_eq!(MIN_ELAPSED_NANOS, 1_000_000);
    assert_eq!(MAX_DOMAIN_MICROWATTS, 1_000_000_000_000_000_000);
}

#[test]
fn zero_energy_is_zero() {
    let zero = Joules::zero();
    assert_eq!(zero.whole_joules(), 0);
    assert_eq!(zero.nanos(), 0);
    assert_eq!(zero.over(SECOND), Watts { microwatts: 0 });
}

#[test]
fn joules_split_into_whole_and_remainder() {
    let energy = Joules::from_nanojoules(2_500_000_000);
    assert_eq!(energy.whole_joules(), 2);
    assert_eq!(energy.nanos(), 500_000_000);
}

#[test]
fn negative_energy_rounds_its_whole_part_down() {
    let energy = Joules::from_nanojoules(-1);
    assert_eq!(energy.whole_joules(), -1);
    assert_eq!(energy.nanos(), 999_999_999);
    let energy = Joules::from_nanojoules(-2_000_000_000);
    assert_eq!(energy.whole_joules(), -2);
    assert_eq!(energy.nanos(), 0);
}

#[test]
fn sums_carry_from_the_remainder() {
    let a = Joules::from_nanojoules(1_700_000_000);
    let b = Joules::from_nanojoules(2_600_000_000);
    let sum = a.checked_add(&b).unwrap();
    assert_eq!(sum.whole_joules(), 4);
    assert_eq!(sum.nanos(), 300_000_000);
}

#[test]
fn sums_of_opposite_signs_cancel() {
    let a = Joules::from_nanojoules(1_500_000_000);
    let b = Joules::from_nanojoules(-1_500_000_000);
    let sum = a.checked_add(&b).unwrap();
    assert_eq!(sum.whole_joules(), 0);
    assert_eq!(sum.nanos(), 0);
}

#[test]
fn sums_beyond_the_range_are_refused() {
    let most = Joules::from_nanojoules(i128::MAX);
    let mut sum = most;
    let mut refused = false;
    // Each addition adds about 1.7e29 whole joules; the range ends near 1.7e38.
    for _ in 0..2_000_000_000u64 {
        match sum.checked_add(&sum) {
            Some(next) => sum = next,
            None => {
                refused = true;
                break;
            }
        }
    }
    assert!(refused);
    assert!(sum.whole_joules() > 0);
}

#[test]
fn a_joule_per_second_is_a_watt() {
    let energy = Joules::from_nanojoules(1_000_000_000);
    assert_eq!(energy.over(SECOND), Watts { microwatts: 1_000_000 });
}

#[test]
fn power_is_energy_by_time() {
    // 3 J over 2 s is 1.5 W.
    let energy = Joules::from_nanojoules(3_000_000_000);
    assert_eq!(energy.over(2 * SECOND).microwatts, 1_500_000);
    // 1 J over 3 s is a third of a watt, rounded down.
    let energy = Joules::from_nanojoules(1_000_000_000);
    assert_eq!(energy.over(3 * SECOND).microwatts, 333_333);
}

#[test]
fn power_of_negative_energy_rounds_down() {
    let energy = Joules::from_nanojoules(-1_000_000_000);
    assert_eq!(energy.over(3 * SECOND).microwatts, -333_334);
    assert_eq!(energy.over(SECOND).microwatts, -1_000_000);
}

#[test]
fn intervals_below_a_millisecond_count_as_a_millisecond() {
    let energy = Joules::from_nanojoules(5_000);
    let at_clamp = energy.over(MIN_ELAPSED_NANOS);
    // 5000 nJ over 1 ms is 5 mW: as many microwatts as nanojoules.
    assert_eq!(at_clamp.microwatts, 5_000);
    assert_eq!(energy.over(0), at_clamp);
    assert_eq!(energy.over(1), at_clamp);
    assert_eq!(energy.over(999_999), at_clamp);
    assert_eq!(energy.over(2_000_000).microwatts, 2_500);
}

#[test]
fn power_as_a_fraction_is_joules_by_a_thousandth() {
    let energy = Joules::from_nanojoules(1_500_000_000);
    let watts = energy.over(0).microwatts as f64 / 1e6;
    assert_eq!(watts, 1.5 / 0.001);
    assert!(watts.is_finite());
}

#[test]
fn power_saturates_at_a_terawatt() {
    let huge = Joules::from_nanojoules(i128::MAX);
    assert_eq!(huge.over(SECOND).microwatts, MAX_DOMAIN_MICROWATTS);
    assert_eq!(huge.over(u64::MAX).microwatts, MAX_DOMAIN_MICROWATTS);
    let tiny = Joules::from_nanojoules(i128::MIN);
    assert_eq!(tiny.over(SECOND).microwatts, -MAX_DOMAIN_MICROWATTS);
    assert_eq!(tiny.over(0).microwatts, -MAX_DOMAIN_MICROWATTS);
}

#[test]
fn power_just_inside_the_range_is_exact() {
    // 1e18 uW over 1 s is 1e21 nJ.
    let edge = Joules::from_nanojoules(1_000_000_000_000_000_000_000);
    assert_eq!(edge.over(SECOND).microwatts, MAX_DOMAIN_MICROWATTS);
    let below = Joules::from_nanojoules(999_999_999_999_999_999_000);
    assert_eq!(below.over(SECOND).microwatts, MAX_DOMAIN_MICROWATTS - 1);
    let above = Joules::from_nanojoules(1_000_000_000_000_000_001_000);
    assert_eq!(above.over(SECOND).microwatts, MAX_DOMAIN_MICROWATTS);
    let negative_edge = Joules::from_nanojoules(-999_999_999_999_999_999_000);
    assert_eq!(negative_edge.over(SECOND).microwatts, -(MAX_DOMAIN_MICROWATTS - 1));
}

#[test]
fn long_intervals_divide_exactly() {
    // An hour, in nanoseconds, and 3600 J: one watt.
    let hour: u64 = 3_600 * SECOND;
    let energy = Joules::from_nanojoules(3_600_000_000_000);
    assert_eq!(energy.over(hour).microwatts, 1_000_000);
    let energy = Joules::from_nanojoules(1);
    assert_eq!(energy.over(u64::MAX).microwatts, 0);
    let energy = Joules::from_nanojoules(-1);
    assert_eq!(energy.over(u64::MAX).microwatts, -1);
}

#[test]
fn power_matches_wide_division() {
    let energies: [i128; 7] = [
        0,
        1,
        999_999_999,
        1_000_000_001,
        123_456_789_012_345,
        9_223_372_036_854_775_807_000_000,
        77_777_777_777_777_777,
    ];
    let intervals: [u64; 6] = [0, 999_999, 1_000_000, 1_000_001, 16_666_667, 5_000_000_000];
    for &nanojoules in energies.iter() {
        for &elapsed in intervals.iter() {
            for sign in [1i128, -1i128] {
                let signed = nanojoules * sign;
                let divisor = elapsed.max(MIN_ELAPSED_NANOS) as i128;
                let exact = (signed * 1_000_000).div_euclid(divisor);
                let limit = MAX_DOMAIN_MICROWATTS as i128;
                let expected = exact.clamp(-limit, limit) as i64;
                assert_eq!(Joules::from_nanojoules(signed).over(elapsed).microwatts, expected);
            }
        }
    }
}

#[test]
fn the_empty_reading_is_all_zero() {
    let reading = PowerReading::zero();
    assert_eq!(reading.cpu.microwatts, 0);
    assert_eq!(reading.gpu.microwatts, 0);
    assert_eq!(reading.ane.microwatts, 0);
    assert_eq!(reading.total.microwatts, 0);
    assert_eq!(Watts::zero(), Watts { microwatts: 0 });
}
