use lotka_volterra::dynamics::{check_extinction, round_update, update_simulation, RawUpdate};
use lotka_volterra::ratio::Ratio;
use lotka_volterra::rounding::round_product_capped;

fn ratio(numer: i32, denom: u32) -> Ratio {
    Ratio::new(numer, denom).unwrap()
}

fn raw(factor: u32, numer: i128, denom: u128) -> RawUpdate {
    RawUpdate { factor, numer, denom }
}

/// Whether `update` is the fraction `numer / denom`.
fn is_fraction(update: RawUpdate, numer: i128, denom: i128) -> bool {
    (update.factor as i128) * update.numer * denom == numer * (update.denom as i128)
}

fn as_float(update: RawUpdate) -> f64 {
    (update.factor as f64) * (update.numer as f64) / (update.denom as f64)
}

fn rounded(pop1: u32, pop2: u32, r: Ratio, k: u32, compet: Ratio) -> i32 {
    round_update(update_simulation(pop1, pop2, r, k, compet))
}

#[test]
fn ratio_needs_a_denominator() {
    assert_eq!(Ratio::new(3, 0), None);
    assert_eq!(Ratio::new(3, 5), Some(Ratio { numer: 3, denom: 5 }));
    assert_eq!(Ratio::new(-3, 5), Some(Ratio { numer: -3, denom: 5 }));
}

#[test]
fn ratio_equality_is_by_fields() {
    assert_ne!(ratio(1, 2), ratio(2, 4));
    assert_eq!(ratio(1, 2), ratio(1, 2));
}

#[test]
fn extinction_floor_clamps_negative_values() {
    assert_eq!(check_extinction(-1), 0);
    assert_eq!(check_extinction(-250), 0);
    assert_eq!(check_extinction(i32::MIN), 0);
}

#[test]
fn extinction_floor_keeps_other_values() {
    assert_eq!(check_extinction(0), 0);
    assert_eq!(check_extinction(1), 1);
    assert_eq!(check_extinction(33), 33);
    assert_eq!(check_extinction(i32::MAX), 2147483647);
}

#[test]
fn update_of_species_1_in_the_standard_setting() {
    // 20 + 0.6 * 20 * (1 - 0.1 - 0.04) = 30.32
    let update = update_simulation(20, 20, ratio(6, 10), 200, ratio(4, 10));
    assert_eq!(update, raw(20, 30320, 20000));
    assert!(is_fraction(update, 3032, 100));
    assert!(30.319 < as_float(update) && as_float(update) < 30.321);
    assert_eq!(round_update(update), 30);
}

#[test]
fn update_of_species_2_in_the_standard_setting() {
    // 20 + 0.8 * 20 * (1 - 0.1 - 0.07) = 33.28
    let update = update_simulation(20, 20, ratio(8, 10), 200, ratio(7, 10));
    assert_eq!(update, raw(20, 33280, 20000));
    assert!(is_fraction(update, 3328, 100));
    assert!(33.279 < as_float(update) && as_float(update) < 33.281);
    assert_eq!(round_update(update), 33);
}

#[test]
fn update_is_neither_rounded_nor_floored() {
    // 10 + 0.5 * 10 * (1 - 0.1 - 0.5 * 50 / 100) = 13.25
    let update = update_simulation(10, 50, ratio(1, 2), 100, ratio(1, 2));
    assert_eq!(update, raw(10, 530, 400));
    assert!(is_fraction(update, 1325, 100));
    assert!(!is_fraction(update, 13, 1));
    // 300 + 3 * 300 * (1 - 3) = -1500
    let update = update_simulation(300, 10, ratio(3, 1), 100, ratio(0, 1));
    assert_eq!(update, raw(300, -500, 100));
    assert!(is_fraction(update, -1500, 1));
    // 2 - 2.5 * 2 * (1 - 0.5) = -0.5
    let update = update_simulation(2, 0, ratio(-5, 2), 4, ratio(0, 1));
    assert!(is_fraction(update, -1, 2));
}

#[test]
fn update_takes_the_first_population_as_its_own() {
    // with the two swapped: 50 + 0.5 * 50 * (1 - 0.5 - 0.5 * 10 / 100) = 61.25
    assert!(is_fraction(update_simulation(50, 10, ratio(1, 2), 100, ratio(1, 2)), 6125, 100));
    // with the first in both places: 10 + 0.5 * 10 * (1 - 0.1 - 0.05) = 14.25
    assert!(is_fraction(update_simulation(10, 10, ratio(1, 2), 100, ratio(1, 2)), 1425, 100));
    assert!(is_fraction(update_simulation(10, 50, ratio(1, 2), 100, ratio(1, 2)), 1325, 100));
}

#[test]
fn update_without_a_competitor_is_the_logistic_step() {
    // 20 + 0.6 * 20 * (1 - 0.1) = 30.8
    let first = update_simulation(20, 0, ratio(6, 10), 200, ratio(4, 10));
    let second = update_simulation(20, 0, ratio(6, 10), 200, ratio(9, 7));
    let third = update_simulation(20, 0, ratio(6, 10), 200, ratio(-3, 1));
    assert_eq!(first, raw(20, 30800, 20000));
    assert_eq!(second, raw(20, 21560, 14000));
    assert!(is_fraction(first, 308, 10));
    assert!(is_fraction(second, 308, 10));
    assert!(is_fraction(third, 308, 10));
    assert_eq!(round_update(first), 31);
}

#[test]
fn update_does_not_depend_on_how_a_fraction_is_written() {
    assert!(is_fraction(update_simulation(20, 20, ratio(3, 5), 200, ratio(2, 5)), 3032, 100));
    assert!(is_fraction(
        update_simulation(20, 20, ratio(600, 1000), 200, ratio(40, 100)),
        3032,
        100
    ));
    assert_eq!(rounded(20, 20, ratio(3, 5), 200, ratio(2, 5)), 30);
    assert_eq!(rounded(20, 20, ratio(600, 1000), 200, ratio(40, 100)), 30);
}

#[test]
fn update_of_an_empty_population_is_zero() {
    let update = update_simulation(0, 20, ratio(6, 10), 200, ratio(4, 10));
    assert!(is_fraction(update, 0, 1));
    assert_eq!(round_update(update), 0);
    assert_eq!(rounded(0, 4000000000, ratio(-7, 3), 1, ratio(-9, 1)), 0);
}

#[test]
fn update_at_the_carrying_capacity_stays() {
    let update = update_simulation(200, 0, ratio(6, 10), 200, ratio(4, 10));
    assert!(is_fraction(update, 200, 1));
    assert_eq!(round_update(update), 200);
}

#[test]
fn update_with_a_negative_coefficient_grows_faster() {
    // 10 + 1 * 10 * (1 - 0.1 + 0.5 * 40 / 100) = 21
    let update = update_simulation(10, 40, ratio(1, 1), 100, ratio(-1, 2));
    assert!(is_fraction(update, 21, 1));
    assert_eq!(round_update(update), 21);
}

#[test]
fn update_with_the_largest_parameters() {
    // the growth factor is 1 + (2^31 - 1) * (1 - (2^32 - 1) - (2^31 - 1) * (2^32 - 1))
    let update = update_simulation(
        4294967295,
        4294967295,
        ratio(2147483647, 1),
        1,
        ratio(2147483647, 1),
    );
    assert_eq!(update, raw(4294967295, -19807040614731026343103823872, 1));
    let update = update_simulation(
        4294967295,
        4294967295,
        ratio(-2147483648, 4294967295),
        4294967295,
        ratio(-2147483648, 4294967295),
    );
    assert_eq!(
        update,
        raw(4294967295, 59421121834969707005341597695, 79228162458924105385300197375)
    );
}

#[test]
fn rounding_takes_a_tie_away_from_zero() {
    assert_eq!(round_update(raw(1, 5, 2)), 3);
    assert_eq!(round_update(raw(5, 1, 2)), 3);
    assert_eq!(round_update(raw(1, -5, 2)), -3);
    assert_eq!(round_update(raw(1, 1, 2)), 1);
    assert_eq!(round_update(raw(1, -1, 2)), -1);
    // 2 + 0.5 * 2 * (1 - 0.5) = 2.5
    assert_eq!(rounded(2, 0, ratio(1, 2), 4, ratio(0, 1)), 3);
    // 2 - 2.5 * 2 * (1 - 0.5) = -0.5
    assert_eq!(rounded(2, 0, ratio(-5, 2), 4, ratio(0, 1)), -1);
    // 10 + 0.5 * 10 * (1 - 0.1) = 14.5
    assert_eq!(rounded(10, 300, ratio(1, 2), 100, ratio(0, 1)), 15);
}

#[test]
fn rounding_goes_to_the_nearest_whole_number() {
    assert_eq!(round_update(raw(1, 7, 3)), 2);
    assert_eq!(round_update(raw(1, 8, 3)), 3);
    assert_eq!(round_update(raw(1, -7, 3)), -2);
    assert_eq!(round_update(raw(1, -8, 3)), -3);
    assert_eq!(round_update(raw(0, -8, 3)), 0);
    assert_eq!(round_update(raw(8, 0, 3)), 0);
    // 1 + 0.5 * (1 - 0.000001) = 1.4999995
    assert_eq!(rounded(1, 0, ratio(1, 2), 1000000, ratio(0, 1)), 1);
    // 50 + 0.5 * 50 * (1 - 0.5 - 0.45) = 51.25
    assert_eq!(rounded(50, 50, ratio(1, 2), 100, ratio(9, 10)), 51);
    // 50 + 0.5 * 50 * (1 - 0.5 - 0.05) = 61.25
    assert_eq!(rounded(50, 50, ratio(1, 2), 100, ratio(1, 10)), 61);
    // 3 + 0.9 * 3 * (1 - 0.3) = 4.89
    assert_eq!(rounded(3, 0, ratio(9, 10), 10, ratio(0, 1)), 5);
}

#[test]
fn rounding_keeps_a_negative_value_negative() {
    // 300 + 3 * 300 * (1 - 3) = -1500
    assert_eq!(rounded(300, 10, ratio(3, 1), 100, ratio(0, 1)), -1500);
    // 10 + 1 * 10 * (1 - 0.1 - 2 * 50 / 100) = 9
    assert_eq!(rounded(10, 50, ratio(1, 1), 100, ratio(2, 1)), 9);
    // 10 + 1 * 10 * (1 - 0.1 - 4 * 50 / 100) = -1
    assert_eq!(rounded(10, 50, ratio(1, 1), 100, ratio(4, 1)), -1);
}

#[test]
fn rounding_stays_within_i32() {
    // 2^31 + 1000 * 2^31 * (1 - 2^31 / (2^32 - 1)) is far above the largest i32
    assert_eq!(rounded(2147483648, 0, ratio(1000, 1), 4294967295, ratio(0, 1)), i32::MAX);
    // 4e9 + 4e9 * (1 - 4e9) is far below the smallest i32
    assert_eq!(rounded(4000000000, 0, ratio(1, 1), 1, ratio(0, 1)), i32::MIN);
    assert_eq!(
        rounded(4294967295, 4294967295, ratio(2147483647, 1), 1, ratio(2147483647, 1)),
        i32::MIN
    );
    assert_eq!(
        rounded(4294967295, 4294967295, ratio(-2147483648, 1), 1, ratio(2147483647, 1)),
        i32::MAX
    );
    assert_eq!(round_update(raw(4294967295, i128::MAX, 1)), i32::MAX);
    assert_eq!(round_update(raw(4294967295, i128::MIN + 1, 1)), i32::MIN);
    assert_eq!(round_update(raw(1, i128::MAX, 1 << 96)), i32::MAX);
    assert_eq!(round_update(raw(1, -i128::MAX, 1 << 96)), i32::MIN);
}

#[test]
fn rounding_just_below_and_at_the_bounds_of_i32() {
    assert_eq!(round_update(raw(1, 2147483646, 1)), 2147483646);
    assert_eq!(round_update(raw(1, 2147483647, 1)), 2147483647);
    assert_eq!(round_update(raw(1, 2147483648, 1)), 2147483647);
    assert_eq!(round_update(raw(1, 4294967293, 2)), 2147483647);
    assert_eq!(round_update(raw(1, 4294967292, 2)), 2147483646);
    assert_eq!(round_update(raw(1, -2147483647, 1)), -2147483647);
    assert_eq!(round_update(raw(1, -2147483648, 1)), -2147483648);
    assert_eq!(round_update(raw(1, -2147483649, 1)), -2147483648);
    assert_eq!(rounded(2147483646, 0, ratio(0, 1), 5, ratio(0, 1)), 2147483646);
    assert_eq!(rounded(2147483647, 0, ratio(0, 1), 5, ratio(0, 1)), 2147483647);
    assert_eq!(rounded(2147483648, 0, ratio(0, 1), 5, ratio(0, 1)), 2147483647);
}

#[test]
fn update_with_large_denominators() {
    // 1000 + 1 * 1000 * (1 - 1000 / 4000 - 0.5 * 1000 / 4000) = 1625
    let update = update_simulation(
        1000,
        1000,
        ratio(2147483647, 2147483647),
        4000,
        ratio(2147483647, 4294967294),
    );
    assert!(is_fraction(update, 1625, 1));
    assert_eq!(round_update(update), 1625);
}

#[test]
fn capped_rounding_of_a_product() {
    // 7 * 5 / 10 = 3.5
    assert_eq!(round_product_capped(7, 5, 10, 100), 4);
    // 7 * 5 / 11 = 3.18
    assert_eq!(round_product_capped(7, 5, 11, 100), 3);
    // 7 * 7 / 10 = 4.9
    assert_eq!(round_product_capped(7, 7, 10, 100), 5);
    assert_eq!(round_product_capped(7, 7, 10, 4), 4);
    assert_eq!(round_product_capped(0, 7, 10, 4), 0);
    assert_eq!(round_product_capped(9, 0, 10, 4), 0);
    assert_eq!(round_product_capped(1, 4, 10, 0), 0);
    assert_eq!(round_product_capped(1, 5, 10, 0), 0);
}

#[test]
fn capped_rounding_of_a_product_beyond_u128() {
    // u128::MAX * (2^32 - 1) / 2^96 is a little under 2^64
    assert_eq!(
        round_product_capped(4294967295, u128::MAX, 1 << 96, u64::MAX),
        18446744069414584320
    );
    assert_eq!(round_product_capped(4294967295, u128::MAX, 1, 12), 12);
    // 3 * (2^127 + 1) / 2^96 = 3 * 2^31 + 3 / 2^96
    assert_eq!(round_product_capped(3, (1 << 127) + 1, 1 << 96, u64::MAX), 6442450944);
}
