use verlet_solver::fixed::{
    from_units, fx_add, fx_div, fx_mul, fx_neg, fx_sub, half, int_div, isqrt_u128, to_units, LIM,
    SCALE,
};

/// Expected fixed-point product, computed independently in wide integers.
fn expect_mul(a: i64, b: i64) -> i64 {
    ((a as i128) * (b as i128) / (SCALE as i128)) as i64
}

/// Expected fixed-point quotient, computed independently in wide integers.
fn expect_div(a: i64, b: i64) -> i64 {
    ((a as i128) * (SCALE as i128) / (b as i128)) as i64
}

#[test]
fn add_and_sub_are_exact_in_range() {
    assert_eq!(fx_add(3 * SCALE, 4 * SCALE), 7 * SCALE);
    assert_eq!(fx_sub(3 * SCALE, 4 * SCALE), -SCALE);
    assert_eq!(fx_add(-5, 5), 0);
    assert_eq!(fx_neg(42), -42);
}

#[test]
fn add_saturates_at_the_range_bound() {
    assert_eq!(fx_add(LIM, LIM), LIM);
    assert_eq!(fx_sub(-LIM, LIM), -LIM);
}

#[test]
fn mul_matches_the_scaled_product() {
    // 1.5 * 2.25 == 3.375
    let a = SCALE + SCALE / 2;
    let b = 2 * SCALE + SCALE / 4;
    assert_eq!(fx_mul(a, b), 3 * SCALE + 3 * (SCALE / 8));
    assert_eq!(fx_mul(a, b), expect_mul(a, b));
    assert_eq!(fx_mul(-a, b), expect_mul(-a, b));
    assert_eq!(fx_mul(0, b), 0);
    assert_eq!(fx_mul(SCALE, b), b);
}

#[test]
fn mul_truncates_toward_zero() {
    // (1/SCALE) * (1/SCALE) is below one grid unit on both signs.
    assert_eq!(fx_mul(1, 1), 0);
    assert_eq!(fx_mul(-1, 1), 0);
}

#[test]
fn div_matches_the_scaled_quotient() {
    let a = 3 * SCALE;
    let b = 2 * SCALE;
    assert_eq!(fx_div(a, b), SCALE + SCALE / 2);
    assert_eq!(fx_div(a, b), expect_div(a, b));
    assert_eq!(fx_div(-a, b), expect_div(-a, b));
    assert_eq!(fx_div(a, -b), expect_div(a, -b));
    assert_eq!(fx_div(a, a), SCALE);
}

#[test]
fn halving_and_integer_division_truncate_toward_zero() {
    assert_eq!(half(7), 3);
    assert_eq!(half(-7), -3);
    assert_eq!(int_div(99, 10), 9);
    assert_eq!(int_div(-99, 10), -9);
}

#[test]
fn unit_conversions_round_trip_whole_units() {
    assert_eq!(from_units(640), 640 * SCALE);
    assert_eq!(to_units(640 * SCALE), 640);
    assert_eq!(to_units(640 * SCALE + SCALE / 2), 640);
    assert_eq!(to_units(-3 * SCALE), -3);
}

#[test]
fn integer_square_root_brackets_its_argument() {
    assert_eq!(isqrt_u128(0), 0);
    assert_eq!(isqrt_u128(1), 1);
    assert_eq!(isqrt_u128(3), 1);
    assert_eq!(isqrt_u128(4), 2);
    assert_eq!(isqrt_u128(99), 9);
    assert_eq!(isqrt_u128(100), 10);
    let big: u128 = (1u128 << 84) - 1;
    let r = isqrt_u128(big);
    assert!((r as u128) * (r as u128) <= big);
    assert!(((r as u128) + 1) * ((r as u128) + 1) > big);
}
