use cain::fx::{
    fx_add, fx_div, fx_floor_u64, fx_max, fx_min, fx_mul, fx_of_u64, fx_powf, fx_powi, fx_sqrt,
    fx_sub, SCALE,
};

fn fx(x: f64) -> i64 {
    (x * 4294967296.0) as i64
}

#[test]
fn multiplication_is_exact_on_small_products() {
    assert_eq!(fx_mul(fx(2.0), fx(3.0)), fx(6.0));
    assert_eq!(fx_mul(fx(-2.0), fx(3.0)), fx(-6.0));
    assert_eq!(fx_mul(fx(0.5), fx(0.5)), fx(0.25));
    assert_eq!(fx_mul(0, i64::MAX), 0);
}

#[test]
fn multiplication_saturates() {
    assert_eq!(fx_mul(i64::MAX, i64::MAX), i64::MAX);
    assert_eq!(fx_mul(i64::MAX, i64::MIN), i64::MIN);
}

#[test]
fn addition_saturates() {
    assert_eq!(fx_add(i64::MAX, 1), i64::MAX);
    assert_eq!(fx_add(i64::MIN, -1), i64::MIN);
    assert_eq!(fx_add(fx(1.5), fx(2.5)), fx(4.0));
    assert_eq!(fx_sub(i64::MIN, 1), i64::MIN);
}

#[test]
fn division_is_exact_on_small_quotients() {
    assert_eq!(fx_div(fx(6.0), fx(3.0)), fx(2.0));
    assert_eq!(fx_div(fx(-6.0), fx(3.0)), fx(-2.0));
    assert_eq!(fx_div(fx(1.0), fx(2.0)), fx(0.5));
}

#[test]
fn division_by_zero_saturates_by_sign() {
    assert_eq!(fx_div(fx(1.0), 0), i64::MAX);
    assert_eq!(fx_div(fx(-1.0), 0), i64::MIN);
    assert_eq!(fx_div(0, 0), 0);
}

#[test]
fn square_root_is_exact_on_squares() {
    assert_eq!(fx_sqrt(fx(4.0)), fx(2.0));
    assert_eq!(fx_sqrt(fx(0.25)), fx(0.5));
    assert_eq!(fx_sqrt(0), 0);
    assert_eq!(fx_sqrt(fx(-9.0)), 0);
}

#[test]
fn integer_powers() {
    assert_eq!(fx_powi(fx(2.0), 0), SCALE);
    assert_eq!(fx_powi(fx(2.0), 10), fx(1024.0));
    assert_eq!(fx_powi(fx(0.5), 2), fx(0.25));
}

#[test]
fn fractional_powers() {
    assert_eq!(fx_powf(fx(4.0), 0), SCALE);
    assert_eq!(fx_powf(fx(4.0), fx(0.5)), fx(2.0));
    assert_eq!(fx_powf(fx(2.0), fx(-1.0)), fx(0.5));
    assert_eq!(fx_powf(-5, fx(2.0)), 0);
    // 0.125^0.15 in Q31.32, the zero-noise batch shrink factor.
    assert_eq!(fx_powf(fx(0.125), fx(0.15)), 3144100074);
}

#[test]
fn clamps_and_conversions() {
    assert_eq!(fx_max(3, -5), 3);
    assert_eq!(fx_min(3, -5), -5);
    assert_eq!(fx_of_u64(7), 7 * SCALE);
    assert_eq!(fx_of_u64(u64::MAX), i64::MAX);
    assert_eq!(fx_floor_u64(fx(2.99)), 2);
    assert_eq!(fx_floor_u64(fx(-3.5)), 0);
}
