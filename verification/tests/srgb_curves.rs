use cain::srgb::{LinearToSrgbFunc, SrgbToLinearFunc};
use cain::fx::SCALE;

fn fx(x: f64) -> i64 {
    (x * 4294967296.0) as i64
}

#[test]
fn srgb_to_linear_below_threshold_is_linear() {
    let f = SrgbToLinearFunc {};
    // 0.02 / 12.92 in Q31.32.
    assert_eq!(f.value(fx(0.02)), 6648556);
    assert_eq!(f.gradient(fx(0.02), SCALE), 332427809);
}

#[test]
fn srgb_to_linear_above_threshold_polynomial() {
    let f = SrgbToLinearFunc {};
    // The cubic segment at 0.5: about 0.2142.
    assert_eq!(f.value(fx(0.5)), 920083539);
    assert_eq!(f.gradient(fx(0.5), SCALE), 3951490478);
}

#[test]
fn srgb_to_linear_needs_input_value() {
    assert!(SrgbToLinearFunc::backprop_requires_input_value());
    assert!(LinearToSrgbFunc::backprop_requires_input_value());
}

#[test]
fn linear_to_srgb_below_threshold_is_linear() {
    let f = LinearToSrgbFunc {};
    // 0.002 * 12.92 in Q31.32.
    assert_eq!(f.value(fx(0.002)), 110981947);
    assert_eq!(f.gradient(fx(0.002), fx(1.0)), 55490977464);
}

#[test]
fn linear_to_srgb_above_threshold_root_polynomial() {
    let f = LinearToSrgbFunc {};
    // The root-polynomial segment at 0.25: about 0.5371.
    assert_eq!(f.value(fx(0.25)), 2306872169);
    assert_eq!(f.gradient(fx(0.25), SCALE), 4251913197);
}

#[test]
fn curves_roughly_invert_each_other() {
    let stl = SrgbToLinearFunc {};
    let lts = LinearToSrgbFunc {};
    for v in [fx(0.1), fx(0.3), fx(0.6), fx(0.9)] {
        let round = lts.value(stl.value(v));
        let err = (round - v).abs();
        // The curves are approximations; the round trip stays within 0.01.
        assert!(err < fx(0.01));
    }
}
