//! Elementwise sRGB gamma activation curves, in Q31.32 fixed point: the
//! piecewise transfer function from sRGB-encoded values to linear light and
//! a piecewise polynomial approximation of its inverse, each with its
//! elementwise gradient for backpropagation.

use vstd::prelude::*;

use crate::fx::{fx_add, fx_add_spec, fx_div, fx_div_spec, fx_mul, fx_mul_spec, fx_sqrt,
    fx_sqrt_spec, fx_sub, fx_sub_spec};

verus! {

/// Threshold below which the sRGB-to-linear curve is linear: `0.0404482...`.
pub const SRGB_LINEAR_THRESHOLD: i64 = 173723851;

/// Slope of the linear segment's reciprocal: `12.92`.
pub const SRGB_LINEAR_SLOPE: i64 = 55490977464;

/// Cubic coefficients of the sRGB-to-linear curve above the threshold.
pub const STL_C0: i64 = 6538250;  // 0.001522305

pub const STL_C1: i64 = 53583041;  // 0.012475774

pub const STL_C2: i64 = 2845230360;  // 0.662456816212772

pub const STL_C3: i64 = 1403569437;  // 0.32679397543773

/// `2 * STL_C2` and `3 * STL_C3`, for the gradient.
pub const STL_C2_TWICE: i64 = 5690460720;

pub const STL_C3_THRICE: i64 = 4210708311;

/// Threshold below which the linear-to-sRGB curve is linear: `0.0031306...`.
pub const LTS_THRESHOLD: i64 = 13446118;

/// Root-polynomial coefficients of the linear-to-sRGB curve.
pub const LTS_D0: i64 = -319169920;  // -0.074312538

pub const LTS_D1: i64 = 3661666624;  // 0.852548197

pub const LTS_D2: i64 = 1221215148;  // 0.284336309

pub const LTS_D3: i64 = 273282940;  // 0.063628643

/// `LTS_D1 / 2` and `LTS_D2 / 4`, for the gradient.
pub const LTS_D1_HALF: i64 = 1830833312;

pub const LTS_D2_QUARTER: i64 = 305303787;

/// The sRGB-to-linear transfer curve.
pub open spec fn srgb_to_linear_spec(x: int) -> int {
    if x <= SRGB_LINEAR_THRESHOLD as int {
        fx_div_spec(x, SRGB_LINEAR_SLOPE as int)
    } else {
        fx_add_spec(
            fx_add_spec(
                fx_add_spec(STL_C0 as int, fx_mul_spec(STL_C1 as int, x)),
                fx_mul_spec(fx_mul_spec(STL_C2 as int, x), x),
            ),
            fx_mul_spec(fx_mul_spec(fx_mul_spec(STL_C3 as int, x), x), x),
        )
    }
}

/// The gradient of the sRGB-to-linear curve, scaled by an incoming gradient.
pub open spec fn srgb_to_linear_gradient_spec(x: int, og: int) -> int {
    if x <= SRGB_LINEAR_THRESHOLD as int {
        fx_div_spec(og, SRGB_LINEAR_SLOPE as int)
    } else {
        fx_mul_spec(
            og,
            fx_add_spec(
                fx_add_spec(STL_C1 as int, fx_mul_spec(STL_C2_TWICE as int, x)),
                fx_mul_spec(fx_mul_spec(STL_C3_THRICE as int, x), x),
            ),
        )
    }
}

/// The linear-to-sRGB transfer curve.
pub open spec fn linear_to_srgb_spec(x: int) -> int {
    if x <= LTS_THRESHOLD as int {
        fx_mul_spec(x, SRGB_LINEAR_SLOPE as int)
    } else {
        let s1 = fx_sqrt_spec(x);
        let s2 = fx_sqrt_spec(s1);
        fx_sub_spec(
            fx_add_spec(
                fx_add_spec(LTS_D0 as int, fx_mul_spec(LTS_D1 as int, s1)),
                fx_mul_spec(LTS_D2 as int, s2),
            ),
            fx_mul_spec(LTS_D3 as int, x),
        )
    }
}

/// The gradient of the linear-to-sRGB curve, scaled by an incoming gradient.
pub open spec fn linear_to_srgb_gradient_spec(x: int, og: int) -> int {
    if x <= LTS_THRESHOLD as int {
        fx_mul_spec(og, SRGB_LINEAR_SLOPE as int)
    } else {
        let s1 = fx_sqrt_spec(x);
        let s2 = fx_sqrt_spec(s1);
        fx_mul_spec(
            og,
            fx_sub_spec(
                fx_add_spec(
                    fx_div_spec(LTS_D1_HALF as int, s1),
                    fx_div_spec(LTS_D2_QUARTER as int, fx_mul_spec(s1, s2)),
                ),
                LTS_D3 as int,
            ),
        )
    }
}

/// The sRGB-to-linear activation function.
#[derive(Clone, Copy, Debug)]
pub struct SrgbToLinearFunc {}

impl SrgbToLinearFunc {
    /// The curve's value at `input`.
    pub fn value(&self, input: i64) -> (r: i64)
        ensures
            r as int == srgb_to_linear_spec(input as int),
    {
        if input <= SRGB_LINEAR_THRESHOLD {
            fx_div(input, SRGB_LINEAR_SLOPE)
        } else {
            fx_add(
                fx_add(
                    fx_add(STL_C0, fx_mul(STL_C1, input)),
                    fx_mul(fx_mul(STL_C2, input), input),
                ),
                fx_mul(fx_mul(fx_mul(STL_C3, input), input), input),
            )
        }
    }

    /// The incoming gradient scaled by the curve's slope at `input`.
    pub fn gradient(&self, input: i64, output_grad: i64) -> (r: i64)
        ensures
            r as int == srgb_to_linear_gradient_spec(input as int, output_grad as int),
    {
        if input <= SRGB_LINEAR_THRESHOLD {
            fx_div(output_grad, SRGB_LINEAR_SLOPE)
        } else {
            fx_mul(
                output_grad,
                fx_add(
                    fx_add(STL_C1, fx_mul(STL_C2_TWICE, input)),
                    fx_mul(fx_mul(STL_C3_THRICE, input), input),
                ),
            )
        }
    }

    /// Backpropagation through this curve needs the forward input value.
    pub fn backprop_requires_input_value() -> (r: bool)
        ensures
            r,
    {
        true
    }
}

/// The linear-to-sRGB activation function.
#[derive(Clone, Copy, Debug)]
pub struct LinearToSrgbFunc {}

impl LinearToSrgbFunc {
    /// The curve's value at `input`.
    pub fn value(&self, input: i64) -> (r: i64)
        ensures
            r as int == linear_to_srgb_spec(input as int),
    {
        if input <= LTS_THRESHOLD {
            fx_mul(input, SRGB_LINEAR_SLOPE)
        } else {
            let s1 = fx_sqrt(input);
            let s2 = fx_sqrt(s1);
            fx_sub(
                fx_add(fx_add(LTS_D0, fx_mul(LTS_D1, s1)), fx_mul(LTS_D2, s2)),
                fx_mul(LTS_D3, input),
            )
        }
    }

    /// The incoming gradient scaled by the curve's slope at `input`.
    pub fn gradient(&self, input: i64, output_grad: i64) -> (r: i64)
        ensures
            r as int == linear_to_srgb_gradient_spec(input as int, output_grad as int),
    {
        if input <= LTS_THRESHOLD {
            fx_mul(output_grad, SRGB_LINEAR_SLOPE)
        } else {
            let s1 = fx_sqrt(input);
            let s2 = fx_sqrt(s1);
            fx_mul(
                output_grad,
                fx_sub(
                    fx_add(
                        fx_div(LTS_D1_HALF, s1),
                        fx_div(LTS_D2_QUARTER, fx_mul(s1, s2)),
                    ),
                    LTS_D3,
                ),
            )
        }
    }

    /// Backpropagation through this curve needs the forward input value.
    pub fn backprop_requires_input_value() -> (r: bool)
        ensures
            r,
    {
        true
    }
}

} // verus!
