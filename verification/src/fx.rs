//! Saturating fixed-point scalars.
//!
//! A real number `x` is represented by the `i64` value `round-toward-zero(x *
//! 2^32)` (Q31.32).  Every operation is total: results outside the `i64`
//! range saturate to `i64::MAX` / `i64::MIN`, and a division by zero yields
//! the saturation bound of the dividend's sign (the fixed-point stand-in for
//! an infinity) or zero for `0 / 0`.  Each executable operation is pinned to
//! a spec-level mirror over `int`, so that everything computed from these
//! scalars is a mathematical function of its inputs.

use vstd::prelude::*;

verus! {

/// The fixed-point scaling factor, `2^32`; also the representation of `1`.
pub const SCALE: i64 = 4294967296;

/// Magnitude of an integer.
pub open spec fn mag(a: int) -> int {
    if a < 0 {
        -a
    } else {
        a
    }
}

/// Saturate an unbounded integer into the `i64` range.
pub open spec fn sat64(x: int) -> int {
    if x > i64::MAX as int {
        i64::MAX as int
    } else if x < i64::MIN as int {
        i64::MIN as int
    } else {
        x
    }
}

/// Quotient rounded toward zero, as Rust's integer division computes it.
pub open spec fn div_to_zero(a: int, b: int) -> int
    recommends
        b != 0,
{
    if a == 0 {
        0
    } else if (a > 0) == (b > 0) {
        mag(a) / mag(b)
    } else {
        -(mag(a) / mag(b))
    }
}

/// Fixed-point addition.
pub open spec fn fx_add_spec(a: int, b: int) -> int {
    sat64(a + b)
}

/// Fixed-point subtraction.
pub open spec fn fx_sub_spec(a: int, b: int) -> int {
    sat64(a - b)
}

/// Fixed-point multiplication: `a * b / SCALE`, rounded toward zero.
pub open spec fn fx_mul_spec(a: int, b: int) -> int {
    sat64(div_to_zero(a * b, SCALE as int))
}

/// Fixed-point division: `a * SCALE / b`, rounded toward zero; a zero
/// divisor saturates in the direction of the dividend's sign.
pub open spec fn fx_div_spec(a: int, b: int) -> int {
    if b == 0 {
        if a > 0 {
            i64::MAX as int
        } else if a < 0 {
            i64::MIN as int
        } else {
            0
        }
    } else {
        sat64(div_to_zero(a * SCALE, b))
    }
}

/// The larger of two fixed-point values.
pub open spec fn fx_max_spec(a: int, b: int) -> int {
    if a >= b {
        a
    } else {
        b
    }
}

/// The smaller of two fixed-point values.
pub open spec fn fx_min_spec(a: int, b: int) -> int {
    if a <= b {
        a
    } else {
        b
    }
}

/// The fixed-point representation of the integer `u`.
pub open spec fn fx_of_int_spec(u: int) -> int {
    sat64(u * SCALE)
}

/// The integer floor of a fixed-point value, clamped below at zero.
pub open spec fn fx_floor_spec(a: int) -> int {
    if a <= 0 {
        0
    } else {
        a / (SCALE as int)
    }
}

fn mag64(a: i64) -> (r: u128)
    ensures
        r == mag(a as int),
        r <= 9223372036854775808u128,
{
    let w: i128 = a as i128;
    if w >= 0 {
        w as u128
    } else {
        (-w) as u128
    }
}

fn sat_from_mag(q: u128, neg: bool) -> (r: i64)
    ensures
        r as int == sat64(
            if neg {
                -(q as int)
            } else {
                q as int
            },
        ),
{
    if neg {
        if q >= 9223372036854775808u128 {
            i64::MIN
        } else {
            -(q as i64)
        }
    } else {
        if q > 9223372036854775807u128 {
            i64::MAX
        } else {
            q as i64
        }
    }
}

proof fn lemma_mul_sign_mag(a: int, b: int)
    by (nonlinear_arith)
    ensures
        a * b == if (a >= 0) == (b >= 0) {
            mag(a) * mag(b)
        } else {
            -(mag(a) * mag(b))
        },
{
}

/// Saturating fixed-point addition.
pub fn fx_add(a: i64, b: i64) -> (r: i64)
    ensures
        r as int == fx_add_spec(a as int, b as int),
{
    let s: i128 = a as i128 + b as i128;
    if s > i64::MAX as i128 {
        i64::MAX
    } else if s < i64::MIN as i128 {
        i64::MIN
    } else {
        s as i64
    }
}

/// Saturating fixed-point subtraction.
pub fn fx_sub(a: i64, b: i64) -> (r: i64)
    ensures
        r as int == fx_sub_spec(a as int, b as int),
{
    let s: i128 = a as i128 - b as i128;
    if s > i64::MAX as i128 {
        i64::MAX
    } else if s < i64::MIN as i128 {
        i64::MIN
    } else {
        s as i64
    }
}

/// Saturating fixed-point multiplication.
pub fn fx_mul(a: i64, b: i64) -> (r: i64)
    ensures
        r as int == fx_mul_spec(a as int, b as int),
{
    let ma = mag64(a);
    let mb = mag64(b);
    assert(ma * mb <= 9223372036854775808u128 * 9223372036854775808u128) by (nonlinear_arith)
        requires
            ma <= 9223372036854775808u128,
            mb <= 9223372036854775808u128,
    ;
    let p: u128 = ma * mb;
    let q: u128 = p / (SCALE as u128);
    let neg: bool = (a < 0) != (b < 0);
    proof {
        lemma_mul_sign_mag(a as int, b as int);
    }
    sat_from_mag(q, neg)
}

/// Saturating fixed-point division.
pub fn fx_div(a: i64, b: i64) -> (r: i64)
    ensures
        r as int == fx_div_spec(a as int, b as int),
{
    if b == 0 {
        if a > 0 {
            i64::MAX
        } else if a < 0 {
            i64::MIN
        } else {
            0
        }
    } else {
        let ma = mag64(a);
        let mb = mag64(b);
        assert(ma * (SCALE as u128) <= 9223372036854775808u128 * 4294967296u128) by (nonlinear_arith)
            requires
                ma <= 9223372036854775808u128,
        ;
        let p: u128 = ma * (SCALE as u128);
        let q: u128 = p / mb;
        let neg: bool = (a < 0) != (b < 0);
        proof {
            lemma_mul_sign_mag(a as int, SCALE as int);
        }
        sat_from_mag(q, neg)
    }
}

/// The larger of two fixed-point values.
pub fn fx_max(a: i64, b: i64) -> (r: i64)
    ensures
        r as int == fx_max_spec(a as int, b as int),
{
    if a >= b {
        a
    } else {
        b
    }
}

/// The smaller of two fixed-point values.
pub fn fx_min(a: i64, b: i64) -> (r: i64)
    ensures
        r as int == fx_min_spec(a as int, b as int),
{
    if a <= b {
        a
    } else {
        b
    }
}

/// Convert a sample count to fixed point, saturating.
pub fn fx_of_u64(u: u64) -> (r: i64)
    ensures
        r as int == fx_of_int_spec(u as int),
{
    if u >= 2147483648u64 {
        i64::MAX
    } else {
        (u as i64) * SCALE
    }
}

/// The integer floor of a fixed-point value, clamped below at zero.
pub fn fx_floor_u64(a: i64) -> (r: u64)
    ensures
        r as int == fx_floor_spec(a as int),
{
    if a <= 0 {
        0
    } else {
        (a as u64) / (SCALE as u64)
    }
}

/// The integer square root: the largest `r` with `r * r <= x`.
pub open spec fn isqrt_spec(x: int) -> int
    decreases x,
{
    if x <= 0 {
        0
    } else {
        let r = isqrt_spec(x - 1);
        if (r + 1) * (r + 1) <= x {
            r + 1
        } else {
            r
        }
    }
}

pub proof fn lemma_isqrt_bounds(x: int)
    requires
        x >= 0,
    ensures
        isqrt_spec(x) >= 0,
        isqrt_spec(x) * isqrt_spec(x) <= x,
        x < (isqrt_spec(x) + 1) * (isqrt_spec(x) + 1),
    decreases x,
{
    if x == 0 {
    } else {
        lemma_isqrt_bounds(x - 1);
        let r = isqrt_spec(x - 1);
        if (r + 1) * (r + 1) <= x {
            assert(x < ((r + 1) + 1) * ((r + 1) + 1)) by (nonlinear_arith)
                requires
                    r >= 0,
                    x - 1 < (r + 1) * (r + 1),
            ;
        }
    }
}

pub proof fn lemma_isqrt_unique(x: int, r: int)
    requires
        x >= 0,
        r >= 0,
        r * r <= x,
        x < (r + 1) * (r + 1),
    ensures
        r == isqrt_spec(x),
{
    lemma_isqrt_bounds(x);
    let s = isqrt_spec(x);
    assert(r == s) by (nonlinear_arith)
        requires
            r >= 0,
            s >= 0,
            r * r <= x,
            x < (r + 1) * (r + 1),
            s * s <= x,
            x < (s + 1) * (s + 1),
    ;
}

/// Fixed-point square root: `isqrt(a * SCALE)`, and zero for a negative
/// argument (the stand-in for the real square root's rejection of them).
pub open spec fn fx_sqrt_spec(a: int) -> int {
    if a <= 0 {
        0
    } else {
        isqrt_spec(a * (SCALE as int))
    }
}

/// Saturation-free fixed-point square root (the result of `isqrt` on a
/// 95-bit value always fits in an `i64`).
pub fn fx_sqrt(a: i64) -> (r: i64)
    ensures
        r as int == fx_sqrt_spec(a as int),
        r >= 0,
{
    if a <= 0 {
        return 0;
    }
    assert((a as u128) * (SCALE as u128) <= 9223372036854775807u128 * 4294967296u128) by (nonlinear_arith)
        requires
            a as u128 <= 9223372036854775807u128,
    ;
    let x: u128 = (a as u128) * (SCALE as u128);
    let mut lo: u128 = 0;
    let mut hi: u128 = 281474976710656u128;
    assert(x < hi * hi) by (nonlinear_arith)
        requires
            x <= 9223372036854775807u128 * 4294967296u128,
            hi == 281474976710656u128,
    ;
    while lo + 1 < hi
        invariant
            lo < hi,
            hi <= 281474976710656u128,
            lo * lo <= x,
            x < hi * hi,
        decreases hi - lo,
    {
        let mid = lo + (hi - lo) / 2;
        assert(lo < mid < hi);
        assert(mid * mid <= 281474976710656u128 * 281474976710656u128) by (nonlinear_arith)
            requires
                mid <= 281474976710656u128,
        ;
        if mid * mid <= x {
            lo = mid;
        } else {
            hi = mid;
        }
    }
    proof {
        lemma_isqrt_unique(x as int, lo as int);
    }
    lo as i64
}

/// Fixed-point integer power: `x` multiplied into `1` a total of `k` times.
pub open spec fn fx_powi_spec(x: int, k: nat) -> int
    decreases k,
{
    if k == 0 {
        SCALE as int
    } else {
        fx_mul_spec(x, fx_powi_spec(x, (k - 1) as nat))
    }
}

pub fn fx_powi(x: i64, k: u64) -> (r: i64)
    ensures
        r as int == fx_powi_spec(x as int, k as nat),
{
    let mut acc: i64 = SCALE;
    let mut i: u64 = 0;
    while i < k
        invariant
            i <= k,
            acc as int == fx_powi_spec(x as int, i as nat),
        decreases k - i,
    {
        acc = fx_mul(x, acc);
        i = i + 1;
    }
    acc
}

/// The power of `s` to the fraction `f / SCALE`, computed to `depth` bits by
/// the square-root chain `s^(1/2), s^(1/4), ...`, multiplying in each root
/// whose bit is set in `f`.
pub open spec fn fx_pow_frac_spec(s: int, f: int, depth: nat) -> int
    decreases depth,
{
    if depth == 0 {
        SCALE as int
    } else {
        let sq = fx_sqrt_spec(s);
        if 2 * f >= SCALE as int {
            fx_mul_spec(sq, fx_pow_frac_spec(sq, 2 * f - SCALE as int, (depth - 1) as nat))
        } else {
            fx_pow_frac_spec(sq, 2 * f, (depth - 1) as nat)
        }
    }
}

fn fx_pow_frac(s: i64, f: i64, depth: u32) -> (r: i64)
    requires
        0 <= f < SCALE,
    ensures
        r as int == fx_pow_frac_spec(s as int, f as int, depth as nat),
    decreases depth,
{
    if depth == 0 {
        SCALE
    } else {
        let sq = fx_sqrt(s);
        let f2 = 2 * f;
        if f2 >= SCALE {
            let rest = fx_pow_frac(sq, f2 - SCALE, depth - 1);
            fx_mul(sq, rest)
        } else {
            fx_pow_frac(sq, f2, depth - 1)
        }
    }
}

/// `x` to the positive power `e`, split into integer and fractional parts.
pub open spec fn fx_pow_pos_spec(x: int, e: int) -> int
    recommends
        e > 0,
{
    fx_mul_spec(
        fx_powi_spec(x, (e / (SCALE as int)) as nat),
        fx_pow_frac_spec(x, e % (SCALE as int), 32),
    )
}

/// Fixed-point power with an arbitrary fixed-point exponent.  `e == 0`
/// yields one for every base; a base that is zero or negative (where the
/// real power is zero or undefined) yields zero; a negative exponent yields
/// the reciprocal of the positive power.
pub open spec fn fx_powf_spec(x: int, e: int) -> int {
    if e == 0 {
        SCALE as int
    } else if x <= 0 {
        0
    } else if e > 0 {
        fx_pow_pos_spec(x, e)
    } else {
        fx_div_spec(SCALE as int, fx_pow_pos_spec(x, -e))
    }
}

/// Powers of two, for bit-weight arguments about the fraction chain.
pub open spec fn pow2i(e: nat) -> int
    decreases e,
{
    if e == 0 {
        1
    } else {
        2 * pow2i((e - 1) as nat)
    }
}

/// Multiplying by one (in either position) is exact.
pub proof fn lemma_div_to_zero_exact(v: int, w: int)
    requires
        w > 0,
    ensures
        div_to_zero(v * w, w) == v,
{
    if v == 0 {
        assert(v * w == 0) by (nonlinear_arith)
            requires
                v == 0,
        ;
    } else {
        assert(mag(v * w) == mag(v) * w) by (nonlinear_arith)
            requires
                w > 0,
        ;
        assert((v > 0) == (v * w > 0)) by (nonlinear_arith)
            requires
                w > 0,
                v != 0,
        ;
        vstd::arithmetic::div_mod::lemma_div_multiples_vanish(mag(v), w);
        assert(w * mag(v) == mag(v) * w) by (nonlinear_arith);
    }
}

/// `1 * y == y` in fixed point, for representable `y`.
pub proof fn lemma_fx_mul_one(y: int)
    requires
        i64::MIN <= y <= i64::MAX,
    ensures
        fx_mul_spec(SCALE as int, y) == y,
        fx_mul_spec(y, SCALE as int) == y,
{
    lemma_div_to_zero_exact(y, SCALE as int);
    assert((SCALE as int) * y == y * (SCALE as int)) by (nonlinear_arith);
}

/// The square root of a value below one stays below one.
pub proof fn lemma_fx_sqrt_below_one(a: int)
    requires
        a < SCALE,
    ensures
        0 <= fx_sqrt_spec(a) < SCALE,
{
    if a > 0 {
        let r = isqrt_spec(a * (SCALE as int));
        lemma_isqrt_bounds(a * (SCALE as int));
        assert(a * (SCALE as int) < (SCALE as int) * (SCALE as int)) by (nonlinear_arith)
            requires
                0 < a < SCALE as int,
        ;
        assert(r < SCALE as int) by (nonlinear_arith)
            requires
                r >= 0,
                r * r <= a * (SCALE as int),
                a * (SCALE as int) < (SCALE as int) * (SCALE as int),
        ;
    }
}

/// Scaling a positive value by a factor below one strictly shrinks it.
pub proof fn lemma_fx_mul_below_one_shrinks(b: int, p: int)
    requires
        b > 0,
        0 <= p < SCALE,
    ensures
        0 <= fx_mul_spec(b, p) < b,
{
    if p == 0 {
        assert(b * p == 0) by (nonlinear_arith)
            requires
                p == 0,
        ;
    } else {
        assert(mag(b * p) == b * p) by (nonlinear_arith)
            requires
                b > 0,
                p > 0,
        ;
        assert(b * p < b * (SCALE as int)) by (nonlinear_arith)
            requires
                b > 0,
                p < SCALE as int,
        ;
        lemma_div_to_zero_exact(b, SCALE as int);
        vstd::arithmetic::div_mod::lemma_div_is_ordered(b * p, b * (SCALE as int), SCALE as int);
        vstd::arithmetic::div_mod::lemma_div_pos_is_pos(b * p, SCALE as int);
        if (b * p) / (SCALE as int) == b {
            assert(false) by (nonlinear_arith)
                requires
                    b > 0,
                    0 < p < SCALE as int,
                    (b * p) / (SCALE as int) == b,
                    (b * p) / (SCALE as int) <= (b * (SCALE as int)) / (SCALE as int),
                    div_to_zero(b * (SCALE as int), SCALE as int) == b,
                    (b * p) / (SCALE as int) >= 0,
                    b * p < b * (SCALE as int),
                    (SCALE as int) * ((b * p) / (SCALE as int)) + (b * p) % (SCALE as int) == b * p,
                    0 <= (b * p) % (SCALE as int) < SCALE as int,
            {
                vstd::arithmetic::div_mod::lemma_fundamental_div_mod(b * p, SCALE as int);
            };
        }
        assert((SCALE as int) * ((b * p) / (SCALE as int)) + (b * p) % (SCALE as int) == b * p
            && 0 <= (b * p) % (SCALE as int) < SCALE as int) by {
            vstd::arithmetic::div_mod::lemma_fundamental_div_mod(b * p, SCALE as int);
            vstd::arithmetic::div_mod::lemma_mod_division_less_than_divisor(b * p, SCALE as int);
        };
    }
}

/// A fraction-chain power of a base below one never exceeds one.
pub proof fn lemma_fx_pow_frac_le_one(s: int, f: int, depth: nat)
    requires
        0 <= s < SCALE,
        0 <= f < SCALE,
    ensures
        0 <= fx_pow_frac_spec(s, f, depth) <= SCALE,
    decreases depth,
{
    if depth > 0 {
        let sq = fx_sqrt_spec(s);
        lemma_fx_sqrt_below_one(s);
        if 2 * f >= SCALE as int {
            let rest = fx_pow_frac_spec(sq, 2 * f - SCALE as int, (depth - 1) as nat);
            lemma_fx_pow_frac_le_one(sq, 2 * f - SCALE as int, (depth - 1) as nat);
            lemma_fx_mul_le_first(sq, rest);
        } else {
            lemma_fx_pow_frac_le_one(sq, 2 * f, (depth - 1) as nat);
        }
    }
}

/// Multiplying a nonnegative value below one by a factor at most one cannot
/// grow it.
pub proof fn lemma_fx_mul_le_first(a: int, b: int)
    requires
        0 <= a <= SCALE,
        0 <= b <= SCALE,
    ensures
        0 <= fx_mul_spec(a, b) <= a,
{
    if a == 0 || b == 0 {
        assert(a * b == 0) by (nonlinear_arith)
            requires
                a == 0 || b == 0,
        ;
    } else {
        assert(mag(a * b) == a * b) by (nonlinear_arith)
            requires
                a > 0,
                b > 0,
        ;
        assert(a * b <= a * (SCALE as int)) by (nonlinear_arith)
            requires
                a > 0,
                b <= SCALE as int,
        ;
        lemma_div_to_zero_exact(a, SCALE as int);
        vstd::arithmetic::div_mod::lemma_div_is_ordered(a * b, a * (SCALE as int), SCALE as int);
        vstd::arithmetic::div_mod::lemma_div_pos_is_pos(a * b, SCALE as int);
    }
}

/// A fraction-chain power of a base below one, with at least one set bit in
/// reach of the chain, lands strictly below one.
pub proof fn lemma_fx_pow_frac_lt_one(s: int, f: int, depth: nat)
    requires
        0 <= s < SCALE,
        0 < f < SCALE,
        f * pow2i(depth) >= SCALE,
    ensures
        0 <= fx_pow_frac_spec(s, f, depth) < SCALE,
    decreases depth,
{
    assert(depth > 0) by {
        if depth == 0 {
            assert(f * pow2i(0) == f) by (nonlinear_arith);
        }
    };
    let sq = fx_sqrt_spec(s);
    lemma_fx_sqrt_below_one(s);
    if 2 * f >= SCALE as int {
        let rest = fx_pow_frac_spec(sq, 2 * f - SCALE as int, (depth - 1) as nat);
        lemma_fx_pow_frac_le_one(sq, 2 * f - SCALE as int, (depth - 1) as nat);
        lemma_fx_mul_le_first(sq, rest);
    } else {
        assert((2 * f) * pow2i((depth - 1) as nat) == f * pow2i(depth)) by (nonlinear_arith)
            requires
                depth > 0,
                pow2i(depth) == 2 * pow2i((depth - 1) as nat),
        ;
        lemma_fx_pow_frac_lt_one(sq, 2 * f, (depth - 1) as nat);
    }
}

/// A fraction chain with a zero fraction is exactly one.
pub proof fn lemma_fx_pow_frac_zero(s: int, depth: nat)
    ensures
        fx_pow_frac_spec(s, 0, depth) == SCALE as int,
    decreases depth,
{
    if depth > 0 {
        lemma_fx_pow_frac_zero(fx_sqrt_spec(s), (depth - 1) as nat);
    }
}

/// A base strictly between zero and one, raised to an exponent in `(0, 1]`,
/// lands in `[0, 1)`: the power of a shrinking factor still shrinks.
pub proof fn lemma_fx_powf_below_one(x: int, e: int)
    requires
        0 < x < SCALE,
        0 < e <= SCALE,
    ensures
        0 <= fx_powf_spec(x, e) < SCALE,
{
    if e == SCALE as int {
        assert(e / (SCALE as int) == 1) by (nonlinear_arith)
            requires
                e == SCALE as int,
        ;
        assert(e % (SCALE as int) == 0) by (nonlinear_arith)
            requires
                e == SCALE as int,
        ;
        lemma_fx_mul_one(x);
        assert(fx_powi_spec(x, 1) == fx_mul_spec(x, SCALE as int)) by {
            reveal_with_fuel(fx_powi_spec, 2);
        };
        lemma_fx_pow_frac_zero(x, 32);
    } else {
        assert(e / (SCALE as int) == 0 && e % (SCALE as int) == e) by {
            vstd::arithmetic::div_mod::lemma_basic_div(e, SCALE as int);
            vstd::arithmetic::div_mod::lemma_small_mod(e as nat, SCALE as nat);
        };
        assert(fx_powi_spec(x, 0) == SCALE as int);
        assert(pow2i(32) == SCALE as int) by {
            reveal_with_fuel(pow2i, 33);
        };
        assert(e * pow2i(32) >= SCALE as int) by (nonlinear_arith)
            requires
                e >= 1,
                pow2i(32) == SCALE as int,
        ;
        lemma_fx_pow_frac_lt_one(x, e, 32);
        let fr = fx_pow_frac_spec(x, e, 32);
        lemma_fx_mul_one(fr);
    }
}

fn fx_pow_pos_parts(x: i64, k: u64, f: i64) -> (r: i64)
    requires
        0 <= f < SCALE,
    ensures
        r as int == fx_mul_spec(
            fx_powi_spec(x as int, k as nat),
            fx_pow_frac_spec(x as int, f as int, 32),
        ),
{
    let a = fx_powi(x, k);
    let b = fx_pow_frac(x, f, 32);
    fx_mul(a, b)
}

/// Saturating fixed-point power.
pub fn fx_powf(x: i64, e: i64) -> (r: i64)
    ensures
        r as int == fx_powf_spec(x as int, e as int),
{
    if e == 0 {
        SCALE
    } else if x <= 0 {
        0
    } else if e > 0 {
        let k: u64 = (e as u64) / (SCALE as u64);
        let f: i64 = ((e as u64) % (SCALE as u64)) as i64;
        assert(k as int == (e as int) / (SCALE as int));
        assert(f as int == (e as int) % (SCALE as int));
        fx_pow_pos_parts(x, k, f)
    } else {
        let em: u128 = mag64(e);
        let k: u64 = (em / (SCALE as u128)) as u64;
        let f: i64 = (em % (SCALE as u128)) as i64;
        assert(em == -(e as int));
        assert(k as int == (-(e as int)) / (SCALE as int));
        assert(f as int == (-(e as int)) % (SCALE as int));
        let p = fx_pow_pos_parts(x, k, f);
        fx_div(SCALE, p)
    }
}

} // verus!
