//! The laws of the optimiser: what holds of the batch-size controller, the
//! curvature estimator and the whole trajectory, proved from the spec
//! functions that the executable functions are pinned to.

use vstd::prelude::*;

use crate::fx::{
    SCALE, fx_add_spec, fx_div_spec, fx_mul_spec, fx_powf_spec, fx_sqrt_spec, fx_sub_spec,
    lemma_div_to_zero_exact, lemma_fx_mul_below_one_shrinks, lemma_fx_powf_below_one, mag,
};
use crate::cain::{
    CainView, CURV_DECAY_FLOOR, REL_ERR_FLOOR, batch_next_spec, clamp_rel_err_spec,
    curv_decay_spec, curv_next_spec, hoo_mean_spec, noise_sums_spec, rel_err_raw_spec,
    rel_var_spec, step_view_spec, total_noise_sums_spec,
};

verus! {

/// With every subbatch gradient equal to the across-subbatch mean, the
/// hold-one-out mean at each coordinate is exactly that mean again: removing
/// one of several identical contributions and rescaling changes nothing.
/// `n` must be the fixed-point image of a whole number of subbatches, and
/// the products involved must stay below the saturation bound.
pub proof fn lemma_hoo_mean_exact(m: int, n: int)
    requires
        n % (SCALE as int) == 0,
        2 * SCALE <= n <= i64::MAX,
        mag(m) * (n / (SCALE as int)) <= i64::MAX,
    ensures
        hoo_mean_spec(m, m, n) == m,
{
    let s = SCALE as int;
    let k = n / s;
    vstd::arithmetic::div_mod::lemma_fundamental_div_mod(n, s);
    assert(n == k * s);
    assert(k >= 2) by (nonlinear_arith)
        requires
            n == k * s,
            n >= 2 * s,
            s > 0,
    ;
    assert(m * n == (m * k) * s) by (nonlinear_arith)
        requires
            n == k * s,
    ;
    lemma_div_to_zero_exact(m * k, s);
    assert(mag(m * k) == mag(m) * k) by (nonlinear_arith)
        requires
            k > 0,
    ;
    assert(fx_mul_spec(m, n) == m * k);
    assert(mag(m * (k - 1)) <= mag(m) * k) by (nonlinear_arith)
        requires
            k >= 2,
    ;
    assert(fx_sub_spec(m * k, m) == m * (k - 1)) by (nonlinear_arith)
        requires
            mag(m * k) <= i64::MAX,
            mag(m * (k - 1)) <= i64::MAX,
            i64::MIN == -i64::MAX - 1,
    ;
    assert(fx_sub_spec(n, s) == (k - 1) * s) by (nonlinear_arith)
        requires
            n == k * s,
            2 * s <= n <= i64::MAX,
            s > 0,
    ;
    assert((m * (k - 1)) * s == m * ((k - 1) * s)) by (nonlinear_arith);
    assert((k - 1) * s > 0) by (nonlinear_arith)
        requires
            k >= 2,
            s > 0,
    ;
    lemma_div_to_zero_exact(m, (k - 1) * s);
    assert(fx_div_spec(m * (k - 1), (k - 1) * s) == m);
}

proof fn lemma_noise_sums_zero(mean: Seq<int>, n: int, j: nat)
    requires
        n % (SCALE as int) == 0,
        2 * SCALE <= n <= i64::MAX,
        forall|t: int| 0 <= t < mean.len() ==> mag(#[trigger] mean[t]) * (n / (SCALE as int))
            <= i64::MAX,
        j <= mean.len(),
    ensures
        noise_sums_spec(mean, mean, n, j).0 == 0,
    decreases j,
{
    if j > 0 {
        lemma_noise_sums_zero(mean, n, (j - 1) as nat);
        lemma_hoo_mean_exact(mean[j - 1], n);
        let h = hoo_mean_spec(mean[j - 1], mean[j - 1], n);
        assert(h == mean[j - 1]);
        let diff = fx_sub_spec(mean[j - 1], h);
        assert(diff == 0);
        assert(0 * 0 == 0) by (nonlinear_arith);
        assert(fx_mul_spec(0, 0) == 0);
        assert(noise_sums_spec(mean, mean, n, j).0 == fx_add_spec(
            noise_sums_spec(mean, mean, n, (j - 1) as nat).0,
            fx_mul_spec(diff, diff),
        ));
    }
}

/// With zero gradient noise — every subbatch gradient identical to the mean
/// — the relative error before clamping evaluates to zero.
pub proof fn lemma_zero_noise_rel_err(mean: Seq<int>, grads: Seq<Seq<int>>, n: int, target: int)
    requires
        n % (SCALE as int) == 0,
        2 * SCALE <= n <= i64::MAX,
        forall|t: int| 0 <= t < mean.len() ==> mag(#[trigger] mean[t]) * (n / (SCALE as int))
            <= i64::MAX,
        forall|i: int| 0 <= i < grads.len() ==> #[trigger] grads[i] == mean,
    ensures
        rel_err_raw_spec(mean, grads, n, target) == 0,
{
    lemma_total_diff_zero(mean, grads, n, grads.len());
    assert(rel_var_spec(mean, grads, n) == 0);
    assert(fx_sqrt_spec(fx_div_spec(0, n)) == 0);
}

proof fn lemma_total_diff_zero(mean: Seq<int>, grads: Seq<Seq<int>>, n: int, i: nat)
    requires
        n % (SCALE as int) == 0,
        2 * SCALE <= n <= i64::MAX,
        forall|t: int| 0 <= t < mean.len() ==> mag(#[trigger] mean[t]) * (n / (SCALE as int))
            <= i64::MAX,
        forall|q: int| 0 <= q < grads.len() ==> #[trigger] grads[q] == mean,
        i <= grads.len(),
    ensures
        total_noise_sums_spec(mean, grads, n, i).0 == 0,
    decreases i,
{
    if i > 0 {
        lemma_total_diff_zero(mean, grads, n, (i - 1) as nat);
        lemma_noise_sums_zero(mean, n, mean.len());
    }
}

/// With zero gradient noise the batch size strictly decreases: the clamped
/// relative error is `0.125`, below the target level, and scaling by its
/// damped power shrinks any positive batch size that the minimum clamp does
/// not catch.
pub proof fn lemma_zero_noise_batch_shrinks(batch: int, inc: int, dec: int, min_fx: int)
    requires
        batch > 0,
        0 < dec <= SCALE,
        min_fx <= fx_mul_spec(batch, fx_powf_spec(REL_ERR_FLOOR as int, dec)),
    ensures
        clamp_rel_err_spec(0) == REL_ERR_FLOOR as int,
        batch_next_spec(batch, clamp_rel_err_spec(0), inc, dec, min_fx) < batch,
{
    lemma_fx_powf_below_one(REL_ERR_FLOOR as int, dec);
    lemma_fx_mul_below_one_shrinks(batch, fx_powf_spec(REL_ERR_FLOOR as int, dec));
}

/// The curvature estimate is strictly monotone at a coordinate whose
/// squared deviation still clearly exceeds it: each call increases the
/// estimate until decay balances the increment.  The margin hypothesis
/// leaves out exactly the coordinates near that balance point, where the
/// two rounded products may cancel.
pub proof fn lemma_curvature_monotone(c: int, m: int, mom: int, decay: int)
    requires
        c >= 0,
        0 <= decay < SCALE,
        i64::MIN <= m - mom <= i64::MAX,
        (m - mom) * (m - mom) <= i64::MAX * (SCALE as int),
        c + fx_mul_spec(fx_sub_spec(m, mom), fx_sub_spec(m, mom)) <= i64::MAX,
        (fx_mul_spec(fx_sub_spec(m, mom), fx_sub_spec(m, mom)) - c) * (SCALE - decay) >= 2 * SCALE,
    ensures
        curv_next_spec(c, m, mom, decay) > c,
{
    let s = SCALE as int;
    let diff = fx_sub_spec(m, mom);
    let p = diff * diff;
    assert(diff * diff >= 0) by (nonlinear_arith);
    let d2 = fx_mul_spec(diff, diff);
    vstd::arithmetic::div_mod::lemma_div_pos_is_pos(p, s);
    assert(d2 == p / s);
    vstd::arithmetic::div_mod::lemma_fundamental_div_mod(p, s);
    vstd::arithmetic::div_mod::lemma_mod_division_less_than_divisor(p, s);

    let a = c * decay;
    assert(c * decay >= 0) by (nonlinear_arith)
        requires
            c >= 0,
            decay >= 0,
    ;
    vstd::arithmetic::div_mod::lemma_div_pos_is_pos(a, s);
    let av = fx_mul_spec(c, decay);
    assert(c * decay <= c * (SCALE as int)) by (nonlinear_arith)
        requires
            c >= 0,
            decay < SCALE as int,
    ;
    vstd::arithmetic::div_mod::lemma_div_is_ordered(a, c * s, s);
    lemma_div_to_zero_exact(c, s);
    assert(av == a / s);
    vstd::arithmetic::div_mod::lemma_fundamental_div_mod(a, s);
    vstd::arithmetic::div_mod::lemma_mod_division_less_than_divisor(a, s);

    let w = fx_sub_spec(s, decay);
    assert(w == s - decay);
    let b = d2 * w;
    assert(d2 * w >= 0) by (nonlinear_arith)
        requires
            d2 >= 0,
            w >= 0,
    ;
    vstd::arithmetic::div_mod::lemma_div_pos_is_pos(b, s);
    let bv = fx_mul_spec(d2, w);
    assert(d2 * w <= d2 * (SCALE as int)) by (nonlinear_arith)
        requires
            d2 >= 0,
            w <= SCALE as int,
    ;
    vstd::arithmetic::div_mod::lemma_div_is_ordered(b, d2 * s, s);
    lemma_div_to_zero_exact(d2, s);
    assert(bv == b / s);
    vstd::arithmetic::div_mod::lemma_fundamental_div_mod(b, s);
    vstd::arithmetic::div_mod::lemma_mod_division_less_than_divisor(b, s);

    assert(av + bv > c) by (nonlinear_arith)
        requires
            s == SCALE as int,
            av == a / s,
            bv == b / s,
            a == c * decay,
            b == d2 * w,
            w == s - decay,
            s * (a / s) + a % s == a,
            0 <= a % s < s,
            s * (b / s) + b % s == b,
            0 <= b % s < s,
            (d2 - c) * (s - decay) >= 2 * s,
            c >= 0,
            d2 >= 0,
            0 <= decay < s,
    ;
    assert(curv_next_spec(c, m, mom, decay) == fx_add_spec(av, bv));
}

/// For every momentum coefficient in `[0, 1)` the curvature decay factor
/// lands in `[0.9, 1)`: the fourth root of the momentum, floored at `0.9`.
pub proof fn lemma_curv_decay_range(momentum: int)
    requires
        0 <= momentum < SCALE,
    ensures
        CURV_DECAY_FLOOR as int <= curv_decay_spec(momentum) < SCALE,
{
    crate::fx::lemma_fx_sqrt_below_one(momentum);
    crate::fx::lemma_fx_sqrt_below_one(fx_sqrt_spec(momentum));
}

/// A nonnegative curvature estimate stays nonnegative under the update, for
/// every decay factor in `[0, 1]`: both the decayed estimate and the
/// weighted squared deviation are nonnegative.
pub proof fn lemma_curvature_nonnegative(c: int, m: int, mom: int, decay: int)
    requires
        c >= 0,
        0 <= decay <= SCALE,
    ensures
        curv_next_spec(c, m, mom, decay) >= 0,
{
    let s = SCALE as int;
    let diff = fx_sub_spec(m, mom);
    assert(c * decay >= 0) by (nonlinear_arith)
        requires
            c >= 0,
            decay >= 0,
    ;
    vstd::arithmetic::div_mod::lemma_div_pos_is_pos(c * decay, s);
    assert(diff * diff >= 0) by (nonlinear_arith);
    vstd::arithmetic::div_mod::lemma_div_pos_is_pos(diff * diff, s);
    let d2 = fx_mul_spec(diff, diff);
    assert(d2 >= 0);
    assert(d2 * (s - decay) >= 0) by (nonlinear_arith)
        requires
            d2 >= 0,
            decay <= s,
    ;
    vstd::arithmetic::div_mod::lemma_div_pos_is_pos(d2 * (s - decay), s);
}

/// The state and parameters after a run of rounds, each round holding the
/// subbatch losses and gradients the graph returned during it.  This is the
/// function-level counterpart of [`crate::cain::run_outcome`]: here the
/// per-round data is given, there it is existentially quantified.
pub open spec fn run_view_spec(
    v: CainView,
    params: Seq<int>,
    rounds: Seq<(Seq<int>, Seq<Seq<int>>)>,
) -> (CainView, Seq<int>)
    decreases rounds.len(),
{
    if rounds.len() == 0 {
        (v, params)
    } else {
        let first = step_view_spec(v, params, rounds[0].0, rounds[0].1);
        run_view_spec(first.0, first.1, rounds.drop_first())
    }
}

/// Determinism of the trajectory: two optimisers in equal states, started
/// from the same parameter vector and fed the same sequence of per-round
/// losses and gradients, pass through the same states and end with the same
/// parameters.
pub proof fn lemma_trajectory_deterministic(
    va: CainView,
    vb: CainView,
    pa: Seq<int>,
    pb: Seq<int>,
    rounds: Seq<(Seq<int>, Seq<Seq<int>>)>,
)
    requires
        va == vb,
        pa == pb,
    ensures
        run_view_spec(va, pa, rounds) == run_view_spec(vb, pb, rounds),
{
}

} // verus!
