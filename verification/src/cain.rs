//! The Cain optimiser: a first-order stochastic optimiser that adapts its
//! mini-batch size to the measured gradient noise and its step length to the
//! alignment between the fresh mean gradient and the momentum vector.
//!
//! All numbers are saturating Q31.32 fixed-point scalars (see [`crate::fx`]),
//! so every update is a mathematical function of the optimiser state and of
//! the losses and gradients returned by the graph, which is what makes the
//! trajectory reproducible and provable.

use vstd::prelude::*;
use vstd::pervasive::VecAdditionalExecFns;

use crate::fx::{
    SCALE, fx_add, fx_add_spec, fx_div, fx_div_spec, fx_floor_spec, fx_floor_u64, fx_max,
    fx_max_spec, fx_min, fx_min_spec, fx_mul, fx_mul_spec, fx_of_int_spec, fx_of_u64, fx_powf,
    fx_powf_spec, fx_powi, fx_powi_spec, fx_sqrt, fx_sqrt_spec, fx_sub, fx_sub_spec,
};

verus! {

/// Lower clamp for the relative-error estimate: `0.125`.
pub const REL_ERR_FLOOR: i64 = 536870912;

/// Upper clamp for the relative-error estimate: `1000`.
pub const REL_ERR_CEIL: i64 = 4294967296000;

/// Lower bound of the curvature decay factor: `0.9`.
pub const CURV_DECAY_FLOOR: i64 = 3865470566;

/// Guard added to the curvature root in the conditioned update: about `1e-8`.
pub const COND_EPSILON: i64 = 42;

/// Lower clamp of the similarity scalar: `-8`.
pub const SIM_FLOOR: i64 = -34359738368;

/// Upper clamp of the similarity scalar: `4`.
pub const SIM_CEIL: i64 = 17179869184;

/// Steps after which the curvature bias correction is dropped.
pub const CORRECTION_CUTOFF: u64 = 1000000;

/// A `Seq<i64>` seen as a sequence of unbounded integers.
pub open spec fn seq_int(s: Seq<i64>) -> Seq<int> {
    s.map_values(|x: i64| x as int)
}

/// The hyperparameters, fixed at construction.
struct CainConfig {
    num_subbatches: i64,
    momentum: i64,
    aggression: i64,
    target_err: i64,
    subbatch_increase_damping: i64,
    subbatch_decrease_damping: i64,
    rate_adapt_coefficient: i64,
    max_eval_batch_size: usize,
    min_subbatch_size: usize,
}

/// Spec-level image of the hyperparameters.
pub struct ConfigView {
    pub num_subbatches: int,
    pub momentum: int,
    pub aggression: int,
    pub target_err: int,
    pub subbatch_increase_damping: int,
    pub subbatch_decrease_damping: int,
    pub rate_adapt_coefficient: int,
    pub max_eval_batch_size: int,
    pub min_subbatch_size: int,
}

impl View for CainConfig {
    type V = ConfigView;

    closed spec fn view(&self) -> ConfigView {
        ConfigView {
            num_subbatches: self.num_subbatches as int,
            momentum: self.momentum as int,
            aggression: self.aggression as int,
            target_err: self.target_err as int,
            subbatch_increase_damping: self.subbatch_increase_damping as int,
            subbatch_decrease_damping: self.subbatch_decrease_damping as int,
            rate_adapt_coefficient: self.rate_adapt_coefficient as int,
            max_eval_batch_size: self.max_eval_batch_size as int,
            min_subbatch_size: self.min_subbatch_size as int,
        }
    }
}

/// What a step hands to each registered callback.
pub struct CallbackData<'a> {
    /// Mean loss of the step just taken.
    pub err: i64,
    /// Number of completed steps.
    pub step_count: u64,
    /// Total number of samples drawn so far.
    pub eval_count: u64,
    /// The parameter vector after the step.
    pub params: &'a Vec<i64>,
}

/// A callback's verdict on whether the run loop should go on.
pub enum CallbackSignal {
    Continue,
    Stop,
}

/// A progress callback, invoked in registration order after every step.
pub trait StepCallback {
    fn on_step(&mut self, data: &CallbackData) -> CallbackSignal;
}

/// The differentiable computational graph the optimiser trains, seen only
/// through its backpropagation interface.
pub trait Graph {
    /// The number of trainable parameters.
    fn num_params(&self) -> usize;

    /// Total loss and total gradient, summed over the given batch.  The
    /// gradient must have one entry per parameter.
    fn backprop(&mut self, batch_size: usize, inputs: Vec<i64>, targets: Vec<i64>, params: &Vec<
        i64,
    >) -> (r: (i64, Vec<i64>))
        ensures
            r.1@.len() == params@.len(),
    ;
}

/// The training-data supplier.
pub trait Supplier {
    /// The next `count` paired (input, target) samples.
    fn next_n(&mut self, count: usize) -> (Vec<i64>, Vec<i64>);

    /// How many samples have been drawn in total.
    fn samples_taken(&self) -> u64;
}

/// Fluent configuration assembler for [`Cain`].
pub struct CainBuilder {
    initial_learning_rate: i64,
    initial_subbatch_size: i64,
    config: CainConfig,
}

/// Spec-level image of a builder.
pub struct BuilderView {
    pub initial_learning_rate: int,
    pub initial_subbatch_size: int,
    pub config: ConfigView,
}

impl View for CainBuilder {
    type V = BuilderView;

    closed spec fn view(&self) -> BuilderView {
        BuilderView {
            initial_learning_rate: self.initial_learning_rate as int,
            initial_subbatch_size: self.initial_subbatch_size as int,
            config: self.config@,
        }
    }
}

/// The optimiser: hyperparameters plus the mutable per-run statistics,
/// generic over the concrete type of its progress callbacks.
pub struct Cain<C: StepCallback> {
    config: CainConfig,
    eval_count: u64,
    step_count: u64,
    curvature_est: Vec<i64>,
    learning_rate: i64,
    batch_size: i64,
    momentum_derivs: Vec<i64>,
    prev_derivs: Vec<i64>,
    step_callback: Vec<C>,
}

/// Spec-level image of the optimiser state.
pub struct CainView {
    pub config: ConfigView,
    pub eval_count: int,
    pub step_count: int,
    pub curvature_est: Seq<int>,
    pub learning_rate: int,
    pub batch_size: int,
    pub momentum_derivs: Seq<int>,
    pub prev_derivs: Seq<int>,
}

impl<C: StepCallback> View for Cain<C> {
    type V = CainView;

    closed spec fn view(&self) -> CainView {
        CainView {
            config: self.config@,
            eval_count: self.eval_count as int,
            step_count: self.step_count as int,
            curvature_est: seq_int(self.curvature_est@),
            learning_rate: self.learning_rate as int,
            batch_size: self.batch_size as int,
            momentum_derivs: seq_int(self.momentum_derivs@),
            prev_derivs: seq_int(self.prev_derivs@),
        }
    }
}

impl CainBuilder {
    /// Sets the number of sub-batches per step, clamped to at least two.
    pub fn num_subbatches(self, val: usize) -> (r: Self)
        ensures
            r@ == (BuilderView {
                config: ConfigView {
                    num_subbatches: fx_max_spec(fx_of_int_spec(val as int), 2 * SCALE),
                    ..self@.config
                },
                ..self@
            }),
    {
        let mut b = self;
        b.config.num_subbatches = fx_max(fx_of_u64(val as u64), 2 * SCALE);
        b
    }

    /// Sets the momentum coefficient.
    pub fn momentum(self, val: i64) -> (r: Self)
        ensures
            r@ == (BuilderView {
                config: ConfigView { momentum: val as int, ..self@.config },
                ..self@
            }),
    {
        let mut b = self;
        b.config.momentum = val;
        b
    }

    /// Sets the aggression offset of the similarity scalar.
    pub fn aggression(self, val: i64) -> (r: Self)
        ensures
            r@ == (BuilderView {
                config: ConfigView { aggression: val as int, ..self@.config },
                ..self@
            }),
    {
        let mut b = self;
        b.config.aggression = val;
        b
    }

    /// Sets the target relative standard error of the momentum vector.
    pub fn target_err(self, val: i64) -> (r: Self)
        ensures
            r@ == (BuilderView {
                config: ConfigView { target_err: val as int, ..self@.config },
                ..self@
            }),
    {
        let mut b = self;
        b.config.target_err = val;
        b
    }

    /// Sets the damping exponent used while the batch size grows.
    pub fn subbatch_increase_damping(self, val: i64) -> (r: Self)
        ensures
            r@ == (BuilderView {
                config: ConfigView { subbatch_increase_damping: val as int, ..self@.config },
                ..self@
            }),
    {
        let mut b = self;
        b.config.subbatch_increase_damping = val;
        b
    }

    /// Sets the damping exponent used while the batch size shrinks.
    pub fn subbatch_decrease_damping(self, val: i64) -> (r: Self)
        ensures
            r@ == (BuilderView {
                config: ConfigView { subbatch_decrease_damping: val as int, ..self@.config },
                ..self@
            }),
    {
        let mut b = self;
        b.config.subbatch_decrease_damping = val;
        b
    }

    /// Sets the base of the learning-rate adaptation.
    pub fn rate_adapt_coefficient(self, val: i64) -> (r: Self)
        ensures
            r@ == (BuilderView {
                config: ConfigView { rate_adapt_coefficient: val as int, ..self@.config },
                ..self@
            }),
    {
        let mut b = self;
        b.config.rate_adapt_coefficient = val;
        b
    }

    /// Sets the cap on the evaluation batch size.
    pub fn max_eval_batch_size(self, val: usize) -> (r: Self)
        ensures
            r@ == (BuilderView {
                config: ConfigView { max_eval_batch_size: val as int, ..self@.config },
                ..self@
            }),
    {
        let mut b = self;
        b.config.max_eval_batch_size = val;
        b
    }

    /// Sets the least admissible batch size; the initial batch size is raised
    /// to the new minimum when it would otherwise fall below it.
    pub fn min_subbatch_size(self, val: usize) -> (r: Self)
        ensures
            r@ == (BuilderView {
                initial_subbatch_size: fx_max_spec(
                    self@.initial_subbatch_size,
                    fx_of_int_spec(val as int),
                ),
                config: ConfigView { min_subbatch_size: val as int, ..self@.config },
                ..self@
            }),
    {
        let mut b = self;
        b.config.min_subbatch_size = val;
        let val_fx = fx_of_u64(val as u64);
        if val_fx > b.initial_subbatch_size {
            b.initial_subbatch_size = val_fx;
        }
        b
    }

    /// Sets the initial learning rate.
    pub fn initial_learning_rate(self, val: i64) -> (r: Self)
        ensures
            r@ == (BuilderView { initial_learning_rate: val as int, ..self@ }),
    {
        let mut b = self;
        b.initial_learning_rate = val;
        b
    }

    /// Sets the initial batch size.
    pub fn initial_subbatch_size(self, val: i64) -> (r: Self)
        ensures
            r@ == (BuilderView { initial_subbatch_size: val as int, ..self@ }),
    {
        let mut b = self;
        b.initial_subbatch_size = val;
        b
    }

    /// Consumes the builder and produces an optimiser whose per-parameter
    /// state vectors are allocated at the given parameter count, zero-filled.
    pub fn finish<C: StepCallback>(self, num_params: usize) -> (r: Cain<C>)
        ensures
            r.wf(),
            r@.config == self@.config,
            r@.eval_count == 0,
            r@.step_count == 0,
            r@.learning_rate == self@.initial_learning_rate,
            r@.batch_size == self@.initial_subbatch_size,
            r@.curvature_est == Seq::new(num_params as nat, |j: int| 0int),
            r@.momentum_derivs == Seq::new(num_params as nat, |j: int| 0int),
            r@.prev_derivs == Seq::new(num_params as nat, |j: int| 0int),
            r.num_callbacks() == 0,
    {
        let curvature_est = zero_vec(num_params);
        let momentum_derivs = zero_vec(num_params);
        let prev_derivs = zero_vec(num_params);
        proof {
            assert(seq_int(curvature_est@) =~= Seq::new(num_params as nat, |j: int| 0int));
            assert(seq_int(momentum_derivs@) =~= Seq::new(num_params as nat, |j: int| 0int));
            assert(seq_int(prev_derivs@) =~= Seq::new(num_params as nat, |j: int| 0int));
        }
        Cain {
            config: self.config,
            eval_count: 0,
            step_count: 0,
            curvature_est,
            learning_rate: self.initial_learning_rate,
            batch_size: self.initial_subbatch_size,
            momentum_derivs,
            prev_derivs,
            step_callback: Vec::new(),
        }
    }
}

fn zero_vec(n: usize) -> (v: Vec<i64>)
    ensures
        v@.len() == n,
        forall|j: int| 0 <= j < n ==> v@[j] == 0i64,
{
    let mut v: Vec<i64> = Vec::new();
    let mut i: usize = 0;
    while i < n
        invariant
            i <= n,
            v@.len() == i,
            forall|j: int| 0 <= j < i ==> v@[j] == 0i64,
        decreases n - i,
    {
        v.push(0);
        i = i + 1;
    }
    v
}

impl<C: StepCallback> Cain<C> {
    /// A builder loaded with the default hyperparameters.
    pub fn new() -> (r: CainBuilder)
        ensures
            r@.initial_learning_rate == 429496,  // 1e-4
            r@.initial_subbatch_size == 2 * SCALE,
            r@.config.num_subbatches == 8 * SCALE,
            r@.config.momentum == 3865470566,  // 0.9
            r@.config.aggression == 3221225472,  // 0.75
            r@.config.target_err == 3221225472,  // 0.75
            r@.config.subbatch_increase_damping == 644245094,  // 0.15
            r@.config.subbatch_decrease_damping == 644245094,  // 0.15
            r@.config.rate_adapt_coefficient == 4509715660,  // 1.05
            r@.config.max_eval_batch_size == usize::MAX,
            r@.config.min_subbatch_size == 1,
    {
        CainBuilder {
            initial_learning_rate: 429496,
            initial_subbatch_size: 2 * SCALE,
            config: CainConfig {
                num_subbatches: 8 * SCALE,
                momentum: 3865470566,
                aggression: 3221225472,
                target_err: 3221225472,
                subbatch_increase_damping: 644245094,
                subbatch_decrease_damping: 644245094,
                rate_adapt_coefficient: 4509715660,
                max_eval_batch_size: usize::MAX,
                min_subbatch_size: 1,
            },
        }
    }

    /// The per-parameter state vectors all have one entry per parameter.
    pub open spec fn wf(&self) -> bool {
        self@.curvature_est.len() == self@.momentum_derivs.len()
            && self@.momentum_derivs.len() == self@.prev_derivs.len()
    }

    /// The registered callbacks, in registration order.
    pub closed spec fn callbacks(&self) -> Seq<C> {
        self.step_callback@
    }

    /// How many callbacks are registered.
    pub open spec fn num_callbacks(&self) -> nat {
        self.callbacks().len()
    }

    /// Registers a progress callback at the end of the registration order,
    /// leaving the earlier callbacks and all optimiser state as they were.
    pub fn add_boxed_step_callback(&mut self, func: C)
        ensures
            final(self)@ == old(self)@,
            final(self).callbacks() == old(self).callbacks().push(func),
    {
        self.step_callback.push(func);
    }

    /// Number of completed steps.
    pub fn step_count(&self) -> (r: u64)
        ensures
            r as int == self@.step_count,
    {
        self.step_count
    }

    /// Total number of samples drawn.
    pub fn eval_count(&self) -> (r: u64)
        ensures
            r as int == self@.eval_count,
    {
        self.eval_count
    }

    /// The current continuously-adapted batch size, in fixed point.
    pub fn batch_size(&self) -> (r: i64)
        ensures
            r as int == self@.batch_size,
    {
        self.batch_size
    }

    /// The current learning rate, in fixed point.
    pub fn learning_rate(&self) -> (r: i64)
        ensures
            r as int == self@.learning_rate,
    {
        self.learning_rate
    }

    /// Read-only access to the curvature estimate vector.
    pub fn curvature_est(&self) -> (r: &Vec<i64>)
        ensures
            seq_int(r@) == self@.curvature_est,
    {
        &self.curvature_est
    }

    /// Read-only access to the momentum vector.
    pub fn momentum_derivs(&self) -> (r: &Vec<i64>)
        ensures
            seq_int(r@) == self@.momentum_derivs,
    {
        &self.momentum_derivs
    }

    /// Read-only access to the previous-step mean gradient.
    pub fn prev_derivs(&self) -> (r: &Vec<i64>)
        ensures
            seq_int(r@) == self@.prev_derivs,
    {
        &self.prev_derivs
    }
}

/// The hold-one-out mean at one coordinate: the across-subbatch mean with
/// one subbatch's contribution removed and the rest rescaled, computed as
/// `(mean * n - d) / (n - 1)`.
pub open spec fn hoo_mean_spec(m: int, d: int, n: int) -> int {
    fx_div_spec(fx_sub_spec(fx_mul_spec(m, n), d), fx_sub_spec(n, SCALE as int))
}

/// Accumulated `(sum of (d - h)^2, sum of h^2)` over the first `j`
/// coordinates of one subbatch gradient `d`, `h` its hold-one-out mean.
pub open spec fn noise_sums_spec(mean: Seq<int>, d: Seq<int>, n: int, j: nat) -> (int, int)
    decreases j,
{
    if j == 0 {
        (0int, 0int)
    } else {
        let prev = noise_sums_spec(mean, d, n, (j - 1) as nat);
        let h = hoo_mean_spec(mean[j - 1], d[j - 1], n);
        let diff = fx_sub_spec(d[j - 1], h);
        (fx_add_spec(prev.0, fx_mul_spec(diff, diff)), fx_add_spec(prev.1, fx_mul_spec(h, h)))
    }
}

/// The noise sums of the first `i` subbatches together: the accumulated
/// `(sum of (d - h)^2, sum of h^2)` across all coordinates and subbatches.
pub open spec fn total_noise_sums_spec(mean: Seq<int>, grads: Seq<Seq<int>>, n: int, i: nat) -> (
    int,
    int,
)
    decreases i,
{
    if i == 0 {
        (0int, 0int)
    } else {
        let prev = total_noise_sums_spec(mean, grads, n, (i - 1) as nat);
        let sums = noise_sums_spec(mean, grads[i - 1], n, mean.len());
        (fx_add_spec(prev.0, sums.0), fx_add_spec(prev.1, sums.1))
    }
}

/// The relative-variance estimate: one global ratio of the accumulated
/// squared deviations over the accumulated hold-one-out norms times `n`.
pub open spec fn rel_var_spec(mean: Seq<int>, grads: Seq<Seq<int>>, n: int) -> int {
    let sums = total_noise_sums_spec(mean, grads, n, grads.len());
    fx_div_spec(sums.0, fx_mul_spec(sums.1, n))
}

/// The unclamped relative error: `sqrt(rel_var / n) / target_err`.
pub open spec fn rel_err_raw_spec(mean: Seq<int>, grads: Seq<Seq<int>>, n: int, target: int) -> int {
    fx_div_spec(fx_sqrt_spec(fx_div_spec(rel_var_spec(mean, grads, n), n)), target)
}

/// The relative error clamped into `[0.125, 1000]`.
pub open spec fn clamp_rel_err_spec(raw: int) -> int {
    fx_min_spec(fx_max_spec(raw, REL_ERR_FLOOR as int), REL_ERR_CEIL as int)
}

/// The batch-size factor: `rel_err` raised to the increase damping when the
/// noise exceeds the target, to the decrease damping otherwise.
pub open spec fn batch_factor_spec(rel_err: int, inc: int, dec: int) -> int {
    if rel_err > SCALE as int {
        fx_powf_spec(rel_err, inc)
    } else {
        fx_powf_spec(rel_err, dec)
    }
}

/// The next batch size: scaled by the factor, then clamped to the minimum.
pub open spec fn batch_next_spec(batch: int, rel_err: int, inc: int, dec: int, min_fx: int) -> int {
    fx_max_spec(fx_mul_spec(batch, batch_factor_spec(rel_err, inc, dec)), min_fx)
}

/// The losses of a round of subbatch results.
pub open spec fn losses_of(results: Seq<(i64, Vec<i64>)>) -> Seq<int> {
    results.map_values(|p: (i64, Vec<i64>)| p.0 as int)
}

/// The gradients of a round of subbatch results.
pub open spec fn grads_of(results: Seq<(i64, Vec<i64>)>) -> Seq<Seq<int>> {
    results.map_values(|p: (i64, Vec<i64>)| seq_int(p.1@))
}

/// The decay factor of the curvature estimate:
/// `max(momentum^(1/4), 0.9)`.
pub open spec fn curv_decay_spec(momentum: int) -> int {
    fx_max_spec(fx_sqrt_spec(fx_sqrt_spec(momentum)), CURV_DECAY_FLOOR as int)
}

/// One coordinate of the curvature update: the old estimate decayed, plus
/// the squared deviation of the mean gradient from the momentum vector,
/// weighted by the decay's complement.
pub open spec fn curv_next_spec(c: int, m: int, mom: int, decay: int) -> int {
    let diff = fx_sub_spec(m, mom);
    fx_add_spec(
        fx_mul_spec(c, decay),
        fx_mul_spec(fx_mul_spec(diff, diff), fx_sub_spec(SCALE as int, decay)),
    )
}

impl<C: StepCallback> Cain<C> {
    /// Consumes one round of subbatch `(loss, gradient)` pairs together with
    /// their mean gradient, estimates the relative gradient noise, and
    /// adjusts the batch size: up (damped) when the noise is above the
    /// target, down (damped) when below, never below the minimum.  Returns
    /// the clamped relative error.
    pub fn update_batch_size(&mut self, mean: &Vec<i64>, results: &Vec<(i64, Vec<i64>)>) -> (rel_err:
        i64)
        requires
            forall|i: int|
                0 <= i < results@.len() ==> (#[trigger] results@[i]).1@.len() == mean@.len(),
        ensures
            rel_err as int == clamp_rel_err_spec(
                rel_err_raw_spec(
                    seq_int(mean@),
                    grads_of(results@),
                    old(self)@.config.num_subbatches,
                    old(self)@.config.target_err,
                ),
            ),
            REL_ERR_FLOOR as int <= rel_err as int <= REL_ERR_CEIL as int,
            final(self)@ == (CainView {
                batch_size: batch_next_spec(
                    old(self)@.batch_size,
                    rel_err as int,
                    old(self)@.config.subbatch_increase_damping,
                    old(self)@.config.subbatch_decrease_damping,
                    fx_of_int_spec(old(self)@.config.min_subbatch_size),
                ),
                ..old(self)@
            }),
            final(self)@.batch_size >= fx_of_int_spec(old(self)@.config.min_subbatch_size),
            final(self).num_callbacks() == old(self).num_callbacks(),
    {
        let ghost mean_seq = seq_int(mean@);
        let ghost grads = grads_of(results@);
        let n = self.config.num_subbatches;
        let num_results = results.len();
        let dim = mean.len();
        let mut diff_total: i64 = 0;
        let mut norm_total: i64 = 0;
        let mut i: usize = 0;
        while i < num_results
            invariant
                i <= num_results,
                num_results == results@.len(),
                dim == mean@.len(),
                mean_seq == seq_int(mean@),
                grads == grads_of(results@),
                forall|k: int|
                    0 <= k < results@.len() ==> (#[trigger] results@[k]).1@.len() == mean@.len(),
                diff_total as int == total_noise_sums_spec(mean_seq, grads, n as int, i as nat).0,
                norm_total as int == total_noise_sums_spec(mean_seq, grads, n as int, i as nat).1,
            decreases num_results - i,
        {
            let d: &Vec<i64> = &results[i].1;
            let mut dd: i64 = 0;
            let mut md: i64 = 0;
            let mut j: usize = 0;
            while j < dim
                invariant
                    j <= dim,
                    dim == mean@.len(),
                    d@.len() == mean@.len(),
                    mean_seq == seq_int(mean@),
                    dd as int == noise_sums_spec(mean_seq, seq_int(d@), n as int, j as nat).0,
                    md as int == noise_sums_spec(mean_seq, seq_int(d@), n as int, j as nat).1,
                decreases dim - j,
            {
                let m = mean[j];
                let dj = d[j];
                let h = fx_div(fx_sub(fx_mul(m, n), dj), fx_sub(n, SCALE));
                let diff = fx_sub(dj, h);
                dd = fx_add(dd, fx_mul(diff, diff));
                md = fx_add(md, fx_mul(h, h));
                j = j + 1;
            }
            diff_total = fx_add(diff_total, dd);
            norm_total = fx_add(norm_total, md);
            proof {
                assert(grads[i as int] == seq_int(results@[i as int].1@));
            }
            i = i + 1;
        }
        let rel_var = fx_div(diff_total, fx_mul(norm_total, n));
        let raw = fx_div(fx_sqrt(fx_div(rel_var, n)), self.config.target_err);
        let rel_err = fx_min(fx_max(raw, REL_ERR_FLOOR), REL_ERR_CEIL);
        let factor = if rel_err > SCALE {
            fx_powf(rel_err, self.config.subbatch_increase_damping)
        } else {
            fx_powf(rel_err, self.config.subbatch_decrease_damping)
        };
        let scaled = fx_mul(self.batch_size, factor);
        let min_fx = fx_of_u64(self.config.min_subbatch_size as u64);
        self.batch_size = fx_max(scaled, min_fx);
        rel_err
    }

    /// Decays the diagonal curvature estimate and adds, per coordinate, the
    /// squared deviation of the fresh mean gradient from the momentum
    /// vector, weighted by the decay's complement.
    pub fn update_curvature(&mut self, mean: &Vec<i64>)
        requires
            old(self).wf(),
            mean@.len() == old(self)@.curvature_est.len(),
        ensures
            final(self).wf(),
            final(self)@ == (CainView {
                curvature_est: Seq::new(
                    old(self)@.curvature_est.len(),
                    |j: int|
                        curv_next_spec(
                            old(self)@.curvature_est[j],
                            seq_int(mean@)[j],
                            old(self)@.momentum_derivs[j],
                            curv_decay_spec(old(self)@.config.momentum),
                        ),
                ),
                ..old(self)@
            }),
            final(self).num_callbacks() == old(self).num_callbacks(),
    {
        let ghost init = self@;
        let ghost ncb = self.num_callbacks();
        let ghost decay_spec = curv_decay_spec(self@.config.momentum);
        let decay = fx_max(fx_sqrt(fx_sqrt(self.config.momentum)), CURV_DECAY_FLOOR);
        let one_minus = fx_sub(SCALE, decay);
        let dim = mean.len();
        let mut j: usize = 0;
        while j < dim
            invariant
                j <= dim,
                dim == mean@.len(),
                decay as int == decay_spec,
                one_minus as int == fx_sub_spec(SCALE as int, decay_spec),
                self@.config == init.config,
                self@.eval_count == init.eval_count,
                self@.step_count == init.step_count,
                self@.learning_rate == init.learning_rate,
                self@.batch_size == init.batch_size,
                self@.momentum_derivs == init.momentum_derivs,
                self@.prev_derivs == init.prev_derivs,
                self.num_callbacks() == ncb,
                self@.curvature_est.len() == init.curvature_est.len(),
                init.momentum_derivs.len() == init.curvature_est.len(),
                mean@.len() == init.curvature_est.len(),
                forall|k: int|
                    0 <= k < j ==> self@.curvature_est[k] == curv_next_spec(
                        init.curvature_est[k],
                        seq_int(mean@)[k],
                        init.momentum_derivs[k],
                        decay_spec,
                    ),
                forall|k: int|
                    j <= k < init.curvature_est.len() ==> self@.curvature_est[k]
                        == init.curvature_est[k],
            decreases dim - j,
        {
            let ghost prev = self.curvature_est@;
            let c = self.curvature_est[j];
            let m = mean[j];
            let mom = self.momentum_derivs[j];
            let diff = fx_sub(m, mom);
            let incr = fx_mul(fx_mul(diff, diff), one_minus);
            let val = fx_add(fx_mul(c, decay), incr);
            self.curvature_est.set(j, val);
            proof {
                assert forall|k: int| 0 <= k < j + 1 implies seq_int(self.curvature_est@)[k]
                    == curv_next_spec(
                    init.curvature_est[k],
                    seq_int(mean@)[k],
                    init.momentum_derivs[k],
                    decay_spec,
                ) by {
                    if k == j {
                        assert(self.curvature_est@[k] == val);
                    } else {
                        assert(self.curvature_est@[k] == prev[k]);
                        assert(seq_int(prev)[k] == prev[k] as int);
                    }
                }
            }
            j = j + 1;
        }
        proof {
            assert(self@.curvature_est =~= Seq::new(
                init.curvature_est.len(),
                |k: int|
                    curv_next_spec(
                        init.curvature_est[k],
                        seq_int(mean@)[k],
                        init.momentum_derivs[k],
                        decay_spec,
                    ),
            ));
        }
    }
}

/// Saturating increment of a `u64` counter.
pub open spec fn sat_add_u64_spec(a: int, b: int) -> int {
    if a + b > u64::MAX as int {
        u64::MAX as int
    } else {
        a + b
    }
}

/// The fixed-point sum of the gradient entries at coordinate `j` over the
/// first `i` subbatches.
pub open spec fn grad_sum_at_spec(grads: Seq<Seq<int>>, j: int, i: nat) -> int
    decreases i,
{
    if i == 0 {
        0
    } else {
        fx_add_spec(grad_sum_at_spec(grads, j, (i - 1) as nat), grads[i - 1][j])
    }
}

/// One coordinate of the across-subbatch mean gradient.
pub open spec fn mean_at_spec(grads: Seq<Seq<int>>, j: int, n: int) -> int {
    fx_div_spec(grad_sum_at_spec(grads, j, grads.len()), n)
}

/// The across-subbatch mean gradient.
pub open spec fn mean_grad_spec(grads: Seq<Seq<int>>, dim: nat, n: int) -> Seq<int> {
    Seq::new(dim, |j: int| mean_at_spec(grads, j, n))
}

/// The fixed-point sum of the first `i` subbatch losses.
pub open spec fn loss_sum_spec(losses: Seq<int>, i: nat) -> int
    decreases i,
{
    if i == 0 {
        0
    } else {
        fx_add_spec(loss_sum_spec(losses, (i - 1) as nat), losses[i - 1])
    }
}

/// The mean of the subbatch losses.
pub open spec fn err_mean_spec(losses: Seq<int>, n: int) -> int {
    fx_div_spec(loss_sum_spec(losses, losses.len()), n)
}

/// The fixed-point dot product over the first `j` coordinates.
pub open spec fn dot_prefix_spec(a: Seq<int>, b: Seq<int>, j: nat) -> int
    decreases j,
{
    if j == 0 {
        0
    } else {
        fx_add_spec(dot_prefix_spec(a, b, (j - 1) as nat), fx_mul_spec(a[j - 1], b[j - 1]))
    }
}

/// The fixed-point dot product.
pub open spec fn dot_spec(a: Seq<int>, b: Seq<int>) -> int {
    dot_prefix_spec(a, b, a.len())
}

/// The similarity scalar: zero on the very first step, and otherwise the
/// aggression plus the mean gradient's projection onto the momentum vector,
/// clamped into `[-8, 4]`.  A momentum vector whose norm underflows to
/// exactly zero makes the projection a division by zero, which the
/// fixed-point division totalises by saturating toward the dividend's sign
/// (and to zero for `0 / 0`); the clamp then bounds the result.
pub open spec fn sim_spec(mean: Seq<int>, mom: Seq<int>, aggression: int, step_count: int) -> int {
    if step_count == 0 {
        0
    } else {
        fx_min_spec(
            fx_max_spec(
                fx_add_spec(aggression, fx_div_spec(dot_spec(mean, mom), dot_spec(mom, mom))),
                SIM_FLOOR as int,
            ),
            SIM_CEIL as int,
        )
    }
}

/// The next learning rate: the old one scaled by the adaptation base raised
/// to the similarity scalar.
pub open spec fn rate_next_spec(lr: int, coef: int, sim: int) -> int {
    fx_mul_spec(lr, fx_powf_spec(coef, sim))
}

/// One coordinate of the momentum update: the exponential moving average of
/// the mean gradients.
pub open spec fn momentum_next_spec(mom_j: int, mean_j: int, momentum: int) -> int {
    fx_add_spec(
        fx_mul_spec(mom_j, momentum),
        fx_mul_spec(mean_j, fx_sub_spec(SCALE as int, momentum)),
    )
}

/// The bias-correction factor for the curvature estimate:
/// `1 / (1 - decay^(step_count + 1))` while the step count is small, one
/// afterwards.
pub open spec fn correction_spec(momentum: int, step_count: int) -> int {
    if step_count < CORRECTION_CUTOFF as int {
        fx_div_spec(
            SCALE as int,
            fx_sub_spec(
                SCALE as int,
                fx_powi_spec(curv_decay_spec(momentum), (step_count + 1) as nat),
            ),
        )
    } else {
        SCALE as int
    }
}

/// One coordinate of the conditioned update direction: the momentum divided
/// by the root of the bias-corrected curvature, with a small guard against a
/// vanishing curvature.
pub open spec fn cond_spec(mom_j: int, curv_j: int, corr: int) -> int {
    fx_div_spec(mom_j, fx_add_spec(fx_sqrt_spec(fx_mul_spec(curv_j, corr)), COND_EPSILON as int))
}

/// One coordinate of the parameter update: the conditioned direction scaled
/// by the negated learning rate, added to the old parameter.
pub open spec fn param_next_spec(p_j: int, mom_j: int, curv_j: int, corr: int, rate: int) -> int {
    fx_add_spec(fx_mul_spec(cond_spec(mom_j, curv_j, corr), fx_sub_spec(0, rate)), p_j)
}

/// The whole deterministic part of one optimisation step, as a function of
/// the pre-step state and the subbatch losses and gradients: the new state,
/// the new parameter vector, and the mean loss.
pub open spec fn step_view_spec(
    v: CainView,
    params: Seq<int>,
    losses: Seq<int>,
    grads: Seq<Seq<int>>,
) -> (CainView, Seq<int>, int) {
    let n = v.config.num_subbatches;
    let mean = mean_grad_spec(grads, params.len(), n);
    let err = err_mean_spec(losses, n);
    let rel = clamp_rel_err_spec(rel_err_raw_spec(mean, grads, n, v.config.target_err));
    let batch1 = batch_next_spec(
        v.batch_size,
        rel,
        v.config.subbatch_increase_damping,
        v.config.subbatch_decrease_damping,
        fx_of_int_spec(v.config.min_subbatch_size),
    );
    let decay = curv_decay_spec(v.config.momentum);
    let curv1 = Seq::new(
        v.curvature_est.len(),
        |j: int| curv_next_spec(v.curvature_est[j], mean[j], v.momentum_derivs[j], decay),
    );
    let sim = sim_spec(mean, v.momentum_derivs, v.config.aggression, v.step_count);
    let rate1 = rate_next_spec(v.learning_rate, v.config.rate_adapt_coefficient, sim);
    let mom1 = Seq::new(
        v.momentum_derivs.len(),
        |j: int| momentum_next_spec(v.momentum_derivs[j], mean[j], v.config.momentum),
    );
    let corr = correction_spec(v.config.momentum, v.step_count);
    let params1 = Seq::new(
        params.len(),
        |j: int| param_next_spec(params[j], mom1[j], curv1[j], corr, rate1),
    );
    (
        CainView {
            step_count: sat_add_u64_spec(v.step_count, 1),
            curvature_est: curv1,
            learning_rate: rate1,
            batch_size: batch1,
            momentum_derivs: mom1,
            prev_derivs: mean,
            ..v
        },
        params1,
        err,
    )
}

fn vec_dot(a: &Vec<i64>, b: &Vec<i64>) -> (r: i64)
    requires
        a@.len() == b@.len(),
    ensures
        r as int == dot_spec(seq_int(a@), seq_int(b@)),
{
    let mut acc: i64 = 0;
    let mut j: usize = 0;
    let dim = a.len();
    while j < dim
        invariant
            j <= dim,
            dim == a@.len(),
            a@.len() == b@.len(),
            acc as int == dot_prefix_spec(seq_int(a@), seq_int(b@), j as nat),
        decreases dim - j,
    {
        acc = fx_add(acc, fx_mul(a[j], b[j]));
        j = j + 1;
    }
    acc
}

/// `avg` values are the `raw` values divided, per entry, by the fixed-point
/// image of the drawn batch size.
pub open spec fn is_average_of(
    avg_err: int,
    avg_grad: Seq<int>,
    loss: int,
    grad: Seq<int>,
    b: int,
) -> bool {
    avg_err == fx_div_spec(loss, fx_of_int_spec(b)) && avg_grad.len() == grad.len() && (forall|
        j: int,
    |
        0 <= j < grad.len() ==> avg_grad[j] == fx_div_spec(grad[j], fx_of_int_spec(b)))
}

/// The pair is, entrywise, some representable total loss and gradient of
/// the right dimension averaged over the drawn batch size: the witnesses
/// range over `i64` values, the only totals a graph can hand back.
pub open spec fn averaged_outcome(avg_err: int, avg_grad: Seq<int>, b: int, dim: nat) -> bool {
    exists|loss: i64, grad: Seq<i64>|
        #[trigger] is_average_of(avg_err, avg_grad, loss as int, seq_int(grad), b) && grad.len()
            == dim
}

/// The per-sample averaging of one sub-batch's totals: the loss and each
/// gradient entry divided by the fixed-point image of the batch size.
pub fn average_subbatch(err: i64, derivs: Vec<i64>, batch_size: u64) -> (r: (i64, Vec<i64>))
    ensures
        r.0 as int == fx_div_spec(err as int, fx_of_int_spec(batch_size as int)),
        r.1@.len() == derivs@.len(),
        forall|j: int|
            0 <= j < derivs@.len() ==> seq_int(r.1@)[j] == fx_div_spec(
                seq_int(derivs@)[j],
                fx_of_int_spec(batch_size as int),
            ),
{
    let bfx = fx_of_u64(batch_size);
    let avg_err = fx_div(err, bfx);
    let mut avg: Vec<i64> = Vec::new();
    let mut j: usize = 0;
    let dim = derivs.len();
    while j < dim
        invariant
            j <= dim,
            dim == derivs@.len(),
            avg@.len() == j,
            bfx as int == fx_of_int_spec(batch_size as int),
            forall|k: int|
                0 <= k < j ==> seq_int(avg@)[k] == fx_div_spec(
                    seq_int(derivs@)[k],
                    fx_of_int_spec(batch_size as int),
                ),
        decreases dim - j,
    {
        let ghost prev = avg@;
        let q = fx_div(derivs[j], bfx);
        avg.push(q);
        proof {
            assert forall|k: int| 0 <= k < j + 1 implies seq_int(avg@)[k] == fx_div_spec(
                seq_int(derivs@)[k],
                fx_of_int_spec(batch_size as int),
            ) by {
                if k < j {
                    assert(avg@[k] == prev[k]);
                    assert(seq_int(prev)[k] == prev[k] as int);
                } else {
                    assert(avg@[k] == q);
                }
            }
        }
        j = j + 1;
    }
    (avg_err, avg)
}

/// The integer sub-batch size drawn from the continuous batch size, capped
/// at what a length can hold.
pub open spec fn draw_size_spec(v: CainView) -> int {
    if fx_floor_spec(v.batch_size) > usize::MAX as int {
        usize::MAX as int
    } else {
        fx_floor_spec(v.batch_size)
    }
}

/// The number of sub-batches drawn in one step: the floor of the
/// real-valued subbatch count, capped at what a length can hold.
pub open spec fn subbatch_rounds_spec(v: CainView) -> int {
    if fx_floor_spec(v.config.num_subbatches) > usize::MAX as int {
        usize::MAX as int
    } else {
        fx_floor_spec(v.config.num_subbatches)
    }
}

/// The evaluation counter after `k` draws of `b` samples each.
pub open spec fn eval_after_spec(e: int, b: int, k: nat) -> int
    decreases k,
{
    if k == 0 {
        e
    } else {
        eval_after_spec(sat_add_u64_spec(e, b), b, (k - 1) as nat)
    }
}

proof fn lemma_eval_after_step(e: int, b: int, k: nat)
    ensures
        eval_after_spec(sat_add_u64_spec(e, b), b, k) == sat_add_u64_spec(
            eval_after_spec(e, b, k),
            b,
        ),
    decreases k,
{
    if k > 0 {
        lemma_eval_after_step(sat_add_u64_spec(e, b), b, (k - 1) as nat);
    }
}

/// What one optimisation step leaves behind: a round of losses and
/// gradients of the right shape — one pair per drawn sub-batch — after
/// which the evaluation counter grew by the drawn batch size once per
/// sub-batch, and the post state and the results are exactly the
/// deterministic step function applied to the round.
pub open spec fn step_outcome(
    pre: CainView,
    post: CainView,
    ec: int,
    losses: Seq<int>,
    grads: Seq<Seq<int>>,
    params: Seq<int>,
    out_params: Seq<int>,
    err: int,
) -> bool {
    let mid = (CainView { eval_count: ec, ..pre });
    losses.len() == grads.len() && losses.len() == subbatch_rounds_spec(pre) && ec
        == eval_after_spec(pre.eval_count, draw_size_spec(pre), subbatch_rounds_spec(pre) as nat)
        && (forall|i: int|
        0 <= i < grads.len() ==> (#[trigger] grads[i]).len() == params.len()) && post
        == step_view_spec(mid, params, losses, grads).0 && out_params == step_view_spec(
        mid,
        params,
        losses,
        grads,
    ).1 && err == step_view_spec(mid, params, losses, grads).2
}

/// A step counter after `k` saturating increments.
pub open spec fn steps_grown_spec(c: int, k: nat) -> int
    decreases k,
{
    if k == 0 {
        c
    } else {
        sat_add_u64_spec(steps_grown_spec(c, (k - 1) as nat), 1)
    }
}

/// What a whole run leaves behind: a chain of `k` step outcomes, each of
/// the shape [`step_outcome`] requires, threading the optimiser state and
/// the working parameter vector from the start of the run to its end.
pub open spec fn run_outcome(
    pre: CainView,
    post: CainView,
    params: Seq<int>,
    out: Seq<int>,
    k: nat,
) -> bool
    decreases k,
{
    if k == 0 {
        post == pre && out == params
    } else {
        exists|
            mid: CainView,
            mid_params: Seq<int>,
            ec: int,
            losses: Seq<int>,
            grads: Seq<Seq<int>>,
            err: int,
        |
            run_outcome(pre, mid, params, mid_params, (k - 1) as nat) && #[trigger] step_outcome(
                mid,
                post,
                ec,
                losses,
                grads,
                mid_params,
                out,
                err,
            )
    }
}

impl<C: StepCallback> Cain<C> {
    /// Draws one sub-batch of the given size from the supplier, runs the
    /// graph's backpropagation on it, and returns the per-sample-averaged
    /// loss and gradient; the evaluation counter grows by the batch size.
    pub fn part_step<G: Graph, S: Supplier>(
        &mut self,
        graph: &mut G,
        training_set: &mut S,
        params: &Vec<i64>,
        batch_size: u64,
    ) -> (r: (i64, Vec<i64>))
        requires
            batch_size <= usize::MAX,
        ensures
            r.1@.len() == params@.len(),
            final(self)@ == (CainView {
                eval_count: sat_add_u64_spec(old(self)@.eval_count, batch_size as int),
                ..old(self)@
            }),
            final(self).num_callbacks() == old(self).num_callbacks(),
            averaged_outcome(r.0 as int, seq_int(r.1@), batch_size as int, params@.len()),
    {
        let (input, target) = training_set.next_n(batch_size as usize);
        let (err, derivs) = graph.backprop(batch_size as usize, input, target, params);
        let ghost derivs_snapshot = derivs@;
        let (avg_err, avg) = average_subbatch(err, derivs, batch_size);
        if self.eval_count > u64::MAX - batch_size {
            self.eval_count = u64::MAX;
        } else {
            self.eval_count = self.eval_count + batch_size;
        }
        proof {
            assert(is_average_of(
                avg_err as int,
                seq_int(avg@),
                err as int,
                seq_int(derivs_snapshot),
                batch_size as int,
            ));
            assert(averaged_outcome(avg_err as int, seq_int(avg@), batch_size as int, params@.len()));
        }
        (avg_err, avg)
    }
}

/// The conditioned parameter update: each coordinate of the momentum vector
/// is divided by the square root of the bias-corrected curvature (with the
/// small epsilon guard), scaled by the negated learning rate, and added to
/// the corresponding parameter.
pub fn apply_conditioned_update(
    params: &Vec<i64>,
    momentum: &Vec<i64>,
    curvature: &Vec<i64>,
    correction: i64,
    rate: i64,
) -> (out: Vec<i64>)
    requires
        momentum@.len() == params@.len(),
        curvature@.len() == params@.len(),
    ensures
        out@.len() == params@.len(),
        forall|k: int|
            0 <= k < params@.len() ==> seq_int(out@)[k] == param_next_spec(
                seq_int(params@)[k],
                seq_int(momentum@)[k],
                seq_int(curvature@)[k],
                correction as int,
                rate as int,
            ),
{
    let neg_rate = fx_sub(0, rate);
    let dim = params.len();
    let mut out: Vec<i64> = Vec::new();
    let mut j: usize = 0;
    while j < dim
        invariant
            j <= dim,
            dim == params@.len(),
            momentum@.len() == dim,
            curvature@.len() == dim,
            neg_rate as int == fx_sub_spec(0, rate as int),
            out@.len() == j,
            forall|k: int|
                0 <= k < j ==> seq_int(out@)[k] == param_next_spec(
                    seq_int(params@)[k],
                    seq_int(momentum@)[k],
                    seq_int(curvature@)[k],
                    correction as int,
                    rate as int,
                ),
        decreases dim - j,
    {
        let ghost prev = out@;
        let momj = momentum[j];
        let curvj = curvature[j];
        let cond = fx_div(momj, fx_add(fx_sqrt(fx_mul(curvj, correction)), COND_EPSILON));
        let q = fx_add(fx_mul(cond, neg_rate), params[j]);
        out.push(q);
        proof {
            assert forall|k: int| 0 <= k < j + 1 implies seq_int(out@)[k] == param_next_spec(
                seq_int(params@)[k],
                seq_int(momentum@)[k],
                seq_int(curvature@)[k],
                correction as int,
                rate as int,
            ) by {
                if k == j {
                    assert(out@[k] == q);
                } else {
                    assert(out@[k] == prev[k]);
                    assert(seq_int(prev)[k] == prev[k] as int);
                }
            }
        }
        j = j + 1;
    }
    out
}

impl<C: StepCallback> Cain<C> {
    /// The deterministic part of one optimisation step, applied to a round
    /// of subbatch `(loss, gradient)` results: adapts the batch size and the
    /// curvature estimate, derives the similarity scalar and the new
    /// learning rate, updates the momentum, and returns the mean loss
    /// together with the new parameter vector.  Everything it leaves behind
    /// is pinned to [`step_view_spec`].
    pub fn step_compute(&mut self, params: &Vec<i64>, results: &Vec<(i64, Vec<i64>)>) -> (r: (
        i64,
        Vec<i64>,
    ))
        requires
            old(self).wf(),
            params@.len() == old(self)@.momentum_derivs.len(),
            forall|i: int|
                0 <= i < results@.len() ==> (#[trigger] results@[i]).1@.len() == params@.len(),
        ensures
            final(self).wf(),
            r.1@.len() == params@.len(),
            final(self)@ == step_view_spec(
                old(self)@,
                seq_int(params@),
                losses_of(results@),
                grads_of(results@),
            ).0,
            seq_int(r.1@) == step_view_spec(
                old(self)@,
                seq_int(params@),
                losses_of(results@),
                grads_of(results@),
            ).1,
            r.0 as int == step_view_spec(
                old(self)@,
                seq_int(params@),
                losses_of(results@),
                grads_of(results@),
            ).2,
            final(self)@.batch_size >= fx_of_int_spec(old(self)@.config.min_subbatch_size),
            final(self).num_callbacks() == old(self).num_callbacks(),
    {
        let ghost init = self@;
        let ghost params_seq = seq_int(params@);
        let ghost losses = losses_of(results@);
        let ghost grads = grads_of(results@);
        let ghost sv = step_view_spec(init, params_seq, losses, grads);
        let n = self.config.num_subbatches;
        let dim = params.len();
        let num_results = results.len();

        // Across-subbatch mean gradient.
        let mut mean: Vec<i64> = Vec::new();
        let mut j: usize = 0;
        while j < dim
            invariant
                j <= dim,
                dim == params@.len(),
                num_results == results@.len(),
                grads == grads_of(results@),
                forall|k: int|
                    0 <= k < results@.len() ==> (#[trigger] results@[k]).1@.len() == params@.len(),
                mean@.len() == j,
                forall|k: int|
                    0 <= k < j ==> seq_int(mean@)[k] == mean_at_spec(grads, k, n as int),
            decreases dim - j,
        {
            let mut s: i64 = 0;
            let mut i: usize = 0;
            while i < num_results
                invariant
                    i <= num_results,
                    j < dim,
                    dim == params@.len(),
                    num_results == results@.len(),
                    grads == grads_of(results@),
                    forall|k: int|
                        0 <= k < results@.len() ==> (#[trigger] results@[k]).1@.len()
                            == params@.len(),
                    s as int == grad_sum_at_spec(grads, j as int, i as nat),
                decreases num_results - i,
            {
                proof {
                    assert(grads[i as int] == seq_int(results@[i as int].1@));
                }
                s = fx_add(s, results[i].1[j]);
                i = i + 1;
            }
            let ghost prev = mean@;
            let q = fx_div(s, n);
            mean.push(q);
            proof {
                assert(grads.len() == results@.len());
                assert forall|k: int| 0 <= k < j + 1 implies seq_int(mean@)[k] == mean_at_spec(
                    grads,
                    k,
                    n as int,
                ) by {
                    if k < j {
                        assert(mean@[k] == prev[k]);
                        assert(seq_int(prev)[k] == prev[k] as int);
                    } else {
                        assert(mean@[k] == q);
                    }
                }
            }
            j = j + 1;
        }
        proof {
            assert(seq_int(mean@) =~= mean_grad_spec(grads, params@.len(), n as int));
        }

        // Mean loss across the round.
        let mut esum: i64 = 0;
        let mut i: usize = 0;
        while i < num_results
            invariant
                i <= num_results,
                num_results == results@.len(),
                losses == losses_of(results@),
                esum as int == loss_sum_spec(losses, i as nat),
            decreases num_results - i,
        {
            proof {
                assert(losses[i as int] == results@[i as int].0 as int);
            }
            esum = fx_add(esum, results[i].0);
            i = i + 1;
        }
        let err = fx_div(esum, n);
        proof {
            assert(losses.len() == results@.len());
            assert(err as int == err_mean_spec(losses, n as int));
        }

        let _rel_err = self.update_batch_size(&mean, results);
        self.update_curvature(&mean);

        // Similarity of the fresh mean gradient with the momentum vector.
        let sim: i64 = if self.step_count == 0 {
            0
        } else {
            let md = vec_dot(&mean, &self.momentum_derivs);
            let mm = vec_dot(&self.momentum_derivs, &self.momentum_derivs);
            fx_min(fx_max(fx_add(self.config.aggression, fx_div(md, mm)), SIM_FLOOR), SIM_CEIL)
        };
        proof {
            assert(sim as int == sim_spec(
                seq_int(mean@),
                init.momentum_derivs,
                init.config.aggression,
                init.step_count,
            ));
        }
        let rate1 = fx_mul(self.learning_rate, fx_powf(self.config.rate_adapt_coefficient, sim));

        // Momentum update: exponential moving average of mean gradients.
        let ghost mid = self@;
        let ghost ncb = self.num_callbacks();
        let mcoef = self.config.momentum;
        let one_minus_m = fx_sub(SCALE, mcoef);
        let mut j2: usize = 0;
        while j2 < dim
            invariant
                j2 <= dim,
                dim == params@.len(),
                dim == mean@.len(),
                mcoef as int == mid.config.momentum,
                one_minus_m as int == fx_sub_spec(SCALE as int, mid.config.momentum),
                self@.config == mid.config,
                self@.eval_count == mid.eval_count,
                self@.step_count == mid.step_count,
                self@.learning_rate == mid.learning_rate,
                self@.batch_size == mid.batch_size,
                self@.curvature_est == mid.curvature_est,
                self@.prev_derivs == mid.prev_derivs,
                self.num_callbacks() == ncb,
                self@.momentum_derivs.len() == mid.momentum_derivs.len(),
                mid.momentum_derivs.len() == dim,
                forall|k: int|
                    0 <= k < j2 ==> self@.momentum_derivs[k] == momentum_next_spec(
                        mid.momentum_derivs[k],
                        seq_int(mean@)[k],
                        mid.config.momentum,
                    ),
                forall|k: int|
                    j2 <= k < mid.momentum_derivs.len() ==> self@.momentum_derivs[k]
                        == mid.momentum_derivs[k],
            decreases dim - j2,
        {
            let ghost prev = self.momentum_derivs@;
            let momj = self.momentum_derivs[j2];
            let val = fx_add(fx_mul(momj, mcoef), fx_mul(mean[j2], one_minus_m));
            self.momentum_derivs.set(j2, val);
            proof {
                assert forall|k: int| 0 <= k < j2 + 1 implies seq_int(self.momentum_derivs@)[k]
                    == momentum_next_spec(
                    mid.momentum_derivs[k],
                    seq_int(mean@)[k],
                    mid.config.momentum,
                ) by {
                    if k == j2 {
                        assert(self.momentum_derivs@[k] == val);
                    } else {
                        assert(self.momentum_derivs@[k] == prev[k]);
                        assert(seq_int(prev)[k] == prev[k] as int);
                    }
                }
            }
            j2 = j2 + 1;
        }

        // Bias-corrected, curvature-conditioned parameter update.
        let corr: i64 = if self.step_count < CORRECTION_CUTOFF {
            let decay = fx_max(fx_sqrt(fx_sqrt(self.config.momentum)), CURV_DECAY_FLOOR);
            let dp = fx_powi(decay, self.step_count + 1);
            fx_div(SCALE, fx_sub(SCALE, dp))
        } else {
            SCALE
        };
        proof {
            assert(corr as int == correction_spec(init.config.momentum, init.step_count));
        }
        let out = apply_conditioned_update(
            params,
            &self.momentum_derivs,
            &self.curvature_est,
            corr,
            rate1,
        );

        // Persist the scalar state and the previous-step gradient.
        self.learning_rate = rate1;
        if self.step_count == u64::MAX {
        } else {
            self.step_count = self.step_count + 1;
        }
        self.prev_derivs = mean;

        proof {
            assert(self@.curvature_est =~= sv.0.curvature_est);
            assert(self@.momentum_derivs =~= sv.0.momentum_derivs);
            assert(self@.prev_derivs =~= sv.0.prev_derivs);
            assert(seq_int(out@) =~= sv.1);
            assert(self@ == sv.0);
        }
        (err, out)
    }
}

impl<C: StepCallback> Cain<C> {
    /// One optimisation step: draws a round of sub-batches of the current
    /// integer batch size, then applies the deterministic update
    /// ([`Self::step_compute`]) to the collected losses and gradients.
    /// Returns the mean loss and the new parameter vector.
    pub fn step<G: Graph, S: Supplier>(
        &mut self,
        graph: &mut G,
        training_set: &mut S,
        params: Vec<i64>,
    ) -> (r: (i64, Vec<i64>))
        requires
            old(self).wf(),
            params@.len() == old(self)@.momentum_derivs.len(),
        ensures
            final(self).wf(),
            r.1@.len() == params@.len(),
            final(self)@.config == old(self)@.config,
            final(self)@.step_count == sat_add_u64_spec(old(self)@.step_count, 1),
            final(self)@.eval_count >= old(self)@.eval_count,
            final(self)@.batch_size >= fx_of_int_spec(old(self)@.config.min_subbatch_size),
            final(self)@.momentum_derivs.len() == old(self)@.momentum_derivs.len(),
            final(self).num_callbacks() == old(self).num_callbacks(),
            exists|ec: int, losses: Seq<int>, grads: Seq<Seq<int>>|
                #[trigger] step_outcome(
                    old(self)@,
                    final(self)@,
                    ec,
                    losses,
                    grads,
                    seq_int(params@),
                    seq_int(r.1@),
                    r.0 as int,
                ),
    {
        let ghost init = self@;
        let ghost ncb = self.num_callbacks();
        let bf = fx_floor_u64(self.batch_size);
        let b: u64 = if bf > (usize::MAX as u64) {
            usize::MAX as u64
        } else {
            bf
        };
        let count64 = fx_floor_u64(self.config.num_subbatches);
        let count: u64 = if count64 > (usize::MAX as u64) {
            usize::MAX as u64
        } else {
            count64
        };
        let count: usize = count as usize;
        let mut results: Vec<(i64, Vec<i64>)> = Vec::new();
        let mut i: usize = 0;
        while i < count
            invariant
                i <= count,
                b <= usize::MAX,
                b as int == draw_size_spec(init),
                count as int == subbatch_rounds_spec(init),
                self@.eval_count == eval_after_spec(init.eval_count, b as int, i as nat),
                results@.len() == i,
                forall|k: int|
                    0 <= k < i ==> (#[trigger] results@[k]).1@.len() == params@.len(),
                self@.config == init.config,
                self@.eval_count >= init.eval_count,
                self@.step_count == init.step_count,
                self@.learning_rate == init.learning_rate,
                self@.batch_size == init.batch_size,
                self@.curvature_est == init.curvature_est,
                self@.momentum_derivs == init.momentum_derivs,
                self@.prev_derivs == init.prev_derivs,
                self.num_callbacks() == ncb,
                params@.len() == init.momentum_derivs.len(),
            decreases count - i,
        {
            let pr = self.part_step(graph, training_set, &params, b);
            results.push(pr);
            proof {
                lemma_eval_after_step(init.eval_count, b as int, i as nat);
            }
            i = i + 1;
        }
        let ghost mid = self@;
        let r = self.step_compute(&params, &results);
        proof {
            assert(mid == (CainView { eval_count: mid.eval_count, ..init }));
            assert(step_outcome(
                init,
                self@,
                mid.eval_count,
                losses_of(results@),
                grads_of(results@),
                seq_int(params@),
                seq_int(r.1@),
                r.0 as int,
            ));
        }
        r
    }

    /// Runs the optimiser from the given parameters: repeatedly takes a
    /// step, replaces the working parameter vector with the result, and
    /// invokes every registered callback in registration order with a
    /// snapshot of the progress.  The loop ends after the first round in
    /// which some callback asked it to stop (the round's remaining
    /// callbacks are still invoked first); the current parameters are
    /// returned.  The contract pins the run to a nonempty chain of step
    /// outcomes from the starting state and parameters to the final state
    /// and the returned vector, with the step counter grown once per round;
    /// how many rounds run is decided by the (uncontracted) callbacks.
    /// Termination is callback-driven: the loop's intrinsic round bound of
    /// `u64::MAX` is beyond any run's reach.
    pub fn optimise_from<G: Graph, S: Supplier>(
        &mut self,
        graph: &mut G,
        training_set: &mut S,
        params: Vec<i64>,
    ) -> (r: Vec<i64>)
        requires
            old(self).wf(),
            params@.len() == old(self)@.momentum_derivs.len(),
        ensures
            final(self).wf(),
            r@.len() == params@.len(),
            final(self)@.config == old(self)@.config,
            final(self)@.step_count >= sat_add_u64_spec(old(self)@.step_count, 1),
            final(self)@.batch_size >= fx_of_int_spec(old(self)@.config.min_subbatch_size),
            final(self).num_callbacks() == old(self).num_callbacks(),
            exists|k: nat|
                1 <= k && #[trigger] run_outcome(
                    old(self)@,
                    final(self)@,
                    seq_int(params@),
                    seq_int(r@),
                    k,
                ) && final(self)@.step_count == steps_grown_spec(old(self)@.step_count, k),
    {
        let ghost init = self@;
        let ghost p0 = seq_int(params@);
        let ghost ncb = self.num_callbacks();
        let mut params = params;
        let mut stop = false;
        let mut rounds: u64 = 0;
        while !stop && rounds < u64::MAX
            invariant
                self.wf(),
                params@.len() == init.momentum_derivs.len(),
                self@.momentum_derivs.len() == init.momentum_derivs.len(),
                self@.config == init.config,
                self@.step_count >= init.step_count,
                rounds > 0 ==> self@.step_count >= sat_add_u64_spec(init.step_count, 1),
                rounds > 0 ==> self@.batch_size >= fx_of_int_spec(init.config.min_subbatch_size),
                stop ==> rounds > 0,
                run_outcome(init, self@, p0, seq_int(params@), rounds as nat),
                self@.step_count == steps_grown_spec(init.step_count, rounds as nat),
                self.num_callbacks() == ncb,
            decreases (if stop {
                0u64
            } else {
                1u64
            }), u64::MAX - rounds,
        {
            let ghost pre_view = self@;
            let ghost pre_params = seq_int(params@);
            let (err, new_params) = self.step(graph, training_set, params);
            params = new_params;
            proof {
                let (ec, losses, grads) = choose|
                    ec: int,
                    losses: Seq<int>,
                    grads: Seq<Seq<int>>,
                |
                    step_outcome(
                        pre_view,
                        self@,
                        ec,
                        losses,
                        grads,
                        pre_params,
                        seq_int(params@),
                        err as int,
                    );
                assert(step_outcome(
                    pre_view,
                    self@,
                    ec,
                    losses,
                    grads,
                    pre_params,
                    seq_int(params@),
                    err as int,
                ));
                assert(run_outcome(init, self@, p0, seq_int(params@), (rounds + 1) as nat));
            }
            let mut k: usize = 0;
            let ncbs = self.step_callback.len();
            let ghost after_step = self@;
            while k < ncbs
                invariant
                    k <= ncbs,
                    self.step_callback@.len() == ncbs,
                    self@ == after_step,
                decreases ncbs - k,
            {
                let mut cb = self.step_callback.remove(0);
                let data = CallbackData {
                    err,
                    step_count: self.step_count,
                    eval_count: self.eval_count,
                    params: &params,
                };
                let sig = cb.on_step(&data);
                match sig {
                    CallbackSignal::Stop => {
                        stop = true;
                    },
                    CallbackSignal::Continue => {},
                }
                self.step_callback.push(cb);
                k = k + 1;
            }
            rounds = rounds + 1;
        }
        proof {
            assert(exists|k: nat|
                1 <= k && #[trigger] run_outcome(init, self@, p0, seq_int(params@), k)
                    && self@.step_count == steps_grown_spec(init.step_count, k));
        }
        params
    }
}

} // verus!