use cain::cain::{
    apply_conditioned_update, Cain, CallbackData, CallbackSignal, Graph, StepCallback, Supplier,
};
use cain::fx::SCALE;

struct NopCb;

impl StepCallback for NopCb {
    fn on_step(&mut self, _data: &CallbackData) -> CallbackSignal {
        CallbackSignal::Continue
    }
}

fn fx(x: f64) -> i64 {
    (x * 4294967296.0) as i64
}

/// A one-parameter quadratic model: the total gradient over a batch is
/// `batch_size * 2 * (param - target)` and the total loss is the batch's
/// summed squared distance.
struct QuadGraph {
    target: i64,
}

impl Graph for QuadGraph {
    fn num_params(&self) -> usize {
        1
    }

    fn backprop(
        &mut self,
        batch_size: usize,
        _inputs: Vec<i64>,
        _targets: Vec<i64>,
        params: &Vec<i64>,
    ) -> (i64, Vec<i64>) {
        let p = params[0];
        let diff = p - self.target;
        let b = batch_size as i64;
        let sq = ((diff as i128 * diff as i128) / 4294967296i128) as i64;
        (sq * b, vec![2 * diff * b])
    }
}

struct CountSupplier {
    taken: u64,
}

impl Supplier for CountSupplier {
    fn next_n(&mut self, count: usize) -> (Vec<i64>, Vec<i64>) {
        self.taken += count as u64;
        (vec![0; count], vec![0; count])
    }

    fn samples_taken(&self) -> u64 {
        self.taken
    }
}

#[test]
fn one_step_moves_toward_target() {
    // One-dimensional parameter, gradient 2 * (param - 3.0), starting at
    // zero: after one step the parameter must have moved strictly toward
    // the target.
    let mut opt: Cain<NopCb> = Cain::<NopCb>::new()
        .num_subbatches(2)
        .min_subbatch_size(1)
        .initial_learning_rate(fx(0.01))
        .finish(1);
    let mut graph = QuadGraph { target: fx(3.0) };
    let mut supplier = CountSupplier { taken: 0 };
    let (_err, new_params) = opt.step(&mut graph, &mut supplier, vec![0i64]);
    assert_eq!(new_params.len(), 1);
    assert!(new_params[0] > 0);
    assert!(new_params[0] < fx(3.0));
    assert_eq!(opt.step_count(), 1);
}

#[test]
fn step_counts_samples() {
    // Two sub-batches of floor(2.0) samples each: four evaluations.
    let mut opt: Cain<NopCb> = Cain::<NopCb>::new().num_subbatches(2).finish(1);
    let mut graph = QuadGraph { target: fx(1.0) };
    let mut supplier = CountSupplier { taken: 0 };
    let _ = opt.step(&mut graph, &mut supplier, vec![0i64]);
    assert_eq!(opt.eval_count(), 4);
    assert_eq!(supplier.samples_taken(), 4);
}

fn run_three_steps() -> (Vec<i64>, i64, i64, u64) {
    let mut opt: Cain<NopCb> = Cain::<NopCb>::new()
        .num_subbatches(2)
        .initial_learning_rate(fx(0.01))
        .finish(1);
    let mut graph = QuadGraph { target: fx(3.0) };
    let mut supplier = CountSupplier { taken: 0 };
    let mut params = vec![0i64];
    for _ in 0..3 {
        let (_e, p) = opt.step(&mut graph, &mut supplier, params);
        params = p;
    }
    (params, opt.batch_size(), opt.learning_rate(), opt.eval_count())
}

#[test]
fn identical_runs_are_bitwise_identical() {
    // Determinism: a fixed graph, supplier and config reproduce the exact
    // same trajectory, bit for bit.
    let a = run_three_steps();
    let b = run_three_steps();
    assert_eq!(a.0, b.0);
    assert_eq!(a.1, b.1);
    assert_eq!(a.2, b.2);
    assert_eq!(a.3, b.3);
}

#[test]
fn conditioned_update_matches_hand_computed_values() {
    // With the bias correction forced to one, the conditioned update is
    // momentum / (sqrt(curvature) + epsilon), scaled by the negated rate
    // and added to the parameters; checked against hand-computed Q31.32
    // values.
    let params = vec![fx(1.0), fx(-2.0)];
    let momentum = vec![fx(0.5), fx(-0.25)];
    let curvature = vec![fx(4.0), fx(1.0)];
    let out = apply_conditioned_update(&params, &momentum, &curvature, SCALE, fx(0.5));
    // 1.0 - 0.5 / (2 + 1e-8) * 0.5  and  -2.0 + 0.25 / (1 + 1e-8) * 0.5.
    assert_eq!(out, vec![3758096387, -8053063686]);
}

#[test]
fn three_steps_with_zero_momentum_hand_computed() {
    // With momentum zero the momentum vector is exactly the last mean
    // gradient and the curvature decay floor (0.9) rules.  Three rounds of
    // known gradients, then the conditioned update with the correction
    // forced to one, against hand-computed values.
    let mut opt: Cain<NopCb> = Cain::<NopCb>::new()
        .num_subbatches(2)
        .momentum(0)
        .finish(2);
    let rounds: Vec<Vec<i64>> = vec![
        vec![fx(1.0), fx(-1.0)],
        vec![fx(2.0), fx(0.5)],
        vec![fx(-1.0), fx(1.5)],
    ];
    let params = vec![fx(0.0), fx(0.0)];
    for g in &rounds {
        // Both subbatches identical, so the across-subbatch mean is
        // exactly `g`.
        let results = vec![(fx(0.1), g.clone()), (fx(0.1), g.clone())];
        let _ = opt.step_compute(&params, &results);
    }
    assert_eq!(opt.momentum_derivs(), &vec![fx(-1.0), fx(1.5)]);
    assert_eq!(opt.curvature_est(), &vec![4599909977, 1647119958]);
    let out = apply_conditioned_update(
        &vec![fx(0.25), fx(0.75)],
        opt.momentum_derivs(),
        opt.curvature_est(),
        SCALE,
        fx(0.01),
    );
    assert_eq!(out, vec![1115243449, 3117193120]);
}

#[test]
fn first_step_keeps_learning_rate() {
    // On the very first step the similarity scalar is zero, so the
    // learning rate is multiplied by coefficient^0 == 1 and kept exactly.
    let mut opt: Cain<NopCb> = Cain::<NopCb>::new()
        .num_subbatches(2)
        .initial_learning_rate(fx(0.25))
        .finish(1);
    let mut graph = QuadGraph { target: fx(3.0) };
    let mut supplier = CountSupplier { taken: 0 };
    let _ = opt.step(&mut graph, &mut supplier, vec![0i64]);
    assert_eq!(opt.learning_rate(), fx(0.25));
}

#[test]
fn prev_derivs_hold_last_mean() {
    let mut opt: Cain<NopCb> = Cain::<NopCb>::new().num_subbatches(2).momentum(0).finish(1);
    let g = vec![fx(0.5)];
    let results = vec![(fx(0.1), g.clone()), (fx(0.1), g.clone())];
    let _ = opt.step_compute(&vec![0i64], &results);
    assert_eq!(opt.prev_derivs(), &vec![fx(0.5)]);
}
