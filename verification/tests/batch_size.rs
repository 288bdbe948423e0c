use cain::cain::{
    average_subbatch, Cain, CallbackData, CallbackSignal, StepCallback, REL_ERR_CEIL,
    REL_ERR_FLOOR,
};
use cain::fx::SCALE;

struct NopCb;

impl StepCallback for NopCb {
    fn on_step(&mut self, _data: &CallbackData) -> CallbackSignal {
        CallbackSignal::Continue
    }
}

fn fx(x: f64) -> i64 {
    (x * 4294967296.0) as i64
}

fn uniform_results(mean: &Vec<i64>, k: usize) -> Vec<(i64, Vec<i64>)> {
    let mut out: Vec<(i64, Vec<i64>)> = Vec::new();
    for _ in 0..k {
        out.push((fx(0.3), mean.clone()));
    }
    out
}

#[test]
fn zero_noise_rel_err_clamps_to_floor_and_batch_shrinks() {
    let mut opt: Cain<NopCb> = Cain::<NopCb>::new().num_subbatches(4).finish(2);
    let before = opt.batch_size();
    assert_eq!(before, 2 * SCALE);
    let mean = vec![fx(1.0), fx(-0.5)];
    let results = uniform_results(&mean, 4);
    let rel = opt.update_batch_size(&mean, &results);
    // Zero noise: the raw relative error is exactly zero, so the returned
    // value is the lower clamp, and the batch strictly shrinks.
    assert_eq!(rel, REL_ERR_FLOOR);
    assert!(opt.batch_size() < before);
    // 2.0 * 0.125^0.15 in Q31.32.
    assert_eq!(opt.batch_size(), 6288200148);
}

#[test]
fn rel_err_clamped_above() {
    let mut opt: Cain<NopCb> = Cain::<NopCb>::new()
        .num_subbatches(2)
        .target_err(fx(0.000001))
        .finish(1);
    let mean = vec![fx(1.0)];
    let results = vec![
        (fx(0.5), vec![fx(1000000.0)]),
        (fx(0.5), vec![fx(-1000000.0)]),
    ];
    let rel = opt.update_batch_size(&mean, &results);
    assert_eq!(rel, REL_ERR_CEIL);
}

#[test]
fn rel_err_always_within_clamps() {
    let cases: Vec<Vec<i64>> = vec![
        vec![fx(0.0)],
        vec![fx(1.0)],
        vec![fx(-123456.0)],
        vec![i64::MAX],
        vec![i64::MIN],
    ];
    for g in cases {
        let mut opt: Cain<NopCb> = Cain::<NopCb>::new().num_subbatches(2).finish(1);
        let mean = vec![fx(0.25)];
        let results = vec![(fx(0.5), g.clone()), (fx(0.5), g.clone())];
        let rel = opt.update_batch_size(&mean, &results);
        assert!(rel >= REL_ERR_FLOOR);
        assert!(rel <= REL_ERR_CEIL);
    }
}

#[test]
fn zero_gradients_still_give_floor() {
    // A zero mean makes the hold-one-out norm zero; the 0/0 division is
    // totalised to zero, so the raw estimate is zero and the floor applies.
    let mut opt: Cain<NopCb> = Cain::<NopCb>::new().num_subbatches(2).finish(1);
    let mean = vec![0i64];
    let results = vec![(0i64, vec![0i64]), (0i64, vec![0i64])];
    let rel = opt.update_batch_size(&mean, &results);
    assert_eq!(rel, REL_ERR_FLOOR);
}

#[test]
fn batch_size_never_below_minimum() {
    let mut opt: Cain<NopCb> = Cain::<NopCb>::new()
        .num_subbatches(4)
        .min_subbatch_size(3)
        .finish(1);
    assert_eq!(opt.batch_size(), 3 * SCALE);
    let mean = vec![fx(2.0)];
    let results = uniform_results(&mean, 4);
    for _ in 0..10 {
        // Zero noise presses the batch size down on every call; the
        // minimum clamp holds it.
        opt.update_batch_size(&mean, &results);
        assert!(opt.batch_size() >= 3 * SCALE);
    }
    assert_eq!(opt.batch_size(), 3 * SCALE);
}

#[test]
fn rel_err_is_one_global_ratio() {
    // Subbatches with very different hold-one-out norms: the estimate is a
    // single ratio of the accumulated sums across all subbatches, not a sum
    // of per-subbatch ratios (which would saturate here, since the first
    // subbatch's hold-one-out norm is exactly zero).
    let mut opt: Cain<NopCb> = Cain::<NopCb>::new().num_subbatches(2).finish(1);
    let mean = vec![fx(1.0)];
    let results = vec![(fx(0.5), vec![fx(2.0)]), (fx(0.5), vec![fx(0.5)])];
    let rel = opt.update_batch_size(&mean, &results);
    // sqrt((5 / 4.5) / 2) / 0.75 in Q31.32, about 0.9938: inside the clamps.
    assert_eq!(rel, 4268372814);
    // 2.0 * rel^0.15: a slight shrink.
    assert_eq!(opt.batch_size(), 8581935126);
}

#[test]
fn average_subbatch_divides_by_batch() {
    let (e, g) = average_subbatch(fx(6.0), vec![fx(9.0), fx(-3.0)], 3);
    assert_eq!(e, fx(2.0));
    assert_eq!(g, vec![fx(3.0), fx(-1.0)]);
}
