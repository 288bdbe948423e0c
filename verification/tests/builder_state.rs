use cain::cain::{Cain, CallbackData, CallbackSignal, StepCallback};
use cain::fx::SCALE;

struct NopCb;

impl StepCallback for NopCb {
    fn on_step(&mut self, _data: &CallbackData) -> CallbackSignal {
        CallbackSignal::Continue
    }
}

fn fx(x: f64) -> i64 {
    (x * 4294967296.0) as i64
}

#[test]
fn finish_zeroes_state() {
    let opt: Cain<NopCb> = Cain::<NopCb>::new().finish(5);
    assert_eq!(opt.curvature_est().len(), 5);
    assert_eq!(opt.momentum_derivs().len(), 5);
    assert_eq!(opt.prev_derivs().len(), 5);
    for j in 0..5 {
        assert_eq!(opt.curvature_est()[j], 0);
        assert_eq!(opt.momentum_derivs()[j], 0);
        assert_eq!(opt.prev_derivs()[j], 0);
    }
    assert_eq!(opt.step_count(), 0);
    assert_eq!(opt.eval_count(), 0);
    assert_eq!(opt.batch_size(), 2 * SCALE);
    assert_eq!(opt.learning_rate(), 429496);
}

#[test]
fn finish_zeroes_state_empty() {
    let opt: Cain<NopCb> = Cain::<NopCb>::new().finish(0);
    assert_eq!(opt.curvature_est().len(), 0);
    assert_eq!(opt.momentum_derivs().len(), 0);
    assert_eq!(opt.prev_derivs().len(), 0);
}

#[test]
fn min_subbatch_size_raises_initial_batch() {
    let opt: Cain<NopCb> = Cain::<NopCb>::new().min_subbatch_size(5).finish(1);
    assert_eq!(opt.batch_size(), 5 * SCALE);
}

#[test]
fn min_subbatch_size_keeps_larger_initial_batch() {
    let opt: Cain<NopCb> = Cain::<NopCb>::new()
        .initial_subbatch_size(fx(9.0))
        .min_subbatch_size(5)
        .finish(1);
    assert_eq!(opt.batch_size(), 9 * SCALE);
}

#[test]
fn initial_settings_carry_through() {
    let opt: Cain<NopCb> = Cain::<NopCb>::new()
        .initial_learning_rate(fx(0.5))
        .initial_subbatch_size(fx(3.0))
        .finish(2);
    assert_eq!(opt.learning_rate(), fx(0.5));
    assert_eq!(opt.batch_size(), 3 * SCALE);
}
