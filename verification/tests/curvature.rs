use cain::cain::{Cain, CallbackData, CallbackSignal, StepCallback};

struct NopCb;

impl StepCallback for NopCb {
    fn on_step(&mut self, _data: &CallbackData) -> CallbackSignal {
        CallbackSignal::Continue
    }
}

fn fx(x: f64) -> i64 {
    (x * 4294967296.0) as i64
}

#[test]
fn curvature_strictly_increases_toward_balance() {
    // A constant mean different from the (zero) momentum strictly raises
    // the curvature estimate on every call, while it is still well below
    // the squared deviation.
    let mut opt: Cain<NopCb> = Cain::<NopCb>::new().momentum(fx(0.9)).finish(1);
    let mean = vec![fx(1.0)];
    let mut last: i64 = 0;
    for _ in 0..60 {
        opt.update_curvature(&mean);
        let c = opt.curvature_est()[0];
        assert!(c > last);
        assert!(c <= fx(1.0));
        last = c;
    }
}

#[test]
fn curvature_decays_when_mean_equals_momentum() {
    // Once the mean coincides with the momentum the increment vanishes and
    // the estimate only decays.
    let mut opt: Cain<NopCb> = Cain::<NopCb>::new().momentum(fx(0.9)).finish(1);
    let mean = vec![fx(2.0)];
    opt.update_curvature(&mean);
    let high = opt.curvature_est()[0];
    assert!(high > 0);
    // Momentum is still zero, so a zero mean gives a zero deviation.
    let zero_mean = vec![0i64];
    opt.update_curvature(&zero_mean);
    assert!(opt.curvature_est()[0] < high);
}

#[test]
fn curvature_updates_every_coordinate_independently() {
    let mut opt: Cain<NopCb> = Cain::<NopCb>::new().momentum(fx(0.9)).finish(2);
    let mean = vec![fx(1.0), 0i64];
    opt.update_curvature(&mean);
    assert!(opt.curvature_est()[0] > 0);
    assert_eq!(opt.curvature_est()[1], 0);
}
