use cain::cain::{Cain, CallbackData, CallbackSignal, Graph, StepCallback, Supplier};
use std::sync::{Arc, Mutex};

fn fx(x: f64) -> i64 {
    (x * 4294967296.0) as i64
}

struct QuadGraph {
    target: i64,
}

impl Graph for QuadGraph {
    fn num_params(&self) -> usize {
        1
    }

    fn backprop(
        &mut self,
        batch_size: usize,
        _inputs: Vec<i64>,
        _targets: Vec<i64>,
        params: &Vec<i64>,
    ) -> (i64, Vec<i64>) {
        let p = params[0];
        let diff = p - self.target;
        let b = batch_size as i64;
        (0, vec![2 * diff * b])
    }
}

struct CountSupplier {
    taken: u64,
}

impl Supplier for CountSupplier {
    fn next_n(&mut self, count: usize) -> (Vec<i64>, Vec<i64>) {
        self.taken += count as u64;
        (vec![0; count], vec![0; count])
    }

    fn samples_taken(&self) -> u64 {
        self.taken
    }
}

/// Stops after a fixed number of invocations, checking the snapshot on the
/// way: after the k-th step the callback sees a step count of k.
struct StopAfter {
    seen: u64,
    limit: u64,
}

impl StepCallback for StopAfter {
    fn on_step(&mut self, data: &CallbackData) -> CallbackSignal {
        self.seen += 1;
        assert_eq!(data.step_count, self.seen);
        assert_eq!(data.params.len(), 1);
        if self.seen >= self.limit {
            CallbackSignal::Stop
        } else {
            CallbackSignal::Continue
        }
    }
}

#[test]
fn stop_on_first_invocation_means_one_step() {
    let mut opt: Cain<StopAfter> = Cain::<StopAfter>::new().num_subbatches(2).finish(1);
    opt.add_boxed_step_callback(StopAfter { seen: 0, limit: 1 });
    let mut graph = QuadGraph { target: fx(3.0) };
    let mut supplier = CountSupplier { taken: 0 };
    let out = opt.optimise_from(&mut graph, &mut supplier, vec![0i64]);
    assert_eq!(opt.step_count(), 1);
    assert_eq!(out.len(), 1);
}

#[test]
fn loop_runs_until_a_callback_stops() {
    let mut opt: Cain<StopAfter> = Cain::<StopAfter>::new().num_subbatches(2).finish(1);
    opt.add_boxed_step_callback(StopAfter { seen: 0, limit: 3 });
    let mut graph = QuadGraph { target: fx(3.0) };
    let mut supplier = CountSupplier { taken: 0 };
    let _ = opt.optimise_from(&mut graph, &mut supplier, vec![0i64]);
    assert_eq!(opt.step_count(), 3);
}

/// Appends its identifier to a shared log on every invocation, optionally
/// asking the loop to stop.
struct OrderCb {
    id: u8,
    stop: bool,
    log: Arc<Mutex<Vec<u8>>>,
}

impl StepCallback for OrderCb {
    fn on_step(&mut self, _data: &CallbackData) -> CallbackSignal {
        self.log.lock().unwrap().push(self.id);
        if self.stop {
            CallbackSignal::Stop
        } else {
            CallbackSignal::Continue
        }
    }
}

#[test]
fn every_callback_of_the_round_still_runs_in_order() {
    // The first callback stops immediately; the round's remaining callback
    // is still invoked, in registration order, before the loop exits.
    let log: Arc<Mutex<Vec<u8>>> = Arc::new(Mutex::new(Vec::new()));
    let mut opt: Cain<OrderCb> = Cain::<OrderCb>::new().num_subbatches(2).finish(1);
    opt.add_boxed_step_callback(OrderCb { id: 1, stop: true, log: Arc::clone(&log) });
    opt.add_boxed_step_callback(OrderCb { id: 2, stop: false, log: Arc::clone(&log) });
    let mut graph = QuadGraph { target: fx(3.0) };
    let mut supplier = CountSupplier { taken: 0 };
    let _ = opt.optimise_from(&mut graph, &mut supplier, vec![0i64]);
    assert_eq!(opt.step_count(), 1);
    assert_eq!(*log.lock().unwrap(), vec![1u8, 2u8]);
}

#[test]
fn run_returns_moved_parameters() {
    let mut opt: Cain<StopAfter> = Cain::<StopAfter>::new()
        .num_subbatches(2)
        .initial_learning_rate(fx(0.01))
        .finish(1);
    opt.add_boxed_step_callback(StopAfter { seen: 0, limit: 2 });
    let mut graph = QuadGraph { target: fx(3.0) };
    let mut supplier = CountSupplier { taken: 0 };
    let out = opt.optimise_from(&mut graph, &mut supplier, vec![0i64]);
    assert!(out[0] > 0);
}
