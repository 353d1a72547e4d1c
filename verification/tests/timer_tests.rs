use regex_bench::measurement::BenchmarkResult;
use regex_bench::timer::BenchOp;
use regex_bench::timer::BenchmarkTimer;

struct CountingOp {
    calls: u64,
}

impl BenchOp for CountingOp {
    fn run(&mut self) {
        self.calls += 1;
    }
}

struct BusyOp;

impl BenchOp for BusyOp {
    fn run(&mut self) {
        let s = regex_bench::corpus::make_test_string(10000, "ab");
        assert_eq!(s.len(), 10000);
    }
}

#[test]
fn stops_at_iteration_cap() {
    // An effectively unreachable target: only the cap can stop the loop.
    let timer = BenchmarkTimer::with_config(u64::MAX, 50, 3);
    let mut op = CountingOp { calls: 0 };
    let r = timer.bench_function(&mut op);
    assert_eq!(r.iterations, 50);
    assert_eq!(op.calls, 50 + 3);
}

#[test]
fn warmup_calls_are_not_counted() {
    let timer = BenchmarkTimer::with_config(u64::MAX, 1, 5);
    let mut op = CountingOp { calls: 0 };
    let r = timer.bench_function(&mut op);
    assert_eq!(r.iterations, 1);
    assert_eq!(op.calls, 5 + 1);
}

#[test]
fn zero_cap_measures_nothing() {
    let timer = BenchmarkTimer::with_config(u64::MAX, 0, 0);
    let mut op = CountingOp { calls: 0 };
    let r = timer.bench_function(&mut op);
    assert_eq!(r.iterations, 0);
    assert_eq!(r.total_ns, 0);
    assert_eq!(op.calls, 0);
}

#[test]
fn slow_call_stops_after_one_pass() {
    // Any call slower than one nanosecond already reaches the target.
    let timer = BenchmarkTimer::with_config(1, 100_000, 0);
    let mut op = BusyOp;
    let r = timer.bench_function(&mut op);
    assert_eq!(r.iterations, 1);
    assert!(r.total_ns >= 1);
}

#[test]
fn default_config_bounds_fast_operations() {
    // A sub-microsecond operation with the default 100 ms target: the run
    // ends at the cap or at the target, never loops forever.
    let timer = BenchmarkTimer::new();
    let mut op = CountingOp { calls: 0 };
    let r: BenchmarkResult = timer.bench_function(&mut op);
    assert!(r.iterations >= 1);
    assert!(r.iterations <= 100_000);
    assert!(r.iterations == 100_000 || r.total_ns >= 100_000_000);
}

#[test]
fn default_configuration_values() {
    let timer = BenchmarkTimer::new();
    assert_eq!(timer.target_runtime_ns, 100_000_000);
    assert_eq!(timer.max_iterations, 100_000);
    assert_eq!(timer.warmup_runs, 3);
}
