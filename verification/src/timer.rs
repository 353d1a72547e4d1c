//! Adaptive wall-clock timing.
//!
//! The timer measures an operation without a fixed iteration count: after a
//! few discarded warmup calls it keeps sampling until the accumulated
//! elapsed time reaches the target runtime or the pass count reaches its
//! cap, whichever comes first. Fast operations therefore get many samples,
//! and pathologically slow ones stop after few calls.

use vstd::prelude::*;
use crate::measurement::BenchmarkResult;

verus! {

/// One measurable operation. The timer only counts and clocks calls of
/// `run`; it assumes nothing about what `run` does, and a failure inside
/// `run` propagates uncaught.
pub trait BenchOp {
    fn run(&mut self);
}

#[verifier::external_type_specification]
#[verifier::external_body]
pub struct ExInstant(std::time::Instant);

/// The largest value `Duration::as_nanos` can return: a `Duration` holds at
/// most `u64::MAX` whole seconds plus a fractional second.
pub open spec fn max_elapsed_ns() -> int {
    0xffff_ffff_ffff_ffffint * 1_000_000_000 + 999_999_999
}

/// Relies on `std::time::Instant::now`: an opaque reading of the monotonic
/// clock. Nothing is promised of the reading itself.
#[verifier::external_body]
fn instant_now() -> std::time::Instant {
    std::time::Instant::now()
}

/// Relies on `std::time::Instant::elapsed`: the time since `start`, as an
/// opaque `Duration`. Nothing is promised of the value.
#[verifier::external_body]
fn instant_elapsed(start: &std::time::Instant) -> std::time::Duration {
    start.elapsed()
}

/// Relies on `std::time::Duration::as_nanos`: the duration in whole
/// nanoseconds, which its documentation bounds by `u64::MAX` seconds plus
/// `999_999_999` nanoseconds.
#[verifier::external_body]
fn duration_as_nanos(d: &std::time::Duration) -> (r: u128)
    ensures
        r <= max_elapsed_ns(),
{
    d.as_nanos()
}

/// The sampling loop's stopping condition: enough accumulated time, or the
/// pass cap reached.
pub open spec fn sampling_done(timer: BenchmarkTimer, total_ns: int, iterations: int) -> bool {
    total_ns >= timer.target_runtime_ns || iterations >= timer.max_iterations
}

/// A single invocation that takes at least the whole target runtime ends
/// the sampling loop after exactly one pass.
pub proof fn lemma_slow_call_stops_after_one(timer: BenchmarkTimer, elapsed: u128)
    requires
        elapsed >= timer.target_runtime_ns,
    ensures
        sampling_done(timer, elapsed as int, 1),
{
}

/// Adaptive timing configuration: how long to keep sampling, how many
/// passes at most, and how many discarded warmup calls come first.
pub struct BenchmarkTimer {
    pub target_runtime_ns: u64,
    pub max_iterations: u64,
    pub warmup_runs: u64,
}

impl BenchmarkTimer {
    /// The default configuration: a 100 ms target runtime, at most 100,000
    /// passes, and 3 warmup calls.
    pub fn new() -> (r: Self)
        ensures
            r.target_runtime_ns == 100_000_000,
            r.max_iterations == 100_000,
            r.warmup_runs == 3,
    {
        Self { target_runtime_ns: 100_000_000, max_iterations: 100_000, warmup_runs: 3 }
    }

    /// A timer with explicit bounds, so callers (and tests) can inject tiny
    /// ones.
    pub fn with_config(target_runtime_ns: u64, max_iterations: u64, warmup_runs: u64) -> (r: Self)
        ensures
            r.target_runtime_ns == target_runtime_ns,
            r.max_iterations == max_iterations,
            r.warmup_runs == warmup_runs,
    {
        Self { target_runtime_ns, max_iterations, warmup_runs }
    }

    /// Runs `op` `warmup_runs` times discarding the timings, then samples it
    /// until the accumulated elapsed time reaches `target_runtime_ns` or the
    /// pass count reaches `max_iterations`, whichever comes first.
    ///
    /// The result's `iterations` counts timer passes; its `total_ns` is the
    /// sum of the sampled elapsed times, so the mean per pass is the exact
    /// rational `total_ns / iterations`.
    pub fn bench_function<T: BenchOp>(&self, op: &mut T) -> (r: BenchmarkResult)
        ensures
            r.iterations <= self.max_iterations,
            r.iterations == 0 ==> r.total_ns == 0,
            sampling_done(*self, r.total_ns as int, r.iterations as int),
            self.max_iterations > 0 && self.target_runtime_ns > 0 ==> r.iterations >= 1,
            r.iterations > 0 ==> exists|prev: u128|
                prev <= r.total_ns && !(#[trigger] sampling_done(*self, prev as int, r.iterations - 1)),
            r.total_ns <= r.iterations * max_elapsed_ns(),
            r.total_ns < self.target_runtime_ns + max_elapsed_ns(),
    {
        let mut w: u64 = 0;
        while w < self.warmup_runs
            invariant
                w <= self.warmup_runs,
            decreases self.warmup_runs - w,
        {
            op.run();
            w = w + 1;
        }

        let mut total_ns: u128 = 0;
        let mut iterations: u64 = 0;
        while total_ns < self.target_runtime_ns as u128 && iterations < self.max_iterations
            invariant
                iterations <= self.max_iterations,
                iterations == 0 ==> total_ns == 0,
                iterations > 0 ==> exists|prev: u128|
                    prev <= total_ns && !(#[trigger] sampling_done(*self, prev as int, iterations - 1)),
                total_ns <= iterations * max_elapsed_ns(),
                total_ns < self.target_runtime_ns + max_elapsed_ns(),
            decreases self.max_iterations - iterations,
        {
            let ghost total_before = total_ns;
            let start = instant_now();
            op.run();
            let d = instant_elapsed(&start);
            let elapsed = duration_as_nanos(&d);
            total_ns = total_ns + elapsed;
            iterations = iterations + 1;
            proof {
                assert(total_before <= total_ns
                    && !sampling_done(*self, total_before as int, iterations - 1));
                assert(iterations * max_elapsed_ns() == (iterations - 1) * max_elapsed_ns()
                    + max_elapsed_ns()) by (nonlinear_arith);
            }
        }

        BenchmarkResult { total_ns, iterations }
    }
}

} // verus!
