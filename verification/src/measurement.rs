//! The measurement model.
//!
//! A measurement keeps the accumulated elapsed time and the number of
//! operations it covers, so the per-operation mean is an exact rational
//! `total_ns / iterations` instead of a rounded quotient. The millisecond
//! reading is the same rational with its denominator scaled by one million,
//! so it equals the nanosecond reading divided by 1,000,000 exactly.

use vstd::prelude::*;

verus! {

/// Equality of the rationals `an / ad` and `bn / bd` (denominators positive).
pub open spec fn rat_eq(an: int, ad: int, bn: int, bd: int) -> bool {
    an * bd == bn * ad
}

/// One timing result: `total_ns` nanoseconds accumulated over `iterations`
/// operations.
///
/// Before normalization `iterations` counts timer-loop passes; after
/// [`BenchmarkResult::normalized`] it counts logical operations (timer
/// passes times the inner-loop repeat count). The same field carries both,
/// so the per-operation mean `total_ns / iterations` stays exact in either
/// reading.
#[derive(Clone, Copy, Debug)]
pub struct BenchmarkResult {
    /// Accumulated elapsed wall-clock time, in nanoseconds.
    pub total_ns: u128,
    /// How many operations `total_ns` covers.
    pub iterations: u64,
}

impl BenchmarkResult {
    /// Numerator of the mean time per operation; zero when nothing was
    /// measured.
    pub open spec fn time_ns_num(self) -> int {
        if self.iterations == 0 {
            0
        } else {
            self.total_ns as int
        }
    }

    /// Denominator of the mean time per operation, in nanoseconds.
    pub open spec fn time_ns_den(self) -> int {
        if self.iterations == 0 {
            1
        } else {
            self.iterations as int
        }
    }

    /// Denominator of the mean time per operation read in milliseconds.
    pub open spec fn time_ms_den(self) -> int {
        self.time_ns_den() * 1_000_000
    }

    /// The mean time per operation in nanoseconds, as an exact rational
    /// `(numerator, denominator)`.
    pub fn time_ns_parts(&self) -> (r: (u128, u64))
        ensures
            r.0 == self.time_ns_num(),
            r.1 == self.time_ns_den(),
    {
        if self.iterations == 0 {
            (0, 1)
        } else {
            (self.total_ns, self.iterations)
        }
    }

    /// The mean time per operation in milliseconds, as an exact rational
    /// `(numerator, denominator)`.
    pub fn time_ms_parts(&self) -> (r: (u128, u128))
        ensures
            r.0 == self.time_ns_num(),
            r.1 == self.time_ms_den(),
    {
        let (num, den) = self.time_ns_parts();
        (num, den as u128 * 1_000_000)
    }

    /// Spreads a raw measurement over `inner_iterations` inner repetitions
    /// of the operation inside each timer pass: the count grows by that
    /// factor and the per-operation mean shrinks by it.
    pub fn normalized(self, inner_iterations: u64) -> (r: BenchmarkResult)
        requires
            inner_iterations >= 1,
            self.iterations * inner_iterations <= u64::MAX,
        ensures
            r.total_ns == self.total_ns,
            r.iterations == self.iterations * inner_iterations,
            rat_eq(
                r.time_ns_num(),
                r.time_ns_den(),
                self.time_ns_num(),
                self.time_ns_den() * inner_iterations,
            ),
    {
        let r = BenchmarkResult { total_ns: self.total_ns, iterations: self.iterations * inner_iterations };
        proof {
            lemma_normalized_time(self, r, inner_iterations);
        }
        r
    }
}

proof fn lemma_normalized_time(raw: BenchmarkResult, r: BenchmarkResult, k: u64)
    requires
        k >= 1,
        r.total_ns == raw.total_ns,
        r.iterations == raw.iterations * k,
    ensures
        rat_eq(r.time_ns_num(), r.time_ns_den(), raw.time_ns_num(), raw.time_ns_den() * k),
{
    if raw.iterations == 0 {
        assert(r.iterations == 0) by (nonlinear_arith)
            requires r.iterations == raw.iterations * k, raw.iterations == 0;
    } else {
        assert(r.iterations > 0) by (nonlinear_arith)
            requires r.iterations == raw.iterations * k, raw.iterations >= 1, k >= 1;
    }
}

/// Every measurement's millisecond reading equals its nanosecond reading
/// divided by one million, exactly: as rationals,
/// `time_ms == time_ns / 1_000_000`.
pub proof fn lemma_time_ms_is_time_ns_over_million(m: BenchmarkResult)
    ensures
        rat_eq(m.time_ns_num(), m.time_ms_den(), m.time_ns_num(), m.time_ns_den() * 1_000_000),
{
}

} // verus!
