use regex_bench::measurement::BenchmarkResult;

#[test]
fn normalization_scales_iterations_and_keeps_total() {
    let raw = BenchmarkResult { total_ns: 1000, iterations: 10 };
    let normalized = raw.normalized(4);
    assert_eq!(normalized.total_ns, 1000);
    assert_eq!(normalized.iterations, 40);
    // Per-operation mean went from 1000/10 to 1000/40: divided by 4.
    assert_eq!(normalized.time_ns_parts(), (1000, 40));
}

#[test]
fn normalization_by_one_changes_nothing() {
    let raw = BenchmarkResult { total_ns: 12345, iterations: 7 };
    let normalized = raw.normalized(1);
    assert_eq!(normalized.total_ns, 12345);
    assert_eq!(normalized.iterations, 7);
}

#[test]
fn time_ms_is_time_ns_over_a_million() {
    for m in [
        BenchmarkResult { total_ns: 1000, iterations: 10 },
        BenchmarkResult { total_ns: 1, iterations: 3 },
        BenchmarkResult { total_ns: 0, iterations: 0 },
        BenchmarkResult { total_ns: u64::MAX as u128, iterations: u64::MAX },
    ] {
        let (ns_num, ns_den) = m.time_ns_parts();
        let (ms_num, ms_den) = m.time_ms_parts();
        assert_eq!(ms_num, ns_num);
        assert_eq!(ms_den, ns_den as u128 * 1_000_000);
    }
}

#[test]
fn empty_measurement_reads_zero() {
    let m = BenchmarkResult { total_ns: 0, iterations: 0 };
    assert_eq!(m.time_ns_parts(), (0, 1));
    assert_eq!(m.time_ms_parts(), (0, 1_000_000));
}

#[test]
fn mean_as_float_matches_parts() {
    let m = BenchmarkResult { total_ns: 1000, iterations: 8 };
    let (num, den) = m.time_ns_parts();
    assert_eq!(num as f64 / den as f64, 125.0);
}
