use regex_bench::measurement::BenchmarkResult;
use regex_bench::store::ResultStore;

fn m(total_ns: u128, iterations: u64) -> BenchmarkResult {
    BenchmarkResult { total_ns, iterations }
}

#[test]
fn insert_keeps_names_sorted() {
    let mut store = ResultStore::new();
    assert!(store.insert("delta".to_string(), m(4, 1)));
    assert!(store.insert("alpha".to_string(), m(1, 1)));
    assert!(store.insert("charlie".to_string(), m(3, 1)));
    assert!(store.insert("bravo".to_string(), m(2, 1)));
    assert_eq!(store.len(), 4);
    let names: Vec<String> = (0..store.len()).map(|i| store.name_at(i)).collect();
    assert_eq!(names, vec!["alpha", "bravo", "charlie", "delta"]);
    // Each measurement followed its name.
    assert_eq!(store.result_at(0).total_ns, 1);
    assert_eq!(store.result_at(3).total_ns, 4);
}

#[test]
fn duplicate_name_is_rejected() {
    let mut store = ResultStore::new();
    assert!(store.insert("same".to_string(), m(10, 1)));
    assert!(!store.insert("same".to_string(), m(99, 1)));
    assert_eq!(store.len(), 1);
    // The first measurement stands; nothing was overwritten or averaged.
    assert_eq!(store.result_at(0).total_ns, 10);
    assert_eq!(store.name_at(0), "same");
}

#[test]
fn sorting_compares_scalar_values_and_prefixes() {
    let mut store = ResultStore::new();
    assert!(store.insert("abc".to_string(), m(1, 1)));
    assert!(store.insert("ab".to_string(), m(2, 1)));
    assert!(store.insert("\u{e9}".to_string(), m(3, 1)));
    assert!(store.insert("zz".to_string(), m(4, 1)));
    // A proper prefix sorts first; a non-ASCII scalar above 'z' sorts last.
    assert_eq!(store.name_at(0), "ab");
    assert_eq!(store.name_at(1), "abc");
    assert_eq!(store.name_at(2), "zz");
    assert_eq!(store.name_at(3), "\u{e9}");
}

#[test]
fn order_of_insertion_does_not_matter() {
    let entries = [
        ("literal_match_short", m(5, 2)),
        ("anchor_start", m(7, 3)),
        ("wildcard_match_any", m(1, 1)),
        ("range_digits", m(2, 4)),
    ];
    let mut forward = ResultStore::new();
    for (name, v) in entries.iter() {
        assert!(forward.insert(name.to_string(), *v));
    }
    let mut backward = ResultStore::new();
    for (name, v) in entries.iter().rev() {
        assert!(backward.insert(name.to_string(), *v));
    }
    assert_eq!(forward.len(), backward.len());
    for i in 0..forward.len() {
        assert_eq!(forward.name_at(i), backward.name_at(i));
        assert_eq!(forward.result_at(i).total_ns, backward.result_at(i).total_ns);
        assert_eq!(forward.result_at(i).iterations, backward.result_at(i).iterations);
    }
}
