use regex_bench::errors::BenchError;
use regex_bench::measurement::BenchmarkResult;
use regex_bench::scenario::run_suite;
use regex_bench::scenario::OperationKind;
use regex_bench::scenario::Scenario;
use regex_bench::store::ResultStore;
use regex_bench::suite::standard_suite;
use regex_bench::timer::BenchmarkTimer;

fn scenario(name: &str, kind: OperationKind, pattern: &str, text: &str, inner: u64) -> Scenario {
    Scenario {
        name: name.to_string(),
        kind,
        pattern: pattern.to_string(),
        text: text.to_string(),
        inner_iterations: inner,
    }
}

fn tiny_timer() -> BenchmarkTimer {
    // One nanosecond of target runtime: every scenario stops after one
    // timed pass.
    BenchmarkTimer::with_config(1, 2, 0)
}

#[test]
fn empty_suite_succeeds_with_empty_store() {
    let store = run_suite(&tiny_timer(), &Vec::new()).expect("nothing can fail on an empty suite");
    assert_eq!(store.len(), 0);
}

#[test]
fn duplicate_error_description_names_the_culprit() {
    let scenarios = vec![
        scenario("twice", OperationKind::IsMatch, "a", "aa", 1),
        scenario("twice", OperationKind::IsMatch, "a", "aa", 1),
    ];
    match run_suite(&tiny_timer(), &scenarios) {
        Err(err) => assert_eq!(err.describe(), "duplicate scenario name: twice"),
        Ok(_) => panic!("duplicates must be rejected"),
    }
}

#[test]
fn compile_error_prevents_any_scenario_from_running() {
    let scenarios = vec![
        scenario("fine", OperationKind::IsMatch, "a+", "aaa", 1),
        scenario("broken", OperationKind::IsMatch, "(", "aaa", 1),
    ];
    match run_suite(&tiny_timer(), &scenarios) {
        Err(BenchError::Compile(e)) => {
            assert_eq!(e.pattern, "(");
            assert!(!e.message.is_empty());
        }
        Err(_) => panic!("expected a compile error"),
        Ok(_) => panic!("an invalid pattern must abort the suite"),
    }
}

#[test]
fn duplicate_scenario_name_is_reported() {
    let scenarios = vec![
        scenario("same", OperationKind::IsMatch, "a", "aaa", 1),
        scenario("same", OperationKind::Search, "b", "bbb", 1),
    ];
    match run_suite(&tiny_timer(), &scenarios) {
        Err(BenchError::DuplicateName(n)) => assert_eq!(n, "same"),
        Err(_) => panic!("expected a duplicate-name error"),
        Ok(_) => panic!("duplicate names must be rejected"),
    }
}

#[test]
fn suite_measures_each_kind() {
    let scenarios = vec![
        scenario("containment", OperationKind::IsMatch, "ab+", "xxabbbxx", 4),
        scenario("leftmost", OperationKind::Search, "[0-9]+", "no digits 123 here 456", 2),
        scenario("enumerate", OperationKind::FindAll, "a", "banana", 3),
    ];
    let timer = tiny_timer();
    let store = run_suite(&timer, &scenarios).expect("valid suite must run");
    assert_eq!(store.len(), 3);
    // Sorted by name, not by insertion.
    assert_eq!(store.name_at(0), "containment");
    assert_eq!(store.name_at(1), "enumerate");
    assert_eq!(store.name_at(2), "leftmost");
    for i in 0..store.len() {
        let m: BenchmarkResult = store.result_at(i);
        let inner = scenarios
            .iter()
            .find(|sc| sc.name == store.name_at(i))
            .unwrap()
            .inner_iterations;
        // Normalized: logical calls are timer passes times the inner count.
        assert_eq!(m.iterations % inner, 0);
        let passes = m.iterations / inner;
        assert!(passes >= 1);
        assert!(passes <= timer.max_iterations);
    }
}

#[test]
fn error_descriptions_identify_the_stage() {
    let compile = run_suite(
        &tiny_timer(),
        &vec![scenario("bad", OperationKind::IsMatch, "[", "x", 1)],
    );
    match compile {
        Err(e) => {
            let text = e.describe();
            assert!(text.starts_with("pattern failed to compile: "));
            assert!(text.ends_with("["));
        }
        Ok(_) => panic!("expected failure"),
    }
}

#[test]
fn standard_suite_is_well_formed() {
    let scenarios = standard_suite();
    assert_eq!(scenarios.len(), 38);
    // Names are unique: inserting them all into a store succeeds.
    let mut names = ResultStore::new();
    for sc in &scenarios {
        assert!(sc.inner_iterations >= 1);
        assert!(sc.inner_iterations <= 2000);
        assert!(names.insert(sc.name.clone(), BenchmarkResult { total_ns: 0, iterations: 0 }));
    }
    // Every pattern of the standard suite compiles.
    for sc in &scenarios {
        assert!(regex::Regex::new(&sc.pattern).is_ok(), "pattern {} must compile", sc.pattern);
    }
}

#[test]
fn standard_suite_runs_under_a_tiny_timer() {
    let timer = BenchmarkTimer::with_config(1, 1, 0);
    let scenarios = standard_suite();
    let store = run_suite(&timer, &scenarios).expect("standard suite must run");
    assert_eq!(store.len(), 38);
    assert_eq!(store.name_at(0), "alternation_common_prefix");
    for i in 0..store.len() - 1 {
        assert!(store.name_at(i) < store.name_at(i + 1));
    }
}
