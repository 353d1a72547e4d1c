use regex_bench::export::render_table;
use regex_bench::export::to_json;
use regex_bench::export::BenchmarkResults;
use regex_bench::measurement::BenchmarkResult;
use regex_bench::store::ResultStore;

fn m(total_ns: u128, iterations: u64) -> BenchmarkResult {
    BenchmarkResult { total_ns, iterations }
}

fn results_of(store: ResultStore) -> BenchmarkResults {
    BenchmarkResults {
        engine: "eng".to_string(),
        timestamp: "2024-01-01T00:00:00+00:00".to_string(),
        results: store,
    }
}

#[test]
fn json_document_is_exact() {
    let mut store = ResultStore::new();
    assert!(store.insert("b".to_string(), m(2000, 2)));
    assert!(store.insert("a".to_string(), m(1, 1)));
    let json = to_json(&results_of(store));
    let expected = format!(
        "{}{}{}{}",
        "{\"engine\":\"eng\",\"timestamp\":\"2024-01-01T00:00:00+00:00\",\"results\":{",
        "\"a\":{\"time_ns\":1.00000000000000000,\"time_ms\":0.00000100000000000,\"iterations\":1},",
        "\"b\":{\"time_ns\":1000.00000000000000000,\"time_ms\":0.00100000000000000,\"iterations\":2}",
        "}}"
    );
    assert_eq!(json, expected);
}

#[test]
fn exchange_round_trip() {
    let mut store = ResultStore::new();
    assert!(store.insert("thirds".to_string(), m(1, 3)));
    assert!(store.insert("eighth".to_string(), m(1000, 8)));
    assert!(store.insert("empty".to_string(), m(0, 0)));
    let json = to_json(&results_of(store));

    let parsed: serde_json::Value = serde_json::from_str(&json).expect("export must parse back");
    assert_eq!(parsed["engine"].as_str(), Some("eng"));
    assert_eq!(parsed["timestamp"].as_str(), Some("2024-01-01T00:00:00+00:00"));
    let results = parsed["results"].as_object().expect("results object");
    assert_eq!(results.len(), 3);
    assert_eq!(results["thirds"]["time_ns"].as_f64(), Some(1.0 / 3.0));
    assert_eq!(results["thirds"]["iterations"].as_u64(), Some(3));
    assert_eq!(results["eighth"]["time_ns"].as_f64(), Some(125.0));
    assert_eq!(results["eighth"]["time_ms"].as_f64(), Some(0.000125));
    assert_eq!(results["eighth"]["iterations"].as_u64(), Some(8));
    assert_eq!(results["empty"]["time_ns"].as_f64(), Some(0.0));
    assert_eq!(results["empty"]["iterations"].as_u64(), Some(0));
}

#[test]
fn exported_names_are_escaped() {
    let mut store = ResultStore::new();
    let odd_name = "we\"ird\\name\nwith controls\t!".to_string();
    assert!(store.insert(odd_name.clone(), m(5, 1)));
    let json = to_json(&results_of(store));
    let parsed: serde_json::Value = serde_json::from_str(&json).expect("escaped export must parse");
    let results = parsed["results"].as_object().expect("results object");
    assert!(results.contains_key(&odd_name));
}

#[test]
fn export_order_is_lexicographic_regardless_of_insertion() {
    let mut forward = ResultStore::new();
    assert!(forward.insert("aa".to_string(), m(1, 1)));
    assert!(forward.insert("ab".to_string(), m(2, 1)));
    assert!(forward.insert("b".to_string(), m(3, 1)));
    let mut backward = ResultStore::new();
    assert!(backward.insert("b".to_string(), m(3, 1)));
    assert!(backward.insert("ab".to_string(), m(2, 1)));
    assert!(backward.insert("aa".to_string(), m(1, 1)));
    assert_eq!(to_json(&results_of(forward)), to_json(&results_of(backward)));
}

#[test]
fn table_layout_is_exact() {
    let mut store = ResultStore::new();
    assert!(store.insert("alpha".to_string(), m(2000, 2)));
    let table = render_table(&store);
    let expected = format!(
        "{}{}{}",
        "| name                      | met (ms)              | iters  |\n",
        "|---------------------------|-----------------------|--------|\n",
        format!("| {:<25} | {:>21} | {:>6} |\n", "alpha", "0.00100000000000000", 2),
    );
    assert_eq!(table, expected);
}

#[test]
fn table_rows_are_sorted_by_name() {
    let mut store = ResultStore::new();
    assert!(store.insert("zed".to_string(), m(1, 1)));
    assert!(store.insert("ape".to_string(), m(1, 1)));
    let table = render_table(&store);
    let ape = table.find("| ape").expect("ape row");
    let zed = table.find("| zed").expect("zed row");
    assert!(ape < zed);
}
