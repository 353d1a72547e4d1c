//! Rendering and export: the fixed-column result table and the JSON
//! exchange document.
//!
//! Both walk the store in its sorted order, so two stores with the same
//! contents render identically however their entries were inserted. Mean
//! times are exact rationals and are rendered by verified long division
//! with a fixed number of fractional digits; the only trusted call here is
//! the timestamp.

use vstd::prelude::*;
use vstd::string::StringExecFns;
use crate::measurement::BenchmarkResult;
use crate::store::ResultStore;
use crate::store::lemma_sorted_same_contents_equal;
use crate::store::sorted_by_name;
use crate::strfmt::dec_repr;
use crate::strfmt::json_escape;
use crate::strfmt::pad_left;
use crate::strfmt::pad_left_spec;
use crate::strfmt::pad_right;
use crate::strfmt::pad_right_spec;
use crate::strfmt::push_json_escaped;
use crate::strfmt::rat_decimal;
use crate::strfmt::rat_decimal_string;
use crate::strfmt::u64_to_dec;

verus! {

/// How many fractional digits a mean-time value keeps.
pub const TIME_DIGITS: usize = 17;

/// Relies on `std::time::SystemTime::now` for the clock reading and on
/// chrono's `DateTime::from_timestamp` and `DateTime::to_rfc3339` for the
/// rendering: the current UTC wall-clock time as an RFC 3339 string, or
/// the epoch placeholder when the clock reads outside the representable
/// range (so no path panics). The clock decides the value, so nothing is
/// claimed of it.
#[verifier::external_body]
fn utc_now_rfc3339() -> String {
    match std::time::SystemTime::now().duration_since(std::time::UNIX_EPOCH) {
        Ok(d) => {
            match chrono::DateTime::<chrono::Utc>::from_timestamp(d.as_secs() as i64, d.subsec_nanos()) {
                Some(t) => t.to_rfc3339(),
                None => "1970-01-01T00:00:00+00:00".to_string(),
            }
        },
        Err(_) => "1970-01-01T00:00:00+00:00".to_string(),
    }
}

/// The `time_ns` token of a measurement: its mean time per operation in
/// nanoseconds, in decimal; an empty measurement reads zero.
pub open spec fn time_ns_token(m: BenchmarkResult) -> Seq<char> {
    rat_decimal(m.time_ns_num(), m.time_ns_den(), TIME_DIGITS as nat)
}

/// The `time_ms` token of a measurement: the same mean in milliseconds.
pub open spec fn time_ms_token(m: BenchmarkResult) -> Seq<char> {
    rat_decimal(m.time_ns_num(), m.time_ms_den(), TIME_DIGITS as nat)
}

fn time_ns_token_exec(m: &BenchmarkResult) -> (r: String)
    ensures
        r@ == time_ns_token(*m),
{
    let (num, den) = m.time_ns_parts();
    rat_decimal_string(num, den as u128, TIME_DIGITS)
}

fn time_ms_token_exec(m: &BenchmarkResult) -> (r: String)
    ensures
        r@ == time_ms_token(*m),
{
    let (num, den) = m.time_ms_parts();
    rat_decimal_string(num, den, TIME_DIGITS)
}

/// One result object in the export: `"name":{"time_ns":…,"time_ms":…,"iterations":…}`.
pub open spec fn json_entry(name: Seq<char>, m: BenchmarkResult) -> Seq<char> {
    "\""@ + json_escape(name) + "\":{\"time_ns\":"@ + time_ns_token(m) + ",\"time_ms\":"@
        + time_ms_token(m) + ",\"iterations\":"@ + dec_repr(m.iterations as nat) + "}"@
}

/// The comma-separated entry list, in store order.
pub open spec fn json_results_body(entries: Seq<(Seq<char>, BenchmarkResult)>) -> Seq<char>
    decreases entries.len(),
{
    if entries.len() == 0 {
        Seq::empty()
    } else if entries.len() == 1 {
        json_entry(entries[0].0, entries[0].1)
    } else {
        json_results_body(entries.drop_last()) + ","@ + json_entry(
            entries.last().0,
            entries.last().1,
        )
    }
}

/// The whole exchange document.
pub open spec fn json_document(
    engine: Seq<char>,
    timestamp: Seq<char>,
    entries: Seq<(Seq<char>, BenchmarkResult)>,
) -> Seq<char> {
    "{\"engine\":\""@ + json_escape(engine) + "\",\"timestamp\":\""@ + json_escape(timestamp)
        + "\",\"results\":{"@ + json_results_body(entries) + "}}"@
}

/// A complete result set ready for export: which engine produced it, when,
/// and the named measurements.
pub struct BenchmarkResults {
    pub engine: String,
    pub timestamp: String,
    pub results: ResultStore,
}

impl ResultStore {
    /// Packs the store for export under `engine`, stamped with the current
    /// UTC time.
    pub fn to_exchange_format(self, engine: &str) -> (r: BenchmarkResults)
        ensures
            r.engine@ == engine@,
            r.results == self,
    {
        BenchmarkResults {
            engine: engine.to_owned(),
            timestamp: utc_now_rfc3339(),
            results: self,
        }
    }
}

fn push_json_entry(out: &mut String, name: &str, m: &BenchmarkResult)
    ensures
        final(out)@ == old(out)@ + json_entry(name@, *m),
{
    out.append("\"");
    push_json_escaped(out, name);
    out.append("\":{\"time_ns\":");
    let ns = time_ns_token_exec(m);
    out.append(ns.as_str());
    out.append(",\"time_ms\":");
    let ms = time_ms_token_exec(m);
    out.append(ms.as_str());
    out.append(",\"iterations\":");
    let it = u64_to_dec(m.iterations);
    out.append(it.as_str());
    out.append("}");
    proof {
        assert(final(out)@ =~= old(out)@ + json_entry(name@, *m));
    }
}

/// Serializes a result set to the exchange document: a single JSON object
/// with the engine, the timestamp, and one numeric record per scenario, in
/// the store's sorted name order.
pub fn to_json(results: &BenchmarkResults) -> (r: String)
    ensures
        r@ == json_document(results.engine@, results.timestamp@, results.results@),
{
    let mut out = String::new();
    out.append("{\"engine\":\"");
    push_json_escaped(&mut out, results.engine.as_str());
    out.append("\",\"timestamp\":\"");
    push_json_escaped(&mut out, results.timestamp.as_str());
    out.append("\",\"results\":{");
    let ghost prefix = out@;
    let n = results.results.len();
    let mut i: usize = 0;
    while i < n
        invariant
            n == results.results@.len(),
            i <= n,
            out@ == prefix + json_results_body(results.results@.take(i as int)),
        decreases n - i,
    {
        if i > 0 {
            out.append(",");
        }
        let name = results.results.name_at(i);
        let m = results.results.result_at(i);
        push_json_entry(&mut out, name.as_str(), &m);
        proof {
            let entries = results.results@;
            assert(entries.take(i as int + 1).drop_last() =~= entries.take(i as int));
            assert(entries.take(i as int + 1).last() == entries[i as int]);
            assert(out@ =~= prefix + json_results_body(entries.take(i as int + 1)));
        }
        i = i + 1;
    }
    out.append("}}");
    proof {
        assert(results.results@.take(n as int) =~= results.results@);
        assert(out@ =~= json_document(
            results.engine@,
            results.timestamp@,
            results.results@,
        ));
    }
    out
}

/// Two well-formed stores holding the same entries export the same entry
/// list and render the same rows, however their entries were inserted.
pub proof fn lemma_output_independent_of_insertion_order(
    s1: Seq<(Seq<char>, BenchmarkResult)>,
    s2: Seq<(Seq<char>, BenchmarkResult)>,
)
    requires
        sorted_by_name(s1),
        sorted_by_name(s2),
        forall|p: (Seq<char>, BenchmarkResult)| #[trigger] s1.contains(p) <==> s2.contains(p),
    ensures
        json_results_body(s1) == json_results_body(s2),
        table_rows(s1) == table_rows(s2),
{
    lemma_sorted_same_contents_equal(s1, s2);
}

/// The millisecond column of one table row: the mean in milliseconds,
/// right-aligned to 21 columns.
pub open spec fn ms_cell(m: BenchmarkResult) -> Seq<char> {
    pad_left_spec(time_ms_token(m), 21)
}

/// One table row: name, mean milliseconds, and iteration count.
pub open spec fn table_row(name: Seq<char>, m: BenchmarkResult) -> Seq<char> {
    "| "@ + pad_right_spec(name, 25) + " | "@ + ms_cell(m) + " | "@ + pad_left_spec(
        dec_repr(m.iterations as nat),
        6,
    ) + " |\n"@
}

/// All table rows, in store order.
pub open spec fn table_rows(entries: Seq<(Seq<char>, BenchmarkResult)>) -> Seq<char>
    decreases entries.len(),
{
    if entries.len() == 0 {
        Seq::empty()
    } else {
        table_rows(entries.drop_last()) + table_row(entries.last().0, entries.last().1)
    }
}

/// The table's two header lines.
pub open spec fn table_header() -> Seq<char> {
    "| name                      | met (ms)              | iters  |\n|---------------------------|-----------------------|--------|\n"@
}

fn push_table_row(out: &mut String, name: &str, m: &BenchmarkResult)
    ensures
        final(out)@ == old(out)@ + table_row(name@, *m),
{
    out.append("| ");
    let padded = pad_right(name, 25);
    out.append(padded.as_str());
    out.append(" | ");
    let token = time_ms_token_exec(m);
    let cell = pad_left(token.as_str(), 21);
    out.append(cell.as_str());
    out.append(" | ");
    let dec = u64_to_dec(m.iterations);
    let it = pad_left(dec.as_str(), 6);
    out.append(it.as_str());
    out.append(" |\n");
    proof {
        assert(final(out)@ =~= old(out)@ + table_row(name@, *m));
    }
}

/// Renders the fixed-column result table, one row per scenario in sorted
/// name order.
pub fn render_table(store: &ResultStore) -> (r: String)
    ensures
        r@ == table_header() + table_rows(store@),
{
    let mut out = String::new();
    out.append(
        "| name                      | met (ms)              | iters  |\n|---------------------------|-----------------------|--------|\n",
    );
    let ghost prefix = out@;
    proof {
        assert(prefix =~= table_header());
    }
    let n = store.len();
    let mut i: usize = 0;
    proof {
        assert(out@ =~= prefix + table_rows(store@.take(0)));
    }
    while i < n
        invariant
            n == store@.len(),
            i <= n,
            prefix == table_header(),
            out@ == prefix + table_rows(store@.take(i as int)),
        decreases n - i,
    {
        let name = store.name_at(i);
        let m = store.result_at(i);
        push_table_row(&mut out, name.as_str(), &m);
        proof {
            assert(store@.take(i as int + 1).drop_last() =~= store@.take(i as int));
            assert(store@.take(i as int + 1).last() == store@[i as int]);
            assert(out@ =~= prefix + table_rows(store@.take(i as int + 1)));
        }
        i = i + 1;
    }
    proof {
        assert(store@.take(n as int) =~= store@);
    }
    out
}

} // verus!
