//! Scenario running: one named timing unit wires an operation kind, a
//! compiled pattern, a corpus and an inner repeat count to the adaptive
//! timer, and the normalized measurement goes into the store.

use vstd::prelude::*;
use vstd::arithmetic::div_mod::lemma_div_multiples_vanish;
use vstd::arithmetic::div_mod::lemma_mod_multiples_basic;
use vstd::arithmetic::mul::lemma_mul_inequality;
use crate::errors::BenchError;
use crate::measurement::BenchmarkResult;
use crate::pattern::compile_pattern;
use crate::pattern::pattern_compiles;
use crate::pattern::force_value;
use crate::pattern::regex_find;
use crate::pattern::regex_find_count;
use crate::pattern::regex_is_match;
use crate::store::ResultStore;
use crate::store::contains_name;
use crate::timer::BenchOp;
use crate::timer::BenchmarkTimer;
use crate::timer::max_elapsed_ns;
use crate::timer::sampling_done;

verus! {

/// What a scenario asks of the matching collaborator.
#[derive(Clone, Copy, Debug, PartialEq, Eq, Structural)]
pub enum OperationKind {
    /// A boolean containment check.
    IsMatch,
    /// The leftmost match span, or none.
    Search,
    /// All non-overlapping leftmost matches, counted.
    FindAll,
}

/// One named timing unit: operation kind, pattern, corpus, and the inner
/// repeat count that amortizes per-call overhead for very fast operations.
pub struct Scenario {
    pub name: String,
    pub kind: OperationKind,
    pub pattern: String,
    pub text: String,
    pub inner_iterations: u64,
}

/// The operation one timer pass executes: `inner_iterations` matching
/// calls, each result consumed by [`force_value`] so the call cannot be
/// optimized away.
struct ScenarioOp<'a> {
    kind: OperationKind,
    regex: &'a regex::Regex,
    text: &'a str,
    inner_iterations: u64,
}

impl<'a> BenchOp for ScenarioOp<'a> {
    fn run(&mut self) {
        let mut i: u64 = 0;
        while i < self.inner_iterations
            decreases self.inner_iterations - i,
        {
            match self.kind {
                OperationKind::IsMatch => {
                    force_value(regex_is_match(self.regex, self.text));
                },
                OperationKind::Search => {
                    force_value(regex_find(self.regex, self.text));
                },
                OperationKind::FindAll => {
                    force_value(regex_find_count(self.regex, self.text));
                },
            }
            i = i + 1;
        }
    }
}

/// Times one scenario against its compiled pattern and normalizes the raw
/// measurement: afterwards `iterations` counts logical matching calls
/// (timer passes times `inner_iterations`), and the per-call mean time is
/// the raw per-pass mean divided by `inner_iterations`.
pub fn run_scenario(timer: &BenchmarkTimer, regex: &regex::Regex, scenario: &Scenario) -> (r:
    BenchmarkResult)
    requires
        scenario.inner_iterations >= 1,
        timer.max_iterations * scenario.inner_iterations <= u64::MAX,
    ensures
        r.iterations % scenario.inner_iterations == 0,
        r.iterations / scenario.inner_iterations <= timer.max_iterations,
        sampling_done(
            *timer,
            r.total_ns as int,
            r.iterations as int / scenario.inner_iterations as int,
        ),
        timer.max_iterations > 0 && timer.target_runtime_ns > 0 ==> r.iterations
            >= scenario.inner_iterations,
        r.iterations == 0 ==> r.total_ns == 0,
        r.total_ns <= r.iterations * max_elapsed_ns(),
        r.total_ns < timer.target_runtime_ns + max_elapsed_ns(),
{
    let mut op = ScenarioOp {
        kind: scenario.kind,
        regex,
        text: scenario.text.as_str(),
        inner_iterations: scenario.inner_iterations,
    };
    let raw = timer.bench_function(&mut op);
    proof {
        lemma_mul_inequality(
            raw.iterations as int,
            timer.max_iterations as int,
            scenario.inner_iterations as int,
        );
    }
    let r = raw.normalized(scenario.inner_iterations);
    proof {
        let k = scenario.inner_iterations as int;
        lemma_div_multiples_vanish(raw.iterations as int, k);
        lemma_mod_multiples_basic(raw.iterations as int, k);
        if timer.max_iterations > 0 && timer.target_runtime_ns > 0 {
            lemma_mul_inequality(1, raw.iterations as int, k);
        }
        // The elapsed-time envelope carries over: the logical call count
        // only grows under normalization.
        lemma_mul_inequality(1, k, raw.iterations as int);
        lemma_mul_inequality(raw.iterations as int, r.iterations as int, max_elapsed_ns());
    }
    r
}

/// The store entry carries this scenario's name, and its measurement has
/// the shape [`run_scenario`] produces for it: the logical call count is a
/// whole number of timer passes within the cap, and sampling stopped
/// exactly when the timer's stopping condition was reached.
pub open spec fn measured_entry(
    timer: BenchmarkTimer,
    sc: Scenario,
    e: (Seq<char>, BenchmarkResult),
) -> bool {
    &&& e.0 == sc.name@
    &&& e.1.iterations % sc.inner_iterations == 0
    &&& e.1.iterations / sc.inner_iterations <= timer.max_iterations
    &&& sampling_done(timer, e.1.total_ns as int, e.1.iterations as int / sc.inner_iterations as int)
    &&& (timer.max_iterations > 0 && timer.target_runtime_ns > 0 ==> e.1.iterations
        >= sc.inner_iterations)
    &&& (e.1.iterations == 0 ==> e.1.total_ns == 0)
    &&& e.1.total_ns <= e.1.iterations * max_elapsed_ns()
    &&& e.1.total_ns < timer.target_runtime_ns + max_elapsed_ns()
}

/// No two scenarios share a name.
pub open spec fn distinct_names(scenarios: Seq<Scenario>) -> bool {
    forall|i: int, j: int|
        0 <= i < j < scenarios.len() ==> (#[trigger] scenarios[i]).name@ != (
        #[trigger] scenarios[j]).name@
}

/// Some scenario among the first `bound` carries this name.
pub open spec fn name_from_prefix(scenarios: Seq<Scenario>, bound: int, nm: Seq<char>) -> bool {
    exists|i: int| 0 <= i < bound && (#[trigger] scenarios[i]).name@ == nm
}

/// Some scenario of the suite carries this entry's name and accounts for
/// its measurement.
pub open spec fn entry_matches_suite(
    timer: BenchmarkTimer,
    scenarios: Seq<Scenario>,
    e: (Seq<char>, BenchmarkResult),
) -> bool {
    exists|i: int| 0 <= i < scenarios.len() && #[trigger] measured_entry(timer, scenarios[i], e)
}

/// Runs a whole suite: first compiles every pattern — an invalid pattern
/// aborts here, before any scenario has run — then times each scenario in
/// order and stores its normalized measurement under the scenario's name.
pub fn run_suite(timer: &BenchmarkTimer, scenarios: &Vec<Scenario>) -> (r: Result<
    ResultStore,
    BenchError,
>)
    requires
        forall|i: int|
            0 <= i < scenarios@.len() ==> (#[trigger] scenarios@[i]).inner_iterations >= 1,
        forall|i: int|
            0 <= i < scenarios@.len() ==> timer.max_iterations * (
            #[trigger] scenarios@[i]).inner_iterations <= u64::MAX,
    ensures
        r matches Ok(store) ==> {
            &&& store.wf()
            &&& store@.len() == scenarios@.len()
            &&& forall|i: int|
                0 <= i < scenarios@.len() ==> contains_name(
                    store@,
                    (#[trigger] scenarios@[i]).name@,
                )
            &&& forall|q: int|
                0 <= q < store@.len() ==> #[trigger] entry_matches_suite(
                    *timer,
                    scenarios@,
                    store@[q],
                )
        },
        (forall|i: int|
            0 <= i < scenarios@.len() ==> pattern_compiles((#[trigger] scenarios@[i]).pattern@))
            && distinct_names(scenarios@) ==> r is Ok,
        r is Ok ==> forall|i: int|
            0 <= i < scenarios@.len() ==> pattern_compiles((#[trigger] scenarios@[i]).pattern@),
        r is Ok ==> distinct_names(scenarios@),
        r matches Err(e) ==> (e matches BenchError::Compile(ce) ==> !pattern_compiles(ce.pattern@)
            && exists|i: int|
            0 <= i < scenarios@.len() && (#[trigger] scenarios@[i]).pattern@ == ce.pattern@),
        r matches Err(e) ==> (e matches BenchError::DuplicateName(n) ==> exists|i: int, j: int|
            0 <= i < j < scenarios@.len() && (#[trigger] scenarios@[i]).name@ == n@ && (
            #[trigger] scenarios@[j]).name@ == n@),
{
    let n = scenarios.len();
    let mut compiled: Vec<regex::Regex> = Vec::new();
    let mut i: usize = 0;
    while i < n
        invariant
            n == scenarios@.len(),
            i <= n,
            compiled@.len() == i,
            forall|k: int|
                0 <= k < i ==> pattern_compiles((#[trigger] scenarios@[k]).pattern@),
        decreases n - i,
    {
        match compile_pattern(scenarios[i].pattern.as_str()) {
            Ok(re) => {
                compiled.push(re);
            },
            Err(e) => {
                proof {
                    assert(scenarios@[i as int].pattern@ == e.pattern@);
                    assert(!pattern_compiles(scenarios@[i as int].pattern@));
                }
                return Err(BenchError::Compile(e));
            },
        }
        i = i + 1;
    }

    let mut store = ResultStore::new();
    let mut j: usize = 0;
    while j < n
        invariant
            n == scenarios@.len(),
            n == compiled@.len(),
            j <= n,
            store.wf(),
            store@.len() == j,
            forall|k: int|
                0 <= k < n ==> pattern_compiles((#[trigger] scenarios@[k]).pattern@),
            forall|i1: int, i2: int|
                0 <= i1 < i2 < j ==> (#[trigger] scenarios@[i1]).name@ != (
                #[trigger] scenarios@[i2]).name@,
            forall|i: int|
                0 <= i < j ==> contains_name(store@, (#[trigger] scenarios@[i]).name@),
            forall|q: int|
                0 <= q < store@.len() ==> #[trigger] entry_matches_suite(
                    *timer,
                    scenarios@,
                    store@[q],
                ),
            forall|q: int|
                0 <= q < store@.len() ==> #[trigger] name_from_prefix(
                    scenarios@,
                    j as int,
                    store@[q].0,
                ),
            forall|i: int|
                0 <= i < scenarios@.len() ==> (#[trigger] scenarios@[i]).inner_iterations >= 1,
            forall|i: int|
                0 <= i < scenarios@.len() ==> timer.max_iterations * (
                #[trigger] scenarios@[i]).inner_iterations <= u64::MAX,
        decreases n - j,
    {
        let sc = &scenarios[j];
        let m = run_scenario(timer, &compiled[j], sc);
        let ghost pre = store@;
        let inserted = store.insert(sc.name.clone(), m);
        if !inserted {
            proof {
                // The colliding name was stored by an earlier scenario.
                assert(contains_name(store@, sc.name@));
                let q = choose|q: int|
                    0 <= q < store@.len() && (#[trigger] store@[q].0) == sc.name@;
                assert(name_from_prefix(scenarios@, j as int, store@[q].0));
                let i0 = choose|i: int|
                    0 <= i < j && (#[trigger] scenarios@[i]).name@ == store@[q].0;
                assert(scenarios@[i0].name@ == sc.name@);
                assert(scenarios@[j as int].name@ == sc.name@);
            }
            return Err(BenchError::DuplicateName(sc.name.clone()));
        }
        proof {
            let k = choose|k: int|
                0 <= k <= pre.len() && store@ == #[trigger] pre.insert(k, (sc.name@, m));
            assert(store@[k] == (sc.name@, m));
            assert(store@[k].0 == sc.name@);
            assert(contains_name(store@, sc.name@));
            assert forall|i: int| 0 <= i < j implies contains_name(
                store@,
                (#[trigger] scenarios@[i]).name@,
            ) by {
                let w = choose|w: int|
                    0 <= w < pre.len() && (#[trigger] pre[w].0) == scenarios@[i].name@;
                if w < k {
                    assert(store@[w].0 == scenarios@[i].name@);
                } else {
                    assert(store@[w + 1].0 == scenarios@[i].name@);
                }
            }
            assert(measured_entry(*timer, scenarios@[j as int], (sc.name@, m)));
            assert forall|q: int| 0 <= q < store@.len() implies #[trigger] entry_matches_suite(
                *timer,
                scenarios@,
                store@[q],
            ) by {
                if q < k {
                    assert(store@[q] == pre[q]);
                    assert(entry_matches_suite(*timer, scenarios@, pre[q]));
                } else if q == k {
                    assert(measured_entry(*timer, scenarios@[j as int], store@[q]));
                } else {
                    assert(store@[q] == pre[q - 1]);
                    assert(entry_matches_suite(*timer, scenarios@, pre[q - 1]));
                }
            }
            assert forall|q: int| 0 <= q < store@.len() implies #[trigger] name_from_prefix(
                scenarios@,
                j as int + 1,
                store@[q].0,
            ) by {
                if q < k {
                    assert(store@[q] == pre[q]);
                    assert(name_from_prefix(scenarios@, j as int, pre[q].0));
                    let i0 = choose|i: int|
                        0 <= i < j && (#[trigger] scenarios@[i]).name@ == pre[q].0;
                    assert(scenarios@[i0].name@ == store@[q].0);
                } else if q == k {
                    assert(scenarios@[j as int].name@ == store@[q].0);
                } else {
                    assert(store@[q] == pre[q - 1]);
                    assert(name_from_prefix(scenarios@, j as int, pre[q - 1].0));
                    let i0 = choose|i: int|
                        0 <= i < j && (#[trigger] scenarios@[i]).name@ == pre[q - 1].0;
                    assert(scenarios@[i0].name@ == store@[q].0);
                }
            }
            // The new name was absent from the store, which held every
            // earlier scenario's name: no earlier scenario shares it.
            assert forall|i1: int, i2: int|
                0 <= i1 < i2 < j + 1 implies (#[trigger] scenarios@[i1]).name@ != (
            #[trigger] scenarios@[i2]).name@ by {
                if i2 == j {
                    assert(contains_name(pre, scenarios@[i1].name@));
                    assert(!contains_name(pre, sc.name@));
                }
            }
        }
        j = j + 1;
    }
    Ok(store)
}

} // verus!
