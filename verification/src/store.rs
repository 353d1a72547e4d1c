//! The result store: named measurements kept sorted by name.
//!
//! Entries are held strictly sorted in lexicographic name order, so names
//! are unique and every walk over the store — for the table or for the
//! export — comes out in the same order no matter in which order results
//! were inserted. A colliding name is rejected rather than silently
//! overwritten or averaged.

use vstd::prelude::*;
use crate::measurement::BenchmarkResult;
use crate::order::lex_lt;
use crate::order::str_lex_lt;
use crate::order::lemma_lex_trichotomy;
use crate::order::lemma_lex_asymmetric;
use crate::order::lemma_lex_irreflexive;
use crate::order::lemma_lex_transitive;

verus! {

/// The entries hold pairwise strictly increasing names.
pub open spec fn sorted_by_name(s: Seq<(Seq<char>, BenchmarkResult)>) -> bool {
    forall|i: int, j: int| 0 <= i < j < s.len() ==> #[trigger] lex_lt(s[i].0, s[j].0)
}

/// Some entry carries this name.
pub open spec fn contains_name(s: Seq<(Seq<char>, BenchmarkResult)>, name: Seq<char>) -> bool {
    exists|i: int| 0 <= i < s.len() && (#[trigger] s[i].0) == name
}

/// Accumulates named measurements, sorted by name.
pub struct ResultStore {
    entries: Vec<(String, BenchmarkResult)>,
}

impl View for ResultStore {
    type V = Seq<(Seq<char>, BenchmarkResult)>;

    closed spec fn view(&self) -> Seq<(Seq<char>, BenchmarkResult)> {
        self.entries@.map_values(|e: (String, BenchmarkResult)| (e.0@, e.1))
    }
}

impl ResultStore {
    /// The store's invariant: names strictly sorted, hence unique.
    pub open spec fn wf(self) -> bool {
        sorted_by_name(self@)
    }

    pub fn new() -> (r: ResultStore)
        ensures
            r@ == Seq::<(Seq<char>, BenchmarkResult)>::empty(),
            r.wf(),
    {
        let r = ResultStore { entries: Vec::new() };
        proof {
            assert(r@ =~= Seq::<(Seq<char>, BenchmarkResult)>::empty());
        }
        r
    }

    pub fn len(&self) -> (r: usize)
        ensures
            r == self@.len(),
    {
        self.entries.len()
    }

    /// The name of the entry at position `i` in sorted order.
    pub fn name_at(&self, i: usize) -> (r: String)
        requires
            i < self@.len(),
        ensures
            r@ == self@[i as int].0,
    {
        self.entries[i].0.clone()
    }

    /// The measurement of the entry at position `i` in sorted order.
    pub fn result_at(&self, i: usize) -> (r: BenchmarkResult)
        requires
            i < self@.len(),
        ensures
            r == self@[i as int].1,
    {
        self.entries[i].1
    }

    /// Inserts `m` under `name` at its sorted position and returns `true`;
    /// a name already present is rejected: the store stays unchanged and
    /// the result is `false`.
    pub fn insert(&mut self, name: String, m: BenchmarkResult) -> (r: bool)
        requires
            old(self).wf(),
        ensures
            final(self).wf(),
            r == !contains_name(old(self)@, name@),
            r ==> exists|k: int|
                0 <= k <= old(self)@.len() && final(self)@ == #[trigger] old(self)@.insert(
                    k,
                    (name@, m),
                ),
            !r ==> final(self)@ == old(self)@,
    {
        let n = self.entries.len();
        let mut idx: usize = 0;
        while idx < n && str_lex_lt(self.entries[idx].0.as_str(), name.as_str())
            invariant
                n == self@.len(),
                idx <= n,
                old(self).wf(),
                *self == *old(self),
                forall|j: int| 0 <= j < idx ==> lex_lt(#[trigger] self@[j].0, name@),
            decreases n - idx,
        {
            idx = idx + 1;
        }
        if idx < n {
            let here_lt = str_lex_lt(name.as_str(), self.entries[idx].0.as_str());
            if !here_lt {
                // Neither order holds, so the names are equal: a collision.
                proof {
                    lemma_lex_trichotomy(name@, self@[idx as int].0);
                    assert(self@[idx as int].0 == name@);
                }
                return false;
            }
            proof {
                assert(lex_lt(name@, self@[idx as int].0));
            }
        }
        proof {
            // The new name differs from every present name.
            assert forall|j: int| 0 <= j < self@.len() implies self@[j].0 != name@ by {
                if j < idx {
                    lemma_lex_irreflexive(name@);
                } else if j == idx {
                    lemma_lex_irreflexive(name@);
                } else {
                    lemma_lex_transitive(name@, self@[idx as int].0, self@[j].0);
                    lemma_lex_irreflexive(name@);
                }
            }
            assert(!contains_name(self@, name@));
        }
        let ghost pre = self@;
        let ghost gidx = idx as int;
        proof {
            // The new name is below every entry from position idx on.
            assert forall|j: int| gidx <= j < pre.len() implies lex_lt(
                name@,
                #[trigger] pre[j].0,
            ) by {
                if j > gidx {
                    lemma_lex_transitive(name@, pre[gidx].0, pre[j].0);
                }
            }
        }
        self.entries.insert(idx, (name, m));
        proof {
            assert(final(self)@ =~= pre.insert(gidx, (name@, m)));
            assert forall|i: int, j: int|
                0 <= i < j < final(self)@.len() implies #[trigger] lex_lt(
                final(self)@[i].0,
                final(self)@[j].0,
            ) by {
                let s = final(self)@;
                if j < gidx {
                    assert(s[i] == pre[i] && s[j] == pre[j]);
                } else if i > gidx {
                    assert(s[i] == pre[i - 1] && s[j] == pre[j - 1]);
                } else if i == gidx {
                    assert(s[i].0 == name@ && s[j] == pre[j - 1]);
                } else if j == gidx {
                    assert(s[i] == pre[i] && s[j].0 == name@);
                } else {
                    // i < gidx < j: both are old entries around the new one.
                    assert(s[i] == pre[i] && s[j] == pre[j - 1]);
                }
            }
        }
        true
    }
}

/// Two sorted stores holding the same entries hold them in the same order:
/// the sorted sequence is determined by its contents alone, so display and
/// export order do not depend on insertion order.
pub proof fn lemma_sorted_same_contents_equal(
    s1: Seq<(Seq<char>, BenchmarkResult)>,
    s2: Seq<(Seq<char>, BenchmarkResult)>,
)
    requires
        sorted_by_name(s1),
        sorted_by_name(s2),
        forall|p: (Seq<char>, BenchmarkResult)| #[trigger] s1.contains(p) <==> s2.contains(p),
    ensures
        s1 == s2,
    decreases s1.len(),
{
    if s1.len() == 0 {
        if s2.len() > 0 {
            assert(s2.contains(s2[0]));
            assert(!s1.contains(s2[0]));
        }
        assert(s1 =~= s2);
    } else {
        assert(s1.contains(s1[0]));
        assert(s2.contains(s1[0]));
        // The two heads are equal: each head is at or below the other.
        assert(s1[0] == s2[0]) by {
            let j = choose|j: int| 0 <= j < s2.len() && s2[j] == s1[0];
            assert(s2.contains(s2[0]));
            assert(s1.contains(s2[0]));
            let i = choose|i: int| 0 <= i < s1.len() && s1[i] == s2[0];
            if j > 0 && i > 0 {
                assert(lex_lt(s2[0].0, s2[j].0));
                assert(lex_lt(s1[0].0, s1[i].0));
                lemma_lex_asymmetric(s2[0].0, s1[0].0);
            } else if j > 0 && i == 0 {
                assert(lex_lt(s2[0].0, s2[j].0));
                lemma_lex_irreflexive(s1[0].0);
            } else if j == 0 && i > 0 {
                assert(lex_lt(s1[0].0, s1[i].0));
                lemma_lex_irreflexive(s1[0].0);
            }
        }
        let t1 = s1.drop_first();
        let t2 = s2.drop_first();
        assert(sorted_by_name(t1)) by {
            assert forall|i: int, j: int| 0 <= i < j < t1.len() implies #[trigger] lex_lt(
                t1[i].0,
                t1[j].0,
            ) by {
                assert(t1[i] == s1[i + 1]);
                assert(t1[j] == s1[j + 1]);
                assert(lex_lt(s1[i + 1].0, s1[j + 1].0));
            }
        }
        assert(sorted_by_name(t2)) by {
            assert forall|i: int, j: int| 0 <= i < j < t2.len() implies #[trigger] lex_lt(
                t2[i].0,
                t2[j].0,
            ) by {
                assert(t2[i] == s2[i + 1]);
                assert(t2[j] == s2[j + 1]);
                assert(lex_lt(s2[i + 1].0, s2[j + 1].0));
            }
        }
        assert forall|p: (Seq<char>, BenchmarkResult)| #[trigger] t1.contains(p) implies t2.contains(
            p,
        ) by {
            lemma_tail_contains(s1, s2, p);
        }
        assert forall|p: (Seq<char>, BenchmarkResult)| #[trigger] t2.contains(p) implies t1.contains(
            p,
        ) by {
            lemma_tail_contains(s2, s1, p);
        }
        lemma_sorted_same_contents_equal(t1, t2);
        assert(s1 =~= s2) by {
            assert(s1.len() == s2.len());
            assert(forall|i: int| 1 <= i < s1.len() ==> #[trigger] s1[i] == t1[i - 1]);
            assert(forall|i: int| 1 <= i < s2.len() ==> #[trigger] s2[i] == t2[i - 1]);
        }
    }
}

/// An entry in the tail of one sorted sequence lies in the tail of the
/// other, provided the heads agree and the contents agree.
proof fn lemma_tail_contains(
    a: Seq<(Seq<char>, BenchmarkResult)>,
    b: Seq<(Seq<char>, BenchmarkResult)>,
    p: (Seq<char>, BenchmarkResult),
)
    requires
        sorted_by_name(a),
        sorted_by_name(b),
        a.len() > 0,
        b.len() > 0,
        a[0] == b[0],
        forall|q: (Seq<char>, BenchmarkResult)| #[trigger] a.contains(q) <==> b.contains(q),
        a.drop_first().contains(p),
    ensures
        b.drop_first().contains(p),
{
    let ta = a.drop_first();
    let i = choose|i: int| 0 <= i < ta.len() && ta[i] == p;
    assert(a[i + 1] == p);
    assert(a.contains(p));
    assert(b.contains(p));
    let m = choose|m: int| 0 <= m < b.len() && b[m] == p;
    assert(lex_lt(a[0].0, a[i + 1].0));
    if m == 0 {
        // p would equal the shared head, whose name is below p's own name.
        lemma_lex_irreflexive(p.0);
    }
    assert(b.drop_first()[m - 1] == p);
    assert(b.drop_first().contains(p));
}

} // verus!
