//! Top-K ranking: pairing each class score with its catalog index, ordering
//! by descending score, and resolving the best indices to label strings.
//!
//! Scores are integer keys under any order-preserving encoding of the
//! engine's raw output; the ranking only compares them. Ties are broken
//! explicitly: between equal scores the lower class index wins, which is
//! exactly the order a stable descending sort of the enumerated scores
//! produces, and which makes the ranking reproducible across runs.

use vstd::prelude::*;

verus! {

/// A class index paired with its score.
#[derive(Clone, Copy, Debug, PartialEq, Eq, Structural)]
pub struct ScoredIndex {
    /// Position in the score tensor, and the catalog line it names.
    pub index: usize,
    /// The score the engine assigned to this class.
    pub score: i64,
}

/// The ranking order: higher scores first; between equal scores the lower
/// class index wins.
pub open spec fn precedes(a: ScoredIndex, b: ScoredIndex) -> bool {
    a.score > b.score || (a.score == b.score && a.index < b.index)
}

/// Strictly ordered by `precedes`: descending scores, ties by ascending
/// index.
pub open spec fn sorted_ranking(s: Seq<ScoredIndex>) -> bool {
    forall|i: int, j: int| 0 <= i < j < s.len() ==> #[trigger] precedes(s[i], s[j])
}

/// Every entry names a valid class and carries that class's score.
pub open spec fn entries_of(scores: Seq<i64>, s: Seq<ScoredIndex>) -> bool {
    forall|i: int|
        0 <= i < s.len() ==> (#[trigger] s[i]).index < scores.len() && s[i].score == scores[s[
            i
        ].index as int]
}

/// No class index appears twice.
pub open spec fn distinct_indices(s: Seq<ScoredIndex>) -> bool {
    forall|i: int, j: int|
        0 <= i < j < s.len() ==> (#[trigger] s[i]).index != (#[trigger] s[j]).index
}

/// Class `c` appears among the entries.
pub open spec fn contains_index(s: Seq<ScoredIndex>, c: int) -> bool {
    exists|i: int| 0 <= i < s.len() && (#[trigger] s[i]).index == c
}

/// A complete ranking of every class: one entry per class, strictly ordered
/// by `precedes`.
pub open spec fn full_ranking(scores: Seq<i64>, s: Seq<ScoredIndex>) -> bool {
    &&& s.len() == scores.len()
    &&& entries_of(scores, s)
    &&& distinct_indices(s)
    &&& sorted_ranking(s)
    &&& forall|c: int| 0 <= c < scores.len() ==> contains_index(s, c)
}

/// The first `min(k, scores.len())` entries of the complete ranking: valid,
/// distinct, strictly ordered, and at least as good as every class left
/// out.
pub open spec fn top_k_of(scores: Seq<i64>, k: int, e: Seq<ScoredIndex>) -> bool {
    &&& e.len() == if k < scores.len() {
        k
    } else {
        scores.len() as int
    }
    &&& entries_of(scores, e)
    &&& distinct_indices(e)
    &&& sorted_ranking(e)
    &&& forall|c: int, i: int|
        0 <= c < scores.len() && 0 <= i < e.len() && !contains_index(e, c) ==> precedes(
            #[trigger] e[i],
            ScoredIndex { index: c as usize, score: #[trigger] scores[c] },
        )
}

/// The ranking order, decided executably.
fn precedes_exec(a: ScoredIndex, b: ScoredIndex) -> (r: bool)
    ensures
        r == precedes(a, b),
{
    a.score > b.score || (a.score == b.score && a.index < b.index)
}

/// Enumerates every class and sorts the entries by `precedes`: an insertion
/// sort, quadratic but exact.
fn sort_entries(scores: &Vec<i64>) -> (r: Vec<ScoredIndex>)
    ensures
        full_ranking(scores@, r@),
{
    let mut sorted: Vec<ScoredIndex> = Vec::new();
    let mut c: usize = 0;
    while c < scores.len()
        invariant
            c <= scores@.len(),
            sorted@.len() == c,
            entries_of(scores@, sorted@),
            forall|i: int| 0 <= i < sorted@.len() ==> (#[trigger] sorted@[i]).index < c,
            distinct_indices(sorted@),
            sorted_ranking(sorted@),
            forall|d: int| 0 <= d < c ==> contains_index(sorted@, d),
        decreases scores@.len() - c,
    {
        let e = ScoredIndex { index: c, score: scores[c] };
        let ghost prev = sorted@;
        let mut p: usize = 0;
        while p < sorted.len() && !precedes_exec(e, sorted[p])
            invariant
                p <= sorted@.len(),
                sorted@ == prev,
                e.index == c,
                forall|i: int| 0 <= i < sorted@.len() ==> (#[trigger] sorted@[i]).index < c,
                forall|i: int| 0 <= i < p ==> precedes(#[trigger] sorted@[i], e),
            decreases sorted@.len() - p,
        {
            proof {
                assert(sorted@[p as int].index < c);
                assert(!precedes(e, sorted@[p as int]));
                assert(precedes(sorted@[p as int], e));
            }
            p += 1;
        }
        proof {
            assert(p == prev.len() || precedes(e, prev[p as int]));
        }
        sorted.insert(p, e);
        proof {
            assert(sorted@ == prev.insert(p as int, e));
            assert forall|i: int| 0 <= i < sorted@.len() implies (#[trigger] sorted@[i]).index < c
                + 1 && sorted@[i].index < scores@.len() && sorted@[i].score == scores@[sorted@[
                i
            ].index as int] by {
                if i < p {
                    assert(sorted@[i] == prev[i]);
                } else if i == p {
                    assert(sorted@[i] == e);
                } else {
                    assert(sorted@[i] == prev[i - 1]);
                }
            }
            assert forall|i: int, j: int| 0 <= i < j < sorted@.len() implies #[trigger] precedes(
                sorted@[i],
                sorted@[j],
            ) by {
                // Map each position of the new sequence back to the old one;
                // the inserted entry is preceded by everything the scan
                // passed over and precedes everything from the insertion
                // point on.
                if i < p {
                    assert(sorted@[i] == prev[i]);
                    assert(precedes(prev[i], e));
                }
                if j < p {
                    assert(sorted@[j] == prev[j]);
                }
                if i > p {
                    assert(sorted@[i] == prev[i - 1]);
                }
                if j > p {
                    assert(sorted@[j] == prev[j - 1]);
                    assert(p < prev.len());
                    assert(precedes(e, prev[p as int]));
                    if j - 1 > p {
                        assert(precedes(prev[p as int], prev[j - 1]));
                    }
                }
                if i == p {
                    assert(sorted@[i] == e);
                }
                if j == p {
                    assert(sorted@[j] == e);
                }
            }
            assert forall|d: int| 0 <= d < c + 1 implies contains_index(sorted@, d) by {
                if d == c {
                    assert(sorted@[p as int].index == d);
                } else {
                    assert(contains_index(prev, d));
                    let w = choose|w: int| 0 <= w < prev.len() && (#[trigger] prev[w]).index == d;
                    if w < p {
                        assert(sorted@[w].index == d);
                    } else {
                        assert(sorted@[w + 1].index == d);
                    }
                }
            }
        }
        c += 1;
    }
    sorted
}

/// Pairs each score with its class index, orders descending by score with
/// ties broken toward the lower index, and returns the best
/// `min(k, scores.len())` entries.
pub fn rank_top_k(scores: &Vec<i64>, k: usize) -> (r: Vec<ScoredIndex>)
    ensures
        top_k_of(scores@, k as int, r@),
{
    let full = sort_entries(scores);
    let m: usize = if k < full.len() {
        k
    } else {
        full.len()
    };
    let mut r: Vec<ScoredIndex> = Vec::new();
    let mut i: usize = 0;
    while i < m
        invariant
            i <= m,
            m <= full@.len(),
            r@.len() == i,
            forall|j: int| 0 <= j < i ==> #[trigger] r@[j] == full@[j],
            full_ranking(scores@, full@),
        decreases m - i,
    {
        r.push(full[i]);
        i += 1;
    }
    proof {
        assert forall|c: int, i2: int|
            0 <= c < scores@.len() && 0 <= i2 < r@.len() && !contains_index(r@, c) implies precedes(
            #[trigger] r@[i2],
            ScoredIndex { index: c as usize, score: #[trigger] scores@[c] },
        ) by {
            assert(contains_index(full@, c));
            let p = choose|p: int| 0 <= p < full@.len() && (#[trigger] full@[p]).index == c;
            if p < m {
                assert(r@[p].index == c);
                assert(contains_index(r@, c));
            }
            assert(p >= m);
            assert(full@[p] == ScoredIndex { index: c as usize, score: scores@[c] });
            assert(r@[i2] == full@[i2]);
            assert(precedes(full@[i2], full@[p]));
        }
    }
    r
}

/// Law: the ranking's scores are non-increasing, and every returned
/// entry's score is at least the score of every class left out.
pub proof fn lemma_top_k_dominates(scores: Seq<i64>, k: int, e: Seq<ScoredIndex>)
    requires
        top_k_of(scores, k, e),
    ensures
        forall|i: int, j: int| 0 <= i < j < e.len() ==> e[i].score >= e[j].score,
        forall|c: int, i: int|
            0 <= c < scores.len() && 0 <= i < e.len() && !contains_index(e, c) ==> e[i].score
                >= scores[c],
{
    assert forall|i: int, j: int| 0 <= i < j < e.len() implies e[i].score >= e[j].score by {
        assert(precedes(e[i], e[j]));
    }
    assert forall|c: int, i: int|
        0 <= c < scores.len() && 0 <= i < e.len() && !contains_index(e, c) implies e[i].score
        >= scores[c] by {
        assert(precedes(e[i], ScoredIndex { index: c as usize, score: scores[c] }));
    }
}

/// Positions `0 ..= i` of any two rankings of the same scores agree:
/// proved by strong induction on `i`, pairing each entry with the position
/// its class occupies on the other side and letting the strict order rule
/// every disagreement out.
proof fn lemma_rank_position_equal(
    scores: Seq<i64>,
    k: int,
    a: Seq<ScoredIndex>,
    b: Seq<ScoredIndex>,
    i: int,
)
    requires
        top_k_of(scores, k, a),
        top_k_of(scores, k, b),
        0 <= i < a.len(),
    ensures
        forall|j: int| 0 <= j <= i ==> a[j] == b[j],
    decreases i,
{
    if i > 0 {
        lemma_rank_position_equal(scores, k, a, b, i - 1);
    }
    let c = a[i].index as int;
    assert(a[i] == ScoredIndex { index: c as usize, score: scores[c] });
    if !contains_index(b, c) {
        assert(precedes(b[i], ScoredIndex { index: c as usize, score: scores[c] }));
        let c2 = b[i].index as int;
        assert(b[i] == ScoredIndex { index: c2 as usize, score: scores[c2] });
        if contains_index(a, c2) {
            let i2 = choose|i2: int| 0 <= i2 < a.len() && (#[trigger] a[i2]).index == c2;
            assert(a[i2] == b[i]);
            if i2 < i {
                assert(a[i2] == b[i2]);
                assert(false);
            } else if i2 == i {
                assert(false);
            } else {
                assert(precedes(a[i], a[i2]));
                assert(false);
            }
        } else {
            assert(precedes(a[i], ScoredIndex { index: c2 as usize, score: scores[c2] }));
            assert(false);
        }
    }
    let j = choose|j: int| 0 <= j < b.len() && (#[trigger] b[j]).index == c;
    assert(b[j] == a[i]);
    if j < i {
        assert(a[j] == b[j]);
        assert(false);
    } else if j > i {
        assert(precedes(b[i], b[j]));
        let c2 = b[i].index as int;
        assert(b[i] == ScoredIndex { index: c2 as usize, score: scores[c2] });
        if contains_index(a, c2) {
            let i2 = choose|i2: int| 0 <= i2 < a.len() && (#[trigger] a[i2]).index == c2;
            assert(a[i2] == b[i]);
            if i2 < i {
                assert(a[i2] == b[i2]);
                assert(false);
            } else if i2 == i {
                assert(false);
            } else {
                assert(precedes(a[i], a[i2]));
                assert(false);
            }
        } else {
            assert(precedes(a[i], ScoredIndex { index: c2 as usize, score: scores[c2] }));
            assert(false);
        }
    }
    assert(a[i] == b[i]);
}

/// Law: the top-K description pins its outcome completely — any two
/// rankings of the same scores under the same `k` are equal, so the
/// result, ties included, is reproducible across runs and
/// implementations.
pub proof fn lemma_top_k_unique(scores: Seq<i64>, k: int, a: Seq<ScoredIndex>, b: Seq<ScoredIndex>)
    requires
        top_k_of(scores, k, a),
        top_k_of(scores, k, b),
    ensures
        a =~= b,
{
    if a.len() > 0 {
        lemma_rank_position_equal(scores, k, a, b, a.len() - 1);
    }
}

/// Resolves a ranked entry's class index to the catalog line of the same
/// index, or to the placeholder when the catalog is too short.
pub open spec fn spec_label(catalog: Seq<String>, idx: int) -> Seq<char> {
    if 0 <= idx < catalog.len() {
        catalog[idx]@
    } else {
        "Unknown label"@
    }
}

/// Maps ranked entries to their catalog labels by positional index. A
/// missing catalog entry resolves to the literal placeholder `Unknown
/// label` — a deliberate leniency, not a failure.
pub fn resolve_labels(entries: &Vec<ScoredIndex>, catalog: &Vec<String>) -> (r: Vec<String>)
    ensures
        r@.len() == entries@.len(),
        forall|i: int|
            0 <= i < entries@.len() ==> (#[trigger] r@[i])@ == spec_label(
                catalog@,
                entries@[i].index as int,
            ),
{
    let mut r: Vec<String> = Vec::new();
    let mut i: usize = 0;
    while i < entries.len()
        invariant
            i <= entries@.len(),
            r@.len() == i,
            forall|j: int|
                0 <= j < i ==> (#[trigger] r@[j])@ == spec_label(
                    catalog@,
                    entries@[j].index as int,
                ),
        decreases entries@.len() - i,
    {
        let idx = entries[i].index;
        if idx < catalog.len() {
            r.push(catalog[idx].clone());
        } else {
            r.push("Unknown label".to_owned());
        }
        i += 1;
    }
    r
}

/// Law: when the catalog covers every scored class, each ranked position
/// resolves to a real catalog entry and never to the placeholder.
pub proof fn lemma_full_catalog_resolves(
    scores: Seq<i64>,
    k: int,
    e: Seq<ScoredIndex>,
    catalog: Seq<String>,
)
    requires
        top_k_of(scores, k, e),
        catalog.len() >= scores.len(),
    ensures
        forall|i: int|
            0 <= i < e.len() ==> spec_label(catalog, (#[trigger] e[i]).index as int) == catalog[e[
                i
            ].index as int]@,
{
    assert forall|i: int|
        0 <= i < e.len() implies spec_label(catalog, (#[trigger] e[i]).index as int) == catalog[e[
        i
    ].index as int]@ by {
        assert(e[i].index < scores.len());
    }
}

/// Ranks the primary score tensor against the catalog and returns the top
/// `k` labels in order: the whole post-inference analysis.
pub fn analyze_output(scores: &Vec<i64>, labels: &Vec<String>, k: usize) -> (r: Vec<String>)
    ensures
        r@.len() == if (k as int) < scores@.len() {
            k as int
        } else {
            scores@.len() as int
        },
        exists|e: Seq<ScoredIndex>|
            {
                &&& #[trigger] top_k_of(scores@, k as int, e)
                &&& r@.len() == e.len()
                &&& forall|i: int|
                    0 <= i < e.len() ==> (#[trigger] r@[i])@ == spec_label(
                        labels@,
                        e[i].index as int,
                    )
            },
{
    let ranked = rank_top_k(scores, k);
    let r = resolve_labels(&ranked, labels);
    proof {
        let e = ranked@;
        assert(top_k_of(scores@, k as int, e));
        assert((r@.len() == e.len()) && (forall|i: int|
            0 <= i < e.len() ==> (#[trigger] r@[i])@ == spec_label(labels@, e[i].index as int)));
    }
    r
}

} // verus!
