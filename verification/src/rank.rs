//! Stable, deterministic ordering of candidate points.
//!
//! Candidates are ordered by a scalar key (a distance or a score), ties are
//! broken lexicographically on the point, and points that are still level
//! keep the order in which they came. The order is total, so the outcome of
//! a ranking is unique.

use vstd::prelude::*;
use crate::scalar::{sort_key, is_nan, less};
use crate::linalg::{Vector, lex_sign, lemma_lex_antisymmetric, lemma_lex_transitive};

verus! {

/// The points of a list, each by its components.
pub open spec fn rows(points: Seq<Vector>) -> Seq<Seq<u64>> {
    Seq::new(points.len(), |i: int| points[i]@)
}

/// Sign of the comparison of candidate `i` with candidate `j`: by key
/// first, lexicographically by point on equal keys.
pub open spec fn rank_sign(keys: Seq<u64>, points: Seq<Seq<u64>>, i: int, j: int) -> int {
    if sort_key(keys[i]) < sort_key(keys[j]) {
        -1
    } else if sort_key(keys[i]) > sort_key(keys[j]) {
        1
    } else {
        lex_sign(points[i], points[j], 0)
    }
}

/// Whether candidate `i` comes strictly before candidate `j`: it compares
/// lower, or level and earlier in the input.
pub open spec fn precedes(keys: Seq<u64>, points: Seq<Seq<u64>>, i: int, j: int) -> bool {
    rank_sign(keys, points, i, j) < 0 || (rank_sign(keys, points, i, j) == 0 && i < j)
}

/// Number of set flags among the first `n`.
pub open spec fn kept_count(keep: Seq<bool>, n: int) -> nat
    decreases n,
{
    if n <= 0 {
        0
    } else if keep[n - 1] {
        kept_count(keep, n - 1) + 1
    } else {
        kept_count(keep, n - 1)
    }
}

/// Whether `order` lists exactly the flagged candidates, each once, in
/// strictly ascending rank.
pub open spec fn is_ranking(
    order: Seq<int>,
    keep: Seq<bool>,
    keys: Seq<u64>,
    points: Seq<Seq<u64>>,
) -> bool {
    &&& order.len() == kept_count(keep, points.len() as int)
    &&& forall|k: int|
        0 <= k < order.len() ==> 0 <= #[trigger] order[k] < points.len() && keep[order[k]]
    &&& forall|i: int|
        0 <= i < points.len() && #[trigger] keep[i] ==> exists|k: int|
            0 <= k < order.len() && order[k] == i
    &&& forall|k: int, l: int|
        0 <= k < l < order.len() ==> precedes(keys, points, #[trigger] order[k], #[trigger] order[l])
}

/// The candidates picked out by `order`, in that order.
pub open spec fn picked(points: Seq<Seq<u64>>, order: Seq<int>) -> Seq<Seq<u64>> {
    Seq::new(order.len(), |k: int| points[order[k]])
}

/// The indices of a list as mathematical integers.
pub open spec fn indices(order: Seq<usize>) -> Seq<int> {
    Seq::new(order.len(), |k: int| order[k] as int)
}

/// Comparing in the other direction flips the sign.
pub proof fn lemma_rank_antisymmetric(keys: Seq<u64>, points: Seq<Seq<u64>>, i: int, j: int)
    ensures
        rank_sign(keys, points, j, i) == -rank_sign(keys, points, i, j),
{
    lemma_lex_antisymmetric(points[i], points[j], 0);
}

/// The ranking comparison is transitive.
pub proof fn lemma_rank_transitive(
    keys: Seq<u64>,
    points: Seq<Seq<u64>>,
    i: int,
    j: int,
    k: int,
)
    requires
        rank_sign(keys, points, i, j) <= 0,
        rank_sign(keys, points, j, k) <= 0,
    ensures
        rank_sign(keys, points, i, k) <= 0,
{
    if sort_key(keys[i]) == sort_key(keys[j]) && sort_key(keys[j]) == sort_key(keys[k]) {
        lemma_lex_transitive(points[i], points[j], points[k], 0);
    }
}

/// No candidate comes strictly before itself, and of two candidates at most
/// one comes strictly before the other.
pub proof fn lemma_precedes_asymmetric(keys: Seq<u64>, points: Seq<Seq<u64>>, i: int, j: int)
    ensures
        !(precedes(keys, points, i, j) && precedes(keys, points, j, i)),
{
    lemma_rank_antisymmetric(keys, points, i, j);
}

proof fn lemma_rankings_agree_upto(
    first: Seq<int>,
    second: Seq<int>,
    keep: Seq<bool>,
    keys: Seq<u64>,
    points: Seq<Seq<u64>>,
    k: int,
)
    requires
        is_ranking(first, keep, keys, points),
        is_ranking(second, keep, keys, points),
        0 <= k <= first.len(),
    ensures
        forall|j: int| 0 <= j < k ==> first[j] == second[j],
    decreases k,
{
    if k > 0 {
        lemma_rankings_agree_upto(first, second, keep, keys, points, k - 1);
        let a = first[k - 1];
        let b = second[k - 1];
        if a != b {
            assert(keep[a]);
            let l = choose|l: int| 0 <= l < second.len() && second[l] == a;
            assert(keep[b]);
            let m = choose|m: int| 0 <= m < first.len() && first[m] == b;
            lemma_precedes_asymmetric(keys, points, a, a);
            lemma_precedes_asymmetric(keys, points, b, b);
            if l < k - 1 {
                assert(first[l] == second[l]);
                assert(precedes(keys, points, first[l], first[k - 1]));
                assert(false);
            }
            if m < k - 1 {
                assert(first[m] == second[m]);
                assert(precedes(keys, points, second[m], second[k - 1]));
                assert(false);
            }
            assert(precedes(keys, points, second[k - 1], second[l]));
            assert(precedes(keys, points, first[k - 1], first[m]));
            lemma_precedes_asymmetric(keys, points, a, b);
            assert(false);
        }
    }
}

/// A ranking is unique: two lists that both rank the same candidates are
/// the same list.
pub proof fn lemma_ranking_unique(
    first: Seq<int>,
    second: Seq<int>,
    keep: Seq<bool>,
    keys: Seq<u64>,
    points: Seq<Seq<u64>>,
)
    requires
        is_ranking(first, keep, keys, points),
        is_ranking(second, keep, keys, points),
    ensures
        first == second,
{
    lemma_rankings_agree_upto(first, second, keep, keys, points, first.len() as int);
    assert(first =~= second);
}

/// The ranking of the flagged candidates: their indices in ascending order
/// of key, ties broken lexicographically by point and then by position.
pub open spec fn ranking(keep: Seq<bool>, keys: Seq<u64>, points: Seq<Seq<u64>>) -> Seq<int> {
    choose|order: Seq<int>| is_ranking(order, keep, keys, points)
}

/// The flagged candidates in ranked order.
pub open spec fn ranked(keep: Seq<bool>, keys: Seq<u64>, points: Seq<Seq<u64>>) -> Seq<Seq<u64>> {
    picked(points, ranking(keep, keys, points))
}

/// Flags that keep every one of `n` candidates.
pub open spec fn keep_all(n: nat) -> Seq<bool> {
    Seq::new(n, |i: int| true)
}

/// No more candidates are kept than there are.
pub proof fn lemma_kept_count_bounded(keep: Seq<bool>, n: int)
    requires
        0 <= n,
    ensures
        kept_count(keep, n) <= n,
    decreases n,
{
    if n > 0 {
        lemma_kept_count_bounded(keep, n - 1);
    }
}

/// Keeping all of `n` candidates keeps `n`.
pub proof fn lemma_keep_all_count(n: nat, m: int)
    requires
        0 <= m <= n,
    ensures
        kept_count(keep_all(n), m) == m,
    decreases m,
{
    if m > 0 {
        lemma_keep_all_count(n, m - 1);
    }
}

/// Compares candidate `i` with candidate `j`, giving -1, 0 or 1.
pub fn rank_compare(keys: &Vec<u64>, points: &Vec<Vector>, i: usize, j: usize) -> (r: i8)
    requires
        keys@.len() == points@.len(),
        i < points@.len(),
        j < points@.len(),
    ensures
        r == rank_sign(keys@, rows(points@), i as int, j as int),
{
    let a = keys[i];
    let b = keys[j];
    let a_nan = is_nan(a);
    let b_nan = is_nan(b);
    if a_nan || b_nan {
        if !b_nan {
            return 1;
        }
        if !a_nan {
            return -1;
        }
    } else if less(a, b) {
        return -1;
    } else if less(b, a) {
        return 1;
    }
    points[i].lex(&points[j])
}

/// Ranks the flagged candidates: returns their indices in ascending order of
/// key, ties broken lexicographically by point and then by position.
pub fn rank_order(keep: &Vec<bool>, keys: &Vec<u64>, points: &Vec<Vector>) -> (order: Vec<usize>)
    requires
        keep@.len() == points@.len(),
        keys@.len() == points@.len(),
    ensures
        is_ranking(indices(order@), keep@, keys@, rows(points@)),
        indices(order@) == ranking(keep@, keys@, rows(points@)),
        order@.len() == kept_count(keep@, points@.len() as int),
        forall|k: int| 0 <= k < order@.len() ==> #[trigger] order@[k] < points@.len(),
{
    let n = points.len();
    let mut order: Vec<usize> = Vec::new();
    let mut i: usize = 0;
    while i < n
        invariant
            n == points@.len(),
            keep@.len() == n,
            keys@.len() == n,
            i <= n,
            order@.len() == kept_count(keep@, i as int),
            forall|k: int| 0 <= k < order@.len() ==> #[trigger] order@[k] < i && keep@[order@[k] as int],
            forall|x: int|
                0 <= x < i && #[trigger] keep@[x] ==> exists|k: int|
                    0 <= k < order@.len() && order@[k] == x,
            forall|k: int, l: int|
                0 <= k < l < order@.len() ==> precedes(
                    keys@,
                    rows(points@),
                    #[trigger] order@[k] as int,
                    #[trigger] order@[l] as int,
                ),
        decreases n - i,
    {
        if keep[i] {
            let ghost before = order@;
            let mut j: usize = order.len();
            while j > 0 && rank_compare(keys, points, order[j - 1], i) > 0
                invariant
                    n == points@.len(),
                    keys@.len() == n,
                    i < n,
                    j <= order@.len(),
                    order@ == before,
                    forall|k: int| 0 <= k < order@.len() ==> #[trigger] order@[k] < i,
                    forall|l: int|
                        j <= l < order@.len() ==> rank_sign(
                            keys@,
                            rows(points@),
                            i as int,
                            #[trigger] order@[l] as int,
                        ) < 0,
                decreases j,
            {
                proof {
                    lemma_rank_antisymmetric(
                        keys@,
                        rows(points@),
                        i as int,
                        order@[j - 1] as int,
                    );
                }
                j -= 1;
            }
            order.insert(j, i);
            proof {
                let ks = keys@;
                let ps = rows(points@);
                assert forall|k: int, l: int| 0 <= k < l < order@.len() implies precedes(
                    ks,
                    ps,
                    #[trigger] order@[k] as int,
                    #[trigger] order@[l] as int,
                ) by {
                    if l < j {
                        assert(order@[k] == before[k] && order@[l] == before[l]);
                    } else if l == j {
                        assert(order@[k] == before[k]);
                        assert(order@[l] == i);
                        assert(j > 0);
                        assert(rank_sign(ks, ps, before[j - 1] as int, i as int) <= 0);
                        if k < j - 1 {
                            assert(precedes(ks, ps, before[k] as int, before[j - 1] as int));
                            lemma_rank_transitive(
                                ks,
                                ps,
                                before[k] as int,
                                before[j - 1] as int,
                                i as int,
                            );
                        }
                        assert(before[k] < i);
                    } else if k < j {
                        assert(order@[k] == before[k]);
                        assert(order@[l] == before[l - 1]);
                    } else if k == j {
                        assert(order@[k] == i);
                        assert(order@[l] == before[l - 1]);
                    } else {
                        assert(order@[k] == before[k - 1]);
                        assert(order@[l] == before[l - 1]);
                    }
                }
                assert forall|x: int| 0 <= x < i + 1 && #[trigger] keep@[x] implies exists|k: int|
                    0 <= k < order@.len() && order@[k] == x by {
                    if x == i {
                        assert(order@[j as int] == x);
                    } else {
                        let k0 = choose|k: int| 0 <= k < before.len() && before[k] == x;
                        if k0 < j {
                            assert(order@[k0] == x);
                        } else {
                            assert(order@[k0 + 1] == x);
                        }
                    }
                }
                assert forall|k: int| 0 <= k < order@.len() implies #[trigger] order@[k] < i + 1
                    && keep@[order@[k] as int] by {
                    if k < j {
                        assert(order@[k] == before[k]);
                    } else if k > j {
                        assert(order@[k] == before[k - 1]);
                    }
                }
            }
        }
        i += 1;
    }
    proof {
        let o = indices(order@);
        assert forall|x: int| 0 <= x < n && #[trigger] keep@[x] implies exists|k: int|
            0 <= k < o.len() && o[k] == x by {
            let k0 = choose|k: int| 0 <= k < order@.len() && order@[k] == x;
            assert(o[k0] == x);
        }
        assert forall|k: int, l: int| 0 <= k < l < o.len() implies precedes(
            keys@,
            rows(points@),
            #[trigger] o[k],
            #[trigger] o[l],
        ) by {
            assert(precedes(keys@, rows(points@), order@[k] as int, order@[l] as int));
        }
        assert(is_ranking(o, keep@, keys@, rows(points@)));
        lemma_ranking_unique(o, ranking(keep@, keys@, rows(points@)), keep@, keys@, rows(points@));
    }
    order
}

/// Copies out the points that `order` names, in that order.
pub fn pick(points: &Vec<Vector>, order: &Vec<usize>) -> (r: Vec<Vector>)
    requires
        forall|k: int| 0 <= k < order@.len() ==> #[trigger] order@[k] < points@.len(),
    ensures
        rows(r@) == picked(rows(points@), indices(order@)),
{
    let m = order.len();
    let mut out: Vec<Vector> = Vec::new();
    let mut k: usize = 0;
    while k < m
        invariant
            m == order@.len(),
            k <= m,
            forall|x: int| 0 <= x < order@.len() ==> #[trigger] order@[x] < points@.len(),
            out@.len() == k,
            forall|x: int| 0 <= x < k ==> (#[trigger] out@[x])@ == points@[order@[x] as int]@,
        decreases m - k,
    {
        out.push(points[order[k]].copy());
        k += 1;
    }
    assert(rows(out@) =~= picked(rows(points@), indices(order@)));
    out
}

/// A list of `n` set flags.
pub fn all_kept(n: usize) -> (r: Vec<bool>)
    ensures
        r@ == keep_all(n as nat),
{
    let mut keep: Vec<bool> = Vec::new();
    let mut i: usize = 0;
    while i < n
        invariant
            i <= n,
            keep@ == keep_all(i as nat),
        decreases n - i,
    {
        keep.push(true);
        i += 1;
        assert(keep@ =~= keep_all(i as nat));
    }
    keep
}

/// The flagged candidates in ranked order: ascending by key, ties broken
/// lexicographically by point and then by position in the input.
pub fn rank_points(keep: &Vec<bool>, keys: &Vec<u64>, points: &Vec<Vector>) -> (r: Vec<Vector>)
    requires
        keep@.len() == points@.len(),
        keys@.len() == points@.len(),
    ensures
        rows(r@) == ranked(keep@, keys@, rows(points@)),
        r@.len() == kept_count(keep@, points@.len() as int),
        is_ranking(ranking(keep@, keys@, rows(points@)), keep@, keys@, rows(points@)),
{
    let order = rank_order(keep, keys, points);
    let r = pick(points, &order);
    assert(rows(r@).len() == r@.len());
    r
}

/// Sorts the points by their distance to a reference, nearest first, ties
/// broken lexicographically by point. `distances[i]` is the distance of
/// `points[i]`. Points that are level in both keep their order.
pub fn stable_sort_by_distance(points: &mut Vec<Vector>, distances: &Vec<u64>)
    requires
        distances@.len() == old(points)@.len(),
    ensures
        rows(final(points)@) == ranked(
            keep_all(old(points)@.len()),
            distances@,
            rows(old(points)@),
        ),
        final(points)@.len() == old(points)@.len(),
{
    let n = points.len();
    let keep = all_kept(n);
    proof {
        lemma_keep_all_count(n as nat, n as int);
    }
    let sorted = rank_points(&keep, distances, points);
    *points = sorted;
}

/// Weights of the ranking criteria.
#[derive(Clone, Copy, Debug, PartialEq, Eq, Structural)]
pub struct RankingCriteria {
    /// Weight of the distance to the intended state.
    pub intent_weight: u64,
    /// Weight of the constraint margin.
    pub margin_weight: u64,
    /// Weight of the distance to the original state.
    pub stability_weight: u64,
}

impl Default for RankingCriteria {
    /// The default weights: 1 for intent, 0.5 for margin, 0.3 for
    /// stability.
    fn default() -> (r: Self)
        ensures
            r.intent_weight == crate::scalar::ONE,
            r.margin_weight == crate::scalar::HALF,
            r.stability_weight == 0x3FD3_3333_3333_3333u64,
    {
        RankingCriteria {
            intent_weight: crate::scalar::ONE,
            margin_weight: crate::scalar::HALF,
            stability_weight: 0x3FD3_3333_3333_3333,
        }
    }
}

/// The parts of a candidate's score.
#[derive(Clone, Copy, Debug, PartialEq, Eq, Structural)]
pub struct ScoreComponents {
    /// Distance from the intended state.
    pub intent_distance: u64,
    /// Constraint margin.
    pub margin: u64,
    /// Distance from the original state.
    pub stability_distance: u64,
}

impl Default for ScoreComponents {
    fn default() -> (r: Self)
        ensures
            r.intent_distance == 0,
            r.margin == 0,
            r.stability_distance == 0,
    {
        ScoreComponents { intent_distance: 0, margin: 0, stability_distance: 0 }
    }
}

/// A candidate with its score; lower is better.
#[derive(Clone, Debug)]
pub struct ScoredCandidate {
    /// The candidate point.
    pub point: Vector,
    /// The score.
    pub score: u64,
    /// The parts of the score.
    pub components: ScoreComponents,
}

/// Ranks candidates by score, lowest first, ties broken lexicographically
/// by point and then by position. `scores[i]` and `components[i]` belong to
/// `candidates[i]`.
pub fn rank_candidates(
    candidates: &Vec<Vector>,
    components: &Vec<ScoreComponents>,
    scores: &Vec<u64>,
) -> (r: Vec<ScoredCandidate>)
    requires
        components@.len() == candidates@.len(),
        scores@.len() == candidates@.len(),
    ensures
        r@.len() == candidates@.len(),
        forall|k: int|
            0 <= k < r@.len() ==> {
                let i = ranking(keep_all(candidates@.len()), scores@, rows(candidates@))[k];
                &&& 0 <= i < candidates@.len()
                &&& (#[trigger] r@[k]).point@ == candidates@[i]@
                &&& r@[k].score == scores@[i]
                &&& r@[k].components == components@[i]
            },
{
    let n = candidates.len();
    let keep = all_kept(n);
    proof {
        lemma_keep_all_count(n as nat, n as int);
    }
    let order = rank_order(&keep, scores, candidates);
    let mut out: Vec<ScoredCandidate> = Vec::new();
    let mut k: usize = 0;
    while k < n
        invariant
            n == candidates@.len(),
            n == components@.len(),
            n == scores@.len(),
            n == order@.len(),
            forall|x: int| 0 <= x < order@.len() ==> #[trigger] order@[x] < n,
            indices(order@) == ranking(keep_all(candidates@.len()), scores@, rows(candidates@)),
            k <= n,
            out@.len() == k,
            forall|x: int|
                0 <= x < k ==> {
                    let i = order@[x] as int;
                    &&& (#[trigger] out@[x]).point@ == candidates@[i]@
                    &&& out@[x].score == scores@[i]
                    &&& out@[x].components == components@[i]
                },
        decreases n - k,
    {
        let i = order[k];
        out.push(
            ScoredCandidate { point: candidates[i].copy(), score: scores[i], components: components[i] },
        );
        k += 1;
    }
    proof {
        let o = ranking(keep_all(candidates@.len()), scores@, rows(candidates@));
        assert forall|k: int| 0 <= k < out@.len() implies {
            let i = o[k];
            &&& 0 <= i < candidates@.len()
            &&& (#[trigger] out@[k]).point@ == candidates@[i]@
            &&& out@[k].score == scores@[i]
            &&& out@[k].components == components@[i]
        } by {
            assert(indices(order@)[k] == order@[k] as int);
        }
    }
    out
}

} // verus!
