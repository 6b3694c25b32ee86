//! Convex relaxation of a mixed constraint list.
//!
//! The relaxation of a constraint list is the sublist of its convex
//! constraints. Projecting onto it yields the centre that seeds the
//! nonconvex candidate search.

use vstd::prelude::*;
use crate::constraints::{all_are_convex, all_convex, Constraint};
use crate::constraints::box_bounds::BoxBounds;
use crate::linalg::Vector;
use crate::rank::rows;
use crate::scalar::{inside, larger, le, nan, smaller, maximum, minimum, NEG_INFINITY};

verus! {

/// The constraints that references point to.
pub open spec fn targets<C>(refs: Seq<&C>) -> Seq<C> {
    Seq::new(refs.len(), |i: int| *refs[i])
}

/// The least of coordinate `i` over the first `n` points: the running
/// minimum from the first point on.
pub open spec fn lowest(points: Seq<Seq<u64>>, n: int, i: int) -> u64
    decreases n,
{
    if n <= 1 {
        points[0][i]
    } else {
        smaller(lowest(points, n - 1, i), points[n - 1][i])
    }
}

/// The greatest of coordinate `i` over the first `n` points: the running
/// maximum from the first point on.
pub open spec fn highest(points: Seq<Seq<u64>>, n: int, i: int) -> u64
    decreases n,
{
    if n <= 1 {
        points[0][i]
    } else {
        larger(highest(points, n - 1, i), points[n - 1][i])
    }
}

/// The greatest among the first `n` values: the running maximum from
/// negative infinity.
pub open spec fn greatest(values: Seq<u64>, n: int) -> u64
    decreases n,
{
    if n <= 0 {
        NEG_INFINITY
    } else {
        larger(greatest(values, n - 1), values[n - 1])
    }
}

/// Whether some point holds a number, not a NaN, in coordinate `i`.
pub open spec fn has_number(points: Seq<Seq<u64>>, i: int) -> bool {
    exists|k: int| 0 <= k < points.len() && !nan(#[trigger] points[k][i])
}

/// Whether `positions` lists exactly the positions of the convex
/// constraints, ascending.
pub open spec fn marks_convex<C: Constraint>(positions: Seq<usize>, constraints: Seq<C>) -> bool {
    &&& forall|k: int|
        0 <= k < positions.len() ==> #[trigger] positions[k] < constraints.len()
            && constraints[positions[k] as int].convex()
    &&& forall|k: int, l: int| 0 <= k < l < positions.len() ==> positions[k] < positions[l]
    &&& forall|i: int|
        0 <= i < constraints.len() && (#[trigger] constraints[i]).convex() ==> exists|k: int|
            0 <= k < positions.len() && positions[k] == i
}

/// The positions of the convex constraints of a list, ascending.
pub fn convex_positions<C: Constraint>(constraints: &Vec<C>) -> (r: Vec<usize>)
    ensures
        marks_convex(r@, constraints@),
{
    let n = constraints.len();
    let mut out: Vec<usize> = Vec::new();
    let mut i: usize = 0;
    while i < n
        invariant
            n == constraints@.len(),
            i <= n,
            forall|k: int|
                0 <= k < out@.len() ==> #[trigger] out@[k] < i && constraints@[out@[k] as int].convex(),
            forall|k: int, l: int| 0 <= k < l < out@.len() ==> out@[k] < out@[l],
            forall|x: int|
                0 <= x < i && (#[trigger] constraints@[x]).convex() ==> exists|k: int|
                    0 <= k < out@.len() && out@[k] == x,
        decreases n - i,
    {
        if constraints[i].is_convex() {
            let ghost before = out@;
            out.push(i);
            assert forall|x: int| 0 <= x < i + 1 && (#[trigger] constraints@[x]).convex() implies exists|
                k: int,
            |
                0 <= k < out@.len() && out@[k] == x by {
                if x == i {
                    assert(out@[before.len() as int] == x);
                } else {
                    let k0 = choose|k: int| 0 <= k < before.len() && before[k] == x;
                    assert(out@[k0] == x);
                }
            }
        }
        i += 1;
    }
    out
}

/// The convex relaxation of a constraint list: its convex constraints, in
/// their order.
pub fn convex_relaxation<C: Constraint>(constraints: &Vec<C>) -> (r: Vec<&C>)
    ensures
        targets(r@) == constraints@.filter(|c: C| c.convex()),
{
    let ghost keep = |c: C| c.convex();
    let n = constraints.len();
    let mut out: Vec<&C> = Vec::new();
    let mut i: usize = 0;
    assert(targets(out@) =~= constraints@.take(0).filter(keep));
    while i < n
        invariant
            n == constraints@.len(),
            i <= n,
            keep == |c: C| c.convex(),
            targets(out@) == constraints@.take(i as int).filter(keep),
        decreases n - i,
    {
        proof {
            let next = constraints@.take(i + 1);
            assert(next.drop_last() =~= constraints@.take(i as int));
            assert(next.last() == constraints@[i as int]);
            reveal(Seq::filter);
        }
        let ghost before = targets(out@);
        if constraints[i].is_convex() {
            out.push(&constraints[i]);
            assert(targets(out@) =~= before.push(constraints@[i as int]));
        }
        i += 1;
    }
    assert(constraints@.take(n as int) =~= constraints@);
    out
}

/// Checks whether a constraint list is purely convex.
pub fn is_all_convex<C: Constraint>(constraints: &Vec<C>) -> (r: bool)
    ensures
        r == all_are_convex(constraints@),
{
    all_convex(constraints)
}

/// Counts the nonconvex constraints of a list.
pub fn count_nonconvex<C: Constraint>(constraints: &Vec<C>) -> (r: usize)
    ensures
        r == constraints@.filter(|c: C| !c.convex()).len(),
{
    let ghost odd = |c: C| !c.convex();
    let n = constraints.len();
    let mut count: usize = 0;
    let mut i: usize = 0;
    assert(constraints@.take(0).filter(odd) =~= Seq::<C>::empty());
    while i < n
        invariant
            n == constraints@.len(),
            i <= n,
            odd == |c: C| !c.convex(),
            count == constraints@.take(i as int).filter(odd).len(),
            count <= i,
        decreases n - i,
    {
        proof {
            let next = constraints@.take(i + 1);
            assert(next.drop_last() =~= constraints@.take(i as int));
            assert(next.last() == constraints@[i as int]);
            reveal(Seq::filter);
        }
        if !constraints[i].is_convex() {
            count += 1;
        }
        i += 1;
    }
    assert(constraints@.take(n as int) =~= constraints@);
    count
}

/// The smallest box that holds all the points, or `None` without points.
/// In each dimension some point must hold a number.
pub fn bounding_box_from_points(points: &Vec<Vector>) -> (r: Option<BoxBounds>)
    requires
        forall|k: int| 0 <= k < points@.len() ==> (#[trigger] points@[k])@.len() == points@[0]@.len(),
        points@.len() > 0 ==> forall|i: int|
            0 <= i < points@[0]@.len() ==> #[trigger] has_number(rows(points@), i),
    ensures
        r is None <==> points@.len() == 0,
        r matches Some(b) ==> {
            &&& b.wf()
            &&& b.lower() == Seq::new(
                points@[0]@.len(),
                |i: int| lowest(rows(points@), points@.len() as int, i),
            )
            &&& b.upper() == Seq::new(
                points@[0]@.len(),
                |i: int| highest(rows(points@), points@.len() as int, i),
            )
            &&& forall|k: int| 0 <= k < points@.len() ==> b.holds(#[trigger] rows(points@)[k])
        },
{
    let n = points.len();
    if n == 0 {
        return None;
    }
    let ghost ps = rows(points@);
    let dim = points[0].dim();
    let mut min = points[0].copy();
    let mut max = points[0].copy();
    let mut k: usize = 1;
    while k < n
        invariant
            n == points@.len(),
            ps == rows(points@),
            forall|j: int| 0 <= j < n ==> (#[trigger] points@[j])@.len() == dim,
            dim == points@[0]@.len(),
            min@.len() == dim,
            max@.len() == dim,
            1 <= k <= n,
            forall|i: int| 0 <= i < dim ==> min@[i] == lowest(ps, k as int, i),
            forall|i: int| 0 <= i < dim ==> max@[i] == highest(ps, k as int, i),
        decreases n - k,
    {
        let point = &points[k];
        assert(ps[k as int] == point@);
        let mut i: usize = 0;
        while i < dim
            invariant
                k < n,
                point@.len() == dim,
                ps[k as int] == point@,
                min@.len() == dim,
                max@.len() == dim,
                i <= dim,
                forall|x: int| 0 <= x < i ==> min@[x] == lowest(ps, k + 1, x),
                forall|x: int| 0 <= x < i ==> max@[x] == highest(ps, k + 1, x),
                forall|x: int| i <= x < dim ==> min@[x] == lowest(ps, k as int, x),
                forall|x: int| i <= x < dim ==> max@[x] == highest(ps, k as int, x),
            decreases dim - i,
        {
            min.set(i, minimum(min.get(i), point.get(i)));
            max.set(i, maximum(max.get(i), point.get(i)));
            i += 1;
        }
        k += 1;
    }
    proof {
        assert forall|i: int| 0 <= i < dim implies le(#[trigger] min@[i], max@[i]) by {
            lemma_extremes(ps, n as int, i);
            assert(has_number(ps, i));
        }
        assert forall|j: int| 0 <= j < n implies crate::linalg::within(
            #[trigger] ps[j],
            min@,
            max@,
        ) by {
            assert(ps[j] == points@[j]@);
            assert forall|i: int| 0 <= i < ps[j].len() implies inside(
                #[trigger] ps[j][i],
                min@[i],
                max@[i],
            ) by {
                lemma_extremes(ps, n as int, i);
            }
        }
        assert(min@ =~= Seq::new(points@[0]@.len(), |i: int| lowest(ps, n as int, i)));
        assert(max@ =~= Seq::new(points@[0]@.len(), |i: int| highest(ps, n as int, i)));
    }
    Some(BoxBounds::new(min, max))
}

/// The running extremes enclose every point seen, they are NaN only while
/// every point seen is, and the lowest is not above the highest.
proof fn lemma_extremes(points: Seq<Seq<u64>>, n: int, i: int)
    requires
        1 <= n,
    ensures
        forall|k: int| 0 <= k < n ==> inside(#[trigger] points[k][i], lowest(points, n, i), highest(points, n, i)),
        nan(lowest(points, n, i)) <==> forall|k: int| 0 <= k < n ==> nan(#[trigger] points[k][i]),
        nan(highest(points, n, i)) <==> forall|k: int| 0 <= k < n ==> nan(#[trigger] points[k][i]),
        !nan(lowest(points, n, i)) ==> le(lowest(points, n, i), highest(points, n, i)),
    decreases n,
{
    if n > 1 {
        lemma_extremes(points, n - 1, i);
        let p = points[n - 1][i];
        let lo = lowest(points, n - 1, i);
        let hi = highest(points, n - 1, i);
        assert forall|k: int| 0 <= k < n implies inside(
            #[trigger] points[k][i],
            lowest(points, n, i),
            highest(points, n, i),
        ) by {
            if k < n - 1 {
                assert(inside(points[k][i], lo, hi));
            }
        }
        if nan(lo) {
            assert forall|k: int| 0 <= k < n - 1 implies nan(#[trigger] points[k][i]) by {}
        } else {
            let w = choose|k: int| 0 <= k < n - 1 && !nan(#[trigger] points[k][i]);
            assert(!nan(points[w][i]));
        }
        if !nan(p) {
            assert(!nan(points[n - 1][i]));
        }
    } else {
        assert(points[0][i] == lowest(points, n, i));
        if !nan(points[0][i]) {
            assert(!(forall|k: int| 0 <= k < n ==> nan(#[trigger] points[k][i])));
        }
    }
}

/// The largest of the values of a direction over a set of points: with the
/// tolerance added it bounds a halfspace that holds all the points.
/// `values[k]` is the dot product of the direction with point `k`.
pub fn support_value(values: &Vec<u64>) -> (r: u64)
    ensures
        r == greatest(values@, values@.len() as int),
{
    let n = values.len();
    let mut best: u64 = NEG_INFINITY;
    let mut i: usize = 0;
    while i < n
        invariant
            n == values@.len(),
            i <= n,
            best == greatest(values@, i as int),
        decreases n - i,
    {
        best = maximum(best, values[i]);
        i += 1;
    }
    best
}

} // verus!
