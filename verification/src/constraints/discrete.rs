//! Discrete constraint: the feasible region is a finite set of points.

use vstd::prelude::*;
use crate::candidates::{capped, columns, grid_points, prefixed, tuples, tuples_upto};
use crate::constants::{EPSILON, TOLERANCE};
use crate::constraints::Constraint;
use crate::linalg::Vector;
use crate::rank::rows;
use crate::scalar::{le, lt, nan, less, NEG_INFINITY};

verus! {

/// Restricts a point to a finite set of allowed points. The constraint is
/// nonconvex; projection returns the nearest allowed point.
#[derive(Clone, Debug)]
pub struct DiscreteConstraint {
    allowed: Vec<Vector>,
    dim: usize,
}

/// The position of the nearest among the first `n` distances: a later
/// entry replaces the best so far only when it is strictly smaller, so of
/// several nearest the first wins.
pub open spec fn first_nearest(distances: Seq<u64>, n: int) -> int
    decreases n,
{
    if n <= 1 {
        0
    } else {
        let best = first_nearest(distances, n - 1);
        if lt(distances[n - 1], distances[best]) {
            n - 1
        } else {
            best
        }
    }
}

/// Without NaNs the nearest position holds a least distance, and every
/// earlier position holds a strictly larger one.
pub proof fn lemma_first_nearest_is_least(distances: Seq<u64>, n: int)
    requires
        1 <= n <= distances.len(),
        forall|i: int| 0 <= i < n ==> !nan(#[trigger] distances[i]),
    ensures
        0 <= first_nearest(distances, n) < n,
        forall|j: int| 0 <= j < n ==> le(distances[first_nearest(distances, n)], #[trigger] distances[j]),
        forall|j: int|
            0 <= j < first_nearest(distances, n) ==> lt(
                distances[first_nearest(distances, n)],
                #[trigger] distances[j],
            ),
    decreases n,
{
    if n > 1 {
        lemma_first_nearest_is_least(distances, n - 1);
        let best = first_nearest(distances, n - 1);
        assert(!nan(distances[n - 1]));
        assert(!nan(distances[best]));
    } else {
        assert(!nan(distances[0]));
    }
}

proof fn lemma_tuple_lengths(axes: Seq<Seq<u64>>, from: int, t: int)
    requires
        0 <= from <= axes.len(),
    ensures
        forall|k: int|
            0 <= k < tuples_upto(axes, from, t).len() ==> (#[trigger] tuples_upto(
                axes,
                from,
                t,
            )[k]).len() == axes.len() - from,
    decreases axes.len() - from, t,
{
    if from < axes.len() && t > 0 {
        let full = if from + 1 < axes.len() {
            axes[from + 1].len() as int
        } else {
            0
        };
        lemma_tuple_lengths(axes, from, t - 1);
        lemma_tuple_lengths(axes, from + 1, full);
        let earlier = tuples_upto(axes, from, t - 1);
        let rest = tuples_upto(axes, from + 1, full);
        let step = prefixed(seq![axes[from][t - 1]], rest);
        let all = tuples_upto(axes, from, t);
        assert(all == earlier + step);
        assert forall|k: int| 0 <= k < all.len() implies (#[trigger] all[k]).len() == axes.len()
            - from by {
            if k < earlier.len() {
                assert(all[k] == earlier[k]);
            } else {
                assert(all[k] == step[k - earlier.len()]);
                assert(step[k - earlier.len()] == seq![axes[from][t - 1]] + rest[k - earlier.len()]);
            }
        }
    }
}

impl DiscreteConstraint {
    /// The allowed points, each by its components.
    pub closed spec fn allowed_view(&self) -> Seq<Seq<u64>> {
        rows(self.allowed@)
    }

    /// The dimension of the allowed points.
    pub closed spec fn dim_view(&self) -> nat {
        self.dim as nat
    }

    /// The invariant of the constraint: there is an allowed point, and all
    /// allowed points have the constraint's dimension.
    pub open spec fn wf(&self) -> bool {
        &&& self.allowed_view().len() > 0
        &&& forall|i: int|
            0 <= i < self.allowed_view().len() ==> (#[trigger] self.allowed_view()[i]).len()
                == self.dim_view()
    }

    /// Creates the constraint from its allowed points.
    pub fn new(allowed: Vec<Vector>) -> (r: Self)
        requires
            allowed@.len() > 0,
            forall|i: int| 0 <= i < allowed@.len() ==> (#[trigger] allowed@[i])@.len() == allowed@[0]@.len(),
        ensures
            r.wf(),
            r.allowed_view() == rows(allowed@),
            r.dim_view() == allowed@[0]@.len(),
    {
        let dim = allowed[0].dim();
        DiscreteConstraint { allowed, dim }
    }

    /// Creates a grid constraint: the allowed points are the Cartesian
    /// product of the grid coordinates of each dimension, in lexicographic
    /// order. `axes[d]` lists the coordinates of dimension `d`, ascending
    /// from the lower end of its range. The constraint is well-formed when
    /// every axis holds a coordinate.
    pub fn grid(dim: usize, axes: &Vec<Vec<u64>>) -> (r: Self)
        requires
            axes@.len() == dim,
        ensures
            r.allowed_view() == capped(tuples(columns(axes@), 0), usize::MAX as int),
            r.dim_view() == dim,
            r.allowed_view().len() > 0 ==> r.wf(),
    {
        let allowed = grid_points(axes, usize::MAX);
        proof {
            let all = tuples(columns(axes@), 0);
            lemma_tuple_lengths(
                columns(axes@),
                0,
                if 0 < axes@.len() {
                    columns(axes@)[0].len() as int
                } else {
                    0
                },
            );
        }
        DiscreteConstraint { allowed, dim }
    }

    /// Creates a one-dimensional constraint from allowed scalar values.
    pub fn from_scalars(values: &[u64]) -> (r: Self)
        requires
            values@.len() > 0,
        ensures
            r.wf(),
            r.allowed_view() == Seq::new(values@.len(), |i: int| seq![values@[i]]),
            r.dim_view() == 1,
    {
        let n = values.len();
        let mut allowed: Vec<Vector> = Vec::new();
        let mut i: usize = 0;
        while i < n
            invariant
                n == values@.len(),
                i <= n,
                allowed@.len() == i,
                forall|k: int| 0 <= k < i ==> (#[trigger] allowed@[k])@ == seq![values@[k]],
            decreases n - i,
        {
            let mut one: Vec<u64> = Vec::new();
            one.push(values[i]);
            assert(one@ =~= seq![values@[i as int]]);
            allowed.push(Vector::from_vec(one));
            i += 1;
        }
        assert(rows(allowed@) =~= Seq::new(values@.len(), |i: int| seq![values@[i]]));
        Self::new(allowed)
    }

    /// The allowed points.
    pub fn allowed(&self) -> (r: &Vec<Vector>)
        ensures
            rows(r@) == self.allowed_view(),
    {
        &self.allowed
    }

    /// The position of the allowed point nearest to a query point.
    /// `distances[i]` is the distance from the query point to allowed point
    /// `i`. Of several nearest points the first is taken.
    pub fn nearest_index(&self, distances: &Vec<u64>) -> (r: usize)
        requires
            self.wf(),
            distances@.len() == self.allowed_view().len(),
        ensures
            r == first_nearest(distances@, distances@.len() as int),
            r < distances@.len(),
    {
        let n = distances.len();
        let mut best: usize = 0;
        let mut i: usize = 1;
        while i < n
            invariant
                n == distances@.len(),
                n >= 1,
                1 <= i <= n,
                best == first_nearest(distances@, i as int),
                best < i,
            decreases n - i,
        {
            if less(distances[i], distances[best]) {
                best = i;
            }
            i += 1;
        }
        best
    }

    /// The allowed point nearest to a query point, given the distances from
    /// the query point to each allowed point.
    pub fn nearest(&self, distances: &Vec<u64>) -> (r: &Vector)
        requires
            self.wf(),
            distances@.len() == self.allowed_view().len(),
        ensures
            r@ == self.allowed_view()[first_nearest(distances@, distances@.len() as int)],
    {
        let k = self.nearest_index(distances);
        assert(rows(self.allowed@).len() == self.allowed@.len());
        &self.allowed[k]
    }

    /// Tells whether a query point is an allowed point: it is when its
    /// distance to some allowed point is below [`TOLERANCE`].
    pub fn satisfied(&self, distances: &Vec<u64>) -> (r: bool)
        ensures
            r == exists|i: int| 0 <= i < distances@.len() && lt(#[trigger] distances@[i], TOLERANCE),
    {
        let n = distances.len();
        let mut i: usize = 0;
        while i < n
            invariant
                n == distances@.len(),
                i <= n,
                forall|k: int| 0 <= k < i ==> !lt(#[trigger] distances@[k], TOLERANCE),
            decreases n - i,
        {
            if less(distances[i], TOLERANCE) {
                return true;
            }
            i += 1;
        }
        false
    }

    /// The signed distance of a query point: its distance to the nearest
    /// allowed point, or negative infinity when that is below [`EPSILON`].
    pub fn distance(&self, distances: &Vec<u64>) -> (r: u64)
        requires
            self.wf(),
            distances@.len() == self.allowed_view().len(),
        ensures
            r == if lt(distances@[first_nearest(distances@, distances@.len() as int)], EPSILON) {
                NEG_INFINITY
            } else {
                distances@[first_nearest(distances@, distances@.len() as int)]
            },
    {
        let d = distances[self.nearest_index(distances)];
        if less(d, EPSILON) {
            NEG_INFINITY
        } else {
            d
        }
    }

    /// Projects a query point: returns the nearest allowed point.
    pub fn project(&self, distances: &Vec<u64>) -> (r: Vector)
        requires
            self.wf(),
            distances@.len() == self.allowed_view().len(),
        ensures
            r@ == self.allowed_view()[first_nearest(distances@, distances@.len() as int)],
    {
        self.nearest(distances).copy()
    }
}

impl Constraint for DiscreteConstraint {
    open spec fn convex(&self) -> bool {
        false
    }

    open spec fn dims(&self) -> nat {
        self.dim_view()
    }

    /// A finite set of points is not convex.
    fn is_convex(&self) -> (r: bool) {
        false
    }

    fn dim(&self) -> (r: usize) {
        self.dim
    }
}

} // verus!
