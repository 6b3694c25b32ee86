//! Box bounds: `min <= x <= max` in every dimension.

use vstd::prelude::*;
use crate::linalg::{Vector, clamp_seq, ordered, within};
use crate::constraints::Constraint;
use crate::scalar::{clamped, between, le, nan, negated, clamp, ZERO, ONE};
use crate::scalar::{lemma_clamp_idempotent, lemma_clamp_fixes_inside, lemma_clamp_nearest};

verus! {

/// An axis-aligned box. Projection onto it clamps each coordinate to the
/// bounds of its dimension.
#[derive(Clone, Debug)]
pub struct BoxBounds {
    min: Vector,
    max: Vector,
    reversed: bool,
}

impl BoxBounds {
    /// The minimum per dimension.
    pub closed spec fn lower(&self) -> Seq<u64> {
        self.min@
    }

    /// The maximum per dimension.
    pub closed spec fn upper(&self) -> Seq<u64> {
        self.max@
    }

    /// Whether projection walks the dimensions from the last to the first.
    pub closed spec fn walks_backwards(&self) -> bool {
        self.reversed
    }

    /// The invariant of a box: `min[i] <= max[i]` in every dimension.
    pub open spec fn wf(&self) -> bool {
        ordered(self.lower(), self.upper())
    }

    /// The projection of `point`: each coordinate clamped to its bounds.
    pub open spec fn projection(&self, point: Seq<u64>) -> Seq<u64> {
        clamp_seq(point, self.lower(), self.upper())
    }

    /// Whether `point` lies in the box.
    pub open spec fn holds(&self, point: Seq<u64>) -> bool {
        within(point, self.lower(), self.upper())
    }

    /// Creates a box from its two corners.
    pub fn new(min: Vector, max: Vector) -> (r: Self)
        requires
            ordered(min@, max@),
        ensures
            r.wf(),
            r.lower() == min@,
            r.upper() == max@,
            !r.walks_backwards(),
    {
        BoxBounds { min, max, reversed: false }
    }

    /// Creates a box whose projection walks the dimensions in reverse. Its
    /// projections equal those of the box made by [`BoxBounds::new`].
    pub fn new_reversed(min: Vector, max: Vector) -> (r: Self)
        requires
            ordered(min@, max@),
        ensures
            r.wf(),
            r.lower() == min@,
            r.upper() == max@,
            r.walks_backwards(),
    {
        BoxBounds { min, max, reversed: true }
    }

    /// The unit hypercube `[0, 1]^n`.
    pub fn unit_cube(dim: usize) -> (r: Self)
        ensures
            r.wf(),
            r.lower() == Seq::new(dim as nat, |i: int| ZERO),
            r.upper() == Seq::new(dim as nat, |i: int| ONE),
            !r.walks_backwards(),
    {
        Self::new(Vector::zeros(dim), Vector::from_elem(dim, ONE))
    }

    /// The box centred at the origin with the given half-extents.
    pub fn centered(half_extents: Vector) -> (r: Self)
        requires
            forall|i: int| 0 <= i < half_extents@.len() ==> le(ZERO, #[trigger] half_extents@[i]),
        ensures
            r.wf(),
            r.lower() == Seq::new(half_extents@.len(), |i: int| negated(half_extents@[i])),
            r.upper() == half_extents@,
            !r.walks_backwards(),
    {
        let low = half_extents.neg();
        assert forall|i: int| 0 <= i < low@.len() implies le(#[trigger] low@[i], half_extents@[i]) by {
            assert(le(ZERO, half_extents@[i]));
        }
        Self::new(low, half_extents)
    }

    /// The minimum bounds.
    pub fn min(&self) -> (r: &Vector)
        ensures
            r@ == self.lower(),
    {
        &self.min
    }

    /// The maximum bounds.
    pub fn max(&self) -> (r: &Vector)
        ensures
            r@ == self.upper(),
    {
        &self.max
    }

    /// The dimension of the box.
    pub fn dimension(&self) -> (r: usize)
        ensures
            r == self.lower().len(),
    {
        self.min.dim()
    }

    /// Whether `point` lies in the box: no coordinate below the minimum or
    /// above the maximum of its dimension. The test is exact.
    pub fn encloses(&self, point: &Vector) -> (r: bool)
        requires
            self.wf(),
            point@.len() == self.lower().len(),
        ensures
            r == self.holds(point@),
    {
        point.is_within(&self.min, &self.max)
    }

    /// Projects `point` onto the box. The result is a function of the box's
    /// corners and the point alone: the same bits on every call, whichever
    /// way the dimensions are walked. It lies in the box.
    pub fn project(&self, point: &Vector) -> (r: Vector)
        requires
            self.wf(),
            point@.len() == self.lower().len(),
        ensures
            r@ == self.projection(point@),
            self.holds(r@),
    {
        let n = self.min.dim();
        let mut result = point.copy();
        if self.reversed {
            let mut i: usize = n;
            while i > 0
                invariant
                    self.wf(),
                    n == self.min@.len(),
                    n == point@.len(),
                    result@.len() == n,
                    i <= n,
                    forall|k: int| 0 <= k < i ==> result@[k] == point@[k],
                    forall|k: int|
                        i <= k < n ==> result@[k] == clamped(point@[k], self.min@[k], self.max@[k]),
                decreases i,
            {
                i -= 1;
                let c = clamp(result.get(i), self.min.get(i), self.max.get(i));
                result.set(i, c);
            }
        } else {
            let mut i: usize = 0;
            while i < n
                invariant
                    self.wf(),
                    n == self.min@.len(),
                    n == point@.len(),
                    result@.len() == n,
                    i <= n,
                    forall|k: int| i <= k < n ==> result@[k] == point@[k],
                    forall|k: int|
                        0 <= k < i ==> result@[k] == clamped(point@[k], self.min@[k], self.max@[k]),
                decreases n - i,
            {
                let c = clamp(result.get(i), self.min.get(i), self.max.get(i));
                result.set(i, c);
                i += 1;
            }
        }
        assert(result@ =~= self.projection(point@));
        proof {
            self.lemma_project_sound(point@);
        }
        result
    }

    /// Soundness: the projection of any point lies in the box.
    pub proof fn lemma_project_sound(&self, point: Seq<u64>)
        requires
            self.wf(),
            point.len() == self.lower().len(),
        ensures
            self.holds(self.projection(point)),
    {
        let p = self.projection(point);
        assert forall|i: int| 0 <= i < p.len() implies crate::scalar::inside(
            #[trigger] p[i],
            self.lower()[i],
            self.upper()[i],
        ) by {
            assert(le(self.lower()[i], self.upper()[i]));
        }
    }

    /// Idempotence: projecting a projection changes no bit.
    pub proof fn lemma_project_idempotent(&self, point: Seq<u64>)
        requires
            self.wf(),
            point.len() == self.lower().len(),
        ensures
            self.projection(self.projection(point)) == self.projection(point),
    {
        let p = self.projection(point);
        assert forall|i: int| 0 <= i < p.len() implies clamped(p[i], self.lower()[i], self.upper()[i])
            == p[i] by {
            assert(le(self.lower()[i], self.upper()[i]));
            lemma_clamp_idempotent(point[i], self.lower()[i], self.upper()[i]);
        }
        assert(self.projection(p) =~= p);
    }

    /// Interior fixity: a point of the box, interior or on the boundary, is
    /// its own projection, bit for bit.
    pub proof fn lemma_project_fixes_members(&self, point: Seq<u64>)
        requires
            self.wf(),
            point.len() == self.lower().len(),
            self.holds(point),
        ensures
            self.projection(point) == point,
    {
        assert forall|i: int| 0 <= i < point.len() implies clamped(
            point[i],
            self.lower()[i],
            self.upper()[i],
        ) == point[i] by {
            assert(crate::scalar::inside(point[i], self.lower()[i], self.upper()[i]));
            lemma_clamp_fixes_inside(point[i], self.lower()[i], self.upper()[i]);
        }
        assert(self.projection(point) =~= point);
    }

    /// Nearest point: in every dimension the projection lies between the
    /// point and any member of the box, so no member of the box is closer
    /// to the point than its projection, in any coordinate and hence in
    /// Euclidean distance.
    pub proof fn lemma_project_nearest(&self, point: Seq<u64>, sample: Seq<u64>, i: int)
        requires
            self.wf(),
            point.len() == self.lower().len(),
            sample.len() == self.lower().len(),
            0 <= i < point.len(),
            !nan(point[i]),
            le(self.lower()[i], sample[i]),
            le(sample[i], self.upper()[i]),
        ensures
            between(point[i], self.projection(point)[i], sample[i]),
    {
        assert(le(self.lower()[i], self.upper()[i]));
        lemma_clamp_nearest(point[i], self.lower()[i], self.upper()[i], sample[i]);
    }

    /// Determinism: projections of one point onto one box agree in every
    /// bit.
    pub proof fn lemma_project_deterministic(&self, first: Seq<u64>, second: Seq<u64>)
        requires
            first == second,
        ensures
            self.projection(first) == self.projection(second),
    {
    }

    /// Order independence: two boxes with the same corners project every
    /// point to the same bits, whichever way each walks the dimensions.
    pub proof fn lemma_project_order_independent(&self, other: &BoxBounds, point: Seq<u64>)
        requires
            self.lower() == other.lower(),
            self.upper() == other.upper(),
        ensures
            self.projection(point) == other.projection(point),
    {
    }
}

impl Constraint for BoxBounds {
    open spec fn convex(&self) -> bool {
        true
    }

    open spec fn dims(&self) -> nat {
        self.lower().len()
    }

    /// A box is convex.
    fn is_convex(&self) -> (r: bool) {
        true
    }

    fn dim(&self) -> (r: usize) {
        self.min.dim()
    }
}

} // verus!
