//! Linear constraint: the halfspace `a . x <= b`.

use vstd::prelude::*;
use crate::constants::{near_zero, is_near_zero, EPSILON};
use crate::constraints::Constraint;
use crate::linalg::Vector;
use crate::scalar::{le, negated, less_eq, negate, INFINITY, NEG_INFINITY, ONE, ZERO};

verus! {

/// A halfspace `a . x <= b`, with the squared norm of its normal.
#[derive(Clone, Debug)]
pub struct LinearConstraint {
    normal: Vector,
    bound: u64,
    normal_norm_sq: u64,
}

/// The normal of a bound on one dimension: the unit vector along it.
pub open spec fn axis_normal(total_dims: usize, dimension: usize) -> Seq<u64> {
    Seq::new(total_dims as nat, |i: int| if i == dimension { ONE } else { ZERO })
}

/// The squared norm of [`axis_normal`]: one, or zero when the dimension is
/// not among the dimensions.
pub open spec fn axis_norm_sq(total_dims: usize, dimension: usize) -> u64 {
    if dimension < total_dims {
        ONE
    } else {
        ZERO
    }
}

/// Each component with its sign flipped.
pub open spec fn negated_seq(v: Seq<u64>) -> Seq<u64> {
    Seq::new(v.len(), |i: int| negated(v[i]))
}

impl LinearConstraint {
    /// The normal vector `a`.
    pub closed spec fn normal_view(&self) -> Seq<u64> {
        self.normal@
    }

    /// The bound `b`.
    pub closed spec fn bound_view(&self) -> u64 {
        self.bound
    }

    /// The squared norm of the normal.
    pub closed spec fn norm_sq_view(&self) -> u64 {
        self.normal_norm_sq
    }

    /// Whether the normal is degenerate: its squared norm is effectively
    /// zero.
    pub open spec fn degenerate(&self) -> bool {
        near_zero(self.norm_sq_view())
    }

    /// Whether a point whose slack `a . x - b` is `slack` satisfies the
    /// constraint. A degenerate constraint is vacuously true when the bound
    /// is not negative and vacuously false otherwise.
    pub open spec fn holds_at(&self, slack: u64) -> bool {
        if self.degenerate() {
            le(ZERO, self.bound_view())
        } else {
            le(slack, EPSILON)
        }
    }

    /// Whether projection moves a point with the given slack.
    pub open spec fn moves_at(&self, slack: u64) -> bool {
        !self.degenerate() && !le(slack, EPSILON)
    }

    /// Creates the constraint `normal . x <= bound`. `normal_norm_sq` is the
    /// squared Euclidean norm of `normal`.
    pub fn new(normal: Vector, bound: u64, normal_norm_sq: u64) -> (r: Self)
        ensures
            r.normal_view() == normal@,
            r.bound_view() == bound,
            r.norm_sq_view() == normal_norm_sq,
    {
        LinearConstraint { normal, bound, normal_norm_sq }
    }

    /// Creates the constraint `x[dimension] <= bound`.
    pub fn upper_bound(dimension: usize, total_dims: usize, bound: u64) -> (r: Self)
        ensures
            r.normal_view() == axis_normal(total_dims, dimension),
            r.bound_view() == bound,
            r.norm_sq_view() == axis_norm_sq(total_dims, dimension),
    {
        let norm = if dimension < total_dims {
            ONE
        } else {
            ZERO
        };
        Self::new(Vector::unit(total_dims, dimension), bound, norm)
    }

    /// Creates the constraint `x[dimension] >= bound`, as
    /// `-x[dimension] <= -bound`.
    pub fn lower_bound(dimension: usize, total_dims: usize, bound: u64) -> (r: Self)
        ensures
            r.normal_view() == negated_seq(axis_normal(total_dims, dimension)),
            r.bound_view() == negated(bound),
            r.norm_sq_view() == axis_norm_sq(total_dims, dimension),
    {
        let norm = if dimension < total_dims {
            ONE
        } else {
            ZERO
        };
        let normal = Vector::unit(total_dims, dimension).neg();
        assert(normal@ =~= negated_seq(axis_normal(total_dims, dimension)));
        Self::new(normal, negate(bound), norm)
    }

    /// Creates the equality `normal . x = bound` as a pair of halfspaces:
    /// `normal . x <= bound` and `-normal . x <= -bound`.
    pub fn equality(normal: Vector, bound: u64, normal_norm_sq: u64) -> (r: (Self, Self))
        ensures
            r.0.normal_view() == normal@,
            r.0.bound_view() == bound,
            r.0.norm_sq_view() == normal_norm_sq,
            r.1.normal_view() == negated_seq(normal@),
            r.1.bound_view() == negated(bound),
            r.1.norm_sq_view() == normal_norm_sq,
    {
        let opposite = normal.neg();
        assert(opposite@ =~= negated_seq(normal@));
        (Self::new(normal, bound, normal_norm_sq), Self::new(opposite, negate(bound), normal_norm_sq))
    }

    /// The normal vector.
    pub fn normal(&self) -> (r: &Vector)
        ensures
            r@ == self.normal_view(),
    {
        &self.normal
    }

    /// The bound value.
    pub fn bound(&self) -> (r: u64)
        ensures
            r == self.bound_view(),
    {
        self.bound
    }

    /// The squared norm of the normal.
    pub fn normal_norm_sq(&self) -> (r: u64)
        ensures
            r == self.norm_sq_view(),
    {
        self.normal_norm_sq
    }

    /// Tells whether the normal is degenerate.
    pub fn is_degenerate(&self) -> (r: bool)
        ensures
            r == self.degenerate(),
    {
        is_near_zero(self.normal_norm_sq)
    }

    /// Tells whether a point satisfies the constraint, given its slack
    /// `a . x - b`.
    pub fn satisfied(&self, slack: u64) -> (r: bool)
        ensures
            r == self.holds_at(slack),
    {
        if self.is_degenerate() {
            less_eq(ZERO, self.bound)
        } else {
            less_eq(slack, EPSILON)
        }
    }

    /// The signed distance of a point to the boundary, given the quotient
    /// of its slack by the norm of the normal. A degenerate constraint is
    /// infinitely far: inside when the bound is not negative, outside
    /// otherwise.
    pub fn distance(&self, quotient: u64) -> (r: u64)
        ensures
            r == if !self.degenerate() {
                quotient
            } else if le(ZERO, self.bound_view()) {
                NEG_INFINITY
            } else {
                INFINITY
            },
    {
        if self.is_degenerate() {
            if less_eq(ZERO, self.bound) {
                NEG_INFINITY
            } else {
                INFINITY
            }
        } else {
            quotient
        }
    }

    /// Projects a point onto the halfspace. `slack` is `a . p - b` for the
    /// point `p`, and `landing` the point `p - (slack / |a|^2) a` on the
    /// boundary. A point that satisfies the constraint, and any point when
    /// the normal is degenerate, is returned unchanged.
    pub fn project(&self, point: &Vector, slack: u64, landing: &Vector) -> (r: Vector)
        ensures
            r@ == if self.moves_at(slack) {
                landing@
            } else {
                point@
            },
    {
        if self.is_degenerate() || less_eq(slack, EPSILON) {
            point.copy()
        } else {
            landing.copy()
        }
    }
}

/// Interior fixity: a point that satisfies a halfspace is never moved by
/// projection onto it, and neither is any point when the normal is
/// degenerate.
pub proof fn lemma_satisfied_points_stay(constraint: &LinearConstraint, slack: u64)
    requires
        constraint.holds_at(slack) || constraint.degenerate(),
    ensures
        !constraint.moves_at(slack),
{
}

impl Constraint for LinearConstraint {
    open spec fn convex(&self) -> bool {
        true
    }

    open spec fn dims(&self) -> nat {
        self.normal_view().len()
    }

    /// A halfspace is convex.
    fn is_convex(&self) -> (r: bool) {
        true
    }

    fn dim(&self) -> (r: usize) {
        self.normal.dim()
    }
}

} // verus!
