//! The constraint variants and the checks that range over a constraint
//! list.
//!
//! Whether a point satisfies a constraint, and how far it is from the
//! boundary, rest on rounding arithmetic. The checks over a list therefore
//! take what each constraint answered, one entry per constraint, in the
//! order of the list.

pub mod box_bounds;
pub mod collision;
pub mod discrete;
pub mod linear;

use vstd::prelude::*;
use crate::constraints::box_bounds::BoxBounds;
use crate::constraints::collision::CollisionConstraint;
use crate::constraints::discrete::DiscreteConstraint;
use crate::constraints::linear::LinearConstraint;
use crate::scalar::{larger, maximum, ZERO};

verus! {

/// What every constraint variant can tell exactly: whether its feasible
/// region is convex, and the dimension it operates in.
pub trait Constraint {
    /// Whether the feasible region is convex.
    spec fn convex(&self) -> bool;

    /// The dimension that the constraint operates in.
    spec fn dims(&self) -> nat;

    /// Tells whether the feasible region is convex. Convex constraints are
    /// handled by cyclic projection, the others by candidate search.
    fn is_convex(&self) -> (r: bool)
        ensures
            r == self.convex(),
    ;

    /// The dimension that the constraint operates in.
    fn dim(&self) -> (r: usize)
        ensures
            r == self.dims(),
    ;
}

/// What the routing of a call reads of a constraint of any kind: whether
/// it is convex, and its dimension.
#[derive(Clone, Copy, Debug, PartialEq, Eq, Structural)]
pub struct ConstraintProfile {
    /// Whether the feasible region is convex.
    pub convex: bool,
    /// The dimension that the constraint operates in.
    pub dim: usize,
}

impl Constraint for ConstraintProfile {
    open spec fn convex(&self) -> bool {
        self.convex
    }

    open spec fn dims(&self) -> nat {
        self.dim as nat
    }

    fn is_convex(&self) -> (r: bool) {
        self.convex
    }

    fn dim(&self) -> (r: usize) {
        self.dim
    }
}

/// Any one of the constraint variants, so that constraints of different
/// kinds can stand in one list.
#[derive(Clone, Debug)]
pub enum ConstraintRef {
    /// Box bounds.
    Bounds(BoxBounds),
    /// A halfspace.
    Halfspace(LinearConstraint),
    /// Collision avoidance.
    Collision(CollisionConstraint),
    /// A finite set of allowed points.
    Discrete(DiscreteConstraint),
}

impl Constraint for ConstraintRef {
    open spec fn convex(&self) -> bool {
        match self {
            ConstraintRef::Bounds(c) => c.convex(),
            ConstraintRef::Halfspace(c) => c.convex(),
            ConstraintRef::Collision(c) => c.convex(),
            ConstraintRef::Discrete(c) => c.convex(),
        }
    }

    open spec fn dims(&self) -> nat {
        match self {
            ConstraintRef::Bounds(c) => c.dims(),
            ConstraintRef::Halfspace(c) => c.dims(),
            ConstraintRef::Collision(c) => c.dims(),
            ConstraintRef::Discrete(c) => c.dims(),
        }
    }

    fn is_convex(&self) -> (r: bool) {
        match self {
            ConstraintRef::Bounds(c) => c.is_convex(),
            ConstraintRef::Halfspace(c) => c.is_convex(),
            ConstraintRef::Collision(c) => c.is_convex(),
            ConstraintRef::Discrete(c) => c.is_convex(),
        }
    }

    fn dim(&self) -> (r: usize) {
        match self {
            ConstraintRef::Bounds(c) => c.dim(),
            ConstraintRef::Halfspace(c) => c.dim(),
            ConstraintRef::Collision(c) => c.dim(),
            ConstraintRef::Discrete(c) => c.dim(),
        }
    }
}

/// Whether every constraint of the list is convex.
pub open spec fn all_are_convex<C: Constraint>(constraints: Seq<C>) -> bool {
    forall|i: int| 0 <= i < constraints.len() ==> (#[trigger] constraints[i]).convex()
}

/// The largest violation among the first `n` signed distances: the running
/// maximum, from zero, of each distance raised to zero.
pub open spec fn worst_violation(distances: Seq<u64>, n: int) -> u64
    decreases n,
{
    if n <= 0 {
        ZERO
    } else {
        larger(worst_violation(distances, n - 1), larger(distances[n - 1], ZERO))
    }
}

/// Checks whether a point satisfies all constraints, given what each
/// constraint answered for it.
pub fn all_satisfied(satisfied: &Vec<bool>) -> (r: bool)
    ensures
        r == forall|i: int| 0 <= i < satisfied@.len() ==> satisfied@[i],
{
    let n = satisfied.len();
    let mut i: usize = 0;
    while i < n
        invariant
            n == satisfied@.len(),
            i <= n,
            forall|k: int| 0 <= k < i ==> satisfied@[k],
        decreases n - i,
    {
        if !satisfied[i] {
            return false;
        }
        i += 1;
    }
    true
}

/// The largest violation across the constraints, given the signed distance
/// of the point to each: zero when none is positive.
pub fn max_violation(distances: &Vec<u64>) -> (r: u64)
    ensures
        r == worst_violation(distances@, distances@.len() as int),
{
    let n = distances.len();
    let mut worst: u64 = ZERO;
    let mut i: usize = 0;
    while i < n
        invariant
            n == distances@.len(),
            i <= n,
            worst == worst_violation(distances@, i as int),
        decreases n - i,
    {
        worst = maximum(worst, maximum(distances[i], ZERO));
        i += 1;
    }
    worst
}

/// Checks whether all constraints of the list are convex.
pub fn all_convex<C: Constraint>(constraints: &Vec<C>) -> (r: bool)
    ensures
        r == all_are_convex(constraints@),
{
    let n = constraints.len();
    let mut i: usize = 0;
    while i < n
        invariant
            n == constraints@.len(),
            i <= n,
            forall|k: int| 0 <= k < i ==> (#[trigger] constraints@[k]).convex(),
        decreases n - i,
    {
        if !constraints[i].is_convex() {
            return false;
        }
        i += 1;
    }
    true
}

} // verus!
