//! Projection onto constraint sets.
//!
//! The cyclic projection alternates rounding arithmetic (sums, differences
//! and norms of vectors) with decisions (which constraint is next, whether
//! the iterate has settled, when to give up). The decisions and the loop
//! live here; the arithmetic of a step is handed in as a function.

pub mod dykstra;
pub mod halfspace;
pub mod relaxation;
pub mod weighted;

use vstd::prelude::*;
use crate::constants::TOLERANCE;
use crate::constraints::box_bounds::BoxBounds;
use crate::linalg::Vector;
use crate::scalar::{lt, less};

verus! {

/// Projects a point onto box bounds.
pub fn project_box(point: &Vector, bounds: &BoxBounds) -> (r: Vector)
    requires
        bounds.wf(),
        point@.len() == bounds.lower().len(),
    ensures
        r@ == bounds.projection(point@),
        bounds.holds(r@),
{
    bounds.project(point)
}

/// Tells whether a projection has converged: it has when the distance
/// between the previous and the current iterate is below [`TOLERANCE`].
pub fn has_converged(change: u64) -> (r: bool)
    ensures
        r == lt(change, TOLERANCE),
{
    less(change, TOLERANCE)
}

} // verus!
