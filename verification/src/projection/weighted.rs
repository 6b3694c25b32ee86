//! Weighted projection.
//!
//! Projection under the metric `sum w[i] x[i]^2` scales space by the roots
//! of the weights, projects there, and scales back. The weights must be
//! strictly positive.

use vstd::prelude::*;
use crate::constants::EPSILON;
use crate::constraints::box_bounds::BoxBounds;
use crate::linalg::{Vector, ordered};
use crate::scalar::{lt, less};

verus! {

/// Whether every weight is above [`EPSILON`].
pub open spec fn positive_weights(weights: Seq<u64>) -> bool {
    forall|i: int| 0 <= i < weights.len() ==> lt(EPSILON, #[trigger] weights[i])
}

/// Tells whether the weights are valid for weighted projection: each is
/// above [`EPSILON`].
pub fn weights_valid(weights: &Vector) -> (r: bool)
    ensures
        r == positive_weights(weights@),
{
    let n = weights.dim();
    let mut i: usize = 0;
    while i < n
        invariant
            n == weights@.len(),
            i <= n,
            forall|k: int| 0 <= k < i ==> lt(EPSILON, #[trigger] weights@[k]),
        decreases n - i,
    {
        if !less(EPSILON, weights.get(i)) {
            return false;
        }
        i += 1;
    }
    true
}

/// Projects onto box bounds under the weighted metric, in scaled space.
/// `weights` are the weights of the metric, one per dimension and each
/// above [`EPSILON`]. The other arguments are the point and the corners of
/// the box, each multiplied component by component with the roots of the
/// weights; the result is the projection in scaled space, to be multiplied
/// with the inverse roots.
pub fn project_weighted(
    scaled_point: &Vector,
    scaled_min: Vector,
    scaled_max: Vector,
    weights: &Vector,
) -> (r: Vector)
    requires
        scaled_point@.len() == scaled_min@.len(),
        weights@.len() == scaled_point@.len(),
        positive_weights(weights@),
        ordered(scaled_min@, scaled_max@),
    ensures
        r@ == crate::linalg::clamp_seq(scaled_point@, scaled_min@, scaled_max@),
        crate::linalg::within(r@, scaled_min@, scaled_max@),
{
    let scaled_bounds = BoxBounds::new(scaled_min, scaled_max);
    scaled_bounds.project(scaled_point)
}

} // verus!
