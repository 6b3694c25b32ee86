//! The intent behind an attempted change: its direction, its magnitude and
//! how much of it a result preserves.

use vstd::prelude::*;
use crate::constants::EPSILON;
use crate::linalg::Vector;
use crate::primitives::Delta;
use crate::scalar::{larger, lt, smaller, less, maximum, minimum, ONE, ZERO};

verus! {

/// What the user is trying to do.
#[derive(Clone, Debug)]
pub struct IntentVector {
    /// The direction of intent: a unit vector, or zero for no intent.
    pub direction: Vector,
    /// The magnitude of intent.
    pub magnitude: u64,
    /// Importance of each dimension; one by default.
    pub weights: Vector,
    /// Source of the intent, such as "drag" or "resize".
    pub source: Option<String>,
}

/// The direction of an intent of the given magnitude: the unit vector of
/// the change, or the zero vector when the magnitude is below
/// [`EPSILON`].
pub open spec fn direction_of(magnitude: u64, unit: Seq<u64>) -> Seq<u64> {
    if lt(magnitude, EPSILON) {
        Seq::new(unit.len(), |i: int| ZERO)
    } else {
        unit
    }
}

/// The preservation score of an intent of magnitude `magnitude` by a change
/// of magnitude `moved`, where `product` is the alignment of the two
/// directions times the capped ratio of their magnitudes: one when there
/// was no intent to honour, zero when the movement was blocked, and else
/// the product raised to zero.
pub open spec fn preservation(magnitude: u64, moved: u64, product: u64) -> u64 {
    if lt(magnitude, EPSILON) {
        ONE
    } else if lt(moved, EPSILON) {
        ZERO
    } else {
        larger(product, ZERO)
    }
}

fn copy_tag(source: &Option<String>) -> (r: Option<String>)
    ensures
        r == *source,
{
    match source {
        Some(s) => Some(s.clone()),
        None => None,
    }
}

impl IntentVector {
    /// Derives the intent from a delta. `magnitude` is the Euclidean norm
    /// of the delta's vector and `unit` that vector divided by its norm.
    pub fn from_delta(delta: &Delta, magnitude: u64, unit: &Vector) -> (r: Self)
        requires
            unit@.len() == delta.vector@.len(),
        ensures
            r.direction@ == direction_of(magnitude, unit@),
            r.magnitude == magnitude,
            r.weights@ == Seq::new(delta.vector@.len(), |i: int| ONE),
            r.source == delta.source,
    {
        let dim = delta.vector.dim();
        let direction = if less(magnitude, EPSILON) {
            Vector::zeros(dim)
        } else {
            unit.copy()
        };
        IntentVector {
            direction,
            magnitude,
            weights: Vector::from_elem(dim, ONE),
            source: copy_tag(&delta.source),
        }
    }

    /// Derives the intent from a raw vector. `magnitude` is the Euclidean
    /// norm of the vector and `unit` the vector divided by its norm.
    pub fn from_vector(vector: &Vector, magnitude: u64, unit: &Vector) -> (r: Self)
        requires
            unit@.len() == vector@.len(),
        ensures
            r.direction@ == direction_of(magnitude, unit@),
            r.magnitude == magnitude,
            r.weights@ == Seq::new(vector@.len(), |i: int| ONE),
            r.source is None,
    {
        let dim = vector.dim();
        let direction = if less(magnitude, EPSILON) {
            Vector::zeros(dim)
        } else {
            unit.copy()
        };
        IntentVector { direction, magnitude, weights: Vector::from_elem(dim, ONE), source: None }
    }

    /// Derives the intent from a raw vector, with custom weights.
    pub fn with_weights(vector: &Vector, weights: Vector, magnitude: u64, unit: &Vector) -> (r: Self)
        requires
            unit@.len() == vector@.len(),
        ensures
            r.direction@ == direction_of(magnitude, unit@),
            r.magnitude == magnitude,
            r.weights@ == weights@,
            r.source is None,
    {
        let mut intent = Self::from_vector(vector, magnitude, unit);
        intent.weights = weights;
        intent
    }

    /// The dimension of the intent.
    pub fn dim(&self) -> (r: usize)
        ensures
            r == self.direction@.len(),
    {
        self.direction.dim()
    }

    /// The ratio of the moved distance to the intended one, capped at one.
    pub fn magnitude_ratio(ratio: u64) -> (r: u64)
        ensures
            r == smaller(ratio, ONE),
    {
        minimum(ratio, ONE)
    }

    /// How much of the intent a result preserves. `moved` is the distance
    /// between the original state and the result, and `product` the
    /// alignment of the intent's direction with the direction moved, times
    /// the capped [`magnitude_ratio`](Self::magnitude_ratio).
    pub fn preserved(&self, moved: u64, product: u64) -> (r: u64)
        ensures
            r == preservation(self.magnitude, moved, product),
    {
        if less(self.magnitude, EPSILON) {
            ONE
        } else if less(moved, EPSILON) {
            ZERO
        } else {
            maximum(product, ZERO)
        }
    }

    /// The intent with another magnitude: same direction, weights and
    /// source.
    pub fn scale(&self, magnitude: u64) -> (r: Self)
        ensures
            r.direction@ == self.direction@,
            r.magnitude == magnitude,
            r.weights@ == self.weights@,
            r.source == self.source,
    {
        IntentVector {
            direction: self.direction.copy(),
            magnitude,
            weights: self.weights.copy(),
            source: copy_tag(&self.source),
        }
    }
}

} // verus!
