//! Halfspace and hyperplane projection.
//!
//! For the halfspace `a . x <= b` and a point `p` the slack is
//! `s = a . p - b`. A point with `s <= EPSILON` stays; any other lands on
//! the boundary at `p - (s / |a|^2) a`. When `|a|^2` is effectively zero
//! the point stays in every case.

use vstd::prelude::*;
use crate::constants::{near_zero, is_near_zero, EPSILON};
use crate::linalg::Vector;
use crate::scalar::{le, less_eq, ZERO};

verus! {

/// Whether projection onto a halfspace moves the point.
pub open spec fn halfspace_moves(normal_norm_sq: u64, slack: u64) -> bool {
    !near_zero(normal_norm_sq) && !le(slack, EPSILON)
}

/// Projects a point onto the halfspace `a . x <= b`. `normal_norm_sq` is
/// `|a|^2`, `slack` is `a . point - b`, and `landing` is the point
/// `point - (slack / |a|^2) a`.
pub fn project_halfspace(point: &Vector, normal_norm_sq: u64, slack: u64, landing: &Vector) -> (r:
    Vector)
    ensures
        r@ == if halfspace_moves(normal_norm_sq, slack) {
            landing@
        } else {
            point@
        },
{
    if is_near_zero(normal_norm_sq) || less_eq(slack, EPSILON) {
        point.copy()
    } else {
        landing.copy()
    }
}

/// Projects a point onto the hyperplane `a . x = b`: the point always
/// lands on the hyperplane, unless the normal is degenerate.
pub fn project_hyperplane(point: &Vector, normal_norm_sq: u64, landing: &Vector) -> (r: Vector)
    ensures
        r@ == if near_zero(normal_norm_sq) {
            point@
        } else {
            landing@
        },
{
    if is_near_zero(normal_norm_sq) {
        point.copy()
    } else {
        landing.copy()
    }
}

/// The signed distance from a point to the boundary of a halfspace:
/// the quotient of the slack by the norm of the normal, or zero when that
/// norm is effectively zero.
pub fn halfspace_distance(normal_norm: u64, quotient: u64) -> (r: u64)
    ensures
        r == if near_zero(normal_norm) {
            ZERO
        } else {
            quotient
        },
{
    if is_near_zero(normal_norm) {
        ZERO
    } else {
        quotient
    }
}

} // verus!
