//! Frozen numeric policy.
//!
//! Real-valued constants are given by their binary64 bit patterns.

use vstd::prelude::*;
use crate::scalar::{cleared, lt, absolute, less};

verus! {

/// Absolute tolerance of approximate equality: the bits of `1e-10`.
pub const EPSILON: u64 = 0x3DDB_7CDF_D9D7_BDBB;

/// Convergence tolerance of the cyclic projection: the bits of `1e-8`.
pub const TOLERANCE: u64 = 0x3E45_798E_E230_8C3A;

/// Largest number of sweeps one cyclic projection may take.
pub const MAX_ITERATIONS: usize = 100;

/// Largest number of candidates one nonconvex search may hold.
pub const MAX_CANDIDATES: usize = 24;

/// Radius of the outermost search shell: the bits of `100`.
pub const SEARCH_RADIUS: u64 = 0x4059_0000_0000_0000;

/// Wall-clock budget of one suggestion, in microseconds.
pub const TIMEOUT_US: u64 = 500_000;

/// Radii of the search shells, innermost first: the bits of 1, 2, 4, 8, 100.
pub const SHELL_RADII: [u64; 5] = [
    0x3FF0_0000_0000_0000,
    0x4000_0000_0000_0000,
    0x4010_0000_0000_0000,
    0x4020_0000_0000_0000,
    0x4059_0000_0000_0000,
];

/// Number of points sampled on a shell in two dimensions.
pub const SHELL_ANGULAR_SAMPLES: usize = 8;

/// Whether the absolute value of `x` is below [`EPSILON`].
pub open spec fn near_zero(x: u64) -> bool {
    lt(cleared(x), EPSILON)
}

/// Tells whether `x` is effectively zero.
pub fn is_near_zero(x: u64) -> (r: bool)
    ensures
        r == near_zero(x),
{
    less(absolute(x), EPSILON)
}

} // verus!
