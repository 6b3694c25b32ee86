//! Vectors of binary64 scalars.
//!
//! A vector is an ordered sequence of bit patterns with an explicit
//! dimension. Construction, component access, negation, clamping, class
//! tests and the lexicographic order are exact and live here.

use vstd::prelude::*;
use std::cmp::Ordering;
use crate::constants::{EPSILON, TOLERANCE};
use crate::scalar::{nan, finite, sort_key, negated, clamped, le, lt, inside, ZERO, ONE};
use crate::scalar::{is_nan, is_finite, less, less_eq, negate, clamp};

verus! {

/// An n-dimensional vector of binary64 bit patterns.
#[derive(Clone, Debug, PartialEq, Eq)]
pub struct Vector {
    data: Vec<u64>,
}

impl View for Vector {
    type V = Seq<u64>;

    closed spec fn view(&self) -> Seq<u64> {
        self.data@
    }
}

/// Sign of the lexicographic comparison of `a` and `b` from component `i`
/// on: components are compared by [`sort_key`], the first difference
/// decides, and when one vector runs out the shorter one comes first.
pub open spec fn lex_sign(a: Seq<u64>, b: Seq<u64>, i: int) -> int
    decreases a.len() - i,
{
    if i < 0 || i >= a.len() || i >= b.len() {
        if a.len() < b.len() {
            -1
        } else if a.len() > b.len() {
            1
        } else {
            0
        }
    } else if sort_key(a[i]) < sort_key(b[i]) {
        -1
    } else if sort_key(a[i]) > sort_key(b[i]) {
        1
    } else {
        lex_sign(a, b, i + 1)
    }
}

/// Each component of `v` moved into the box `[lo, hi]`.
pub open spec fn clamp_seq(v: Seq<u64>, lo: Seq<u64>, hi: Seq<u64>) -> Seq<u64> {
    Seq::new(v.len(), |i: int| clamped(v[i], lo[i], hi[i]))
}

/// Whether no component of `v` is below `lo` or above `hi`.
pub open spec fn within(v: Seq<u64>, lo: Seq<u64>, hi: Seq<u64>) -> bool {
    forall|i: int| 0 <= i < v.len() ==> inside(#[trigger] v[i], lo[i], hi[i])
}

/// Whether every component of `v` is above `lo` and below `hi`, in the sense
/// that it is neither at or below `lo` nor at or above `hi`.
pub open spec fn strictly_within(v: Seq<u64>, lo: Seq<u64>, hi: Seq<u64>) -> bool {
    forall|i: int| 0 <= i < v.len() ==> !le(#[trigger] v[i], lo[i]) && !le(hi[i], v[i])
}

/// Whether `lo[i] <= hi[i]` holds in every dimension.
pub open spec fn ordered(lo: Seq<u64>, hi: Seq<u64>) -> bool {
    lo.len() == hi.len() && forall|i: int| 0 <= i < lo.len() ==> le(#[trigger] lo[i], hi[i])
}

impl Vector {
    /// Creates a vector from a slice of bit patterns.
    pub fn from_slice(data: &[u64]) -> (r: Self)
        ensures
            r@ == data@,
    {
        let mut out: Vec<u64> = Vec::new();
        let n = data.len();
        let mut i: usize = 0;
        while i < n
            invariant
                n == data@.len(),
                i <= n,
                out@ == data@.take(i as int),
            decreases n - i,
        {
            out.push(data[i]);
            i += 1;
            assert(out@ =~= data@.take(i as int));
        }
        assert(data@.take(n as int) =~= data@);
        Vector { data: out }
    }

    /// Creates a vector that owns the given bit patterns.
    pub fn from_vec(data: Vec<u64>) -> (r: Self)
        ensures
            r@ == data@,
    {
        Vector { data }
    }

    /// Creates the zero vector of the given dimension.
    pub fn zeros(dim: usize) -> (r: Self)
        ensures
            r@ == Seq::new(dim as nat, |i: int| ZERO),
    {
        Self::from_elem(dim, ZERO)
    }

    /// Creates a vector whose components all equal `value`.
    pub fn from_elem(dim: usize, value: u64) -> (r: Self)
        ensures
            r@ == Seq::new(dim as nat, |i: int| value),
    {
        let mut out: Vec<u64> = Vec::new();
        let mut i: usize = 0;
        while i < dim
            invariant
                i <= dim,
                out@ == Seq::new(i as nat, |k: int| value),
            decreases dim - i,
        {
            out.push(value);
            i += 1;
            assert(out@ =~= Seq::new(i as nat, |k: int| value));
        }
        Vector { data: out }
    }

    /// Creates the unit vector along `axis`; the zero vector when `axis` is
    /// not a dimension.
    pub fn unit(dim: usize, axis: usize) -> (r: Self)
        ensures
            r@ == Seq::new(dim as nat, |i: int| if i == axis { ONE } else { ZERO }),
    {
        let mut v = Self::zeros(dim);
        if axis < dim {
            v.data.set(axis, ONE);
        }
        assert(v@ =~= Seq::new(dim as nat, |i: int| if i == axis { ONE } else { ZERO }));
        v
    }

    /// The dimension of the vector.
    pub fn dim(&self) -> (r: usize)
        ensures
            r == self@.len(),
    {
        self.data.len()
    }

    /// The dimension of the vector.
    pub fn len(&self) -> (r: usize)
        ensures
            r == self@.len(),
    {
        self.data.len()
    }

    /// Whether the vector has no component.
    pub fn is_empty(&self) -> (r: bool)
        ensures
            r == (self@.len() == 0),
    {
        self.data.len() == 0
    }

    /// The component at `index`.
    pub fn get(&self, index: usize) -> (r: u64)
        requires
            index < self@.len(),
        ensures
            r == self@[index as int],
    {
        self.data[index]
    }

    /// Replaces the component at `index`.
    pub fn set(&mut self, index: usize, value: u64)
        requires
            index < old(self)@.len(),
        ensures
            final(self)@ == old(self)@.update(index as int, value),
    {
        self.data.set(index, value);
    }

    /// An independent copy: the same bit patterns in the same order.
    pub fn copy(&self) -> (r: Self)
        ensures
            r@ == self@,
    {
        Self::from_slice(self.data.as_slice())
    }

    /// The components as a vector of their own.
    pub fn to_vec(&self) -> (r: Vec<u64>)
        ensures
            r@ == self@,
    {
        let n = self.data.len();
        let mut out: Vec<u64> = Vec::new();
        let mut i: usize = 0;
        while i < n
            invariant
                n == self@.len(),
                i <= n,
                out@ == self@.take(i as int),
            decreases n - i,
        {
            out.push(self.data[i]);
            i += 1;
            assert(out@ =~= self@.take(i as int));
        }
        assert(self@.take(n as int) =~= self@);
        out
    }

    /// The components as a slice.
    pub fn as_slice(&self) -> (r: &[u64])
        ensures
            r@ == self@,
    {
        self.data.as_slice()
    }

    /// Whether both vectors hold the same bit patterns.
    pub fn same_bits(&self, other: &Vector) -> (r: bool)
        ensures
            r == (self@ == other@),
    {
        let n = self.data.len();
        if n != other.data.len() {
            return false;
        }
        let mut i: usize = 0;
        while i < n
            invariant
                n == self@.len(),
                n == other@.len(),
                i <= n,
                forall|k: int| 0 <= k < i ==> self@[k] == other@[k],
            decreases n - i,
        {
            if self.data[i] != other.data[i] {
                return false;
            }
            i += 1;
        }
        assert(self@ =~= other@);
        true
    }

    /// The vector with every component's sign flipped.
    pub fn neg(&self) -> (r: Self)
        ensures
            r@ == Seq::new(self@.len(), |i: int| negated(self@[i])),
    {
        let n = self.data.len();
        let mut out: Vec<u64> = Vec::new();
        let mut i: usize = 0;
        while i < n
            invariant
                n == self@.len(),
                i <= n,
                out@ == Seq::new(i as nat, |k: int| negated(self@[k])),
            decreases n - i,
        {
            out.push(negate(self.data[i]));
            i += 1;
            assert(out@ =~= Seq::new(i as nat, |k: int| negated(self@[k])));
        }
        Vector { data: out }
    }

    /// Clamps each component to `[min, max]`.
    pub fn clamp(&self, min: u64, max: u64) -> (r: Self)
        requires
            le(min, max),
        ensures
            r@ == Seq::new(self@.len(), |i: int| clamped(self@[i], min, max)),
    {
        let n = self.data.len();
        let mut out: Vec<u64> = Vec::new();
        let mut i: usize = 0;
        while i < n
            invariant
                n == self@.len(),
                i <= n,
                le(min, max),
                out@ == Seq::new(i as nat, |k: int| clamped(self@[k], min, max)),
            decreases n - i,
        {
            out.push(clamp(self.data[i], min, max));
            i += 1;
            assert(out@ =~= Seq::new(i as nat, |k: int| clamped(self@[k], min, max)));
        }
        Vector { data: out }
    }

    /// Clamps each component to the bounds of its own dimension.
    pub fn clamp_vec(&self, min: &Vector, max: &Vector) -> (r: Self)
        requires
            self@.len() == min@.len(),
            ordered(min@, max@),
        ensures
            r@ == clamp_seq(self@, min@, max@),
            within(r@, min@, max@),
    {
        let n = self.data.len();
        let mut out: Vec<u64> = Vec::new();
        let mut i: usize = 0;
        while i < n
            invariant
                n == self@.len(),
                n == min@.len(),
                ordered(min@, max@),
                i <= n,
                out@ == Seq::new(i as nat, |k: int| clamped(self@[k], min@[k], max@[k])),
            decreases n - i,
        {
            out.push(clamp(self.data[i], min.data[i], max.data[i]));
            i += 1;
            assert(out@ =~= Seq::new(i as nat, |k: int| clamped(self@[k], min@[k], max@[k])));
        }
        assert(out@ =~= clamp_seq(self@, min@, max@));
        Vector { data: out }
    }

    /// Whether no component is below `min` or above `max` in its dimension.
    pub fn is_within(&self, min: &Vector, max: &Vector) -> (r: bool)
        requires
            self@.len() == min@.len(),
            self@.len() == max@.len(),
        ensures
            r == within(self@, min@, max@),
    {
        let n = self.data.len();
        let mut i: usize = 0;
        while i < n
            invariant
                n == self@.len(),
                n == min@.len(),
                n == max@.len(),
                i <= n,
                forall|k: int| 0 <= k < i ==> inside(#[trigger] self@[k], min@[k], max@[k]),
            decreases n - i,
        {
            if less(self.data[i], min.data[i]) || less(max.data[i], self.data[i]) {
                return false;
            }
            i += 1;
        }
        true
    }

    /// Whether every component is above `min` and below `max` in its
    /// dimension.
    pub fn is_strictly_within(&self, min: &Vector, max: &Vector) -> (r: bool)
        requires
            self@.len() == min@.len(),
            self@.len() == max@.len(),
        ensures
            r == strictly_within(self@, min@, max@),
    {
        let n = self.data.len();
        let mut i: usize = 0;
        while i < n
            invariant
                n == self@.len(),
                n == min@.len(),
                n == max@.len(),
                i <= n,
                forall|k: int|
                    0 <= k < i ==> !le(#[trigger] self@[k], min@[k]) && !le(max@[k], self@[k]),
            decreases n - i,
        {
            if less_eq(self.data[i], min.data[i]) || less_eq(max.data[i], self.data[i]) {
                return false;
            }
            i += 1;
        }
        true
    }

    /// The vector scaled to unit length. `norm` is its Euclidean norm and
    /// `scaled` the vector divided by that norm; with a norm below
    /// [`EPSILON`] the result is the zero vector.
    pub fn normalize(&self, norm: u64, scaled: &Vector) -> (r: Self)
        ensures
            r@ == if lt(norm, EPSILON) {
                Seq::new(self@.len(), |i: int| ZERO)
            } else {
                scaled@
            },
    {
        if less(norm, EPSILON) {
            Self::zeros(self.data.len())
        } else {
            scaled.copy()
        }
    }

    /// Approximate equality: the vectors have one dimension and their
    /// distance is below [`TOLERANCE`]. `distance` is the Euclidean
    /// distance between the two.
    pub fn approx_eq(&self, other: &Vector, distance: u64) -> (r: bool)
        ensures
            r == (self@.len() == other@.len() && lt(distance, TOLERANCE)),
    {
        self.data.len() == other.data.len() && less(distance, TOLERANCE)
    }

    /// Whether every component is finite.
    pub fn is_finite(&self) -> (r: bool)
        ensures
            r == forall|i: int| 0 <= i < self@.len() ==> finite(#[trigger] self@[i]),
    {
        let n = self.data.len();
        let mut i: usize = 0;
        while i < n
            invariant
                n == self@.len(),
                i <= n,
                forall|k: int| 0 <= k < i ==> finite(#[trigger] self@[k]),
            decreases n - i,
        {
            if !is_finite(self.data[i]) {
                return false;
            }
            i += 1;
        }
        true
    }

    /// Whether some component is a NaN.
    pub fn has_nan(&self) -> (r: bool)
        ensures
            r == exists|i: int| 0 <= i < self@.len() && nan(#[trigger] self@[i]),
    {
        let n = self.data.len();
        let mut i: usize = 0;
        while i < n
            invariant
                n == self@.len(),
                i <= n,
                forall|k: int| 0 <= k < i ==> !nan(#[trigger] self@[k]),
            decreases n - i,
        {
            if is_nan(self.data[i]) {
                return true;
            }
            i += 1;
        }
        false
    }

    /// Lexicographic comparison: the leftmost dimension has the highest
    /// priority, a NaN is greater than every number and equal to every NaN,
    /// and a proper prefix comes before the longer vector.
    pub fn lexicographic_cmp(&self, other: &Vector) -> (r: Ordering)
        ensures
            (r == Ordering::Less) == (lex_sign(self@, other@, 0) < 0),
            (r == Ordering::Equal) == (lex_sign(self@, other@, 0) == 0),
            (r == Ordering::Greater) == (lex_sign(self@, other@, 0) > 0),
    {
        let s = self.lex(other);
        if s < 0 {
            Ordering::Less
        } else if s > 0 {
            Ordering::Greater
        } else {
            Ordering::Equal
        }
    }

    /// The sign of the lexicographic comparison, as -1, 0 or 1.
    pub fn lex(&self, other: &Vector) -> (r: i8)
        ensures
            r == lex_sign(self@, other@, 0),
    {
        let n = self.data.len();
        let m = other.data.len();
        let mut i: usize = 0;
        while i < n && i < m
            invariant
                n == self@.len(),
                m == other@.len(),
                i <= n,
                i <= m,
                lex_sign(self@, other@, 0) == lex_sign(self@, other@, i as int),
            decreases n - i,
        {
            let a = self.data[i];
            let b = other.data[i];
            let a_nan = is_nan(a);
            let b_nan = is_nan(b);
            if a_nan || b_nan {
                if !b_nan {
                    return 1;
                }
                if !a_nan {
                    return -1;
                }
            } else if less(a, b) {
                return -1;
            } else if less(b, a) {
                return 1;
            }
            i += 1;
        }
        if n < m {
            -1
        } else if n > m {
            1
        } else {
            0
        }
    }
}

/// Comparing in the other direction flips the sign.
pub proof fn lemma_lex_antisymmetric(a: Seq<u64>, b: Seq<u64>, i: int)
    ensures
        lex_sign(b, a, i) == -lex_sign(a, b, i),
    decreases a.len() - i,
{
    if 0 <= i < a.len() && i < b.len() && sort_key(a[i]) == sort_key(b[i]) {
        lemma_lex_antisymmetric(a, b, i + 1);
    }
}

/// The lexicographic order is transitive.
pub proof fn lemma_lex_transitive(a: Seq<u64>, b: Seq<u64>, c: Seq<u64>, i: int)
    requires
        0 <= i,
        lex_sign(a, b, i) <= 0,
        lex_sign(b, c, i) <= 0,
    ensures
        lex_sign(a, c, i) <= 0,
        lex_sign(a, c, i) == 0 ==> lex_sign(a, b, i) == 0 && lex_sign(b, c, i) == 0,
    decreases a.len() - i,
{
    if i < a.len() && i < b.len() && i < c.len() {
        if sort_key(a[i]) == sort_key(b[i]) && sort_key(b[i]) == sort_key(c[i]) {
            lemma_lex_transitive(a, b, c, i + 1);
        }
    }
}

} // verus!
