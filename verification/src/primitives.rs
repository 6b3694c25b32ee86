//! Core data types: the violation state, bounds, deltas and objects.

use vstd::prelude::*;
use crate::scalar::{inside, lt, le, larger, smaller, less, less_eq, maximum, minimum, HALF};
use crate::constants::EPSILON;
use crate::linalg::{Vector, ordered, within};

verus! {

/// Bits of `1 - 1e-10`: below it a ratio still leaves slack.
pub const ONE_MINUS_EPSILON: u64 = 0x3FEF_FFFF_FFF2_4190;

/// Bits of `1 + 1e-10`: above it a ratio is a violation.
pub const ONE_PLUS_EPSILON: u64 = 0x3FF0_0000_0006_DF38;

/// The violation state: how the violation compares with the effort.
#[derive(Clone, Copy, Debug, PartialEq, Eq, Structural)]
pub enum FGState {
    /// No violation.
    Valid,
    /// Inside the bounds with margin remaining.
    Slack {
        /// One minus the ratio: 1 far from the boundary, near 0 close to it.
        margin: u64,
    },
    /// On the boundary.
    Exact,
    /// Outside the bounds.
    Finfr {
        /// The ratio minus one.
        excess: u64,
    },
}

/// Colour signal of a violation state.
#[derive(Clone, Copy, Debug, PartialEq, Eq, Structural)]
pub enum Color {
    /// Valid.
    Green,
    /// Warning.
    Yellow,
    /// Violation.
    Red,
}

/// The state that a violation-to-effort ratio falls under. `margin` and
/// `excess` stand for one minus the ratio and the ratio minus one.
pub open spec fn state_of_ratio(ratio: u64, margin: u64, excess: u64) -> FGState {
    if lt(ratio, EPSILON) {
        FGState::Valid
    } else if lt(ratio, ONE_MINUS_EPSILON) {
        FGState::Slack { margin }
    } else if le(ratio, ONE_PLUS_EPSILON) {
        FGState::Exact
    } else {
        FGState::Finfr { excess }
    }
}

impl FGState {
    /// Classifies a violation-to-effort ratio. The caller passes the ratio
    /// together with the two differences that the states carry: `margin`,
    /// one minus the ratio, and `excess`, the ratio minus one.
    pub fn from_ratio(ratio: u64, margin: u64, excess: u64) -> (r: FGState)
        ensures
            r == state_of_ratio(ratio, margin, excess),
    {
        if less(ratio, EPSILON) {
            FGState::Valid
        } else if less(ratio, ONE_MINUS_EPSILON) {
            FGState::Slack { margin }
        } else if less_eq(ratio, ONE_PLUS_EPSILON) {
            FGState::Exact
        } else {
            FGState::Finfr { excess }
        }
    }

    /// The colour signal of the state: green when valid or slack with a
    /// margin above one half, red in violation, yellow otherwise.
    pub fn color(&self) -> (r: Color)
        ensures
            r == match *self {
                FGState::Valid => Color::Green,
                FGState::Slack { margin } => if lt(HALF, margin) {
                    Color::Green
                } else {
                    Color::Yellow
                },
                FGState::Exact => Color::Yellow,
                FGState::Finfr { .. } => Color::Red,
            },
    {
        match *self {
            FGState::Valid => Color::Green,
            FGState::Slack { margin } => {
                if less(HALF, margin) {
                    Color::Green
                } else {
                    Color::Yellow
                }
            },
            FGState::Exact => Color::Yellow,
            FGState::Finfr { .. } => Color::Red,
        }
    }

    /// Whether the state is no violation.
    pub fn is_valid(&self) -> (r: bool)
        ensures
            r == !(*self is Finfr),
    {
        match *self {
            FGState::Finfr { .. } => false,
            _ => true,
        }
    }

    /// Whether the state is on the boundary.
    pub fn is_on_boundary(&self) -> (r: bool)
        ensures
            r == (*self is Exact),
    {
        match *self {
            FGState::Exact => true,
            _ => false,
        }
    }

    /// Whether the state is a violation.
    pub fn is_violation(&self) -> (r: bool)
        ensures
            r == (*self is Finfr),
    {
        match *self {
            FGState::Finfr { .. } => true,
            _ => false,
        }
    }
}

/// An axis-aligned bounding box.
#[derive(Clone, Debug, PartialEq, Eq)]
pub struct Bounds {
    /// Minimum per dimension.
    pub min: Vector,
    /// Maximum per dimension.
    pub max: Vector,
}

/// The larger of the two lower limits, per dimension.
pub open spec fn meet_min(a: Seq<u64>, b: Seq<u64>) -> Seq<u64> {
    Seq::new(a.len(), |i: int| larger(a[i], b[i]))
}

/// The smaller of the two upper limits, per dimension.
pub open spec fn meet_max(a: Seq<u64>, b: Seq<u64>) -> Seq<u64> {
    Seq::new(a.len(), |i: int| smaller(a[i], b[i]))
}

impl Bounds {
    /// The invariant of bounds: both corners have one dimension, and
    /// `min[i] <= max[i]` in each.
    pub open spec fn wf(&self) -> bool {
        ordered(self.min@, self.max@)
    }

    /// Whether the two boxes are apart in dimension `i`.
    pub open spec fn apart_in(&self, other: &Bounds, i: int) -> bool {
        lt(smaller(self.max@[i], other.max@[i]), larger(self.min@[i], other.min@[i]))
    }

    /// Creates bounds from their two corners.
    pub fn new(min: Vector, max: Vector) -> (r: Self)
        requires
            ordered(min@, max@),
        ensures
            r.min@ == min@,
            r.max@ == max@,
            r.wf(),
    {
        Bounds { min, max }
    }

    /// The dimension of the box.
    pub fn dim(&self) -> (r: usize)
        ensures
            r == self.min@.len(),
    {
        self.min.dim()
    }

    /// An independent copy of the box.
    pub fn copy(&self) -> (r: Self)
        ensures
            r.min@ == self.min@,
            r.max@ == self.max@,
    {
        Bounds { min: self.min.copy(), max: self.max.copy() }
    }

    /// Whether no coordinate of `point` is below the minimum or above the
    /// maximum of its dimension. The test is exact; a tolerance is applied
    /// by testing against bounds that were widened by it.
    pub fn encloses(&self, point: &Vector) -> (r: bool)
        requires
            self.wf(),
            point@.len() == self.min@.len(),
        ensures
            r == within(point@, self.min@, self.max@),
    {
        point.is_within(&self.min, &self.max)
    }

    /// The intersection with another box, or `None` when the boxes are apart
    /// in some dimension.
    pub fn intersect(&self, other: &Bounds) -> (r: Option<Bounds>)
        requires
            self.wf(),
            other.wf(),
            self.min@.len() == other.min@.len(),
        ensures
            r is None <==> exists|i: int| 0 <= i < self.min@.len() && self.apart_in(other, i),
            r matches Some(b) ==> b.wf() && b.min@ == meet_min(self.min@, other.min@) && b.max@
                == meet_max(self.max@, other.max@),
    {
        let n = self.min.dim();
        let mut lo = Vector::zeros(n);
        let mut hi = Vector::zeros(n);
        let mut i: usize = 0;
        while i < n
            invariant
                self.wf(),
                other.wf(),
                n == self.min@.len(),
                n == other.min@.len(),
                lo@.len() == n,
                hi@.len() == n,
                i <= n,
                forall|k: int| 0 <= k < i ==> !self.apart_in(other, k),
                forall|k: int| 0 <= k < i ==> lo@[k] == larger(self.min@[k], other.min@[k]),
                forall|k: int| 0 <= k < i ==> hi@[k] == smaller(self.max@[k], other.max@[k]),
            decreases n - i,
        {
            let a = maximum(self.min.get(i), other.min.get(i));
            let b = minimum(self.max.get(i), other.max.get(i));
            lo.set(i, a);
            hi.set(i, b);
            if less(b, a) {
                assert(self.apart_in(other, i as int));
                return None;
            }
            i += 1;
        }
        assert(lo@ =~= meet_min(self.min@, other.min@));
        assert(hi@ =~= meet_max(self.max@, other.max@));
        assert forall|k: int| 0 <= k < n implies le(#[trigger] lo@[k], hi@[k]) by {
            assert(!self.apart_in(other, k));
            assert(le(self.min@[k], self.max@[k]));
            assert(le(other.min@[k], other.max@[k]));
        }
        Some(Bounds { min: lo, max: hi })
    }

    /// Whether the two boxes overlap in every dimension.
    pub fn overlaps(&self, other: &Bounds) -> (r: bool)
        requires
            self.wf(),
            other.wf(),
            self.min@.len() == other.min@.len(),
        ensures
            r == forall|i: int| 0 <= i < self.min@.len() ==> !self.apart_in(other, i),
    {
        self.intersect(other).is_some()
    }
}

/// A point lies in the intersection of two boxes exactly when it lies in
/// both.
pub proof fn lemma_intersection_is_common_part(a: &Bounds, b: &Bounds, point: Seq<u64>)
    requires
        a.wf(),
        b.wf(),
        a.min@.len() == b.min@.len(),
        point.len() == a.min@.len(),
    ensures
        within(point, meet_min(a.min@, b.min@), meet_max(a.max@, b.max@)) <==> within(
            point,
            a.min@,
            a.max@,
        ) && within(point, b.min@, b.max@),
{
    let lo = meet_min(a.min@, b.min@);
    let hi = meet_max(a.max@, b.max@);
    if within(point, lo, hi) {
        assert forall|i: int| 0 <= i < point.len() implies inside(
            #[trigger] point[i],
            a.min@[i],
            a.max@[i],
        ) && inside(point[i], b.min@[i], b.max@[i]) by {
            assert(inside(point[i], lo[i], hi[i]));
            assert(le(a.min@[i], a.max@[i]));
            assert(le(b.min@[i], b.max@[i]));
        }
    }
    if within(point, a.min@, a.max@) && within(point, b.min@, b.max@) {
        assert forall|i: int| 0 <= i < point.len() implies inside(#[trigger] point[i], lo[i], hi[i]) by {
            assert(inside(point[i], a.min@[i], a.max@[i]));
            assert(inside(point[i], b.min@[i], b.max@[i]));
            assert(le(a.min@[i], a.max@[i]));
            assert(le(b.min@[i], b.max@[i]));
        }
    }
}

/// An attempted change of state, with where and when it came from.
#[derive(Clone, Debug, PartialEq, Eq)]
pub struct Delta {
    /// The change vector.
    pub vector: Vector,
    /// Optional source tag, such as "drag" or "resize".
    pub source: Option<String>,
    /// Timestamp in microseconds.
    pub timestamp_us: u64,
}

impl Delta {
    /// Creates a delta without source, at timestamp zero.
    pub fn new(vector: Vector) -> (r: Self)
        ensures
            r.vector@ == vector@,
            r.source is None,
            r.timestamp_us == 0,
    {
        Delta { vector, source: None, timestamp_us: 0 }
    }

    /// Creates a delta with a source tag, at timestamp zero.
    pub fn with_source(vector: Vector, source: &str) -> (r: Self)
        ensures
            r.vector@ == vector@,
            r.source matches Some(s) && s@ == source@,
            r.timestamp_us == 0,
    {
        Delta { vector, source: Some(source.to_owned()), timestamp_us: 0 }
    }
}

/// The bits that mark an identifier as random: version 4, standard variant.
pub open spec fn is_random_id(id: u128) -> bool {
    id & 0x0000_0000_0000_F000_C000_0000_0000_0000u128
        == 0x0000_0000_0000_4000_8000_0000_0000_0000u128
}

/// Draws a fresh identifier: the 128 bits of `uuid::Uuid::new_v4()`, read
/// with `Uuid::as_u128`. The value is random, so nothing is claimed of it
/// but what `new_v4` fixes in every outcome: the version and variant bits,
/// which also make it different from the nil identifier. `new_v4` halts the
/// program when the operating system yields no random bytes.
#[verifier::external_body]
fn fresh_id() -> (r: u128)
    ensures
        is_random_id(r),
        r != 0,
{
    uuid::Uuid::new_v4().as_u128()
}

/// A named object with identity, bounds and the constraints attached to it.
/// Identifiers are UUIDs held as their 128-bit values.
#[derive(Clone, Debug)]
pub struct NTObject {
    /// Unique identifier.
    pub id: u128,
    /// Human-readable name.
    pub name: String,
    /// Bounding box of the valid region.
    pub bounds: Bounds,
    /// Identifiers of the attached constraints, each at most once.
    pub constraint_ids: Vec<u128>,
}

impl NTObject {
    /// Creates an object under a fresh random identifier.
    pub fn new(name: &str, bounds: Bounds) -> (r: Self)
        ensures
            r.id != 0,
            is_random_id(r.id),
            r.name@ == name@,
            r.bounds == bounds,
            r.constraint_ids@ == Seq::<u128>::empty(),
    {
        Self::with_id(fresh_id(), name, bounds)
    }

    /// Creates an object under the given identifier.
    pub fn with_id(id: u128, name: &str, bounds: Bounds) -> (r: Self)
        ensures
            r.id == id,
            r.name@ == name@,
            r.bounds == bounds,
            r.constraint_ids@ == Seq::<u128>::empty(),
    {
        NTObject { id, name: name.to_owned(), bounds, constraint_ids: Vec::new() }
    }

    /// Whether the constraint is attached.
    pub fn has_constraint(&self, constraint_id: u128) -> (r: bool)
        ensures
            r == self.constraint_ids@.contains(constraint_id),
    {
        let n = self.constraint_ids.len();
        let mut i: usize = 0;
        while i < n
            invariant
                n == self.constraint_ids@.len(),
                i <= n,
                forall|k: int| 0 <= k < i ==> self.constraint_ids@[k] != constraint_id,
            decreases n - i,
        {
            if self.constraint_ids[i] == constraint_id {
                return true;
            }
            i += 1;
        }
        false
    }

    /// Attaches a constraint; attaching one that is attached changes nothing.
    pub fn add_constraint(&mut self, constraint_id: u128)
        ensures
            final(self).constraint_ids@ == if old(self).constraint_ids@.contains(constraint_id) {
                old(self).constraint_ids@
            } else {
                old(self).constraint_ids@.push(constraint_id)
            },
            final(self).id == old(self).id,
            final(self).name == old(self).name,
            final(self).bounds == old(self).bounds,
    {
        if !self.has_constraint(constraint_id) {
            self.constraint_ids.push(constraint_id);
        }
    }

    /// Detaches a constraint: every occurrence of the identifier leaves, the
    /// others keep their order.
    pub fn remove_constraint(&mut self, constraint_id: &u128)
        ensures
            final(self).constraint_ids@ == old(self).constraint_ids@.filter(
                |x: u128| x != *constraint_id,
            ),
            final(self).id == old(self).id,
            final(self).name == old(self).name,
            final(self).bounds == old(self).bounds,
    {
        let ghost keep = |x: u128| x != *constraint_id;
        let ghost before = self.constraint_ids@;
        let n = self.constraint_ids.len();
        let mut out: Vec<u128> = Vec::new();
        let mut i: usize = 0;
        while i < n
            invariant
                n == before.len(),
                self.constraint_ids@ == before,
                keep == |x: u128| x != *constraint_id,
                i <= n,
                out@ == before.take(i as int).filter(keep),
            decreases n - i,
        {
            let x = self.constraint_ids[i];
            proof {
                let next = before.take(i + 1);
                assert(next.drop_last() =~= before.take(i as int));
                assert(next.last() == x);
                reveal(Seq::filter);
            }
            if x != *constraint_id {
                out.push(x);
            }
            i += 1;
        }
        assert(before.take(n as int) =~= before);
        self.constraint_ids = out;
    }

    /// Whether two objects are the same object: they are when their
    /// identifiers agree.
    pub fn same_identity(&self, other: &NTObject) -> (r: bool)
        ensures
            r == (self.id == other.id),
    {
        self.id == other.id
    }
}

} // verus!
