//! Collision avoidance: the feasible region is the outside of an obstacle.

use vstd::prelude::*;
use crate::constants::EPSILON;
use crate::constraints::Constraint;
use crate::linalg::{Vector, within};
use crate::primitives::Bounds;
use crate::rank::rows;
use crate::scalar::{inside, lt, larger, negated, smaller, less, maximum, minimum, negate, INFINITY, ZERO};

verus! {

/// How far beyond a face of the obstacle an escape point is put: the bits
/// of a hundred times [`EPSILON`].
pub const ESCAPE_MARGIN: u64 = 0x3E45_798E_E230_8C3A;

/// Keeps a point out of an obstacle box, optionally widened by a
/// separation. The constraint is nonconvex.
#[derive(Clone, Debug)]
pub struct CollisionConstraint {
    obstacle: Bounds,
    separation: u64,
    effective_bounds: Option<Bounds>,
}

/// The escape points along the axes: for each dimension the point pushed
/// to just below the obstacle, then to just above it. `low[d]` and
/// `high[d]` are the obstacle's limits in dimension `d` moved outwards by
/// the escape margin.
pub open spec fn face_escapes(point: Seq<u64>, low: Seq<u64>, high: Seq<u64>) -> Seq<Seq<u64>> {
    Seq::new(
        2 * point.len(),
        |k: int|
            point.update(
                k / 2,
                if k % 2 == 0 {
                    low[k / 2]
                } else {
                    high[k / 2]
                },
            ),
    )
}

/// The four corner escapes of a two-dimensional obstacle.
pub open spec fn corner_escapes(low: Seq<u64>, high: Seq<u64>) -> Seq<Seq<u64>> {
    if low.len() == 2 {
        seq![
            seq![low[0], low[1]],
            seq![low[0], high[1]],
            seq![high[0], low[1]],
            seq![high[0], high[1]],
        ]
    } else {
        Seq::empty()
    }
}

/// The face whose escape point is nearest among the first `n`, or -1 when
/// no escape point is at a distance below infinity. Of several nearest
/// faces the first wins.
pub open spec fn nearest_face(distances: Seq<u64>, n: int) -> int
    decreases n,
{
    if n <= 0 {
        -1
    } else {
        let best = nearest_face(distances, n - 1);
        if lt(
            distances[n - 1],
            if best < 0 {
                INFINITY
            } else {
                distances[best]
            },
        ) {
            n - 1
        } else {
            best
        }
    }
}

/// How deep a point lies in the obstacle: the running minimum, from
/// infinity, of its gaps to the faces, raised to [`EPSILON`].
pub open spec fn least_gap(gaps: Seq<u64>, n: int) -> u64
    decreases n,
{
    if n <= 0 {
        INFINITY
    } else {
        smaller(least_gap(gaps, n - 1), gaps[n - 1])
    }
}

fn pair(a: u64, b: u64) -> (r: Vector)
    ensures
        r@ == seq![a, b],
{
    let mut v: Vec<u64> = Vec::new();
    v.push(a);
    v.push(b);
    assert(v@ =~= seq![a, b]);
    Vector::from_vec(v)
}

impl CollisionConstraint {
    /// The obstacle.
    pub closed spec fn obstacle_view(&self) -> Bounds {
        self.obstacle
    }

    /// The separation.
    pub closed spec fn separation_view(&self) -> u64 {
        self.separation
    }

    /// The obstacle widened by the separation, when there is a separation.
    pub closed spec fn widened_view(&self) -> Option<Bounds> {
        self.effective_bounds
    }

    /// The box that a point must stay out of.
    pub open spec fn effective_view(&self) -> Bounds {
        match self.widened_view() {
            Some(b) => b,
            None => self.obstacle_view(),
        }
    }

    /// The invariant of the constraint.
    pub open spec fn wf(&self) -> bool {
        &&& self.obstacle_view().wf()
        &&& self.effective_view().wf()
        &&& self.effective_view().min@.len() == self.obstacle_view().min@.len()
    }

    /// Creates the constraint. `expanded` is the obstacle widened by
    /// `separation` in every direction; it is the effective obstacle when
    /// the separation is positive, and the obstacle itself is otherwise.
    pub fn new(obstacle: Bounds, separation: u64, expanded: Bounds) -> (r: Self)
        requires
            obstacle.wf(),
            expanded.wf(),
            expanded.min@.len() == obstacle.min@.len(),
        ensures
            r.wf(),
            r.obstacle_view() == obstacle,
            r.separation_view() == separation,
            r.effective_view() == if lt(ZERO, separation) {
                expanded
            } else {
                obstacle
            },
            r.widened_view() == if lt(ZERO, separation) {
                Some(expanded)
            } else {
                None::<Bounds>
            },
    {
        let effective_bounds = if less(ZERO, separation) {
            Some(expanded)
        } else {
            None
        };
        CollisionConstraint { obstacle, separation, effective_bounds }
    }

    /// The obstacle.
    pub fn obstacle(&self) -> (r: &Bounds)
        ensures
            *r == self.obstacle_view(),
    {
        &self.obstacle
    }

    /// The box that a point must stay out of: the obstacle, widened by the
    /// separation when that is positive.
    pub fn effective(&self) -> (r: &Bounds)
        ensures
            *r == self.effective_view(),
    {
        match &self.effective_bounds {
            Some(b) => b,
            None => &self.obstacle,
        }
    }

    /// The obstacle widened by the separation, when the separation is
    /// positive.
    pub fn widened(&self) -> (r: Option<&Bounds>)
        ensures
            r matches Some(b) ==> self.widened_view() == Some(*b),
            r is None ==> self.widened_view() is None,
    {
        match &self.effective_bounds {
            Some(b) => Some(b),
            None => None,
        }
    }

    /// The minimum separation.
    pub fn separation(&self) -> (r: u64)
        ensures
            r == self.separation_view(),
    {
        self.separation
    }

    /// The escape points of a point along the axes: per dimension the point
    /// pushed to the low and then to the high side of the obstacle. `low`
    /// and `high` are the effective obstacle's minimum and maximum moved
    /// outwards by [`ESCAPE_MARGIN`].
    pub fn escape_faces(&self, point: &Vector, low: &Vector, high: &Vector) -> (r: Vec<Vector>)
        requires
            low@.len() == point@.len(),
            high@.len() == point@.len(),
        ensures
            rows(r@) == face_escapes(point@, low@, high@),
    {
        let n = point.dim();
        let ghost faces = face_escapes(point@, low@, high@);
        let mut out: Vec<Vector> = Vec::new();
        let mut d: usize = 0;
        assert(rows(out@) =~= faces.take(0));
        while d < n
            invariant
                n == point@.len(),
                n == low@.len(),
                n == high@.len(),
                faces == face_escapes(point@, low@, high@),
                d <= n,
                rows(out@) == faces.take(2 * d),
            decreases n - d,
        {
            let mut below = point.copy();
            below.set(d, low.get(d));
            let mut above = point.copy();
            above.set(d, high.get(d));
            let ghost before = rows(out@);
            assert(below@ == faces[2 * d]);
            assert(above@ == faces[2 * d + 1]);
            out.push(below);
            out.push(above);
            assert(rows(out@) =~= before.push(faces[2 * d]).push(faces[2 * d + 1]));
            assert(faces.take(2 * d).push(faces[2 * d]).push(faces[2 * d + 1]) =~= faces.take(
                2 * (d + 1),
            ));
            d += 1;
        }
        assert(faces.take(2 * n) =~= faces);
        out
    }

    /// The escape candidates of a point: its escape points along the axes,
    /// and in two dimensions the four corners as well. `low` and `high` are
    /// the effective obstacle's minimum and maximum moved outwards by
    /// [`ESCAPE_MARGIN`].
    pub fn escape_candidates(&self, point: &Vector, low: &Vector, high: &Vector) -> (r: Vec<Vector>)
        requires
            low@.len() == point@.len(),
            high@.len() == point@.len(),
        ensures
            rows(r@) == face_escapes(point@, low@, high@) + corner_escapes(low@, high@),
    {
        let mut out = self.escape_faces(point, low, high);
        if point.dim() == 2 {
            let ghost before = rows(out@);
            out.push(pair(low.get(0), low.get(1)));
            out.push(pair(low.get(0), high.get(1)));
            out.push(pair(high.get(0), low.get(1)));
            out.push(pair(high.get(0), high.get(1)));
            assert(rows(out@) =~= before + corner_escapes(low@, high@));
        } else {
            assert(rows(out@) + corner_escapes(low@, high@) =~= rows(out@));
        }
        out
    }

    /// Tells which face escape is nearest: the first index whose distance
    /// is below infinity and below all earlier ones, or `None` when no
    /// distance is below infinity.
    pub fn nearest_escape(distances: &Vec<u64>) -> (r: Option<usize>)
        ensures
            r matches Some(k) ==> k == nearest_face(distances@, distances@.len() as int) && k
                < distances@.len(),
            r is None ==> nearest_face(distances@, distances@.len() as int) == -1,
    {
        let n = distances.len();
        let mut best: Option<usize> = None;
        let mut best_distance: u64 = INFINITY;
        let mut i: usize = 0;
        while i < n
            invariant
                n == distances@.len(),
                i <= n,
                best matches Some(k) ==> k == nearest_face(distances@, i as int) && k < i
                    && best_distance == distances@[k as int],
                best is None ==> nearest_face(distances@, i as int) == -1 && best_distance
                    == INFINITY,
            decreases n - i,
        {
            if less(distances[i], best_distance) {
                best = Some(i);
                best_distance = distances[i];
            }
            i += 1;
        }
        best
    }

    /// Local projection: a point that satisfies the constraint stays;
    /// another is pushed out through the nearest face of the obstacle.
    /// `faces` are the escape points along the axes as
    /// [`escape_faces`](Self::escape_faces) lists them, and `distances[k]`
    /// is the distance from the point to `faces[k]`.
    pub fn project(
        &self,
        point: &Vector,
        satisfied: bool,
        faces: &Vec<Vector>,
        distances: &Vec<u64>,
    ) -> (r: Vector)
        requires
            distances@.len() == faces@.len(),
        ensures
            r@ == if satisfied || nearest_face(distances@, distances@.len() as int) < 0 {
                point@
            } else {
                faces@[nearest_face(distances@, distances@.len() as int)]@
            },
    {
        if satisfied {
            return point.copy();
        }
        match Self::nearest_escape(distances) {
            Some(k) => faces[k].copy(),
            None => point.copy(),
        }
    }

    /// The signed distance of a point. A point that satisfies the
    /// constraint is at minus its distance to the obstacle, `clearance`;
    /// another is as deep in the obstacle as its least gap to a face, and
    /// at least [`EPSILON`]. `gaps` lists, per dimension, the point's
    /// distance to the low face and then to the high face.
    pub fn distance(satisfied: bool, clearance: u64, gaps: &Vec<u64>) -> (r: u64)
        ensures
            r == if satisfied {
                negated(clearance)
            } else {
                larger(least_gap(gaps@, gaps@.len() as int), EPSILON)
            },
    {
        if satisfied {
            negate(clearance)
        } else {
            Self::penetration(gaps)
        }
    }

    /// How deep a point lies in the obstacle: its least gap to a face, at
    /// least [`EPSILON`]. `gaps` lists, per dimension, the point's distance
    /// to the low face and then to the high face.
    pub fn penetration(gaps: &Vec<u64>) -> (r: u64)
        ensures
            r == larger(least_gap(gaps@, gaps@.len() as int), EPSILON),
    {
        let n = gaps.len();
        let mut least: u64 = INFINITY;
        let mut i: usize = 0;
        while i < n
            invariant
                n == gaps@.len(),
                i <= n,
                least == least_gap(gaps@, i as int),
            decreases n - i,
        {
            least = minimum(least, gaps[i]);
            i += 1;
        }
        maximum(least, EPSILON)
    }
}

/// Escape candidates lie outside the obstacle: when the limits lie beyond
/// the obstacle's faces, strictly, no escape candidate of a point is
/// enclosed by the obstacle.
pub proof fn lemma_escapes_lie_outside(
    obstacle: &Bounds,
    point: Seq<u64>,
    low: Seq<u64>,
    high: Seq<u64>,
    k: int,
)
    requires
        obstacle.wf(),
        point.len() == obstacle.min@.len(),
        low.len() == point.len(),
        high.len() == point.len(),
        forall|i: int|
            0 <= i < point.len() ==> lt(#[trigger] low[i], obstacle.min@[i]) && lt(
                obstacle.max@[i],
                high[i],
            ),
        0 <= k < (face_escapes(point, low, high) + corner_escapes(low, high)).len(),
    ensures
        !within(
            (face_escapes(point, low, high) + corner_escapes(low, high))[k],
            obstacle.min@,
            obstacle.max@,
        ),
{
    let faces = face_escapes(point, low, high);
    let all = faces + corner_escapes(low, high);
    let escape = all[k];
    if k < faces.len() {
        let d = k / 2;
        assert(faces.len() == 2 * point.len());
        assert(0 <= d < point.len());
        assert(escape == faces[k]);
        assert(lt(low[d], obstacle.min@[d]));
        assert(lt(obstacle.max@[d], high[d]));
        assert(escape[d] == if k % 2 == 0 {
            low[d]
        } else {
            high[d]
        });
        assert(!inside(escape[d], obstacle.min@[d], obstacle.max@[d]));
    } else {
        assert(low.len() == 2);
        assert(escape == corner_escapes(low, high)[k - faces.len()]);
        assert(lt(low[0], obstacle.min@[0]) && lt(obstacle.max@[0], high[0]));
        assert(!inside(escape[0], obstacle.min@[0], obstacle.max@[0]));
    }
}

impl Constraint for CollisionConstraint {
    open spec fn convex(&self) -> bool {
        false
    }

    open spec fn dims(&self) -> nat {
        self.effective_view().min@.len()
    }

    /// The outside of a box is not convex.
    fn is_convex(&self) -> (r: bool) {
        false
    }

    fn dim(&self) -> (r: usize) {
        self.effective().dim()
    }
}

} // verus!
