//! Candidate generation for the nonconvex search.
//!
//! Candidates come in a fixed, reproducible order: shells from the inside
//! out and lexicographic within a shell, grid points as the Cartesian
//! product of their axes, boundary points corner by corner and face by face.
//! The coordinates themselves are sums and products of reals; callers
//! compute them, and the functions here assemble, select and order.

use vstd::prelude::*;
use crate::constants::{MAX_CANDIDATES, SHELL_ANGULAR_SAMPLES};
use crate::linalg::{Vector, within};
use crate::primitives::Bounds;
use crate::rank::{
    all_kept, is_ranking, keep_all, kept_count, lemma_keep_all_count, rank_points, ranked, ranking,
    rows,
};

verus! {

/// The axes of a grid, each by its coordinates.
pub open spec fn columns(axes: Seq<Vec<u64>>) -> Seq<Seq<u64>> {
    Seq::new(axes.len(), |j: int| axes[j]@)
}

/// Each of `tails` with `head` put in front.
pub open spec fn prefixed(head: Seq<u64>, tails: Seq<Seq<u64>>) -> Seq<Seq<u64>> {
    Seq::new(tails.len(), |k: int| head + tails[k])
}

/// The first `limit` entries of `s`, or all of `s` when it has fewer.
pub open spec fn capped<T>(s: Seq<T>, limit: int) -> Seq<T> {
    if s.len() <= limit {
        s
    } else {
        s.take(limit)
    }
}

/// The tuples over the axes from `from` on whose first coordinate is among
/// the first `t` of its axis, in lexicographic order of their positions on
/// the axes: the first axis varies slowest. Past the last axis there is one
/// tuple, the empty one.
pub open spec fn tuples_upto(axes: Seq<Seq<u64>>, from: int, t: int) -> Seq<Seq<u64>>
    decreases axes.len() - from, t,
{
    if from < 0 || from >= axes.len() {
        seq![Seq::<u64>::empty()]
    } else if t <= 0 {
        Seq::<Seq<u64>>::empty()
    } else {
        tuples_upto(axes, from, t - 1) + prefixed(
            seq![axes[from][t - 1]],
            tuples_upto(
                axes,
                from + 1,
                if from + 1 < axes.len() {
                    axes[from + 1].len() as int
                } else {
                    0
                },
            ),
        )
    }
}

/// The Cartesian product of the axes from `from` on, in lexicographic order.
pub open spec fn tuples(axes: Seq<Seq<u64>>, from: int) -> Seq<Seq<u64>> {
    tuples_upto(
        axes,
        from,
        if 0 <= from < axes.len() {
            axes[from].len() as int
        } else {
            0
        },
    )
}

proof fn lemma_capped_append<T>(s: Seq<T>, more: Seq<T>, limit: int)
    requires
        0 <= limit,
    ensures
        capped(capped(s, limit) + more, limit) == capped(s + more, limit),
        capped(s, limit).len() <= limit,
        capped(s, limit).len() < limit ==> capped(s, limit) == s,
{
    if s.len() > limit {
        assert((s.take(limit) + more).take(limit) =~= s.take(limit));
        assert((s + more).take(limit) =~= s.take(limit));
    }
}

fn extend_tuples(
    axes: &Vec<Vec<u64>>,
    from: usize,
    prefix: &mut Vec<u64>,
    out: &mut Vec<Vector>,
    limit: usize,
)
    requires
        from <= axes@.len(),
        old(out)@.len() <= limit,
    ensures
        final(prefix)@ == old(prefix)@,
        final(out)@.len() <= limit,
        rows(final(out)@) == capped(
            rows(old(out)@) + prefixed(old(prefix)@, tuples(columns(axes@), from as int)),
            limit as int,
        ),
    decreases axes@.len() - from,
{
    let ghost start = rows(out@);
    let ghost head = prefix@;
    let ghost grid = columns(axes@);
    if out.len() >= limit {
        proof {
            let all = start + prefixed(head, tuples(grid, from as int));
            assert(all.take(limit as int) =~= start);
        }
        return ;
    }
    if from == axes.len() {
        out.push(Vector::from_slice(prefix.as_slice()));
        proof {
            assert(tuples(grid, from as int) =~= seq![Seq::<u64>::empty()]);
            assert(head + Seq::<u64>::empty() =~= head);
            assert(rows(out@) =~= start + prefixed(head, tuples(grid, from as int)));
        }
        return ;
    }
    let total = axes.len();
    let m = axes[from].len();
    let mut t: usize = 0;
    while t < m
        invariant
            total == axes@.len(),
            from < total,
            m == axes@[from as int]@.len(),
            grid == columns(axes@),
            t <= m,
            prefix@ == head,
            out@.len() <= limit,
            rows(out@) == capped(
                start + prefixed(head, tuples_upto(grid, from as int, t as int)),
                limit as int,
            ),
        decreases m - t,
    {
        let value = axes[from][t];
        prefix.push(value);
        extend_tuples(axes, from + 1, prefix, out, limit);
        prefix.pop();
        proof {
            let rest = tuples(grid, from + 1);
            let sofar = start + prefixed(head, tuples_upto(grid, from as int, t as int));
            let step = prefixed(head.push(value), rest);
            assert(prefix@ =~= head);
            lemma_capped_append(sofar, step, limit as int);
            assert(grid[from as int] == axes@[from as int]@);
            assert(prefixed(head, prefixed(seq![value], rest)) =~= step) by {
                assert forall|k: int| 0 <= k < rest.len() implies head + (seq![value] + rest[k])
                    == head.push(value) + rest[k] by {
                    assert(head + (seq![value] + rest[k]) =~= head.push(value) + rest[k]);
                }
            }
            assert(prefixed(head, tuples_upto(grid, from as int, t + 1)) =~= prefixed(
                head,
                tuples_upto(grid, from as int, t as int),
            ) + step);
            assert(start + prefixed(head, tuples_upto(grid, from as int, t + 1)) =~= sofar + step);
        }
        t += 1;
    }
}

/// The Cartesian product of the axes as points, in lexicographic order of
/// the positions on the axes, cut off after `limit` points.
pub fn grid_points(axes: &Vec<Vec<u64>>, limit: usize) -> (r: Vec<Vector>)
    ensures
        rows(r@) == capped(tuples(columns(axes@), 0), limit as int),
        r@.len() <= limit,
{
    let mut prefix: Vec<u64> = Vec::new();
    let mut out: Vec<Vector> = Vec::new();
    extend_tuples(axes, 0, &mut prefix, &mut out, limit);
    proof {
        let all = tuples(columns(axes@), 0);
        assert(prefixed(Seq::<u64>::empty(), all) =~= all) by {
            assert forall|k: int| 0 <= k < all.len() implies Seq::<u64>::empty() + all[k]
                == all[k] by {
                assert(Seq::<u64>::empty() + all[k] =~= all[k]);
            }
        }
        assert(Seq::<Seq<u64>>::empty() + all =~= all);
        assert(rows(Seq::<Vector>::empty()) =~= Seq::<Seq<u64>>::empty());
    }
    out
}

/// The offsets of the grid lines searched in one dimension, in grid steps
/// from the line nearest to the centre: from `-half_range` to `half_range`,
/// ascending; none when `half_range` is negative.
pub fn snap_offsets(half_range: i32) -> (r: Vec<i32>)
    requires
        half_range > i32::MIN,
    ensures
        r@ == Seq::new(
            if half_range < 0 {
                0nat
            } else {
                (2 * half_range + 1) as nat
            },
            |k: int| (k - half_range) as i32,
        ),
{
    let mut out: Vec<i32> = Vec::new();
    if half_range < 0 {
        assert(out@ =~= Seq::new(0nat, |k: int| (k - half_range) as i32));
        return out;
    }
    let mut offset: i32 = -half_range;
    while offset < half_range
        invariant
            0 <= half_range,
            -half_range <= offset <= half_range,
            out@ == Seq::new((offset + half_range) as nat, |k: int| (k - half_range) as i32),
        decreases half_range - offset,
    {
        out.push(offset);
        offset = offset + 1;
        assert(out@ =~= Seq::new((offset + half_range) as nat, |k: int| (k - half_range) as i32));
    }
    out.push(half_range);
    assert(out@ =~= Seq::new((2 * half_range + 1) as nat, |k: int| (k - half_range) as i32));
    out
}

/// The grid points around a centre before ranking: the Cartesian product of
/// the per-dimension grid coordinates, lowest offset first, cut off at
/// [`MAX_CANDIDATES`].
pub fn snap_grid(axes: &Vec<Vec<u64>>) -> (r: Vec<Vector>)
    ensures
        rows(r@) == capped(tuples(columns(axes@), 0), MAX_CANDIDATES as int),
        r@.len() <= MAX_CANDIDATES,
{
    grid_points(axes, MAX_CANDIDATES)
}

/// Snap-to-grid candidates: the grid points ordered by their distance to
/// the centre, nearest first, ties broken lexicographically, at most
/// [`MAX_CANDIDATES`] of them. `distances[i]` is the distance of `grid[i]`.
pub fn snap_candidates(grid: &Vec<Vector>, distances: &Vec<u64>) -> (r: Vec<Vector>)
    requires
        distances@.len() == grid@.len(),
    ensures
        rows(r@) == capped(
            ranked(keep_all(grid@.len()), distances@, rows(grid@)),
            MAX_CANDIDATES as int,
        ),
        r@.len() <= MAX_CANDIDATES,
{
    let keep = all_kept(grid.len());
    proof {
        lemma_keep_all_count(grid@.len(), grid@.len() as int);
    }
    let mut sorted = rank_points(&keep, distances, grid);
    let ghost full = rows(sorted@);
    if sorted.len() > MAX_CANDIDATES {
        sorted.truncate(MAX_CANDIDATES);
        assert(rows(sorted@) =~= full.take(MAX_CANDIDATES as int));
    }
    sorted
}

/// Keeps the candidates that satisfy every constraint and orders them by
/// their distance to the intended state, nearest first, ties broken
/// lexicographically. `satisfied[i]` tells whether `candidates[i]`
/// satisfies all constraints, `distances[i]` is its distance to the
/// intended state.
pub fn filter_and_rank(
    candidates: &Vec<Vector>,
    satisfied: &Vec<bool>,
    distances: &Vec<u64>,
) -> (r: Vec<Vector>)
    requires
        satisfied@.len() == candidates@.len(),
        distances@.len() == candidates@.len(),
    ensures
        rows(r@) == ranked(satisfied@, distances@, rows(candidates@)),
        r@.len() == kept_count(satisfied@, candidates@.len() as int),
        is_ranking(
            ranking(satisfied@, distances@, rows(candidates@)),
            satisfied@,
            distances@,
            rows(candidates@),
        ),
{
    rank_points(satisfied, distances, candidates)
}

proof fn lemma_capped_full<T>(s: Seq<T>, more: Seq<T>, limit: int)
    requires
        0 <= limit,
        capped(s, limit).len() >= limit,
    ensures
        capped(s + more, limit) == capped(s, limit),
{
    if s.len() > limit {
        assert((s + more).take(limit) =~= s.take(limit));
    } else {
        assert((s + more).take(limit) =~= s);
    }
}

fn push_capped(out: &mut Vec<Vector>, point: Vector, limit: usize, Ghost(list): Ghost<Seq<Seq<u64>>>)
    requires
        rows(old(out)@) == capped(list, limit as int),
    ensures
        rows(final(out)@) == capped(list.push(point@), limit as int),
{
    proof {
        lemma_capped_append(list, seq![point@], limit as int);
        assert(list + seq![point@] =~= list.push(point@));
        assert(rows(out@).len() == out@.len());
    }
    let ghost before = rows(out@);
    if out.len() < limit {
        out.push(point);
        assert(rows(out@) =~= before + seq![point@]);
    } else {
        assert((before + seq![point@]).take(limit as int) =~= before);
    }
}

/// How many candidates may still be generated when `existing` are there.
pub open spec fn quota(existing: usize) -> int {
    if existing >= MAX_CANDIDATES {
        0
    } else {
        MAX_CANDIDATES - existing
    }
}

/// Whether corner `i` of a box takes the maximum in dimension `d`: it does
/// when bit `d` of `i` is set.
pub open spec fn corner_takes_max(i: usize, d: usize) -> bool {
    (i >> d) & 1 != 0
}

/// Corner `i` of the box.
pub open spec fn corner(min: Seq<u64>, max: Seq<u64>, i: usize) -> Seq<u64> {
    Seq::new(
        min.len(),
        |d: int|
            if corner_takes_max(i, d as usize) {
                max[d]
            } else {
                min[d]
            },
    )
}

/// Two to the power `n`.
pub open spec fn two_to(n: nat) -> nat
    decreases n,
{
    if n == 0 {
        1
    } else {
        2 * two_to((n - 1) as nat)
    }
}

/// The corners of the box, all `2^n` of them in the order of their numbers;
/// none when the box has more than five dimensions.
pub open spec fn corners(min: Seq<u64>, max: Seq<u64>) -> Seq<Seq<u64>> {
    if min.len() <= 5 {
        Seq::new(two_to(min.len()), |i: int| corner(min, max, i as usize))
    } else {
        Seq::empty()
    }
}

/// The face centres of the box: for each dimension the centre moved to the
/// minimum, then to the maximum of that dimension.
pub open spec fn face_centers(min: Seq<u64>, max: Seq<u64>, center: Seq<u64>) -> Seq<Seq<u64>> {
    Seq::new(
        2 * min.len(),
        |k: int|
            center.update(
                k / 2,
                if k % 2 == 0 {
                    min[k / 2]
                } else {
                    max[k / 2]
                },
            ),
    )
}

/// All boundary candidates of a box: corners, face centres, centre.
pub open spec fn boundary_list(min: Seq<u64>, max: Seq<u64>, center: Seq<u64>) -> Seq<Seq<u64>> {
    (corners(min, max) + face_centers(min, max, center)).push(center)
}

fn corner_point(bounds: &Bounds, i: usize) -> (r: Vector)
    requires
        bounds.wf(),
        bounds.min@.len() <= 5,
    ensures
        r@ == corner(bounds.min@, bounds.max@, i),
{
    let n = bounds.min.dim();
    let mut point = Vector::zeros(n);
    let mut d: usize = 0;
    while d < n
        invariant
            bounds.wf(),
            n == bounds.min@.len(),
            n <= 5,
            point@.len() == n,
            d <= n,
            forall|k: int|
                0 <= k < d ==> point@[k] == if corner_takes_max(i, k as usize) {
                    bounds.max@[k]
                } else {
                    bounds.min@[k]
                },
        decreases n - d,
    {
        let value = if (i >> d) & 1 != 0 {
            bounds.max.get(d)
        } else {
            bounds.min.get(d)
        };
        point.set(d, value);
        d += 1;
    }
    assert(point@ =~= corner(bounds.min@, bounds.max@, i));
    point
}

/// Boundary candidates of a box: its corners (when it has at most five
/// dimensions), then the centre of each face, then the centre of the box,
/// cut off at the quota that `existing` candidates leave. `center` is the
/// centre of the box.
pub fn boundary_candidates(bounds: &Bounds, center: &Vector, existing: usize) -> (r: Vec<Vector>)
    requires
        bounds.wf(),
        center@.len() == bounds.min@.len(),
    ensures
        rows(r@) == capped(boundary_list(bounds.min@, bounds.max@, center@), quota(existing)),
        r@.len() <= quota(existing),
{
    let mut out: Vec<Vector> = Vec::new();
    let remaining = if existing >= MAX_CANDIDATES {
        0
    } else {
        MAX_CANDIDATES - existing
    };
    let ghost all = boundary_list(bounds.min@, bounds.max@, center@);
    let ghost cs = corners(bounds.min@, bounds.max@);
    let ghost fs = face_centers(bounds.min@, bounds.max@, center@);
    assert(rows(out@) =~= Seq::<Seq<u64>>::empty());
    if remaining == 0 {
        assert(all.take(0) =~= Seq::<Seq<u64>>::empty());
        return out;
    }
    let n = bounds.min.dim();
    if n <= 5 {
        let mut count: usize = 1;
        let mut e: usize = 0;
        while e < n
            invariant
                n <= 5,
                e <= n,
                count == two_to(e as nat),
                count <= 32,
            decreases n - e,
        {
            assert(two_to(e as nat) <= 16) by {
                reveal_with_fuel(two_to, 6);
            }
            count = count * 2;
            e += 1;
        }
        let mut i: usize = 0;
        while i < count
            invariant
                bounds.wf(),
                n == bounds.min@.len(),
                n <= 5,
                count == cs.len(),
                cs == corners(bounds.min@, bounds.max@),
                i <= count,
                rows(out@) == capped(cs.take(i as int), remaining as int),
            decreases count - i,
        {
            let point = corner_point(bounds, i);
            push_capped(&mut out, point, remaining, Ghost(cs.take(i as int)));
            assert(cs.take(i as int).push(cs[i as int]) =~= cs.take(i + 1));
            i += 1;
        }
        assert(cs.take(count as int) =~= cs);
    }
    assert(rows(out@) == capped(cs, remaining as int));
    let mut d: usize = 0;
    while d < n
        invariant
            bounds.wf(),
            n == bounds.min@.len(),
            n == center@.len(),
            fs == face_centers(bounds.min@, bounds.max@, center@),
            cs == corners(bounds.min@, bounds.max@),
            all == (cs + fs).push(center@),
            remaining as int == quota(existing),
            d <= n,
            rows(out@) == capped(cs + fs.take(2 * d), remaining as int),
        decreases n - d,
    {
        proof {
            assert(rows(out@).len() == out@.len());
        }
        if out.len() >= remaining {
            proof {
                lemma_capped_full(cs + fs.take(2 * d), fs.skip(2 * d).push(center@), remaining as int);
                assert(fs.len() == 2 * n);
                assert(fs.take(2 * d) + fs.skip(2 * d) =~= fs);
                assert(fs.skip(2 * d).push(center@) =~= fs.skip(2 * d) + seq![center@]);
                assert(all =~= cs + fs + seq![center@]);
                assert(cs + fs.take(2 * d) + (fs.skip(2 * d) + seq![center@]) =~= cs + (fs.take(
                    2 * d,
                ) + fs.skip(2 * d)) + seq![center@]);
            }
            return out;
        }
        let mut low = center.copy();
        low.set(d, bounds.min.get(d));
        let mut high = center.copy();
        high.set(d, bounds.max.get(d));
        let ghost sofar = cs + fs.take(2 * d);
        assert(low@ == fs[2 * d]);
        assert(high@ == fs[2 * d + 1]);
        push_capped(&mut out, low, remaining, Ghost(sofar));
        push_capped(&mut out, high, remaining, Ghost(sofar.push(fs[2 * d])));
        assert(sofar.push(fs[2 * d]).push(fs[2 * d + 1]) =~= cs + fs.take(2 * (d + 1)));
        d += 1;
    }
    assert(fs.take(2 * n) =~= fs);
    push_capped(&mut out, center.copy(), remaining, Ghost(cs + fs));
    assert(rows(out@).len() == out@.len());
    out
}

/// The axial points of a shell: for each dimension the centre moved up,
/// then down, along that dimension. `up[d]` and `down[d]` are the centre's
/// coordinate `d` plus and minus the radius.
pub open spec fn axial_points(center: Seq<u64>, up: Seq<u64>, down: Seq<u64>) -> Seq<Seq<u64>> {
    Seq::new(
        2 * center.len(),
        |k: int|
            center.update(
                k / 2,
                if k % 2 == 0 {
                    up[k / 2]
                } else {
                    down[k / 2]
                },
            ),
    )
}

/// The four diagonal points of a shell in the plane of dimensions `d1` and
/// `d2`: up-up, up-down, down-up, down-down.
pub open spec fn plane_points(
    center: Seq<u64>,
    up: Seq<u64>,
    down: Seq<u64>,
    d1: int,
    d2: int,
) -> Seq<Seq<u64>> {
    seq![
        center.update(d1, up[d1]).update(d2, up[d2]),
        center.update(d1, up[d1]).update(d2, down[d2]),
        center.update(d1, down[d1]).update(d2, up[d2]),
        center.update(d1, down[d1]).update(d2, down[d2]),
    ]
}

/// The diagonal points in the planes of `d1` with each later dimension
/// below `d2`.
pub open spec fn plane_row(
    center: Seq<u64>,
    up: Seq<u64>,
    down: Seq<u64>,
    d1: int,
    d2: int,
) -> Seq<Seq<u64>>
    decreases d2 - d1,
{
    if d2 <= d1 + 1 {
        Seq::empty()
    } else {
        plane_row(center, up, down, d1, d2 - 1) + plane_points(center, up, down, d1, d2 - 1)
    }
}

/// The diagonal points in the planes of every pair of dimensions whose
/// first is below `d1`, in the order of the pairs.
pub open spec fn plane_rows(center: Seq<u64>, up: Seq<u64>, down: Seq<u64>, d1: int) -> Seq<
    Seq<u64>,
>
    decreases d1,
{
    if d1 <= 0 {
        Seq::empty()
    } else {
        plane_rows(center, up, down, d1 - 1) + plane_row(
            center,
            up,
            down,
            d1 - 1,
            center.len() as int,
        )
    }
}

/// How the points of a shell are laid out in a given dimension.
#[derive(Clone, Copy, Debug, PartialEq, Eq, Structural)]
pub enum ShellKind {
    /// One dimension: the two points at the radius.
    Line,
    /// Two dimensions: points at equal angles on the circle.
    Circle,
    /// Any other dimension: axial points and plane diagonals.
    Axes,
}

/// The layout of a shell in dimension `dim`.
pub fn shell_kind(dim: usize) -> (r: ShellKind)
    ensures
        r == if dim == 1 {
            ShellKind::Line
        } else if dim == 2 {
            ShellKind::Circle
        } else {
            ShellKind::Axes
        },
{
    if dim == 1 {
        ShellKind::Line
    } else if dim == 2 {
        ShellKind::Circle
    } else {
        ShellKind::Axes
    }
}

/// Shell points in two dimensions: the points of the circle in the order
/// of their angles. `xs[k]` and `ys[k]` are the coordinates of the point at
/// angle `2 pi k / n`, for the `n` angular samples.
pub fn generate_shell_2d(xs: &Vector, ys: &Vector) -> (r: Vec<Vector>)
    requires
        xs@.len() == SHELL_ANGULAR_SAMPLES,
        ys@.len() == SHELL_ANGULAR_SAMPLES,
    ensures
        rows(r@) == Seq::new(SHELL_ANGULAR_SAMPLES as nat, |k: int| seq![xs@[k], ys@[k]]),
{
    let mut out: Vec<Vector> = Vec::new();
    let mut k: usize = 0;
    while k < SHELL_ANGULAR_SAMPLES
        invariant
            xs@.len() == SHELL_ANGULAR_SAMPLES,
            ys@.len() == SHELL_ANGULAR_SAMPLES,
            k <= SHELL_ANGULAR_SAMPLES,
            out@.len() == k,
            forall|i: int| 0 <= i < k ==> (#[trigger] out@[i])@ == seq![xs@[i], ys@[i]],
        decreases SHELL_ANGULAR_SAMPLES - k,
    {
        let mut point: Vec<u64> = Vec::new();
        point.push(xs.get(k));
        point.push(ys.get(k));
        assert(point@ =~= seq![xs@[k as int], ys@[k as int]]);
        out.push(Vector::from_vec(point));
        k += 1;
    }
    assert(rows(out@) =~= Seq::new(
        SHELL_ANGULAR_SAMPLES as nat,
        |k: int| seq![xs@[k], ys@[k]],
    ));
    out
}

/// Shell points in one dimension: the centre moved down, then up.
pub fn generate_shell_1d(down: u64, up: u64) -> (r: Vec<Vector>)
    ensures
        rows(r@) == seq![seq![down], seq![up]],
{
    let mut out: Vec<Vector> = Vec::new();
    let mut a: Vec<u64> = Vec::new();
    a.push(down);
    let mut b: Vec<u64> = Vec::new();
    b.push(up);
    out.push(Vector::from_vec(a));
    out.push(Vector::from_vec(b));
    assert(rows(out@) =~= seq![seq![down], seq![up]]);
    out
}

/// Shell points in three or more dimensions: the `2n` axial points, then
/// for every pair of dimensions, first below second, the four diagonal
/// points of their plane. `axial_up[d]` and `axial_down[d]` are the
/// centre's coordinate `d` plus and minus the radius, `diagonal_up[d]` and
/// `diagonal_down[d]` the same with the radius divided by the root of two.
pub fn generate_shell_nd(
    center: &Vector,
    axial_up: &Vector,
    axial_down: &Vector,
    diagonal_up: &Vector,
    diagonal_down: &Vector,
) -> (r: Vec<Vector>)
    requires
        axial_up@.len() == center@.len(),
        axial_down@.len() == center@.len(),
        diagonal_up@.len() == center@.len(),
        diagonal_down@.len() == center@.len(),
    ensures
        rows(r@) == axial_points(center@, axial_up@, axial_down@) + plane_rows(
            center@,
            diagonal_up@,
            diagonal_down@,
            center@.len() as int,
        ),
{
    let n = center.dim();
    let ghost ax = axial_points(center@, axial_up@, axial_down@);
    let ghost c = center@;
    let ghost du = diagonal_up@;
    let ghost dd = diagonal_down@;
    let mut out: Vec<Vector> = Vec::new();
    let mut d: usize = 0;
    assert(rows(out@) =~= ax.take(0));
    while d < n
        invariant
            n == center@.len(),
            n == axial_up@.len(),
            n == axial_down@.len(),
            ax == axial_points(center@, axial_up@, axial_down@),
            d <= n,
            rows(out@) == ax.take(2 * d),
        decreases n - d,
    {
        let mut pos = center.copy();
        pos.set(d, axial_up.get(d));
        let mut neg = center.copy();
        neg.set(d, axial_down.get(d));
        let ghost before = rows(out@);
        assert(pos@ == ax[2 * d]);
        assert(neg@ == ax[2 * d + 1]);
        out.push(pos);
        out.push(neg);
        assert(rows(out@) =~= before.push(ax[2 * d]).push(ax[2 * d + 1]));
        assert(ax.take(2 * d).push(ax[2 * d]).push(ax[2 * d + 1]) =~= ax.take(2 * (d + 1)));
        d += 1;
    }
    assert(ax.take(2 * n) =~= ax);
    let mut d1: usize = 0;
    assert(ax + plane_rows(c, du, dd, 0) =~= ax);
    while d1 < n
        invariant
            n == center@.len(),
            n == diagonal_up@.len(),
            n == diagonal_down@.len(),
            c == center@,
            du == diagonal_up@,
            dd == diagonal_down@,
            d1 <= n,
            rows(out@) == ax + plane_rows(c, du, dd, d1 as int),
        decreases n - d1,
    {
        let mut d2: usize = d1 + 1;
        let ghost base = ax + plane_rows(c, du, dd, d1 as int);
        assert(base + plane_row(c, du, dd, d1 as int, d1 + 1) =~= base);
        while d2 < n
            invariant
                n == center@.len(),
                n == diagonal_up@.len(),
                n == diagonal_down@.len(),
                c == center@,
                du == diagonal_up@,
                dd == diagonal_down@,
                d1 < n,
                d1 < d2 <= n,
                rows(out@) == base + plane_row(c, du, dd, d1 as int, d2 as int),
            decreases n - d2,
        {
            let ghost before = rows(out@);
            let ghost quad = plane_points(c, du, dd, d1 as int, d2 as int);
            let mut s1: usize = 0;
            while s1 < 2
                invariant
                    n == center@.len(),
                    n == diagonal_up@.len(),
                    n == diagonal_down@.len(),
                    c == center@,
                    du == diagonal_up@,
                    dd == diagonal_down@,
                    d1 < d2 < n,
                    s1 <= 2,
                    quad == plane_points(c, du, dd, d1 as int, d2 as int),
                    rows(out@) == before + quad.take(2 * s1),
                decreases 2 - s1,
            {
                let first = if s1 == 0 {
                    diagonal_up.get(d1)
                } else {
                    diagonal_down.get(d1)
                };
                let mut s2: usize = 0;
                while s2 < 2
                    invariant
                        n == center@.len(),
                        n == diagonal_up@.len(),
                        n == diagonal_down@.len(),
                        c == center@,
                        du == diagonal_up@,
                        dd == diagonal_down@,
                        d1 < d2 < n,
                        s1 < 2,
                        s2 <= 2,
                        first == if s1 == 0 {
                            du[d1 as int]
                        } else {
                            dd[d1 as int]
                        },
                        quad == plane_points(c, du, dd, d1 as int, d2 as int),
                        rows(out@) == before + quad.take(2 * s1 + s2),
                    decreases 2 - s2,
                {
                    let second = if s2 == 0 {
                        diagonal_up.get(d2)
                    } else {
                        diagonal_down.get(d2)
                    };
                    let mut point = center.copy();
                    point.set(d1, first);
                    point.set(d2, second);
                    let ghost prior = rows(out@);
                    assert(point@ == quad[2 * s1 + s2]);
                    out.push(point);
                    assert(rows(out@) =~= prior.push(quad[2 * s1 + s2]));
                    assert(before + quad.take(2 * s1 + s2 + 1) =~= (before + quad.take(
                        2 * s1 + s2,
                    )).push(quad[2 * s1 + s2]));
                    s2 += 1;
                }
                s1 += 1;
            }
            assert(quad.take(4) =~= quad);
            assert(base + plane_row(c, du, dd, d1 as int, d2 + 1) =~= before + quad);
            d2 += 1;
        }
        assert(ax + plane_rows(c, du, dd, d1 + 1) =~= base + plane_row(
            c,
            du,
            dd,
            d1 as int,
            n as int,
        ));
        d1 += 1;
    }
    out
}

/// The shells of a search, each by the components of its points.
pub open spec fn shell_rows(shells: Seq<Vec<Vector>>) -> Seq<Seq<Seq<u64>>> {
    Seq::new(shells.len(), |s: int| rows(shells[s]@))
}

/// Which points of a shell pass the search box: all when there is none.
pub open spec fn passing(shell: Seq<Seq<u64>>, limits: Option<(Seq<u64>, Seq<u64>)>) -> Seq<bool> {
    Seq::new(
        shell.len(),
        |i: int|
            match limits {
                Some((lo, hi)) => within(shell[i], lo, hi),
                None => true,
            },
    )
}

/// What one shell contributes: its passing points in lexicographic order.
pub open spec fn shell_choice(shell: Seq<Seq<u64>>, limits: Option<(Seq<u64>, Seq<u64>)>) -> Seq<
    Seq<u64>,
> {
    ranked(passing(shell, limits), Seq::new(shell.len(), |i: int| 0u64), shell)
}

/// The candidates of the first `n` shells, shell after shell.
pub open spec fn search_stream(
    shells: Seq<Seq<Seq<u64>>>,
    limits: Option<(Seq<u64>, Seq<u64>)>,
    n: int,
) -> Seq<Seq<u64>>
    decreases n,
{
    if n <= 0 {
        Seq::empty()
    } else {
        search_stream(shells, limits, n - 1) + shell_choice(shells[n - 1], limits)
    }
}

/// The corners of an optional search box.
pub open spec fn limits_of(bounds: Option<&Bounds>) -> Option<(Seq<u64>, Seq<u64>)> {
    match bounds {
        Some(b) => Some((b.min@, b.max@)),
        None => None,
    }
}

/// Radial, monotonic local search: takes the shells from the innermost
/// outwards, keeps of each the points that lie in the search box (all of
/// them without a box), orders them lexicographically, and emits them until
/// the quota that `existing` candidates leave is used up.
///
/// `shells[k]` holds the points on the sphere of the `k`-th radius around
/// the centre. The box test is exact: pass the box widened by the
/// containment tolerance.
pub fn local_search(shells: &Vec<Vec<Vector>>, bounds: Option<&Bounds>, existing: usize) -> (r:
    Vec<Vector>)
    requires
        bounds matches Some(b) ==> b.wf() && forall|s: int, i: int|
            0 <= s < shells@.len() && 0 <= i < shells@[s]@.len() ==> (#[trigger] shells@[s]@[i])@.len()
                == b.min@.len(),
    ensures
        rows(r@) == capped(
            search_stream(shell_rows(shells@), limits_of(bounds), shells@.len() as int),
            quota(existing),
        ),
        r@.len() <= quota(existing),
{
    let mut out: Vec<Vector> = Vec::new();
    let remaining = if existing >= MAX_CANDIDATES {
        0
    } else {
        MAX_CANDIDATES - existing
    };
    let ghost all = shell_rows(shells@);
    let ghost limits = limits_of(bounds);
    let total = shells.len();
    assert(rows(out@) =~= Seq::<Seq<u64>>::empty());
    if remaining == 0 {
        assert(search_stream(all, limits, total as int).take(0) =~= Seq::<Seq<u64>>::empty());
        return out;
    }
    let mut s: usize = 0;
    while s < total
        invariant
            total == shells@.len(),
            all == shell_rows(shells@),
            limits == limits_of(bounds),
            bounds matches Some(b) ==> b.wf() && forall|s: int, i: int|
                0 <= s < shells@.len() && 0 <= i < shells@[s]@.len() ==> (
                #[trigger] shells@[s]@[i])@.len() == b.min@.len(),
            s <= total,
            rows(out@) == capped(search_stream(all, limits, s as int), remaining as int),
        decreases total - s,
    {
        let shell = &shells[s];
        let m = shell.len();
        let mut keep: Vec<bool> = Vec::new();
        let mut keys: Vec<u64> = Vec::new();
        let mut i: usize = 0;
        while i < m
            invariant
                s < total,
                total == shells@.len(),
                shell == shells@[s as int],
                m == shell@.len(),
                limits == limits_of(bounds),
                bounds matches Some(b) ==> b.wf() && forall|s: int, i: int|
                    0 <= s < shells@.len() && 0 <= i < shells@[s]@.len() ==> (
                    #[trigger] shells@[s]@[i])@.len() == b.min@.len(),
                i <= m,
                keep@ == passing(rows(shell@), limits).take(i as int),
                keys@ == Seq::new(i as nat, |k: int| 0u64),
            decreases m - i,
        {
            let pass = match bounds {
                Some(b) => {
                    assert((shells@[s as int]@[i as int])@.len() == b.min@.len());
                    b.encloses(&shell[i])
                },
                None => true,
            };
            keep.push(pass);
            keys.push(0);
            i += 1;
            assert(keep@ =~= passing(rows(shell@), limits).take(i as int));
            assert(keys@ =~= Seq::new(i as nat, |k: int| 0u64));
        }
        assert(keep@ =~= passing(rows(shell@), limits));
        let chosen = rank_points(&keep, &keys, shell);
        assert(rows(chosen@) == shell_choice(all[s as int], limits));
        let ghost before = search_stream(all, limits, s as int);
        let c = chosen.len();
        let mut j: usize = 0;
        while j < c
            invariant
                c == chosen@.len(),
                j <= c,
                rows(out@) == capped(before + rows(chosen@).take(j as int), remaining as int),
            decreases c - j,
        {
            let ghost sofar = before + rows(chosen@).take(j as int);
            push_capped(&mut out, chosen[j].copy(), remaining, Ghost(sofar));
            assert(sofar.push(chosen@[j as int]@) =~= before + rows(chosen@).take(j + 1));
            j += 1;
        }
        assert(rows(chosen@).take(c as int) =~= rows(chosen@));
        s += 1;
    }
    out
}

} // verus!
