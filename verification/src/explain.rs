//! The structured diff between an original and a suggested state, and the
//! classification that explanations are worded from.

use vstd::prelude::*;
use crate::constants::TOLERANCE;
use crate::linalg::Vector;
use crate::primitives::FGState;
use crate::scalar::{cleared, lt, absolute, less, HALF, ZERO};

verus! {

/// A change in a single dimension.
#[derive(Clone, Debug)]
pub struct DimensionChange {
    /// Dimension index.
    pub dimension: usize,
    /// Dimension name, if known.
    pub name: Option<String>,
    /// Original value.
    pub original: u64,
    /// New value.
    pub suggested: u64,
    /// Change amount: the new value minus the original one.
    pub delta: u64,
}

/// A diff between two states.
#[derive(Clone, Debug)]
pub struct StateDiff {
    /// Original state.
    pub original: Vector,
    /// New state.
    pub suggested: Vector,
    /// The dimensions that changed by more than the tolerance, ascending.
    pub changes: Vec<DimensionChange>,
    /// Euclidean distance between the two states.
    pub total_distance: u64,
}

/// An explanation of a suggestion.
#[derive(Clone, Debug)]
pub struct Explanation {
    /// The diff between original and suggested state.
    pub diff: StateDiff,
    /// Human-readable summary.
    pub summary: String,
    /// One line per constraint on how the suggestion stands to it.
    pub constraint_reasons: Vec<String>,
    /// Violation state of the suggestion.
    pub fg_state: FGState,
}

/// How a point stands to one constraint.
#[derive(Clone, Copy, Debug, PartialEq, Eq, Structural)]
pub enum ConstraintStatus {
    /// On the boundary, within tolerance.
    OnBoundary,
    /// Inside, with a margin.
    Satisfied,
    /// Outside.
    Violated,
}

/// Whether a dimension counts as changed: it does when the absolute value
/// of its difference is above [`TOLERANCE`].
pub open spec fn changed(delta: u64) -> bool {
    lt(TOLERANCE, cleared(delta))
}

/// The dimensions below `n` that changed, ascending.
pub open spec fn changed_dimensions(deltas: Seq<u64>, n: int) -> Seq<int>
    decreases n,
{
    if n <= 0 {
        Seq::empty()
    } else if changed(deltas[n - 1]) {
        changed_dimensions(deltas, n - 1).push(n - 1)
    } else {
        changed_dimensions(deltas, n - 1)
    }
}

/// Whether `changes` records exactly the changed dimensions, each with the
/// values of the two states and their difference, and without a name.
pub open spec fn records(
    changes: Seq<DimensionChange>,
    original: Seq<u64>,
    suggested: Seq<u64>,
    deltas: Seq<u64>,
    n: int,
) -> bool {
    let dims = changed_dimensions(deltas, n);
    &&& changes.len() == dims.len()
    &&& forall|k: int|
        0 <= k < changes.len() ==> {
            let c = #[trigger] changes[k];
            &&& c.dimension == dims[k]
            &&& c.original == original[dims[k]]
            &&& c.suggested == suggested[dims[k]]
            &&& c.delta == deltas[dims[k]]
        }
}

proof fn lemma_changed_dimensions_in_range(deltas: Seq<u64>, n: int)
    ensures
        forall|k: int|
            0 <= k < changed_dimensions(deltas, n).len() ==> 0 <= #[trigger] changed_dimensions(
                deltas,
                n,
            )[k] < n,
    decreases n,
{
    if n > 0 {
        lemma_changed_dimensions_in_range(deltas, n - 1);
        let earlier = changed_dimensions(deltas, n - 1);
        let all = changed_dimensions(deltas, n);
        assert forall|k: int| 0 <= k < all.len() implies 0 <= #[trigger] all[k] < n by {
            if k < earlier.len() {
                assert(all[k] == earlier[k]);
            }
        }
    }
}

/// The state that results from applying the changes to `state`, first to
/// last: each change sets its dimension to its suggested value, and a
/// change to a dimension that the state does not have is passed over.
pub open spec fn applied(state: Seq<u64>, changes: Seq<DimensionChange>, n: int) -> Seq<u64>
    decreases n,
{
    if n <= 0 {
        state
    } else {
        let before = applied(state, changes, n - 1);
        let c = changes[n - 1];
        if c.dimension < before.len() {
            before.update(c.dimension as int, c.suggested)
        } else {
            before
        }
    }
}

impl StateDiff {
    /// Creates the diff between two states. `deltas[i]` is the suggested
    /// minus the original value of dimension `i`, and `total_distance` the
    /// Euclidean distance between the states. A dimension is recorded when
    /// the absolute value of its difference is above [`TOLERANCE`].
    pub fn new(original: Vector, suggested: Vector, deltas: &Vector, total_distance: u64) -> (r:
        Self)
        requires
            suggested@.len() == original@.len(),
            deltas@.len() == original@.len(),
        ensures
            r.original@ == original@,
            r.suggested@ == suggested@,
            r.total_distance == total_distance,
            records(r.changes@, original@, suggested@, deltas@, original@.len() as int),
            forall|k: int| 0 <= k < r.changes@.len() ==> (#[trigger] r.changes@[k]).name is None,
    {
        let dim = original.dim();
        let mut changes: Vec<DimensionChange> = Vec::new();
        let mut i: usize = 0;
        while i < dim
            invariant
                dim == original@.len(),
                dim == suggested@.len(),
                dim == deltas@.len(),
                i <= dim,
                records(changes@, original@, suggested@, deltas@, i as int),
                forall|k: int| 0 <= k < changes@.len() ==> (#[trigger] changes@[k]).name is None,
            decreases dim - i,
        {
            let delta = deltas.get(i);
            if less(TOLERANCE, absolute(delta)) {
                changes.push(
                    DimensionChange {
                        dimension: i,
                        name: None,
                        original: original.get(i),
                        suggested: suggested.get(i),
                        delta,
                    },
                );
            }
            i += 1;
        }
        StateDiff { original, suggested, changes, total_distance }
    }

    /// Creates the diff between two states and names the changed
    /// dimensions: a change in dimension `d` takes `names[d]` when there is
    /// such a name.
    pub fn with_names(
        original: Vector,
        suggested: Vector,
        deltas: &Vector,
        total_distance: u64,
        names: &Vec<String>,
    ) -> (r: Self)
        requires
            suggested@.len() == original@.len(),
            deltas@.len() == original@.len(),
        ensures
            r.original@ == original@,
            r.suggested@ == suggested@,
            r.total_distance == total_distance,
            records(r.changes@, original@, suggested@, deltas@, original@.len() as int),
            forall|k: int|
                0 <= k < r.changes@.len() ==> (#[trigger] r.changes@[k]).name == if r.changes@[k].dimension
                    < names@.len() {
                    Some(names@[r.changes@[k].dimension as int])
                } else {
                    None::<String>
                },
    {
        let diff = Self::new(original, suggested, deltas, total_distance);
        let ghost plain = diff.changes@;
        let n = diff.changes.len();
        let mut named: Vec<DimensionChange> = Vec::new();
        let mut k: usize = 0;
        while k < n
            invariant
                n == diff.changes@.len(),
                plain == diff.changes@,
                forall|j: int| 0 <= j < n ==> (#[trigger] plain[j]).name is None,
                k <= n,
                named@.len() == k,
                forall|j: int|
                    0 <= j < k ==> {
                        let c = #[trigger] named@[j];
                        &&& c.dimension == plain[j].dimension
                        &&& c.original == plain[j].original
                        &&& c.suggested == plain[j].suggested
                        &&& c.delta == plain[j].delta
                        &&& c.name == if c.dimension < names@.len() {
                            Some(names@[c.dimension as int])
                        } else {
                            None::<String>
                        }
                    },
            decreases n - k,
        {
            let c = &diff.changes[k];
            let name = if c.dimension < names.len() {
                Some(names[c.dimension].clone())
            } else {
                None
            };
            named.push(
                DimensionChange {
                    dimension: c.dimension,
                    name,
                    original: c.original,
                    suggested: c.suggested,
                    delta: c.delta,
                },
            );
            k += 1;
        }
        StateDiff {
            original: diff.original,
            suggested: diff.suggested,
            changes: named,
            total_distance: diff.total_distance,
        }
    }

    /// Whether any dimension changed.
    pub fn has_changes(&self) -> (r: bool)
        ensures
            r == (self.changes@.len() > 0),
    {
        self.changes.len() > 0
    }

    /// The number of dimensions that changed.
    pub fn num_changes(&self) -> (r: usize)
        ensures
            r == self.changes@.len(),
    {
        self.changes.len()
    }

    /// Applies the diff to a state: each recorded dimension takes its
    /// suggested value.
    pub fn apply_to(&self, state: &Vector) -> (r: Vector)
        ensures
            r@ == applied(state@, self.changes@, self.changes@.len() as int),
    {
        let mut out = state.copy();
        let n = self.changes.len();
        let mut k: usize = 0;
        while k < n
            invariant
                n == self.changes@.len(),
                k <= n,
                out@ == applied(state@, self.changes@, k as int),
            decreases n - k,
        {
            let c = &self.changes[k];
            if c.dimension < out.dim() {
                out.set(c.dimension, c.suggested);
            }
            k += 1;
        }
        out
    }
}

/// Diff monotonicity: applying the diff of two states to the original
/// gives the suggested state in every dimension that the diff records, and
/// leaves the others as they were.
pub proof fn lemma_apply_reconstructs(
    changes: Seq<DimensionChange>,
    original: Seq<u64>,
    suggested: Seq<u64>,
    deltas: Seq<u64>,
    n: int,
    m: int,
)
    requires
        0 <= n <= original.len(),
        suggested.len() == original.len(),
        deltas.len() == original.len(),
        records(changes, original, suggested, deltas, n),
        0 <= m <= changes.len(),
    ensures
        applied(original, changes, m).len() == original.len(),
        forall|i: int|
            0 <= i < original.len() ==> #[trigger] applied(original, changes, m)[i] == if exists|k: int|
                0 <= k < m && changes[k].dimension == i {
                suggested[i]
            } else {
                original[i]
            },
    decreases m,
{
    if m > 0 {
        lemma_apply_reconstructs(changes, original, suggested, deltas, n, m - 1);
        lemma_changed_dimensions_in_range(deltas, n);
        let before = applied(original, changes, m - 1);
        let c = changes[m - 1];
        let now = applied(original, changes, m);
        assert(c.suggested == suggested[c.dimension as int]);
        assert forall|i: int| 0 <= i < original.len() implies #[trigger] now[i] == if exists|k: int|
            0 <= k < m && changes[k].dimension == i {
            suggested[i]
        } else {
            original[i]
        } by {
            if c.dimension == i {
                assert(changes[m - 1].dimension == i);
            } else if exists|k: int| 0 <= k < m - 1 && changes[k].dimension == i {
                let k = choose|k: int| 0 <= k < m - 1 && changes[k].dimension == i;
                assert(0 <= k < m && changes[k].dimension == i);
            } else {
                assert(!(exists|k: int| 0 <= k < m && changes[k].dimension == i));
            }
        }
    }
}

/// What the opening sentence of a summary says.
#[derive(Clone, Copy, Debug, PartialEq, Eq, Structural)]
pub enum SummaryKind {
    /// Nothing changed.
    NoChange,
    /// One dimension moved.
    Moved {
        /// Whether it moved upwards: its difference is above zero.
        upwards: bool,
    },
    /// Several dimensions were adjusted.
    Adjusted {
        /// How many.
        count: usize,
    },
}

/// Tells what the opening sentence of the summary of a diff says: that
/// nothing changed, that one dimension moved and which way, or how many
/// dimensions were adjusted.
pub fn summary_kind(diff: &StateDiff) -> (r: SummaryKind)
    ensures
        r == if diff.changes@.len() == 0 {
            SummaryKind::NoChange
        } else if diff.changes@.len() == 1 {
            SummaryKind::Moved { upwards: lt(ZERO, diff.changes@[0].delta) }
        } else {
            SummaryKind::Adjusted { count: diff.changes@.len() as usize }
        },
{
    let count = diff.changes.len();
    if count == 0 {
        SummaryKind::NoChange
    } else if count == 1 {
        SummaryKind::Moved { upwards: less(ZERO, diff.changes[0].delta) }
    } else {
        SummaryKind::Adjusted { count }
    }
}

/// The closing sentence of a summary, by violation state.
pub fn summary_quality(fg_state: FGState) -> (r: &'static str)
    ensures
        r@ == match fg_state {
            FGState::Valid => "Now fully valid."@,
            FGState::Slack { margin } => if lt(HALF, margin) {
                "Now valid with good margin."@
            } else {
                "Now valid but near boundary."@
            },
            FGState::Exact => "Now exactly on boundary."@,
            FGState::Finfr { .. } => "Still in violation (relaxed suggestion)."@,
        },
{
    match fg_state {
        FGState::Valid => "Now fully valid.",
        FGState::Slack { margin } => {
            if less(HALF, margin) {
                "Now valid with good margin."
            } else {
                "Now valid but near boundary."
            }
        },
        FGState::Exact => "Now exactly on boundary.",
        FGState::Finfr { .. } => "Still in violation (relaxed suggestion).",
    }
}

/// How a point stands to a constraint, given its signed distance: on the
/// boundary when the absolute distance is below [`TOLERANCE`], satisfied
/// when the distance is negative, violated otherwise.
pub fn constraint_status(distance: u64) -> (r: ConstraintStatus)
    ensures
        r == if lt(cleared(distance), TOLERANCE) {
            ConstraintStatus::OnBoundary
        } else if lt(distance, ZERO) {
            ConstraintStatus::Satisfied
        } else {
            ConstraintStatus::Violated
        },
{
    if less(absolute(distance), TOLERANCE) {
        ConstraintStatus::OnBoundary
    } else if less(distance, ZERO) {
        ConstraintStatus::Satisfied
    } else {
        ConstraintStatus::Violated
    }
}

impl Explanation {
    /// Creates an explanation from its parts.
    pub fn new(
        diff: StateDiff,
        summary: String,
        constraint_reasons: Vec<String>,
        fg_state: FGState,
    ) -> (r: Self)
        ensures
            r.diff == diff,
            r.summary == summary,
            r.constraint_reasons == constraint_reasons,
            r.fg_state == fg_state,
    {
        Explanation { diff, summary, constraint_reasons, fg_state }
    }

    /// Creates an explanation without constraint analysis.
    pub fn simple(diff: StateDiff, summary: String, fg_state: FGState) -> (r: Self)
        ensures
            r.diff == diff,
            r.summary == summary,
            r.constraint_reasons@.len() == 0,
            r.fg_state == fg_state,
    {
        Explanation { diff, summary, constraint_reasons: Vec::new(), fg_state }
    }
}

} // verus!
