//! The suggestion engine: its entry point, its responses and its decisions.
//!
//! [`suggest`] runs the whole pipeline. What it needs of rounding
//! arithmetic (whether a point satisfies a constraint, a projection, the
//! measures of a state) it takes as functions, and it states what holds of
//! the response whatever those functions return.

use vstd::prelude::*;
use crate::candidates::{capped, filter_and_rank, local_search, quota, search_stream, shell_rows};
use crate::constants::MAX_CANDIDATES;
use crate::projection::dykstra::DykstraResult;
use crate::projection::relaxation::{convex_positions, marks_convex};
use crate::rank::{
    is_ranking, kept_count, lemma_kept_count_bounded, picked, ranked, ranking, rows,
};
use crate::verify::{clock_now, micros_since};
use crate::constants::TOLERANCE;
use crate::constraints::{all_are_convex, all_convex, Constraint};
use crate::linalg::Vector;
use crate::primitives::FGState;
use crate::scalar::{lt, less, HALF, ONE, ZERO};

verus! {

/// Quality level of a response.
#[derive(Clone, Copy, Debug, PartialEq, Eq, Structural)]
pub enum SuggestionQuality {
    /// The intent was honoured, or the intended state was valid as it was.
    Exact,
    /// Part of the intent was preserved.
    Near,
    /// Only the convex relaxation was usable.
    Relaxed,
}

/// A proposed state.
#[derive(Clone, Debug)]
pub struct Suggestion {
    /// The suggested state.
    pub state: Vector,
    /// How the violation compares with the effort.
    pub fg_state: FGState,
    /// How much of the intent was preserved, from 0 to 1.
    pub intent_preserved: u64,
    /// Human-readable explanation.
    pub explanation: String,
}

/// Statistics of one search.
#[derive(Clone, Copy, Debug, PartialEq, Eq, Structural)]
pub struct SearchStats {
    /// Number of candidates generated.
    pub candidates_generated: usize,
    /// Number of candidates that passed verification.
    pub candidates_verified: usize,
    /// Number of sweeps used in projection.
    pub iterations_used: usize,
    /// Time elapsed in microseconds.
    pub elapsed_us: u64,
}

impl Default for SearchStats {
    fn default() -> (r: Self)
        ensures
            r.candidates_generated == 0,
            r.candidates_verified == 0,
            r.iterations_used == 0,
            r.elapsed_us == 0,
    {
        SearchStats {
            candidates_generated: 0,
            candidates_verified: 0,
            iterations_used: 0,
            elapsed_us: 0,
        }
    }
}

/// A complete response: ranked suggestions, their quality, and statistics.
#[derive(Clone, Debug)]
pub struct AidAResponse {
    /// The suggestions, best first.
    pub suggestions: Vec<Suggestion>,
    /// Overall quality of the response.
    pub quality: SuggestionQuality,
    /// Statistics of the search.
    pub search_stats: SearchStats,
}

impl AidAResponse {
    /// Creates a response of exact quality.
    pub fn exact(suggestions: Vec<Suggestion>, stats: SearchStats) -> (r: Self)
        ensures
            r.suggestions == suggestions,
            r.quality == SuggestionQuality::Exact,
            r.search_stats == stats,
    {
        AidAResponse { suggestions, quality: SuggestionQuality::Exact, search_stats: stats }
    }

    /// Creates a response of near quality.
    pub fn near(suggestions: Vec<Suggestion>, stats: SearchStats) -> (r: Self)
        ensures
            r.suggestions == suggestions,
            r.quality == SuggestionQuality::Near,
            r.search_stats == stats,
    {
        AidAResponse { suggestions, quality: SuggestionQuality::Near, search_stats: stats }
    }

    /// Creates a response of relaxed quality.
    pub fn relaxed(suggestions: Vec<Suggestion>, stats: SearchStats) -> (r: Self)
        ensures
            r.suggestions == suggestions,
            r.quality == SuggestionQuality::Relaxed,
            r.search_stats == stats,
    {
        AidAResponse { suggestions, quality: SuggestionQuality::Relaxed, search_stats: stats }
    }

    /// The best suggestion: the first, if there is any.
    pub fn best(&self) -> (r: Option<&Suggestion>)
        ensures
            self.suggestions@.len() == 0 ==> r is None,
            self.suggestions@.len() > 0 ==> r == Some(&self.suggestions@[0]),
    {
        if self.suggestions.len() == 0 {
            None
        } else {
            Some(&self.suggestions[0])
        }
    }

    /// Whether the response holds any suggestion.
    pub fn has_suggestions(&self) -> (r: bool)
        ensures
            r == (self.suggestions@.len() > 0),
    {
        self.suggestions.len() > 0
    }

    /// The phrase that introduces the suggestions, by quality.
    pub fn ui_prefix(&self) -> (r: &'static str)
        ensures
            r@ == match self.quality {
                SuggestionQuality::Exact => "You can:"@,
                SuggestionQuality::Near => "Try instead:"@,
                SuggestionQuality::Relaxed => "Closest safe option:"@,
            },
    {
        match self.quality {
            SuggestionQuality::Exact => "You can:",
            SuggestionQuality::Near => "Try instead:",
            SuggestionQuality::Relaxed => "Closest safe option:",
        }
    }
}

/// Bits of `0.9`: above it the intent counts as honoured.
pub const NINE_TENTHS: u64 = 0x3FEC_CCCC_CCCC_CCCD;

/// Largest number of suggestions in one response.
pub const MAX_SUGGESTIONS: usize = 5;

/// Which path a call takes.
#[derive(Clone, Copy, Debug, PartialEq, Eq, Structural)]
pub enum SuggestRoute {
    /// The intended state is valid as it is.
    Valid,
    /// All constraints are convex: cyclic projection.
    Convex,
    /// Some constraint is nonconvex: candidate search around the
    /// projection onto the convex ones.
    Nonconvex,
}

/// The quality that a preservation score earns: exact above nine tenths
/// when the state is no violation, near above one half, relaxed otherwise.
pub open spec fn quality_of(valid: bool, preserved: u64) -> SuggestionQuality {
    if valid && lt(NINE_TENTHS, preserved) {
        SuggestionQuality::Exact
    } else if lt(HALF, preserved) {
        SuggestionQuality::Near
    } else {
        SuggestionQuality::Relaxed
    }
}

/// The quality label for a preservation score.
pub fn quality_for(valid: bool, preserved: u64) -> (r: SuggestionQuality)
    ensures
        r == quality_of(valid, preserved),
{
    if valid && less(NINE_TENTHS, preserved) {
        SuggestionQuality::Exact
    } else if less(HALF, preserved) {
        SuggestionQuality::Near
    } else {
        SuggestionQuality::Relaxed
    }
}

/// Routes a call: with no constraint, or when the intended state satisfies
/// every constraint, it is valid; otherwise the constraint list decides
/// between the convex and the nonconvex path.
pub fn route<C: Constraint>(constraints: &Vec<C>, intended_valid: bool) -> (r: SuggestRoute)
    ensures
        r == if constraints@.len() == 0 || intended_valid {
            SuggestRoute::Valid
        } else if all_are_convex(constraints@) {
            SuggestRoute::Convex
        } else {
            SuggestRoute::Nonconvex
        },
{
    if constraints.len() == 0 || intended_valid {
        SuggestRoute::Valid
    } else if all_convex(constraints) {
        SuggestRoute::Convex
    } else {
        SuggestRoute::Nonconvex
    }
}

/// The response to an intended state that is valid: one exact suggestion
/// at that state, with the intent fully preserved.
pub fn suggest_valid(intended: Vector, elapsed_us: u64) -> (r: AidAResponse)
    ensures
        r.quality == SuggestionQuality::Exact,
        r.suggestions@.len() == 1,
        r.suggestions@[0].state@ == intended@,
        r.suggestions@[0].fg_state == FGState::Valid,
        r.suggestions@[0].intent_preserved == ONE,
        r.suggestions@[0].explanation@ == "Intended position is valid."@,
        r.search_stats == (SearchStats {
            candidates_generated: 0,
            candidates_verified: 0,
            iterations_used: 0,
            elapsed_us,
        }),
{
    let suggestion = Suggestion {
        state: intended,
        fg_state: FGState::Valid,
        intent_preserved: ONE,
        explanation: "Intended position is valid.".to_owned(),
    };
    let mut suggestions: Vec<Suggestion> = Vec::new();
    suggestions.push(suggestion);
    AidAResponse::exact(
        suggestions,
        SearchStats {
            candidates_generated: 0,
            candidates_verified: 0,
            iterations_used: 0,
            elapsed_us,
        },
    )
}

/// The explanation of the convex answer: a fixed sentence when the
/// projection is within the tolerance of the intended state, and else the
/// sentence that tells how far it moved.
pub open spec fn convex_explanation(violation: u64, moved_text: Seq<char>) -> Seq<char> {
    if lt(violation, TOLERANCE) {
        "Position adjusted to satisfy constraints."@
    } else {
        moved_text
    }
}

/// The response on the convex path: one suggestion at the projection of
/// the intended state, labelled by its violation state and by how much of
/// the intent it preserves. `violation` is the distance between the
/// intended state and its projection, and `moved_text` the sentence that
/// tells that distance; `iterations` is the number of sweeps that the
/// projection took.
pub fn suggest_convex(
    projected: Vector,
    violation: u64,
    fg_state: FGState,
    intent_preserved: u64,
    moved_text: String,
    iterations: usize,
    elapsed_us: u64,
) -> (r: AidAResponse)
    ensures
        r.quality == quality_of(!(fg_state is Finfr), intent_preserved),
        r.suggestions@.len() == 1,
        r.suggestions@[0].state@ == projected@,
        r.suggestions@[0].fg_state == fg_state,
        r.suggestions@[0].intent_preserved == intent_preserved,
        r.suggestions@[0].explanation@ == convex_explanation(violation, moved_text@),
        r.search_stats == (SearchStats {
            candidates_generated: 0,
            candidates_verified: 1,
            iterations_used: iterations,
            elapsed_us,
        }),
{
    let quality = quality_for(fg_state.is_valid(), intent_preserved);
    let explanation = if less(violation, TOLERANCE) {
        "Position adjusted to satisfy constraints.".to_owned()
    } else {
        moved_text
    };
    let mut suggestions: Vec<Suggestion> = Vec::new();
    suggestions.push(Suggestion { state: projected, fg_state, intent_preserved, explanation });
    AidAResponse {
        suggestions,
        quality,
        search_stats: SearchStats {
            candidates_generated: 0,
            candidates_verified: 1,
            iterations_used: iterations,
            elapsed_us,
        },
    }
}

/// The candidates of the nonconvex search: the centre itself, then the
/// local search around it with the quota that the centre leaves. `shells`
/// holds the points on the spheres around the centre, innermost first.
pub fn search_candidates(center: &Vector, shells: &Vec<Vec<Vector>>) -> (r: Vec<Vector>)
    ensures
        rows(r@) == seq![center@] + capped(
            search_stream(shell_rows(shells@), None, shells@.len() as int),
            quota(1),
        ),
{
    let mut candidates: Vec<Vector> = Vec::new();
    candidates.push(center.copy());
    let local = local_search(shells, None, candidates.len());
    let ghost found = rows(local@);
    let n = local.len();
    let mut i: usize = 0;
    assert(rows(candidates@) =~= seq![center@] + found.take(0));
    while i < n
        invariant
            n == local@.len(),
            found == rows(local@),
            i <= n,
            rows(candidates@) == seq![center@] + found.take(i as int),
        decreases n - i,
    {
        let ghost before = rows(candidates@);
        candidates.push(local[i].copy());
        assert(rows(candidates@) =~= before.push(local@[i as int]@));
        assert(seq![center@] + found.take(i + 1) =~= (seq![center@] + found.take(i as int)).push(
            found[i as int],
        ));
        i += 1;
    }
    assert(found.take(n as int) =~= found);
    candidates
}

/// The preservation score of the best suggestion, zero without one.
pub open spec fn best_preserved(suggestions: Seq<Suggestion>) -> u64 {
    if suggestions.len() > 0 {
        suggestions[0].intent_preserved
    } else {
        ZERO
    }
}

/// The response on the nonconvex path. `generated` candidates were
/// generated and `valid` of them satisfy every constraint; `top` holds the
/// suggestions made from the valid candidates, best first. With no valid
/// candidate the response is relaxed and falls back on the projection onto
/// the convex constraints, `center`, with its own state and score.
/// Otherwise the best [`MAX_SUGGESTIONS`] suggestions are returned, labelled
/// by the score of the best. `iterations` is the number of sweeps that the
/// projection onto the convex constraints took.
pub fn suggest_nonconvex(
    center: Vector,
    center_state: FGState,
    center_preserved: u64,
    top: Vec<Suggestion>,
    generated: usize,
    valid: usize,
    iterations: usize,
    elapsed_us: u64,
) -> (r: AidAResponse)
    ensures
        r.search_stats == (SearchStats {
            candidates_generated: generated,
            candidates_verified: valid,
            iterations_used: iterations,
            elapsed_us,
        }),
        valid == 0 ==> {
            &&& r.quality == SuggestionQuality::Relaxed
            &&& r.suggestions@.len() == 1
            &&& r.suggestions@[0].state@ == center@
            &&& r.suggestions@[0].fg_state == center_state
            &&& r.suggestions@[0].intent_preserved == center_preserved
            &&& r.suggestions@[0].explanation@
                == "No exact match found. Showing convex relaxation."@
        },
        valid > 0 ==> {
            &&& r.suggestions@ == capped(top@, MAX_SUGGESTIONS as int)
            &&& r.quality == quality_of(true, best_preserved(top@))
        },
        r.suggestions@.len() <= MAX_SUGGESTIONS,
        valid == 0 || top@.len() > 0 ==> r.suggestions@.len() >= 1,
{
    let search_stats = SearchStats {
        candidates_generated: generated,
        candidates_verified: valid,
        iterations_used: iterations,
        elapsed_us,
    };
    if valid == 0 {
        let mut suggestions: Vec<Suggestion> = Vec::new();
        suggestions.push(
            Suggestion {
                state: center,
                fg_state: center_state,
                intent_preserved: center_preserved,
                explanation: "No exact match found. Showing convex relaxation.".to_owned(),
            },
        );
        return AidAResponse::relaxed(suggestions, search_stats);
    }
    let mut suggestions = top;
    let best = if suggestions.len() > 0 {
        suggestions[0].intent_preserved
    } else {
        ZERO
    };
    if suggestions.len() > MAX_SUGGESTIONS {
        suggestions.truncate(MAX_SUGGESTIONS);
    }
    AidAResponse { suggestions, quality: quality_for(true, best), search_stats }
}

/// What the arithmetic tells of one state.
#[derive(Clone, Debug)]
pub struct Assessment {
    /// Distance between the intended state and the state.
    pub violation: u64,
    /// How the violation compares with the effort.
    pub fg_state: FGState,
    /// How much of the intent the state preserves, from 0 to 1.
    pub intent_preserved: u64,
    /// The sentence that tells how far the state lies from the intended
    /// one.
    pub moved_text: String,
    /// The sentence that tells how much of the intent the state preserves.
    pub preserved_text: String,
}

/// Whether each of the `constraints` constraints answered that `point`
/// satisfies it.
pub open spec fn accepts<V: Fn(usize, &Vector) -> bool>(
    satisfied: V,
    constraints: nat,
    point: Vector,
) -> bool {
    forall|i: usize| i < constraints ==> #[trigger] satisfied.ensures((i, &point), true)
}

/// Whether one of the `constraints` constraints answered that `point` does
/// not satisfy it.
pub open spec fn rejects<V: Fn(usize, &Vector) -> bool>(
    satisfied: V,
    constraints: nat,
    point: Vector,
) -> bool {
    exists|i: usize| i < constraints && #[trigger] satisfied.ensures((i, &point), false)
}

/// Whether a point with the components of `state` was accepted by every
/// constraint.
pub open spec fn accepted<V: Fn(usize, &Vector) -> bool>(
    satisfied: V,
    constraints: nat,
    state: Seq<u64>,
) -> bool {
    exists|point: Vector| #[trigger] accepts(satisfied, constraints, point) && point@ == state
}

/// Whether the state, the violation state and the score of a suggestion
/// are what `assess` returned for a state with the same components.
pub open spec fn assessed<A: Fn(&Vector) -> Assessment>(assess: A, suggestion: Suggestion) -> bool {
    exists|state: Vector, found: Assessment| #[trigger]
        assess.ensures((&state,), found) && state@ == suggestion.state@ && found.fg_state
            == suggestion.fg_state && found.intent_preserved == suggestion.intent_preserved
}

/// Whether `project` returned a point with the components of `state`,
/// after `iterations` sweeps, for the point `from` and the positions of the
/// convex constraints.
pub open spec fn projected_from<C: Constraint, P: Fn(&Vec<usize>, &Vector) -> DykstraResult>(
    project: P,
    constraints: Seq<C>,
    from: Vector,
    state: Seq<u64>,
    iterations: usize,
) -> bool {
    exists|positions: Vec<usize>, out: DykstraResult| #[trigger]
        project.ensures((&positions, &from), out) && marks_convex(positions@, constraints)
            && out.point@ == state && out.iterations == iterations
}

/// The states of a list of suggestions, each by its components.
pub open spec fn states(suggestions: Seq<Suggestion>) -> Seq<Seq<u64>> {
    Seq::new(suggestions.len(), |k: int| suggestions[k].state@)
}

/// Whether `candidates`, `flags` and `distances` are the candidates of the
/// search around `center`, what the constraints answered for each, and the
/// distance of each: the candidates are the centre and then the local
/// search over the shells `around` that `shells` returned for the centre;
/// a candidate is flagged exactly when every constraint accepted it; and
/// each distance is what `distance` returned for its candidate.
pub open spec fn searched<
    V: Fn(usize, &Vector) -> bool,
    S: Fn(&Vector) -> Vec<Vec<Vector>>,
    D: Fn(&Vector) -> u64,
>(
    satisfied: V,
    shells: S,
    distance: D,
    constraints: nat,
    center: Vector,
    around: Vec<Vec<Vector>>,
    candidates: Vec<Vector>,
    flags: Seq<bool>,
    distances: Seq<u64>,
) -> bool {
    &&& shells.ensures((&center,), around)
    &&& rows(candidates@) == seq![center@] + capped(
        search_stream(shell_rows(around@), None, around@.len() as int),
        quota(1),
    )
    &&& flags.len() == candidates@.len()
    &&& distances.len() == candidates@.len()
    &&& forall|x: int|
        0 <= x < candidates@.len() ==> {
            let c = #[trigger] candidates@[x];
            &&& flags[x] ==> accepts(satisfied, constraints, c)
            &&& !flags[x] ==> rejects(satisfied, constraints, c)
            &&& distance.ensures((&c,), distances[x])
        }
}

/// Whether the response `r` is the outcome of the candidate search for
/// `intended`: the centre is what `project` returned for the convex
/// constraints, the candidates are searched around it as [`searched`] tells,
/// the statistics count the candidates generated and those that every
/// constraint accepted, and the suggestions are the accepted candidates,
/// nearest first with ties broken lexicographically, the best
/// [`MAX_SUGGESTIONS`] of them; without an accepted candidate the one
/// suggestion is the centre.
pub open spec fn found_by_search<
    C: Constraint,
    V: Fn(usize, &Vector) -> bool,
    P: Fn(&Vec<usize>, &Vector) -> DykstraResult,
    S: Fn(&Vector) -> Vec<Vec<Vector>>,
    D: Fn(&Vector) -> u64,
>(
    satisfied: V,
    project: P,
    shells: S,
    distance: D,
    constraints: Seq<C>,
    intended: Vector,
    r: AidAResponse,
    positions: Vec<usize>,
    out: DykstraResult,
    around: Vec<Vec<Vector>>,
    candidates: Vec<Vector>,
    flags: Seq<bool>,
    distances: Seq<u64>,
) -> bool {
    &&& marks_convex(positions@, constraints)
    &&& project.ensures((&positions, &intended), out)
    &&& r.search_stats.iterations_used == out.iterations
    &&& searched(
        satisfied,
        shells,
        distance,
        constraints.len(),
        out.point,
        around,
        candidates,
        flags,
        distances,
    )
    &&& r.search_stats.candidates_generated == candidates@.len()
    &&& r.search_stats.candidates_verified == kept_count(flags, candidates@.len() as int)
    &&& states(r.suggestions@) == if r.search_stats.candidates_verified == 0 {
        seq![out.point@]
    } else {
        capped(ranked(flags, distances, rows(candidates@)), MAX_SUGGESTIONS as int)
    }
}

fn accepts_all<V: Fn(usize, &Vector) -> bool>(satisfied: &V, constraints: usize, point: &Vector) -> (r:
    bool)
    requires
        forall|i: usize, p: &Vector| i < constraints ==> #[trigger] satisfied.requires((i, p)),
    ensures
        r ==> accepts(*satisfied, constraints as nat, *point),
        !r ==> rejects(*satisfied, constraints as nat, *point),
{
    let mut i: usize = 0;
    while i < constraints
        invariant
            i <= constraints,
            forall|i: usize, p: &Vector| i < constraints ==> #[trigger] satisfied.requires((i, p)),
            forall|k: usize| k < i ==> #[trigger] satisfied.ensures((k, point), true),
        decreases constraints - i,
    {
        if !satisfied(i, point) {
            return false;
        }
        i += 1;
    }
    true
}

/// The main entry point: ranked suggestions for valid next states.
///
/// `intended` is the current state moved by the attempted change. The
/// arithmetic is the caller's: `satisfied` answers whether a constraint,
/// given by its position, is satisfied by a point; `project` projects a
/// point onto the intersection of the constraints at the given positions,
/// which are the positions of the convex constraints, ascending, and
/// reports the sweeps that it took;
/// `assess` measures a state against the intent; `shells` lists the points
/// on the search shells around a centre, innermost shell first; `distance`
/// is the distance of a state to the intended one.
///
/// With no constraint, or when the intended state satisfies every
/// constraint, the response is that state, exact. With convex constraints
/// only it is the projection of the intended state onto them. Otherwise the
/// candidates around the projection onto the convex constraints are
/// searched, and the best of those that every constraint accepts are
/// returned; when there is none, the response falls back on that
/// projection. In every case the response holds a suggestion.
pub fn suggest<C, V, P, A, S, D>(
    intended: Vector,
    constraints: &Vec<C>,
    satisfied: V,
    project: P,
    assess: A,
    shells: S,
    distance: D,
) -> (r: AidAResponse) where
    C: Constraint,
    V: Fn(usize, &Vector) -> bool,
    P: Fn(&Vec<usize>, &Vector) -> DykstraResult,
    A: Fn(&Vector) -> Assessment,
    S: Fn(&Vector) -> Vec<Vec<Vector>>,
    D: Fn(&Vector) -> u64,

    requires
        forall|i: usize, p: &Vector| i < constraints@.len() ==> #[trigger] satisfied.requires((i, p)),
        forall|c: &Vec<usize>, p: &Vector|
            marks_convex(c@, constraints@) ==> #[trigger] project.requires((c, p)),
        forall|p: &Vector| #[trigger] assess.requires((p,)),
        forall|p: &Vector| #[trigger] shells.requires((p,)),
        forall|p: &Vector| #[trigger] distance.requires((p,)),
    ensures
        1 <= r.suggestions@.len() <= MAX_SUGGESTIONS,
        r.search_stats.candidates_generated <= MAX_CANDIDATES,
        constraints@.len() == 0 || !rejects(satisfied, constraints@.len(), intended)
            ==> r.search_stats.candidates_generated == 0 && r.search_stats.candidates_verified
            == 0,
        r.search_stats.candidates_generated == 0 && r.search_stats.candidates_verified == 0 ==> {
            &&& constraints@.len() == 0 || accepts(satisfied, constraints@.len(), intended)
            &&& r.quality == SuggestionQuality::Exact
            &&& r.suggestions@.len() == 1
            &&& r.suggestions@[0].state@ == intended@
            &&& r.suggestions@[0].fg_state == FGState::Valid
            &&& r.suggestions@[0].intent_preserved == ONE
            &&& r.suggestions@[0].explanation@ == "Intended position is valid."@
            &&& r.search_stats.iterations_used == 0
        },
        r.search_stats.candidates_generated == 0 && r.search_stats.candidates_verified != 0 ==> {
            &&& all_are_convex(constraints@)
            &&& rejects(satisfied, constraints@.len(), intended)
            &&& r.search_stats.candidates_verified == 1
            &&& r.suggestions@.len() == 1
            &&& projected_from(
                project,
                constraints@,
                intended,
                r.suggestions@[0].state@,
                r.search_stats.iterations_used,
            )
            &&& assessed(assess, r.suggestions@[0])
            &&& r.quality == quality_of(
                !(r.suggestions@[0].fg_state is Finfr),
                r.suggestions@[0].intent_preserved,
            )
        },
        r.search_stats.candidates_generated > 0 ==> {
            &&& !all_are_convex(constraints@)
            &&& rejects(satisfied, constraints@.len(), intended)
            &&& exists|
                positions: Vec<usize>,
                out: DykstraResult,
                around: Vec<Vec<Vector>>,
                candidates: Vec<Vector>,
                flags: Seq<bool>,
                distances: Seq<u64>,
            | #[trigger]
                found_by_search(
                    satisfied,
                    project,
                    shells,
                    distance,
                    constraints@,
                    intended,
                    r,
                    positions,
                    out,
                    around,
                    candidates,
                    flags,
                    distances,
                )
            &&& r.search_stats.candidates_verified <= r.search_stats.candidates_generated
            &&& r.search_stats.candidates_verified == 0 ==> {
                &&& r.quality == SuggestionQuality::Relaxed
                &&& r.suggestions@.len() == 1
                &&& r.suggestions@[0].explanation@
                    == "No exact match found. Showing convex relaxation."@
                &&& assessed(assess, r.suggestions@[0])
            }
            &&& r.search_stats.candidates_verified > 0 ==> {
                &&& r.suggestions@.len() == if r.search_stats.candidates_verified
                    < MAX_SUGGESTIONS {
                    r.search_stats.candidates_verified
                } else {
                    MAX_SUGGESTIONS
                }
                &&& r.quality == quality_of(true, r.suggestions@[0].intent_preserved)
                &&& forall|k: int|
                    0 <= k < r.suggestions@.len() ==> accepted(
                        satisfied,
                        constraints@.len(),
                        (#[trigger] r.suggestions@[k]).state@,
                    ) && assessed(assess, r.suggestions@[k])
            }
        },
{
    let start = clock_now();
    let m = constraints.len();
    let intended_valid = accepts_all(&satisfied, m, &intended);
    match route(constraints, intended_valid) {
        SuggestRoute::Valid => suggest_valid(intended, micros_since(&start)),
        SuggestRoute::Convex => {
            let positions = convex_positions(constraints);
            let projection = project(&positions, &intended);
            let found = assess(&projection.point);
            suggest_convex(
                projection.point,
                found.violation,
                found.fg_state,
                found.intent_preserved,
                found.moved_text,
                projection.iterations,
                micros_since(&start),
            )
        },
        SuggestRoute::Nonconvex => {
            let positions = convex_positions(constraints);
            let projection = project(&positions, &intended);
            let ghost out = projection;
            let sweeps = projection.iterations;
            let center = projection.point;
            let around = shells(&center);
            let candidates = search_candidates(&center, &around);
            let n = candidates.len();
            assert(rows(candidates@).len() == n);
            let mut flags: Vec<bool> = Vec::new();
            let mut distances: Vec<u64> = Vec::new();
            let mut j: usize = 0;
            while j < n
                invariant
                    n == candidates@.len(),
                    j <= n,
                    flags@.len() == j,
                    distances@.len() == j,
                    forall|i: usize, p: &Vector| i < m ==> #[trigger] satisfied.requires((i, p)),
                    forall|p: &Vector| #[trigger] distance.requires((p,)),
                    forall|x: int|
                        0 <= x < j ==> {
                            let c = #[trigger] candidates@[x];
                            &&& flags@[x] ==> accepts(satisfied, m as nat, c)
                            &&& !flags@[x] ==> rejects(satisfied, m as nat, c)
                            &&& distance.ensures((&c,), distances@[x])
                        },
                decreases n - j,
            {
                flags.push(accepts_all(&satisfied, m, &candidates[j]));
                distances.push(distance(&candidates[j]));
                j += 1;
            }
            let valid = filter_and_rank(&candidates, &flags, &distances);
            let fallback = assess(&center);
            let count = valid.len();
            let ghost order = ranking(flags@, distances@, rows(candidates@));
            proof {
                lemma_kept_count_bounded(flags@, n as int);
                assert(rows(valid@).len() == count);
                assert(order.len() == count);
            }
            let mut top: Vec<Suggestion> = Vec::new();
            let mut k: usize = 0;
            while k < count && k < MAX_SUGGESTIONS
                invariant
                    count == valid@.len(),
                    n == candidates@.len(),
                    flags@.len() == n,
                    order.len() == count,
                    k <= count,
                    k <= MAX_SUGGESTIONS,
                    top@.len() == k,
                    forall|p: &Vector| #[trigger] assess.requires((p,)),
                    rows(valid@) == picked(rows(candidates@), order),
                    is_ranking(order, flags@, distances@, rows(candidates@)),
                    forall|x: int|
                        0 <= x < n ==> (flags@[x] ==> accepts(
                            satisfied,
                            m as nat,
                            #[trigger] candidates@[x],
                        )),
                    forall|x: int|
                        0 <= x < k ==> accepted(satisfied, m as nat, (#[trigger] top@[x]).state@)
                            && assessed(assess, top@[x]) && top@[x].state@ == valid@[x]@,
                decreases count - k,
            {
                let found = assess(&valid[k]);
                let state = valid[k].copy();
                proof {
                    let source = order[k as int];
                    assert(0 <= source < n && flags@[source]);
                    assert(rows(valid@)[k as int] == picked(rows(candidates@), order)[k as int]);
                    assert(rows(valid@)[k as int] == rows(candidates@)[source]);
                    assert(accepts(satisfied, m as nat, candidates@[source]));
                    assert(candidates@[source]@ == state@);
                    assert(accepted(satisfied, m as nat, state@));
                }
                top.push(
                    Suggestion {
                        state,
                        fg_state: found.fg_state,
                        intent_preserved: found.intent_preserved,
                        explanation: found.preserved_text,
                    },
                );
                k += 1;
            }
            let ghost best = top@;
            let r = suggest_nonconvex(
                center,
                fallback.fg_state,
                fallback.intent_preserved,
                top,
                n,
                count,
                sweeps,
                micros_since(&start),
            );
            proof {
                let all = ranked(flags@, distances@, rows(candidates@));
                assert(all == rows(valid@));
                if count == 0 {
                    assert(states(r.suggestions@) =~= seq![out.point@]);
                } else {
                    assert(r.suggestions@ == best);
                    assert(states(r.suggestions@) =~= capped(all, MAX_SUGGESTIONS as int));
                }
                assert(searched(
                    satisfied,
                    shells,
                    distance,
                    m as nat,
                    out.point,
                    around,
                    candidates,
                    flags@,
                    distances@,
                ));
                assert(found_by_search(
                    satisfied,
                    project,
                    shells,
                    distance,
                    constraints@,
                    intended,
                    r,
                    positions,
                    out,
                    around,
                    candidates,
                    flags@,
                    distances@,
                ));
            }
            r
        },
    }
}

} // verus!
