use newton_core::aida::{
    quality_for, route, search_candidates, suggest, suggest_convex, suggest_nonconvex,
    suggest_valid, AidAResponse, Assessment, SearchStats, SuggestRoute, Suggestion,
    SuggestionQuality, MAX_SUGGESTIONS, NINE_TENTHS,
};
use newton_core::constraints::ConstraintProfile;
use newton_core::explain::{
    constraint_status, summary_kind, summary_quality, ConstraintStatus, DimensionChange,
    Explanation, StateDiff, SummaryKind,
};
use newton_core::text::{append_decimal, decimal};
use newton_core::intent::IntentVector;
use newton_core::linalg::Vector;
use newton_core::primitives::{Delta, FGState};
use newton_core::projection::dykstra::DykstraResult;
use newton_core::verify::{
    check_elapsed, compare_runs, cut_to_64_bits, verify_all_valid, verify_contract, verify_determinism,
    verify_diff_monotonicity, verify_termination, verify_validity, ContractHarness,
    ContractViolation,
};

fn v(xs: &[f64]) -> Vector {
    let bits: Vec<u64> = xs.iter().map(|x| x.to_bits()).collect();
    Vector::from_slice(&bits)
}

fn b(xs: &[f64]) -> Vec<u64> {
    xs.iter().map(|x| x.to_bits()).collect()
}

fn suggestion(x: f64, preserved: f64) -> Suggestion {
    Suggestion {
        state: v(&[x]),
        fg_state: FGState::Valid,
        intent_preserved: preserved.to_bits(),
        explanation: format!("at {x}"),
    }
}

fn stats(generated: usize, verified: usize, elapsed_us: u64) -> SearchStats {
    stats_with_sweeps(generated, verified, 0, elapsed_us)
}

fn stats_with_sweeps(
    generated: usize,
    verified: usize,
    iterations_used: usize,
    elapsed_us: u64,
) -> SearchStats {
    SearchStats {
        candidates_generated: generated,
        candidates_verified: verified,
        iterations_used,
        elapsed_us,
    }
}

#[test]
fn quality_thresholds() {
    assert_eq!(f64::from_bits(NINE_TENTHS), 0.9);
    assert_eq!(quality_for(true, 1.0f64.to_bits()), SuggestionQuality::Exact);
    assert_eq!(quality_for(true, 0.9000001f64.to_bits()), SuggestionQuality::Exact);
    assert_eq!(quality_for(true, 0.9f64.to_bits()), SuggestionQuality::Near);
    assert_eq!(quality_for(false, 1.0f64.to_bits()), SuggestionQuality::Near);
    assert_eq!(quality_for(true, 0.5000001f64.to_bits()), SuggestionQuality::Near);
    assert_eq!(quality_for(true, 0.5f64.to_bits()), SuggestionQuality::Relaxed);
    assert_eq!(quality_for(false, 0.0f64.to_bits()), SuggestionQuality::Relaxed);
    assert_eq!(quality_for(true, f64::NAN.to_bits()), SuggestionQuality::Relaxed);
}

#[test]
fn routing_by_validity_and_convexity() {
    let convex = vec![ConstraintProfile { convex: true, dim: 2 }; 2];
    let mixed = vec![
        ConstraintProfile { convex: true, dim: 2 },
        ConstraintProfile { convex: false, dim: 2 },
    ];
    let none: Vec<ConstraintProfile> = Vec::new();
    assert_eq!(route(&none, false), SuggestRoute::Valid);
    assert_eq!(route(&mixed, true), SuggestRoute::Valid);
    assert_eq!(route(&convex, false), SuggestRoute::Convex);
    assert_eq!(route(&mixed, false), SuggestRoute::Nonconvex);
}

#[test]
fn a_valid_intent_is_answered_exactly() {
    let r = suggest_valid(v(&[60.0, 50.0]), 17);
    assert_eq!(r.quality, SuggestionQuality::Exact);
    assert_eq!(r.suggestions.len(), 1);
    assert_eq!(r.suggestions[0].state, v(&[60.0, 50.0]));
    assert_eq!(r.suggestions[0].fg_state, FGState::Valid);
    assert_eq!(f64::from_bits(r.suggestions[0].intent_preserved), 1.0);
    assert_eq!(r.suggestions[0].explanation, "Intended position is valid.");
    assert_eq!(r.search_stats, stats(0, 0, 17));
    assert_eq!(r.ui_prefix(), "You can:");
    assert!(r.has_suggestions());
    assert_eq!(r.best().unwrap().state, v(&[60.0, 50.0]));
}

#[test]
fn the_convex_answer_is_labelled_by_state_and_preservation() {
    let slack = FGState::Slack { margin: 0.2f64.to_bits() };
    let r = suggest_convex(
        v(&[100.0, 50.0]),
        50.0f64.to_bits(),
        slack,
        0.95f64.to_bits(),
        "moved".to_string(),
        12,
        3,
    );
    assert_eq!(r.quality, SuggestionQuality::Exact);
    assert_eq!(r.suggestions.len(), 1);
    assert_eq!(r.suggestions[0].state, v(&[100.0, 50.0]));
    assert_eq!(r.suggestions[0].fg_state, slack);
    assert_eq!(f64::from_bits(r.suggestions[0].intent_preserved), 0.95);
    assert_eq!(r.suggestions[0].explanation, "moved");
    assert_eq!(r.search_stats, stats_with_sweeps(0, 1, 12, 3));
    let finfr = FGState::Finfr { excess: 0.5f64.to_bits() };
    let near = suggest_convex(v(&[1.0]), 9e-9f64.to_bits(), finfr, 0.95f64.to_bits(), String::new(), 1, 0);
    assert_eq!(near.suggestions[0].explanation, "Position adjusted to satisfy constraints.");
    assert_eq!(near.quality, SuggestionQuality::Near);
    assert_eq!(near.ui_prefix(), "Try instead:");
    let relaxed =
        suggest_convex(
            v(&[1.0]),
            1e-8f64.to_bits(),
            FGState::Exact,
            0.4f64.to_bits(),
            "far".to_string(),
            1,
            0,
        );
    assert_eq!(relaxed.suggestions[0].explanation, "far");
    assert_eq!(relaxed.quality, SuggestionQuality::Relaxed);
    assert_eq!(relaxed.ui_prefix(), "Closest safe option:");
}

#[test]
fn without_valid_candidates_the_answer_falls_back_on_the_centre() {
    let state = FGState::Slack { margin: 0.5f64.to_bits() };
    let r = suggest_nonconvex(v(&[40.0, 50.0]), state, 0.7f64.to_bits(), Vec::new(), 9, 0, 4, 12);
    assert_eq!(r.quality, SuggestionQuality::Relaxed);
    assert_eq!(r.suggestions.len(), 1);
    assert_eq!(r.suggestions[0].state, v(&[40.0, 50.0]));
    assert_eq!(r.suggestions[0].fg_state, state);
    assert_eq!(f64::from_bits(r.suggestions[0].intent_preserved), 0.7);
    assert_eq!(r.suggestions[0].explanation, "No exact match found. Showing convex relaxation.");
    assert_eq!(r.search_stats, stats_with_sweeps(9, 0, 4, 12));
}

#[test]
fn at_most_five_suggestions_labelled_by_the_best() {
    assert_eq!(MAX_SUGGESTIONS, 5);
    let top: Vec<Suggestion> = (0..7).map(|k| suggestion(k as f64, 0.95 - 0.1 * k as f64)).collect();
    let r = suggest_nonconvex(v(&[0.0]), FGState::Valid, 0.0f64.to_bits(), top, 25, 7, 0, 1);
    assert_eq!(r.quality, SuggestionQuality::Exact);
    let states: Vec<Vector> = r.suggestions.iter().map(|s| s.state.clone()).collect();
    assert_eq!(states, vec![v(&[0.0]), v(&[1.0]), v(&[2.0]), v(&[3.0]), v(&[4.0])]);
    assert_eq!(r.search_stats, stats(25, 7, 1));
    let near = vec![suggestion(1.0, 0.6), suggestion(2.0, 0.99)];
    let r = suggest_nonconvex(v(&[0.0]), FGState::Valid, 1.0f64.to_bits(), near, 3, 2, 0, 1);
    assert_eq!(r.quality, SuggestionQuality::Near);
    assert_eq!(r.suggestions.len(), 2);
    let r = suggest_nonconvex(v(&[0.0]), FGState::Valid, 1.0f64.to_bits(), Vec::new(), 3, 2, 0, 1);
    assert_eq!(r.quality, SuggestionQuality::Relaxed);
    assert!(r.suggestions.is_empty());
    assert!(!r.has_suggestions());
    assert!(r.best().is_none());
}

#[test]
fn the_search_starts_at_the_centre() {
    let shell = |r: f64| vec![v(&[r, 0.0]), v(&[-r, 0.0]), v(&[0.0, r]), v(&[0.0, -r])];
    let shells: Vec<Vec<Vector>> = (1..=8).map(|k| shell(k as f64)).collect();
    let got = search_candidates(&v(&[0.0, 0.0]), &shells);
    assert_eq!(got.len(), 24);
    assert_eq!(got[0], v(&[0.0, 0.0]));
    assert_eq!(got[1], v(&[-1.0, 0.0]));
    assert_eq!(got[4], v(&[1.0, 0.0]));
    assert_eq!(got[5], v(&[-2.0, 0.0]));
    assert_eq!(got[23], v(&[0.0, 6.0]));
    let alone = search_candidates(&v(&[3.0]), &Vec::new());
    assert_eq!(alone, vec![v(&[3.0])]);
}

fn on_the_line(point: &Vector) -> f64 {
    f64::from_bits(point.get(0))
}

fn measure(state: &Vector) -> Assessment {
    let x = on_the_line(state);
    Assessment {
        violation: (x - 50.0).abs().to_bits(),
        fg_state: FGState::Slack { margin: 0.5f64.to_bits() },
        intent_preserved: 0.75f64.to_bits(),
        moved_text: format!("moved to {x}"),
        preserved_text: format!("kept at {x}"),
    }
}

fn ring(center: &Vector) -> Vec<Vec<Vector>> {
    let c = on_the_line(center);
    [1.0, 2.0, 4.0, 8.0, 100.0].iter().map(|r| vec![v(&[c - r]), v(&[c + r])]).collect()
}

fn towards_fifty(state: &Vector) -> u64 {
    (on_the_line(state) - 50.0).abs().to_bits()
}

fn clamp_to_hundred(_: &Vec<usize>, point: &Vector) -> DykstraResult {
    DykstraResult {
        point: v(&[on_the_line(point).min(100.0)]),
        iterations: 3,
        converged: true,
        final_change: 0,
    }
}

#[test]
fn the_pipeline_answers_a_valid_intent_at_once() {
    let none: Vec<ConstraintProfile> = Vec::new();
    let r = suggest(v(&[50.0]), &none, |_, _| false, clamp_to_hundred, measure, ring, towards_fifty);
    assert_eq!(r.quality, SuggestionQuality::Exact);
    assert_eq!(r.suggestions.len(), 1);
    assert_eq!(r.suggestions[0].state, v(&[50.0]));
    assert_eq!(r.suggestions[0].explanation, "Intended position is valid.");
    let wall = vec![ConstraintProfile { convex: true, dim: 1 }];
    let calls = std::cell::Cell::new(0);
    let inside = |_: usize, p: &Vector| {
        calls.set(calls.get() + 1);
        on_the_line(p) <= 100.0
    };
    let r = suggest(v(&[50.0]), &wall, inside, clamp_to_hundred, measure, ring, towards_fifty);
    assert_eq!(r.quality, SuggestionQuality::Exact);
    assert_eq!(r.search_stats.candidates_verified, 0);
    assert_eq!(calls.get(), 1);
}

#[test]
fn the_pipeline_projects_onto_convex_constraints() {
    let wall = vec![ConstraintProfile { convex: true, dim: 1 }];
    let asked = std::cell::RefCell::new(Vec::new());
    let project = |positions: &Vec<usize>, p: &Vector| {
        asked.borrow_mut().push(positions.clone());
        clamp_to_hundred(positions, p)
    };
    let r = suggest(
        v(&[150.0]),
        &wall,
        |_, p| on_the_line(p) <= 100.0,
        project,
        measure,
        ring,
        towards_fifty,
    );
    assert_eq!(asked.into_inner(), vec![vec![0usize]]);
    assert_eq!(r.suggestions.len(), 1);
    assert_eq!(r.suggestions[0].state, v(&[100.0]));
    assert_eq!(r.suggestions[0].explanation, "moved to 100");
    assert_eq!(r.suggestions[0].fg_state, FGState::Slack { margin: 0.5f64.to_bits() });
    assert_eq!(r.quality, SuggestionQuality::Near);
    assert_eq!(r.search_stats, stats_without_time(0, 1, &r));
}

fn stats_without_time(generated: usize, verified: usize, r: &AidAResponse) -> SearchStats {
    stats_with_sweeps(generated, verified, 3, r.search_stats.elapsed_us)
}

#[test]
fn the_pipeline_searches_around_the_centre() {
    let mixed = vec![
        ConstraintProfile { convex: true, dim: 1 },
        ConstraintProfile { convex: false, dim: 1 },
    ];
    let asked = std::cell::RefCell::new(Vec::new());
    let project = |positions: &Vec<usize>, p: &Vector| {
        asked.borrow_mut().push(positions.clone());
        clamp_to_hundred(positions, p)
    };
    // The wall at 100 and a forbidden stretch from 97 to 103.
    let satisfied = |index: usize, p: &Vector| {
        let x = on_the_line(p);
        if index == 0 {
            x <= 100.0
        } else {
            !(97.0..=103.0).contains(&x)
        }
    };
    let r = suggest(v(&[150.0]), &mixed, satisfied, project, measure, ring, towards_fifty);
    assert_eq!(asked.into_inner(), vec![vec![0usize]]);
    let states: Vec<f64> = r.suggestions.iter().map(|s| on_the_line(&s.state)).collect();
    assert_eq!(states, vec![92.0, 96.0, 0.0]);
    assert_eq!(r.suggestions[0].explanation, "kept at 92");
    assert_eq!(r.quality, SuggestionQuality::Near);
    assert_eq!(r.search_stats, stats_without_time(11, 3, &r));

    let nothing = suggest(v(&[150.0]), &mixed, |_, _| false, clamp_to_hundred, measure, ring, towards_fifty);
    assert_eq!(nothing.quality, SuggestionQuality::Relaxed);
    assert_eq!(nothing.suggestions.len(), 1);
    assert_eq!(nothing.suggestions[0].state, v(&[100.0]));
    assert_eq!(
        nothing.suggestions[0].explanation,
        "No exact match found. Showing convex relaxation."
    );
    assert_eq!(nothing.search_stats, stats_without_time(11, 0, &nothing));

    let wall_only = |index: usize, p: &Vector| index == 1 || on_the_line(p) <= 100.0;
    let many =
        suggest(v(&[150.0]), &mixed, wall_only, clamp_to_hundred, measure, ring, towards_fifty);
    let states: Vec<f64> = many.suggestions.iter().map(|s| on_the_line(&s.state)).collect();
    assert_eq!(states, vec![92.0, 96.0, 98.0, 99.0, 0.0]);
    assert_eq!(many.search_stats.candidates_verified, 6);
}

#[test]
fn responses_by_quality() {
    let list = vec![suggestion(1.0, 1.0)];
    let s = stats(1, 1, 1);
    assert_eq!(AidAResponse::exact(list.clone(), s).quality, SuggestionQuality::Exact);
    assert_eq!(AidAResponse::near(list.clone(), s).quality, SuggestionQuality::Near);
    let relaxed = AidAResponse::relaxed(list, s);
    assert_eq!(relaxed.quality, SuggestionQuality::Relaxed);
    assert_eq!(relaxed.search_stats, s);
    assert_eq!(relaxed.suggestions.len(), 1);
    assert_eq!(SearchStats::default(), stats(0, 0, 0));
}

#[test]
fn intent_direction_short_circuits_below_epsilon() {
    let delta = Delta::with_source(v(&[3.0, 4.0]), "drag");
    let intent = IntentVector::from_delta(&delta, 5.0f64.to_bits(), &v(&[0.6, 0.8]));
    assert_eq!(intent.direction, v(&[0.6, 0.8]));
    assert_eq!(f64::from_bits(intent.magnitude), 5.0);
    assert_eq!(intent.weights, v(&[1.0, 1.0]));
    assert_eq!(intent.source.as_deref(), Some("drag"));
    assert_eq!(intent.dim(), 2);
    let tiny = Delta::new(v(&[3e-11, 4e-11]));
    let still = IntentVector::from_delta(&tiny, 5e-11f64.to_bits(), &v(&[0.6, 0.8]));
    assert_eq!(still.direction, v(&[0.0, 0.0]));
    assert_eq!(f64::from_bits(still.magnitude), 5e-11);
    assert_eq!(still.source, None);
    let edge = IntentVector::from_vector(&v(&[1e-10, 0.0]), 1e-10f64.to_bits(), &v(&[1.0, 0.0]));
    assert_eq!(edge.direction, v(&[1.0, 0.0]));
    let weighted = IntentVector::with_weights(
        &v(&[0.0, 2.0]),
        v(&[3.0, 7.0]),
        2.0f64.to_bits(),
        &v(&[0.0, 1.0]),
    );
    assert_eq!(weighted.weights, v(&[3.0, 7.0]));
    assert_eq!(weighted.direction, v(&[0.0, 1.0]));
    assert_eq!(weighted.source, None);
    let scaled = intent.scale(10.0f64.to_bits());
    assert_eq!(f64::from_bits(scaled.magnitude), 10.0);
    assert_eq!(scaled.direction, intent.direction);
    assert_eq!(scaled.source.as_deref(), Some("drag"));
}

#[test]
fn preservation_score() {
    let intent = IntentVector::from_vector(&v(&[10.0, 0.0]), 10.0f64.to_bits(), &v(&[1.0, 0.0]));
    assert_eq!(f64::from_bits(intent.preserved(10.0f64.to_bits(), 1.0f64.to_bits())), 1.0);
    assert_eq!(f64::from_bits(intent.preserved(5.0f64.to_bits(), 0.5f64.to_bits())), 0.5);
    assert_eq!(f64::from_bits(intent.preserved(0.0f64.to_bits(), 0.7f64.to_bits())), 0.0);
    assert_eq!(f64::from_bits(intent.preserved(9e-11f64.to_bits(), 0.7f64.to_bits())), 0.0);
    assert_eq!(f64::from_bits(intent.preserved(10.0f64.to_bits(), (-1.0f64).to_bits())), 0.0);
    assert_eq!(f64::from_bits(intent.preserved(10.0f64.to_bits(), f64::NAN.to_bits())), 0.0);
    let none = IntentVector::from_vector(&v(&[0.0, 0.0]), 0.0f64.to_bits(), &v(&[0.0, 0.0]));
    assert_eq!(f64::from_bits(none.preserved(0.0f64.to_bits(), 0.0f64.to_bits())), 1.0);
    assert_eq!(f64::from_bits(none.preserved(3.0f64.to_bits(), (-1.0f64).to_bits())), 1.0);
    assert_eq!(f64::from_bits(IntentVector::magnitude_ratio(0.25f64.to_bits())), 0.25);
    assert_eq!(f64::from_bits(IntentVector::magnitude_ratio(2.5f64.to_bits())), 1.0);
    assert_eq!(f64::from_bits(IntentVector::magnitude_ratio(f64::NAN.to_bits())), 1.0);
}

fn diff(original: &[f64], suggested: &[f64]) -> StateDiff {
    let deltas: Vec<f64> = original.iter().zip(suggested).map(|(o, s)| s - o).collect();
    let total = deltas.iter().map(|d| d * d).sum::<f64>().sqrt();
    StateDiff::new(v(original), v(suggested), &v(&deltas), total.to_bits())
}

#[test]
fn a_diff_records_the_dimensions_that_moved() {
    let d = diff(&[0.0, 5.0, 1.0, 2.0], &[10.0, 5.0, 1.000000001, -2.0]);
    assert!(d.has_changes());
    assert_eq!(d.num_changes(), 2);
    let dims: Vec<usize> = d.changes.iter().map(|c| c.dimension).collect();
    assert_eq!(dims, vec![0, 3]);
    assert_eq!(f64::from_bits(d.changes[0].original), 0.0);
    assert_eq!(f64::from_bits(d.changes[0].suggested), 10.0);
    assert_eq!(f64::from_bits(d.changes[0].delta), 10.0);
    assert_eq!(f64::from_bits(d.changes[1].delta), -4.0);
    assert!(d.changes.iter().all(|c| c.name.is_none()));
    assert_eq!(d.original, v(&[0.0, 5.0, 1.0, 2.0]));
    assert_eq!(d.suggested, v(&[10.0, 5.0, 1.000000001, -2.0]));
    let same = diff(&[5.0, 5.0], &[5.0, 5.0]);
    assert!(!same.has_changes());
    assert_eq!(same.num_changes(), 0);
    let edge = StateDiff::new(v(&[0.0, 0.0]), v(&[1.0, 1.0]), &v(&[1e-8, 1.01e-8]), 0);
    assert_eq!(edge.num_changes(), 1);
    assert_eq!(edge.changes[0].dimension, 1);
}

#[test]
fn names_go_to_the_changes_that_have_one() {
    let names = vec!["x".to_string(), "y".to_string()];
    let d = StateDiff::with_names(
        v(&[0.0, 0.0, 0.0]),
        v(&[10.0, 0.0, 5.0]),
        &v(&[10.0, 0.0, 5.0]),
        0,
        &names,
    );
    assert_eq!(d.num_changes(), 2);
    assert_eq!(d.changes[0].name.as_deref(), Some("x"));
    assert_eq!(d.changes[1].dimension, 2);
    assert_eq!(d.changes[1].name, None);
    assert_eq!(f64::from_bits(d.changes[1].suggested), 5.0);
}

#[test]
fn applying_a_diff_reconstructs_the_suggested_state() {
    let d = diff(&[0.0, 5.0, 1.0], &[10.0, 5.0, -2.0]);
    assert_eq!(d.apply_to(&v(&[0.0, 5.0, 1.0])), v(&[10.0, 5.0, -2.0]));
    assert_eq!(d.apply_to(&v(&[7.0])), v(&[10.0]));
    let mut odd = d.clone();
    odd.changes.push(DimensionChange {
        dimension: 9,
        name: None,
        original: 0,
        suggested: 1.0f64.to_bits(),
        delta: 0,
    });
    assert_eq!(odd.apply_to(&v(&[0.0, 5.0, 1.0])), v(&[10.0, 5.0, -2.0]));
}

#[test]
fn closing_sentences_and_constraint_status() {
    assert_eq!(summary_quality(FGState::Valid), "Now fully valid.");
    assert_eq!(summary_quality(FGState::Slack { margin: 0.8f64.to_bits() }), "Now valid with good margin.");
    assert_eq!(summary_quality(FGState::Slack { margin: 0.5f64.to_bits() }), "Now valid but near boundary.");
    assert_eq!(summary_quality(FGState::Exact), "Now exactly on boundary.");
    assert_eq!(
        summary_quality(FGState::Finfr { excess: 1.0f64.to_bits() }),
        "Still in violation (relaxed suggestion)."
    );
    assert_eq!(constraint_status(0.0f64.to_bits()), ConstraintStatus::OnBoundary);
    assert_eq!(constraint_status((-9e-9f64).to_bits()), ConstraintStatus::OnBoundary);
    assert_eq!(constraint_status((-1e-8f64).to_bits()), ConstraintStatus::Satisfied);
    assert_eq!(constraint_status(f64::NEG_INFINITY.to_bits()), ConstraintStatus::Satisfied);
    assert_eq!(constraint_status(1e-8f64.to_bits()), ConstraintStatus::Violated);
    assert_eq!(constraint_status(f64::NAN.to_bits()), ConstraintStatus::Violated);
}

#[test]
fn opening_sentences() {
    assert_eq!(summary_kind(&diff(&[5.0, 5.0], &[5.0, 5.0])), SummaryKind::NoChange);
    assert_eq!(summary_kind(&diff(&[0.0, 0.0], &[10.0, 0.0])), SummaryKind::Moved { upwards: true });
    assert_eq!(summary_kind(&diff(&[0.0, 0.0], &[0.0, -1.0])), SummaryKind::Moved { upwards: false });
    assert_eq!(summary_kind(&diff(&[0.0, 0.0], &[3.0, -1.0])), SummaryKind::Adjusted { count: 2 });
}

#[test]
fn violations_are_worded() {
    let invalid = ContractViolation::InvalidSuggestion {
        constraint_index: 120,
        description: "BoxBounds".to_string(),
        violation_amount: 0,
    };
    assert_eq!(
        invalid.message(),
        "Validity violation: suggestion violates constraint 120: BoxBounds"
    );
    let nondeterministic = ContractViolation::NonDeterministic { result1: vec![], result2: vec![1] };
    assert_eq!(
        nondeterministic.message(),
        "Determinism violation: different results for identical inputs"
    );
    let slow = check_elapsed(600_000).unwrap_err();
    assert_eq!(slow.message(), "Termination violation: Exceeded timeout of 500000us");
    let mismatch = ContractViolation::DiffMismatch { expected: vec![], actual: vec![] };
    assert_eq!(mismatch.message(), "Monotonicity violation: diff does not match actual change");
    assert_eq!(
        ContractViolation::EmptySuggestions.message(),
        "Non-empty violation: no suggestions returned for feasible region"
    );
    assert_eq!(decimal(0), "0");
    assert_eq!(decimal(7), "7");
    assert_eq!(decimal(10), "10");
    assert_eq!(decimal(1234567890), "1234567890");
    assert_eq!(decimal(u64::MAX), "18446744073709551615");
    let mut text = "n=".to_string();
    append_decimal(&mut text, 405);
    assert_eq!(text, "n=405");
}

#[test]
fn explanations_from_parts() {
    let d = diff(&[0.0], &[1.0]);
    let e = Explanation::new(d.clone(), "s".to_string(), vec!["r".to_string()], FGState::Exact);
    assert_eq!(e.summary, "s");
    assert_eq!(e.constraint_reasons, vec!["r".to_string()]);
    assert_eq!(e.fg_state, FGState::Exact);
    assert_eq!(e.diff.num_changes(), 1);
    let simple = Explanation::simple(d, "t".to_string(), FGState::Valid);
    assert!(simple.constraint_reasons.is_empty());
    assert_eq!(simple.summary, "t");
}

#[test]
fn validity_reports_the_first_violated_constraint() {
    let names = vec!["box".to_string(), "wall".to_string(), "grid".to_string()];
    assert!(verify_validity(&vec![true, true, true], &b(&[-1.0, -2.0, -3.0]), &names).is_ok());
    assert!(verify_validity(&Vec::new(), &Vec::new(), &Vec::new()).is_ok());
    let err = verify_validity(&vec![true, false, false], &b(&[-1.0, 2.5, 3.5]), &names).unwrap_err();
    match err {
        ContractViolation::InvalidSuggestion { constraint_index, description, violation_amount } => {
            assert_eq!(constraint_index, 1);
            assert_eq!(description, "wall");
            assert_eq!(f64::from_bits(violation_amount), 2.5);
        }
        other => panic!("{other:?}"),
    }
}

#[test]
fn validity_of_all_reports_the_first_invalid_suggestion() {
    let names = vec!["box".to_string(), "wall".to_string()];
    let fine = vec![vec![true, true], vec![true, true]];
    let distances = vec![b(&[-1.0, -2.0]), b(&[4.0, 5.0])];
    assert!(verify_all_valid(&fine, &distances, &names).is_ok());
    let bad = vec![vec![true, true], vec![false, false], vec![true, false]];
    let distances = vec![b(&[-1.0, -2.0]), b(&[4.0, 5.0]), b(&[-6.0, 7.0])];
    match verify_all_valid(&bad, &distances, &names).unwrap_err() {
        ContractViolation::InvalidSuggestion { constraint_index, description, violation_amount } => {
            assert_eq!(constraint_index, 0);
            assert_eq!(description, "box");
            assert_eq!(f64::from_bits(violation_amount), 4.0);
        }
        other => panic!("{other:?}"),
    }
}

#[test]
fn runs_are_compared_bit_for_bit() {
    assert_eq!(compare_runs(v(&[1.0, 2.0]), &v(&[1.0, 2.0])).unwrap(), v(&[1.0, 2.0]));
    match compare_runs(v(&[0.0]), &v(&[-0.0])).unwrap_err() {
        ContractViolation::NonDeterministic { result1, result2 } => {
            assert_eq!(result1, b(&[0.0]));
            assert_eq!(result2, b(&[-0.0]));
        }
        other => panic!("{other:?}"),
    }
    assert!(compare_runs(v(&[1.0]), &v(&[1.0, 2.0])).is_err());
    assert!(compare_runs(v(&[f64::NAN]), &v(&[f64::NAN])).is_ok());
    assert_eq!(verify_determinism(|| v(&[1.0, 2.0, 3.0])).unwrap(), v(&[1.0, 2.0, 3.0]));
    let counter = std::cell::Cell::new(0.0f64);
    let drifting = || {
        counter.set(counter.get() + 1.0);
        v(&[counter.get()])
    };
    match verify_determinism(drifting).unwrap_err() {
        ContractViolation::NonDeterministic { result1, result2 } => {
            assert_eq!(result1, b(&[1.0]));
            assert_eq!(result2, b(&[2.0]));
        }
        other => panic!("{other:?}"),
    }
}

#[test]
fn the_time_budget() {
    assert_eq!(check_elapsed(0).unwrap(), 0);
    assert_eq!(check_elapsed(500_000).unwrap(), 500_000);
    match check_elapsed(500_001).unwrap_err() {
        ContractViolation::NonTerminating { reason, iterations, elapsed_us } => {
            assert_eq!(reason, "Exceeded timeout of 500000us");
            assert_eq!(iterations, 0);
            assert_eq!(elapsed_us, 500_001);
        }
        other => panic!("{other:?}"),
    }
}

fn wait_millis(millis: u64) {
    let start = std::time::Instant::now();
    while start.elapsed() < std::time::Duration::from_millis(millis) {}
}

#[test]
fn microseconds_are_cut_to_their_low_64_bits() {
    assert_eq!(cut_to_64_bits(0), 0);
    assert_eq!(cut_to_64_bits(520_000), 520_000);
    assert_eq!(cut_to_64_bits(u64::MAX as u128), u64::MAX);
    assert_eq!(cut_to_64_bits(u64::MAX as u128 + 1), 0);
    assert_eq!(cut_to_64_bits((7u128 << 64) + 42), 42);
    assert_eq!(cut_to_64_bits(u128::MAX), u64::MAX);
}

#[test]
fn termination_is_measured_on_the_clock() {
    let (value, elapsed) = verify_termination(|| 41 + 1).unwrap();
    assert_eq!(value, 42);
    assert!(elapsed <= 500_000);
    let (_, waited) = verify_termination(|| wait_millis(20)).unwrap();
    assert!(waited >= 20_000 && waited <= 500_000, "{waited}");
    let slow = verify_termination(|| wait_millis(520));
    match slow.unwrap_err() {
        ContractViolation::NonTerminating { reason, iterations, elapsed_us } => {
            assert_eq!(reason, "Exceeded timeout of 500000us");
            assert_eq!(iterations, 0);
            assert!(elapsed_us > 500_000);
        }
        other => panic!("{other:?}"),
    }
}

#[test]
fn diff_mismatch_above_the_tolerance() {
    let suggested = v(&[10.0, 5.0]);
    let close = v(&[10.0, 5.000000001]);
    assert!(verify_diff_monotonicity(&suggested, &close, 1e-9f64.to_bits()).is_ok());
    assert!(verify_diff_monotonicity(&suggested, &close, 1e-8f64.to_bits()).is_ok());
    assert!(verify_diff_monotonicity(&suggested, &close, f64::NAN.to_bits()).is_ok());
    let far = v(&[10.0, 6.0]);
    match verify_diff_monotonicity(&suggested, &far, 1.0f64.to_bits()).unwrap_err() {
        ContractViolation::DiffMismatch { expected, actual } => {
            assert_eq!(expected, b(&[10.0, 5.0]));
            assert_eq!(actual, b(&[10.0, 6.0]));
        }
        other => panic!("{other:?}"),
    }
}

#[test]
fn the_contract_checks_validity_before_time() {
    let names = vec!["box".to_string()];
    let fine = vec![vec![true], vec![true]];
    let distances = vec![b(&[-1.0]), b(&[-2.0])];
    assert!(verify_contract(&fine, &distances, &names, 500_000).is_ok());
    assert!(verify_contract(&Vec::new(), &Vec::new(), &names, 0).is_ok());
    match verify_contract(&fine, &distances, &names, 500_001).unwrap_err() {
        ContractViolation::NonTerminating { reason, iterations, elapsed_us } => {
            assert_eq!(reason, "Exceeded time limit");
            assert_eq!(iterations, 0);
            assert_eq!(elapsed_us, 500_001);
        }
        other => panic!("{other:?}"),
    }
    let bad = vec![vec![true], vec![false]];
    let err = verify_contract(&bad, &distances, &names, 900_000).unwrap_err();
    assert!(matches!(err, ContractViolation::InvalidSuggestion { constraint_index: 0, .. }));
}

#[test]
fn the_harness_counts_passes_and_violations() {
    let mut harness = ContractHarness::new();
    assert!(harness.all_passed());
    assert_eq!(harness.summary(), "Contract verification: 0/0 checks passed, 0 violations");
    harness.check("passing", || Ok(()));
    harness.check("failing", || Err(ContractViolation::EmptySuggestions));
    harness.record(Ok(()));
    harness.record(check_elapsed(600_000).map(|_| ()));
    assert_eq!(harness.checks_run, 4);
    assert_eq!(harness.checks_passed, 2);
    assert_eq!(harness.violations.len(), 2);
    assert!(matches!(harness.violations[0], ContractViolation::EmptySuggestions));
    assert!(matches!(harness.violations[1], ContractViolation::NonTerminating { .. }));
    assert!(!harness.all_passed());
    assert_eq!(harness.summary(), "Contract verification: 2/4 checks passed, 2 violations");
    let fresh = ContractHarness::default();
    assert_eq!(fresh.checks_run, 0);
    assert!(fresh.violations.is_empty());
}
