//! Control of Dykstra's cyclic projection.
//!
//! Given a point and an ordered list of convex constraints, the algorithm
//! sweeps over the constraints, projecting the iterate, corrected by what
//! the previous sweep left over for that constraint, onto each in turn. It
//! stops when a sweep moves the iterate by less than the tolerance, or
//! after the largest number of sweeps. [`DykstraControl`] holds that
//! schedule: it tells the driver what to do next and takes back what the
//! driver measured. [`DykstraRun`] holds the schedule together with the
//! vectors that the algorithm keeps between steps.

use vstd::prelude::*;
use crate::constants::{MAX_ITERATIONS, TOLERANCE};
use crate::constraints::{all_are_convex, Constraint};
use crate::linalg::Vector;
use crate::rank::rows;
use crate::scalar::{lt, less, ZERO};

verus! {

/// Result of a cyclic projection.
#[derive(Clone, Debug)]
pub struct DykstraResult {
    /// The projected point.
    pub point: Vector,
    /// Number of sweeps used.
    pub iterations: usize,
    /// Whether the last sweep moved the point by less than the tolerance.
    pub converged: bool,
    /// Distance moved by the last sweep.
    pub final_change: u64,
}

/// What the driver of a cyclic projection does next.
#[derive(Clone, Copy, Debug, PartialEq, Eq, Structural)]
pub enum DykstraAction {
    /// Add the correction of constraint `index` to the iterate, project the
    /// sum onto that constraint, keep the difference as the new correction
    /// and the projection as the new iterate; then report
    /// [`DykstraControl::projected`]. Where a sweep begins, remember the
    /// iterate first: the sweep is measured against it.
    Project {
        /// Position of the constraint in the list.
        index: usize,
        /// Whether this projection is the first of a sweep.
        begins_sweep: bool,
    },
    /// Measure the distance between the iterate and the iterate at the
    /// beginning of the sweep, and report it to
    /// [`DykstraControl::measured`].
    Measure,
    /// Stop: the iterate is the result.
    Finish,
}

/// The schedule of one cyclic projection.
#[derive(Clone, Copy, Debug, PartialEq, Eq, Structural)]
pub struct DykstraControl {
    /// Number of constraints.
    pub constraints: usize,
    /// Number of sweeps begun.
    pub iterations: usize,
    /// Position in the current sweep: the next constraint, or the number of
    /// constraints when the sweep is to be measured.
    pub cursor: usize,
    /// Whether the projection has settled.
    pub converged: bool,
    /// Whether the projection has ended.
    pub finished: bool,
}

impl DykstraControl {
    /// The invariant of a schedule.
    pub open spec fn wf(&self) -> bool {
        &&& self.cursor <= self.constraints
        &&& self.iterations <= MAX_ITERATIONS
        &&& !self.finished ==> self.iterations >= 1 && self.constraints >= 1 && !self.converged
        &&& self.finished && self.iterations == 0 ==> self.converged
    }

    /// The action that the schedule asks for.
    pub open spec fn pending(&self) -> DykstraAction {
        if self.finished {
            DykstraAction::Finish
        } else if self.cursor < self.constraints {
            DykstraAction::Project { index: self.cursor, begins_sweep: self.cursor == 0 }
        } else {
            DykstraAction::Measure
        }
    }

    /// Number of sweeps that have been measured.
    pub open spec fn sweeps_measured(&self) -> int {
        if self.finished {
            self.iterations as int
        } else {
            self.iterations - 1
        }
    }

    /// An upper bound on the number of reports that the schedule will still
    /// take before it asks to finish.
    pub open spec fn steps_left(&self) -> nat {
        if self.finished {
            0
        } else {
            ((MAX_ITERATIONS - self.iterations) * (self.constraints + 1) + (self.constraints
                - self.cursor) + 1) as nat
        }
    }

    /// The schedule at the beginning of a projection.
    pub open spec fn start_of(constraints: usize, feasible: bool) -> DykstraControl {
        if constraints == 0 || feasible {
            DykstraControl { constraints, iterations: 0, cursor: 0, converged: true, finished: true }
        } else {
            DykstraControl {
                constraints,
                iterations: 1,
                cursor: 0,
                converged: false,
                finished: false,
            }
        }
    }

    /// The schedule after the pending projection was made.
    pub open spec fn after_projection(&self) -> DykstraControl {
        DykstraControl { cursor: (self.cursor + 1) as usize, ..*self }
    }

    /// The schedule after a sweep was measured to have moved the iterate by
    /// `change`.
    pub open spec fn after_measure(&self, change: u64) -> DykstraControl {
        if lt(change, TOLERANCE) {
            DykstraControl { converged: true, finished: true, ..*self }
        } else if self.iterations >= MAX_ITERATIONS {
            DykstraControl { finished: true, ..*self }
        } else {
            DykstraControl { iterations: (self.iterations + 1) as usize, cursor: 0, ..*self }
        }
    }

    /// Begins a projection onto `constraints` constraints. `feasible` tells
    /// whether the point satisfies every constraint already. With no
    /// constraint, or with a feasible point, the projection ends at once:
    /// converged, after zero sweeps. Otherwise the first sweep begins.
    pub fn start(constraints: usize, feasible: bool) -> (r: Self)
        ensures
            r == Self::start_of(constraints, feasible),
            r.wf(),
            r.finished == (constraints == 0 || feasible),
            r.steps_left() <= MAX_ITERATIONS * (constraints + 1),
    {
        if constraints == 0 || feasible {
            DykstraControl { constraints, iterations: 0, cursor: 0, converged: true, finished: true }
        } else {
            assert((MAX_ITERATIONS - 1) * (constraints + 1) + constraints + 1 == MAX_ITERATIONS * (
            constraints + 1)) by (nonlinear_arith);
            DykstraControl {
                constraints,
                iterations: 1,
                cursor: 0,
                converged: false,
                finished: false,
            }
        }
    }

    /// The action to take next.
    pub fn action(&self) -> (r: DykstraAction)
        ensures
            r == self.pending(),
    {
        if self.finished {
            DykstraAction::Finish
        } else if self.cursor < self.constraints {
            DykstraAction::Project { index: self.cursor, begins_sweep: self.cursor == 0 }
        } else {
            DykstraAction::Measure
        }
    }

    /// Reports that the pending projection was made. The next constraint of
    /// the sweep is due, or the measurement after the last.
    pub fn projected(&mut self)
        requires
            old(self).wf(),
            old(self).pending() is Project,
        ensures
            *final(self) == old(self).after_projection(),
            final(self).wf(),
            !final(self).finished,
            final(self).steps_left() < old(self).steps_left(),
    {
        self.cursor = self.cursor + 1;
    }

    /// Reports the distance that the sweep moved the iterate. Below the
    /// tolerance the projection ends converged; otherwise it ends
    /// unconverged when this was the last sweep allowed, and else the next
    /// sweep begins.
    pub fn measured(&mut self, change: u64)
        requires
            old(self).wf(),
            old(self).pending() is Measure,
        ensures
            *final(self) == old(self).after_measure(change),
            final(self).wf(),
            final(self).converged == lt(change, TOLERANCE),
            final(self).finished == (lt(change, TOLERANCE) || old(self).iterations
                == MAX_ITERATIONS),
            final(self).steps_left() < old(self).steps_left(),
    {
        if less(change, TOLERANCE) {
            self.converged = true;
            self.finished = true;
        } else if self.iterations >= MAX_ITERATIONS {
            self.finished = true;
        } else {
            proof {
                let m = self.constraints as int;
                let it = self.iterations as int;
                assert((MAX_ITERATIONS - (it + 1)) * (m + 1) + m + 1 == (MAX_ITERATIONS - it) * (m
                    + 1)) by (nonlinear_arith);
            }
            self.iterations = self.iterations + 1;
            self.cursor = 0;
        }
    }

    /// Packs the result of a finished projection: the iterate, the number
    /// of sweeps, whether it converged, and the last measured change (zero
    /// when no sweep was made).
    pub fn result(&self, point: Vector, last_change: u64) -> (r: DykstraResult)
        requires
            self.wf(),
            self.finished,
        ensures
            r.point == point,
            r.iterations == self.iterations,
            r.converged == self.converged,
            r.final_change == if self.iterations == 0 {
                ZERO
            } else {
                last_change
            },
    {
        DykstraResult {
            point,
            iterations: self.iterations,
            converged: self.converged,
            final_change: if self.iterations == 0 {
                ZERO
            } else {
                last_change
            },
        }
    }

    /// Termination: a projection never takes more than
    /// `MAX_ITERATIONS * (constraints + 1)` reports, whatever is measured,
    /// and so never more than [`MAX_ITERATIONS`] sweeps.
    pub proof fn lemma_bounded(&self)
        requires
            self.wf(),
        ensures
            self.steps_left() <= MAX_ITERATIONS * (self.constraints + 1),
            self.iterations <= MAX_ITERATIONS,
    {
        if !self.finished {
            let m = self.constraints as int;
            let it = self.iterations as int;
            assert((MAX_ITERATIONS - it) * (m + 1) + (m - self.cursor) + 1 <= MAX_ITERATIONS * (m
                + 1)) by (nonlinear_arith)
                requires
                    1 <= it <= MAX_ITERATIONS,
                    0 <= self.cursor <= m,
            ;
        } else {
            assert(0 <= MAX_ITERATIONS * (self.constraints + 1)) by (nonlinear_arith);
        }
    }
}

/// One cyclic projection in progress: the schedule together with the
/// vectors that the algorithm keeps, the iterate, the iterate at the
/// beginning of the sweep, and one correction vector per constraint. The
/// driver does the arithmetic of each step on the vectors held here and
/// hands the results back.
#[derive(Clone, Debug)]
pub struct DykstraRun {
    control: DykstraControl,
    iterate: Vector,
    sweep_start: Vector,
    corrections: Vec<Vector>,
    last_change: u64,
    recording: bool,
    history: Vec<Vector>,
}

impl DykstraRun {
    /// The schedule of the run.
    pub closed spec fn schedule(&self) -> DykstraControl {
        self.control
    }

    /// The current iterate.
    pub closed spec fn point(&self) -> Seq<u64> {
        self.iterate@
    }

    /// The iterate at the beginning of the current sweep.
    pub closed spec fn anchor(&self) -> Seq<u64> {
        self.sweep_start@
    }

    /// The correction vectors, one per constraint.
    pub closed spec fn residuals(&self) -> Seq<Seq<u64>> {
        Seq::new(self.corrections@.len(), |i: int| self.corrections@[i]@)
    }

    /// The change measured by the last sweep; zero before any.
    pub closed spec fn change(&self) -> u64 {
        self.last_change
    }

    /// Whether the run records its iterates.
    pub closed spec fn records(&self) -> bool {
        self.recording
    }

    /// The iterates recorded: the point projected, then the iterate at the
    /// end of each sweep. Empty when the run does not record.
    pub closed spec fn trace(&self) -> Seq<Seq<u64>> {
        Seq::new(self.history@.len(), |i: int| self.history@[i]@)
    }

    /// The invariant of a run: its schedule is well-formed, there is one
    /// correction vector per constraint, a run that ended after a sweep
    /// converged exactly when that sweep moved the iterate by less than the
    /// tolerance, and a run that ended unconverged used every sweep.
    pub open spec fn wf(&self) -> bool {
        &&& self.schedule().wf()
        &&& self.residuals().len() == self.schedule().constraints
        &&& self.schedule().finished && self.schedule().iterations >= 1
            ==> self.schedule().converged == lt(self.change(), TOLERANCE)
        &&& self.schedule().finished && !self.schedule().converged ==> self.schedule().iterations
            == MAX_ITERATIONS
        &&& self.records() ==> self.trace().len() == 1 + self.schedule().sweeps_measured()
        &&& self.records() && self.schedule().finished ==> self.trace().last() == self.point()
    }

    /// Begins the projection of `point` onto `constraints` constraints.
    /// `feasible` tells whether the point satisfies every constraint
    /// already. All correction vectors start at zero. The run records no
    /// iterates.
    pub fn start(point: &Vector, constraints: usize, feasible: bool) -> (r: Self)
        ensures
            r.wf(),
            r.schedule() == DykstraControl::start_of(constraints, feasible),
            r.point() == point@,
            r.anchor() == point@,
            r.residuals() == Seq::new(
                constraints as nat,
                |i: int| Seq::new(point@.len(), |k: int| ZERO),
            ),
            r.change() == ZERO,
            !r.records(),
            r.trace() == Seq::<Seq<u64>>::empty(),
    {
        Self::begin(point, constraints, feasible, false)
    }

    /// Begins a projection that records its iterates: the point itself at
    /// once, and the iterate whenever a sweep is measured.
    pub fn start_with_history(point: &Vector, constraints: usize, feasible: bool) -> (r: Self)
        ensures
            r.wf(),
            r.schedule() == DykstraControl::start_of(constraints, feasible),
            r.point() == point@,
            r.anchor() == point@,
            r.residuals() == Seq::new(
                constraints as nat,
                |i: int| Seq::new(point@.len(), |k: int| ZERO),
            ),
            r.change() == ZERO,
            r.records(),
            r.trace() == seq![point@],
    {
        Self::begin(point, constraints, feasible, true)
    }

    fn begin(point: &Vector, constraints: usize, feasible: bool, recording: bool) -> (r: Self)
        ensures
            r.wf(),
            r.schedule() == DykstraControl::start_of(constraints, feasible),
            r.point() == point@,
            r.anchor() == point@,
            r.residuals() == Seq::new(
                constraints as nat,
                |i: int| Seq::new(point@.len(), |k: int| ZERO),
            ),
            r.change() == ZERO,
            r.records() == recording,
            r.trace() == if recording {
                seq![point@]
            } else {
                Seq::<Seq<u64>>::empty()
            },
    {
        let dim = point.dim();
        let mut corrections: Vec<Vector> = Vec::new();
        let mut i: usize = 0;
        while i < constraints
            invariant
                i <= constraints,
                dim == point@.len(),
                corrections@.len() == i,
                forall|k: int|
                    0 <= k < i ==> (#[trigger] corrections@[k])@ == Seq::new(
                        dim as nat,
                        |j: int| ZERO,
                    ),
            decreases constraints - i,
        {
            corrections.push(Vector::zeros(dim));
            i += 1;
        }
        let mut history: Vec<Vector> = Vec::new();
        if recording {
            history.push(point.copy());
        }
        let r = DykstraRun {
            control: DykstraControl::start(constraints, feasible),
            iterate: point.copy(),
            sweep_start: point.copy(),
            corrections,
            last_change: ZERO,
            recording,
            history,
        };
        assert(r.residuals() =~= Seq::new(
            constraints as nat,
            |i: int| Seq::new(point@.len(), |k: int| ZERO),
        ));
        assert(r.trace() =~= if recording {
            seq![point@]
        } else {
            Seq::<Seq<u64>>::empty()
        });
        r
    }

    /// The action to take next.
    pub fn action(&self) -> (r: DykstraAction)
        ensures
            r == self.schedule().pending(),
    {
        self.control.action()
    }

    /// The current iterate.
    pub fn iterate(&self) -> (r: &Vector)
        ensures
            r@ == self.point(),
    {
        &self.iterate
    }

    /// The iterate at the beginning of the current sweep.
    pub fn sweep_start(&self) -> (r: &Vector)
        ensures
            r@ == self.anchor(),
    {
        &self.sweep_start
    }

    /// The correction vector of constraint `index`.
    pub fn correction(&self, index: usize) -> (r: &Vector)
        requires
            self.wf(),
            index < self.schedule().constraints,
        ensures
            r@ == self.residuals()[index as int],
    {
        &self.corrections[index]
    }

    /// Number of sweeps begun.
    pub fn iterations(&self) -> (r: usize)
        ensures
            r == self.schedule().iterations,
    {
        self.control.iterations
    }

    /// Reports the pending projection: `projection` is the new iterate and
    /// `correction` what the projection took off, the new correction of
    /// that constraint. Where the projection began a sweep, the iterate
    /// before it is kept as the beginning of the sweep.
    pub fn projected(&mut self, projection: Vector, correction: Vector)
        requires
            old(self).wf(),
            old(self).schedule().pending() is Project,
        ensures
            final(self).wf(),
            final(self).schedule() == old(self).schedule().after_projection(),
            final(self).point() == projection@,
            final(self).residuals() == old(self).residuals().update(
                old(self).schedule().cursor as int,
                correction@,
            ),
            final(self).anchor() == if old(self).schedule().cursor == 0 {
                old(self).point()
            } else {
                old(self).anchor()
            },
            final(self).change() == old(self).change(),
            final(self).records() == old(self).records(),
            final(self).trace() == old(self).trace(),
            final(self).schedule().steps_left() < old(self).schedule().steps_left(),
    {
        let index = self.control.cursor;
        let ghost before = self.residuals();
        let ghost seen = self.trace();
        if index == 0 {
            self.sweep_start = self.iterate.copy();
        }
        self.corrections.set(index, correction);
        self.iterate = projection;
        self.control.projected();
        assert(self.residuals() =~= before.update(index as int, correction@));
        assert(self.trace() =~= seen);
    }

    /// Reports the distance between the iterate and the beginning of the
    /// sweep.
    pub fn measured(&mut self, change: u64)
        requires
            old(self).wf(),
            old(self).schedule().pending() is Measure,
        ensures
            final(self).wf(),
            final(self).schedule() == old(self).schedule().after_measure(change),
            final(self).point() == old(self).point(),
            final(self).anchor() == old(self).anchor(),
            final(self).residuals() == old(self).residuals(),
            final(self).change() == change,
            final(self).records() == old(self).records(),
            final(self).trace() == if old(self).records() {
                old(self).trace().push(old(self).point())
            } else {
                old(self).trace()
            },
            final(self).schedule().steps_left() < old(self).schedule().steps_left(),
    {
        let ghost before = self.residuals();
        let ghost seen = self.trace();
        if self.recording {
            self.history.push(self.iterate.copy());
            assert(self.trace() =~= seen.push(self.point()));
        } else {
            assert(self.trace() =~= seen);
        }
        self.last_change = change;
        self.control.measured(change);
        assert(self.residuals() =~= before);
    }

    /// The iterates recorded so far.
    pub fn history(&self) -> (r: &Vec<Vector>)
        ensures
            Seq::new(r@.len(), |i: int| r@[i]@) == self.trace(),
    {
        &self.history
    }

    /// The run's record of iterates, handed over.
    pub fn recorded(self) -> (r: Vec<Vector>)
        ensures
            Seq::new(r@.len(), |i: int| r@[i]@) == self.trace(),
    {
        self.history
    }

    /// The result of a finished run: the iterate, the number of sweeps,
    /// whether the run converged, and the change of the last sweep. The run
    /// converged exactly when its last change is below the tolerance, and
    /// an unconverged run used every sweep.
    pub fn result(&self) -> (r: DykstraResult)
        requires
            self.wf(),
            self.schedule().finished,
        ensures
            r.point@ == self.point(),
            r.iterations == self.schedule().iterations,
            r.converged == self.schedule().converged,
            r.final_change == if self.schedule().iterations == 0 {
                ZERO
            } else {
                self.change()
            },
            r.converged == lt(r.final_change, TOLERANCE),
            r.iterations <= MAX_ITERATIONS,
            !r.converged ==> r.iterations == MAX_ITERATIONS,
    {
        self.control.result(self.iterate.copy(), self.last_change)
    }
}

/// One projection of a cyclic run: what `step` was asked and what it
/// answered.
pub struct Projection {
    /// Position of the constraint projected onto.
    pub index: usize,
    /// The iterate handed to `step`.
    pub iterate: Vector,
    /// The correction of the constraint handed to `step`.
    pub correction: Vector,
    /// The new iterate that `step` returned.
    pub projected: Vector,
    /// The new correction that `step` returned.
    pub left_over: Vector,
}

/// One measurement of a cyclic run: what `measure` was asked and what it
/// answered.
pub struct Measurement {
    /// The iterate at the end of the sweep.
    pub iterate: Vector,
    /// The iterate at the beginning of the sweep.
    pub start: Vector,
    /// The distance that `measure` returned.
    pub change: u64,
}

/// Whether the projections of `sweep` are the beginning of a sweep from the
/// iterate `from` with the corrections `residuals`: projection `i` is onto
/// constraint `i`, takes the iterate that the projection before it
/// returned (the first takes `from`) and the correction of its own
/// constraint, and holds what `step` returned for these.
pub open spec fn sweep_begins<P: Fn(usize, &Vector, &Vector) -> (Vector, Vector)>(
    step: P,
    from: Seq<u64>,
    residuals: Seq<Seq<u64>>,
    sweep: Seq<Projection>,
) -> bool {
    forall|i: int|
        0 <= i < sweep.len() ==> {
            let p = #[trigger] sweep[i];
            &&& p.index == i
            &&& step.ensures((p.index, &p.iterate, &p.correction), (p.projected, p.left_over))
            &&& p.iterate@ == if i == 0 {
                from
            } else {
                sweep[i - 1].projected@
            }
            &&& p.correction@ == residuals[i]
        }
}

/// The iterate at the end of a sweep.
pub open spec fn sweep_end(sweep: Seq<Projection>) -> Seq<u64> {
    sweep[sweep.len() - 1].projected@
}

/// The corrections that a sweep leaves, one per constraint.
pub open spec fn sweep_residuals(sweep: Seq<Projection>) -> Seq<Seq<u64>> {
    Seq::new(sweep.len(), |i: int| sweep[i].left_over@)
}

/// The iterates at the ends of the sweeps.
pub open spec fn sweep_ends(sweeps: Seq<Seq<Projection>>) -> Seq<Seq<u64>> {
    Seq::new(sweeps.len(), |j: int| sweep_end(sweeps[j]))
}

/// Whether `sweeps` are consecutive sweeps over `m` constraints, from the
/// iterate `start` with the corrections `initial`: every sweep projects onto
/// each constraint in turn, the first from `start` and `initial`, each
/// later one from the iterate and the corrections that the sweep before it
/// left.
pub open spec fn sweeps_follow<P: Fn(usize, &Vector, &Vector) -> (Vector, Vector)>(
    step: P,
    m: nat,
    start: Seq<u64>,
    initial: Seq<Seq<u64>>,
    sweeps: Seq<Seq<Projection>>,
) -> bool {
    forall|j: int|
        0 <= j < sweeps.len() ==> (#[trigger] sweeps[j]).len() == m && sweep_begins(
            step,
            if j == 0 {
                start
            } else {
                sweep_end(sweeps[j - 1])
            },
            if j == 0 {
                initial
            } else {
                sweep_residuals(sweeps[j - 1])
            },
            sweeps[j],
        )
}

/// Whether `measures` are the measurements of `sweeps`, one per sweep:
/// each holds what `measure` returned for the iterate at the end of its
/// sweep and the iterate at its beginning.
pub open spec fn measures_follow<M: Fn(&Vector, &Vector) -> u64>(
    measure: M,
    sweeps: Seq<Seq<Projection>>,
    measures: Seq<Measurement>,
) -> bool {
    &&& measures.len() == sweeps.len()
    &&& forall|j: int|
        0 <= j < measures.len() ==> {
            let c = #[trigger] measures[j];
            &&& measure.ensures((&c.iterate, &c.start), c.change)
            &&& c.iterate@ == sweep_end(sweeps[j])
            &&& c.start@ == sweeps[j][0].iterate@
        }
}

/// Whether every measurement but the last found a change that is not below
/// the tolerance, and the last found one below it unless it is measurement
/// number `limit`: the rule by which a run goes on and stops.
pub open spec fn stops_at_last(measures: Seq<Measurement>, limit: int) -> bool {
    &&& 1 <= measures.len() <= limit
    &&& forall|j: int| 0 <= j < measures.len() - 1 ==> !lt((#[trigger] measures[j]).change, TOLERANCE)
    &&& measures.len() < limit ==> lt(measures[measures.len() - 1].change, TOLERANCE)
}

/// Whether `ended` is the run `begun`, which stood at the beginning of a
/// sweep, after the sweeps `sweeps` with the measurements `measures`.
#[verifier::opaque]
pub open spec fn ran<P: Fn(usize, &Vector, &Vector) -> (Vector, Vector), M: Fn(&Vector, &Vector) -> u64>(
    step: P,
    measure: M,
    begun: DykstraRun,
    ended: DykstraRun,
    sweeps: Seq<Seq<Projection>>,
    measures: Seq<Measurement>,
) -> bool {
    &&& sweeps.len() == ended.schedule().iterations - begun.schedule().iterations + 1
    &&& sweeps_follow(
        step,
        begun.schedule().constraints as nat,
        begun.point(),
        begun.residuals(),
        sweeps,
    )
    &&& measures_follow(measure, sweeps, measures)
    &&& stops_at_last(measures, MAX_ITERATIONS - begun.schedule().iterations + 1)
    &&& ended.point() == sweep_end(sweeps[sweeps.len() - 1])
    &&& ended.residuals() == sweep_residuals(sweeps[sweeps.len() - 1])
    &&& ended.change() == measures[measures.len() - 1].change
    &&& ended.records() ==> ended.trace() == begun.trace() + sweep_ends(sweeps)
}

spec fn progress<P: Fn(usize, &Vector, &Vector) -> (Vector, Vector), M: Fn(&Vector, &Vector) -> u64>(
    step: P,
    measure: M,
    begun: DykstraRun,
    run: DykstraRun,
    done: Seq<Seq<Projection>>,
    current: Seq<Projection>,
    taken: Seq<Measurement>,
) -> bool {
    let m = begun.schedule().constraints as nat;
    let from = if done.len() == 0 {
        begun.point()
    } else {
        sweep_end(done[done.len() - 1])
    };
    let base = if done.len() == 0 {
        begun.residuals()
    } else {
        sweep_residuals(done[done.len() - 1])
    };
    &&& sweeps_follow(step, m, begun.point(), begun.residuals(), done)
    &&& measures_follow(measure, done, taken)
    &&& done.len() == run.schedule().sweeps_measured() - begun.schedule().iterations + 1
    &&& forall|j: int|
        0 <= j < taken.len() && (j < taken.len() - 1 || !run.schedule().finished) ==> !lt(
            (#[trigger] taken[j]).change,
            TOLERANCE,
        )
    &&& run.schedule().finished && run.schedule().iterations < MAX_ITERATIONS ==> taken.len() > 0
        && lt(taken[taken.len() - 1].change, TOLERANCE)
    &&& current.len() == if run.schedule().finished {
        0
    } else {
        run.schedule().cursor as int
    }
    &&& sweep_begins(step, from, base, current)
    &&& run.point() == if current.len() > 0 {
        current[current.len() - 1].projected@
    } else {
        from
    }
    &&& run.residuals().len() == m
    &&& base.len() == m
    &&& forall|i: int|
        0 <= i < m ==> #[trigger] run.residuals()[i] == if i < current.len() {
            current[i].left_over@
        } else {
            base[i]
        }
    &&& current.len() > 0 ==> run.anchor() == current[0].iterate@
    &&& taken.len() > 0 ==> run.change() == taken[taken.len() - 1].change
    &&& run.records() ==> run.trace() == begun.trace() + sweep_ends(done)
}

/// Runs a cyclic projection to its end. For every projection that the
/// schedule asks for, `step` is given the position of the constraint, the
/// iterate and the correction of that constraint, and returns the new
/// iterate and the new correction; after every sweep `measure` is given
/// the iterate and the iterate at the beginning of the sweep and returns
/// the distance between them. `step` is only asked for constraints of the
/// run. Whatever the two return, the run ends, after at most
/// [`MAX_ITERATIONS`] sweeps. A run that stands at the beginning of a sweep
/// goes through whole sweeps, constraint after constraint, each with its
/// own correction, and ends with the first sweep that moves the iterate by
/// less than the tolerance, or with the last sweep allowed.
pub fn run_cyclic<P, M>(run: DykstraRun, step: P, measure: M) -> (r: DykstraRun) where
    P: Fn(usize, &Vector, &Vector) -> (Vector, Vector),
    M: Fn(&Vector, &Vector) -> u64,

    requires
        run.wf(),
        forall|index: usize, iterate: &Vector, correction: &Vector|
            index < run.schedule().constraints ==> #[trigger] step.requires(
                (index, iterate, correction),
            ),
        forall|iterate: &Vector, start: &Vector| #[trigger] measure.requires((iterate, start)),
    ensures
        r.wf(),
        r.schedule().finished,
        r.schedule().constraints == run.schedule().constraints,
        r.schedule().iterations >= run.schedule().iterations,
        r.records() == run.records(),
        run.trace().is_prefix_of(r.trace()),
        run.schedule().finished ==> r.point() == run.point() && r.trace() == run.trace()
            && r.schedule() == run.schedule() && r.change() == run.change(),
        !run.schedule().finished && run.schedule().cursor == 0 ==> exists|
            sweeps: Seq<Seq<Projection>>,
            measures: Seq<Measurement>,
        | #[trigger] ran(step, measure, run, r, sweeps, measures),
{
    let mut run = run;
    let ghost begun = run;
    let ghost at_start = !begun.schedule().finished && begun.schedule().cursor == 0;
    let ghost mut done: Seq<Seq<Projection>> = Seq::empty();
    let ghost mut current: Seq<Projection> = Seq::empty();
    let ghost mut taken: Seq<Measurement> = Seq::empty();
    proof {
        assert(begun.trace() + sweep_ends(done) =~= begun.trace());
    }
    loop
        invariant
            run.wf(),
            begun.wf(),
            at_start == (!begun.schedule().finished && begun.schedule().cursor == 0),
            run.schedule().constraints == begun.schedule().constraints,
            run.schedule().iterations >= begun.schedule().iterations,
            run.records() == begun.records(),
            begun.trace().is_prefix_of(run.trace()),
            begun.schedule().finished ==> run.point() == begun.point() && run.trace()
                == begun.trace() && run.schedule() == begun.schedule() && run.change()
                == begun.change(),
            at_start ==> progress(step, measure, begun, run, done, current, taken),
            forall|index: usize, iterate: &Vector, correction: &Vector|
                index < begun.schedule().constraints ==> #[trigger] step.requires(
                    (index, iterate, correction),
                ),
            forall|iterate: &Vector, start: &Vector| #[trigger] measure.requires((iterate, start)),
        ensures
            run.schedule().finished,
        decreases run.schedule().steps_left(),
    {
        match run.action() {
            DykstraAction::Project { index, .. } => {
                let iterate = run.iterate();
                let correction = run.correction(index);
                let ghost given = (*iterate, *correction);
                let (projected, left_over) = step(index, iterate, correction);
                let ghost made = Projection {
                    index,
                    iterate: given.0,
                    correction: given.1,
                    projected,
                    left_over,
                };
                let ghost before = run;
                run.projected(projected, left_over);
                proof {
                    if at_start {
                        let longer = current.push(made);
                        assert(before.schedule().cursor == current.len());
                        assert forall|i: int| 0 <= i < longer.len() implies (#[trigger] longer[i])
                            == if i < current.len() {
                            current[i]
                        } else {
                            made
                        } by {}
                        current = longer;
                    }
                }
            },
            DykstraAction::Measure => {
                let iterate = run.iterate();
                let start = run.sweep_start();
                let ghost given = (*iterate, *start);
                let change = measure(iterate, start);
                let ghost found = Measurement { iterate: given.0, start: given.1, change };
                let ghost before = run;
                run.measured(change);
                proof {
                    if at_start {
                        let more = done.push(current);
                        let found_all = taken.push(found);
                        assert(current.len() == begun.schedule().constraints);
                        assert forall|j: int| 0 <= j < more.len() implies (#[trigger] more[j])
                            == if j < done.len() {
                            done[j]
                        } else {
                            current
                        } by {}
                        assert forall|j: int| 0 <= j < found_all.len() implies (
                        #[trigger] found_all[j]) == if j < taken.len() {
                            taken[j]
                        } else {
                            found
                        } by {}
                        assert(sweep_ends(more) =~= sweep_ends(done).push(sweep_end(current)));
                        assert(begun.trace() + sweep_ends(more) =~= (begun.trace() + sweep_ends(
                            done,
                        )).push(sweep_end(current)));
                        assert(sweep_residuals(current).len() == current.len());
                        done = more;
                        taken = found_all;
                        current = Seq::empty();
                    }
                }
            },
            DykstraAction::Finish => {
                break ;
            },
        }
    }
    proof {
        if at_start {
            reveal(ran);
            assert(run.residuals() =~= sweep_residuals(done[done.len() - 1]));
            assert(ran(step, measure, begun, run, done, taken));
        }
    }
    run
}

/// The corrections at the beginning of a projection: zero for each of the
/// `m` constraints.
pub open spec fn no_corrections(m: nat, dim: nat) -> Seq<Seq<u64>> {
    Seq::new(m, |i: int| Seq::new(dim, |k: int| ZERO))
}

/// Whether `point` is the projection of `start` by Dykstra's algorithm over
/// `m` constraints, reached after the sweeps `sweeps` with the measurements
/// `measures`: the run starts from `start` without corrections, sweeps over
/// the constraints in turn, stops with the first sweep that moves the
/// iterate by less than the tolerance or with sweep number
/// [`MAX_ITERATIONS`], and `point` is the iterate at its end.
#[verifier::opaque]
pub open spec fn projects<P: Fn(usize, &Vector, &Vector) -> (Vector, Vector), M: Fn(&Vector, &Vector) -> u64>(
    step: P,
    measure: M,
    m: nat,
    start: Seq<u64>,
    point: Seq<u64>,
    sweeps: Seq<Seq<Projection>>,
    measures: Seq<Measurement>,
) -> bool {
    &&& sweeps_follow(step, m, start, no_corrections(m, start.len()), sweeps)
    &&& measures_follow(measure, sweeps, measures)
    &&& stops_at_last(measures, MAX_ITERATIONS as int)
    &&& point == sweep_end(sweeps[sweeps.len() - 1])
}

/// Whether `point` is the projection of `start` as [`projects`] tells it,
/// and `history` holds `start` followed by the iterate at the end of each
/// sweep.
pub open spec fn projects_with_history<
    P: Fn(usize, &Vector, &Vector) -> (Vector, Vector),
    M: Fn(&Vector, &Vector) -> u64,
>(
    step: P,
    measure: M,
    m: nat,
    start: Seq<u64>,
    point: Seq<u64>,
    history: Seq<Seq<u64>>,
    sweeps: Seq<Seq<Projection>>,
    measures: Seq<Measurement>,
) -> bool {
    &&& projects(step, measure, m, start, point, sweeps, measures)
    &&& history.len() == sweeps.len() + 1
    &&& history[0] == start
    &&& forall|k: int| 1 <= k <= sweeps.len() ==> #[trigger] history[k] == sweep_end(sweeps[k - 1])
}

proof fn lemma_fresh_run_projects<
    P: Fn(usize, &Vector, &Vector) -> (Vector, Vector),
    M: Fn(&Vector, &Vector) -> u64,
>(
    step: P,
    measure: M,
    begun: DykstraRun,
    ended: DykstraRun,
    sweeps: Seq<Seq<Projection>>,
    measures: Seq<Measurement>,
    start: Seq<u64>,
)
    requires
        ran(step, measure, begun, ended, sweeps, measures),
        begun.schedule().iterations == 1,
        begun.point() == start,
        begun.residuals() == no_corrections(begun.schedule().constraints as nat, start.len()),
    ensures
        projects(
            step,
            measure,
            begun.schedule().constraints as nat,
            start,
            ended.point(),
            sweeps,
            measures,
        ),
        sweeps.len() == ended.schedule().iterations,
        measures.len() == sweeps.len(),
        ended.change() == measures[measures.len() - 1].change,
        ended.records() ==> ended.trace() == begun.trace() + sweep_ends(sweeps),
{
    reveal(ran);
    reveal(projects);
}

proof fn lemma_later_entries(all: Seq<Seq<u64>>, first: Seq<Seq<u64>>, ends: Seq<Seq<u64>>)
    requires
        all == first + ends,
        first.len() == 1,
    ensures
        all.len() == ends.len() + 1,
        all[0] == first[0],
        forall|k: int| 1 <= k <= ends.len() ==> #[trigger] all[k] == ends[k - 1],
{
}

/// Projects a point onto the intersection of convex constraints by
/// Dykstra's algorithm, and reports how the projection went. `feasible`
/// tells whether the point satisfies every constraint already; `step` and
/// `measure` do the arithmetic as [`run_cyclic`] asks for it. With no
/// constraint, or with a feasible point, the point comes back unchanged
/// after zero sweeps, with a change of zero. Otherwise every constraint
/// must be convex, and the result is the iterate after the sweeps of the
/// algorithm.
pub fn project_convex_with_result<C, P, M>(
    point: &Vector,
    constraints: &Vec<C>,
    feasible: bool,
    step: P,
    measure: M,
) -> (r: DykstraResult) where
    C: Constraint,
    P: Fn(usize, &Vector, &Vector) -> (Vector, Vector),
    M: Fn(&Vector, &Vector) -> u64,

    requires
        feasible || all_are_convex(constraints@),
        forall|index: usize, iterate: &Vector, correction: &Vector|
            index < constraints@.len() ==> #[trigger] step.requires((index, iterate, correction)),
        forall|iterate: &Vector, start: &Vector| #[trigger] measure.requires((iterate, start)),
    ensures
        r.iterations == 0 <==> constraints@.len() == 0 || feasible,
        r.iterations == 0 ==> r.point@ == point@ && r.final_change == ZERO,
        r.iterations <= MAX_ITERATIONS,
        r.converged == lt(r.final_change, TOLERANCE),
        !r.converged ==> r.iterations == MAX_ITERATIONS,
        r.iterations > 0 ==> exists|sweeps: Seq<Seq<Projection>>, measures: Seq<Measurement>| #[trigger]
            projects(step, measure, constraints@.len(), point@, r.point@, sweeps, measures)
                && sweeps.len() == r.iterations && r.final_change == measures[measures.len()
                - 1].change,
{
    let begun = DykstraRun::start(point, constraints.len(), feasible);
    let run = run_cyclic(begun, step, measure);
    proof {
        if !begun.schedule().finished {
            let (sweeps, measures) = choose|
                sweeps: Seq<Seq<Projection>>,
                measures: Seq<Measurement>,
            | #[trigger] ran(step, measure, begun, run, sweeps, measures);
            lemma_fresh_run_projects(step, measure, begun, run, sweeps, measures, point@);
        }
    }
    run.result()
}

/// Projects a point onto the intersection of convex constraints by
/// Dykstra's algorithm: the point of [`project_convex_with_result`].
pub fn project_convex<C, P, M>(
    point: &Vector,
    constraints: &Vec<C>,
    feasible: bool,
    step: P,
    measure: M,
) -> (r: Vector) where
    C: Constraint,
    P: Fn(usize, &Vector, &Vector) -> (Vector, Vector),
    M: Fn(&Vector, &Vector) -> u64,

    requires
        feasible || all_are_convex(constraints@),
        forall|index: usize, iterate: &Vector, correction: &Vector|
            index < constraints@.len() ==> #[trigger] step.requires((index, iterate, correction)),
        forall|iterate: &Vector, start: &Vector| #[trigger] measure.requires((iterate, start)),
    ensures
        constraints@.len() == 0 || feasible ==> r@ == point@,
        !(constraints@.len() == 0 || feasible) ==> exists|
            sweeps: Seq<Seq<Projection>>,
            measures: Seq<Measurement>,
        | #[trigger] projects(step, measure, constraints@.len(), point@, r@, sweeps, measures),
{
    project_convex_with_result(point, constraints, feasible, step, measure).point
}

/// Projects a point and keeps the history of the iterates: returns the
/// projection, the number of sweeps, and the point followed by the iterate
/// at the end of each sweep. The projection is the last entry of the
/// history. Every constraint must be convex.
pub fn project_convex_with_history<C, P, M>(
    point: &Vector,
    constraints: &Vec<C>,
    step: P,
    measure: M,
) -> (r: (Vector, usize, Vec<Vector>)) where
    C: Constraint,
    P: Fn(usize, &Vector, &Vector) -> (Vector, Vector),
    M: Fn(&Vector, &Vector) -> u64,

    requires
        all_are_convex(constraints@),
        forall|index: usize, iterate: &Vector, correction: &Vector|
            index < constraints@.len() ==> #[trigger] step.requires((index, iterate, correction)),
        forall|iterate: &Vector, start: &Vector| #[trigger] measure.requires((iterate, start)),
    ensures
        r.1 <= MAX_ITERATIONS,
        r.1 == 0 <==> constraints@.len() == 0,
        r.2@.len() == r.1 + 1,
        r.2@[0]@ == point@,
        r.2@[r.1 as int]@ == r.0@,
        constraints@.len() > 0 ==> exists|sweeps: Seq<Seq<Projection>>, measures: Seq<Measurement>| #[trigger]
            projects_with_history(
                step,
                measure,
                constraints@.len(),
                point@,
                r.0@,
                rows(r.2@),
                sweeps,
                measures,
            ) && sweeps.len() == r.1,
{
    let begun = DykstraRun::start_with_history(point, constraints.len(), false);
    let run = run_cyclic(begun, step, measure);
    let result = run.result();
    let history = run.recorded();
    proof {
        let entries = rows(history@);
        assert(entries =~= run.trace());
        assert forall|k: int| 0 <= k < history@.len() implies (#[trigger] history@[k])@
            == entries[k] by {}
        if begun.schedule().finished {
            assert(run.trace() == seq![point@]);
        } else {
            let (sweeps, measures) = choose|
                sweeps: Seq<Seq<Projection>>,
                measures: Seq<Measurement>,
            | #[trigger] ran(step, measure, begun, run, sweeps, measures);
            lemma_fresh_run_projects(step, measure, begun, run, sweeps, measures, point@);
            lemma_later_entries(entries, seq![point@], sweep_ends(sweeps));
            assert forall|k: int| 1 <= k <= sweeps.len() implies #[trigger] entries[k]
                == sweep_end(sweeps[k - 1]) by {
                assert(entries[k] == sweep_ends(sweeps)[k - 1]);
            }
            assert(projects(
                step,
                measure,
                constraints@.len(),
                point@,
                result.point@,
                sweeps,
                measures,
            ));
            assert(projects_with_history(
                step,
                measure,
                constraints@.len(),
                point@,
                result.point@,
                entries,
                sweeps,
                measures,
            ));
        }
    }
    (result.point, result.iterations, history)
}

} // verus!
