//! Checks of the engine's contract: validity, determinism, termination and
//! diff monotonicity. Each check returns a typed violation that carries
//! what was observed.

use vstd::prelude::*;
use crate::constants::{TIMEOUT_US, TOLERANCE};
use crate::linalg::Vector;
use crate::scalar::{lt, less};
use crate::text::{append_decimal, decimal_text};
use vstd::string::StringExecFns;

verus! {

/// A violation of the engine's contract.
#[derive(Clone, Debug)]
pub enum ContractViolation {
    /// A suggestion violates a constraint.
    InvalidSuggestion {
        /// Position of the violated constraint in the list.
        constraint_index: usize,
        /// Description of the violated constraint.
        description: String,
        /// Signed distance of the suggestion to that constraint.
        violation_amount: u64,
    },
    /// Two identical calls produced different results.
    NonDeterministic {
        /// Result of the first call.
        result1: Vec<u64>,
        /// Result of the second call.
        result2: Vec<u64>,
    },
    /// A computation did not end within its bounds.
    NonTerminating {
        /// Which bound was exceeded.
        reason: String,
        /// Number of iterations, zero when not known.
        iterations: usize,
        /// Time that the computation took, in microseconds.
        elapsed_us: u64,
    },
    /// A diff does not lead from the original to the suggested state.
    DiffMismatch {
        /// The suggested state.
        expected: Vec<u64>,
        /// The state that the diff leads to.
        actual: Vec<u64>,
    },
    /// No suggestion although the feasible region is not empty.
    EmptySuggestions,
}

impl ContractViolation {
    /// The message of the violation, as a reader is shown it.
    pub open spec fn message_text(&self) -> Seq<char> {
        match self {
            ContractViolation::InvalidSuggestion { constraint_index, description, .. } => {
                "Validity violation: suggestion violates constraint "@ + decimal_text(
                    *constraint_index as nat,
                ) + ": "@ + description@
            },
            ContractViolation::NonDeterministic { .. } => {
                "Determinism violation: different results for identical inputs"@
            },
            ContractViolation::NonTerminating { reason, .. } => {
                "Termination violation: "@ + reason@
            },
            ContractViolation::DiffMismatch { .. } => {
                "Monotonicity violation: diff does not match actual change"@
            },
            ContractViolation::EmptySuggestions => {
                "Non-empty violation: no suggestions returned for feasible region"@
            },
        }
    }

    /// Words the violation.
    pub fn message(&self) -> (r: String)
        ensures
            r@ == self.message_text(),
    {
        match self {
            ContractViolation::InvalidSuggestion { constraint_index, description, .. } => {
                let mut out = "Validity violation: suggestion violates constraint ".to_owned();
                append_decimal(&mut out, *constraint_index as u64);
                out.append(": ");
                out.append(description.as_str());
                out
            },
            ContractViolation::NonDeterministic { .. } => {
                "Determinism violation: different results for identical inputs".to_owned()
            },
            ContractViolation::NonTerminating { reason, .. } => {
                let mut out = "Termination violation: ".to_owned();
                out.append(reason.as_str());
                out
            },
            ContractViolation::DiffMismatch { .. } => {
                "Monotonicity violation: diff does not match actual change".to_owned()
            },
            ContractViolation::EmptySuggestions => {
                "Non-empty violation: no suggestions returned for feasible region".to_owned()
            },
        }
    }
}

/// The monotonic clock's instants are carried through, never looked into.
#[verifier::external_type_specification]
#[verifier::external_body]
pub struct ExInstant(std::time::Instant);

/// Reads the monotonic clock with `std::time::Instant::now`. Nothing is
/// claimed of what it reads.
#[verifier::external_body]
pub(crate) fn clock_now() -> (r: std::time::Instant) {
    std::time::Instant::now()
}

/// The time since `start` with `std::time::Instant::elapsed`. Nothing is
/// claimed of it.
#[verifier::external_body]
pub(crate) fn clock_elapsed(start: &std::time::Instant) -> (r: std::time::Duration) {
    start.elapsed()
}

/// The whole microseconds of a duration, with
/// `std::time::Duration::as_micros`. Nothing is claimed of them.
#[verifier::external_body]
pub(crate) fn whole_micros(time: &std::time::Duration) -> (r: u128) {
    time.as_micros()
}

/// The position of the first unset flag among the first `n`, or `n` when
/// all of them are set.
pub open spec fn first_unset(flags: Seq<bool>, n: int) -> int
    decreases n,
{
    if n <= 0 {
        0
    } else if first_unset(flags, n - 1) < n - 1 {
        first_unset(flags, n - 1)
    } else if flags[n - 1] {
        n
    } else {
        n - 1
    }
}

/// The first unset flag is unset, and all flags before it are set.
pub proof fn lemma_first_unset(flags: Seq<bool>, n: int)
    requires
        0 <= n <= flags.len(),
    ensures
        0 <= first_unset(flags, n) <= n,
        first_unset(flags, n) < n ==> !flags[first_unset(flags, n)],
        forall|i: int| 0 <= i < first_unset(flags, n) ==> flags[i],
    decreases n,
{
    if n > 0 {
        lemma_first_unset(flags, n - 1);
    }
}

/// Verifies that a suggestion satisfies all constraints. `satisfied[i]`
/// tells whether it satisfies constraint `i`, `distances[i]` is its signed
/// distance to that constraint and `descriptions[i]` describes the
/// constraint. The first constraint that is not satisfied is reported.
pub fn verify_validity(
    satisfied: &Vec<bool>,
    distances: &Vec<u64>,
    descriptions: &Vec<String>,
) -> (r: Result<(), ContractViolation>)
    requires
        distances@.len() == satisfied@.len(),
        descriptions@.len() == satisfied@.len(),
    ensures
        r is Ok <==> all_set(satisfied@),
        r matches Err(e) ==> {
            let first = first_unset(satisfied@, satisfied@.len() as int);
            &&& 0 <= first < satisfied@.len()
            &&& e matches ContractViolation::InvalidSuggestion {
                constraint_index,
                description,
                violation_amount,
            }
            &&& constraint_index == first
            &&& description == descriptions@[first]
            &&& violation_amount == distances@[first]
        },
{
    let n = satisfied.len();
    let mut i: usize = 0;
    while i < n
        invariant
            n == satisfied@.len(),
            n == distances@.len(),
            n == descriptions@.len(),
            i <= n,
            first_unset(satisfied@, i as int) == i,
            forall|k: int| 0 <= k < i ==> satisfied@[k],
        decreases n - i,
    {
        if !satisfied[i] {
            proof {
                lemma_first_unset_stays(satisfied@, i as int, n as int);
            }
            return Err(
                ContractViolation::InvalidSuggestion {
                    constraint_index: i,
                    description: descriptions[i].clone(),
                    violation_amount: distances[i],
                },
            );
        }
        i += 1;
    }
    Ok(())
}

proof fn lemma_first_unset_stays(flags: Seq<bool>, i: int, n: int)
    requires
        0 <= i < n <= flags.len(),
        first_unset(flags, i) == i,
        !flags[i],
    ensures
        first_unset(flags, n) == i,
    decreases n,
{
    if n > i + 1 {
        lemma_first_unset_stays(flags, i, n - 1);
    }
}

/// Whether every suggestion comes with one answer and one distance per
/// constraint.
pub open spec fn answers_fit(
    satisfied: Seq<Vec<bool>>,
    distances: Seq<Vec<u64>>,
    constraints: nat,
) -> bool {
    &&& distances.len() == satisfied.len()
    &&& forall|s: int|
        0 <= s < satisfied.len() ==> (#[trigger] satisfied[s])@.len() == constraints
            && distances[s]@.len() == constraints
}

/// Whether every flag is set.
pub open spec fn all_set(flags: Seq<bool>) -> bool {
    forall|i: int| 0 <= i < flags.len() ==> flags[i]
}

/// The position of the first among the first `n` suggestions that fails a
/// constraint, or `n` when none does.
pub open spec fn first_invalid(satisfied: Seq<Vec<bool>>, n: int) -> int
    decreases n,
{
    if n <= 0 {
        0
    } else if first_invalid(satisfied, n - 1) < n - 1 {
        first_invalid(satisfied, n - 1)
    } else if all_set(satisfied[n - 1]@) {
        n
    } else {
        n - 1
    }
}

proof fn lemma_first_invalid_stays(satisfied: Seq<Vec<bool>>, s: int, n: int)
    requires
        0 <= s < n <= satisfied.len(),
        first_invalid(satisfied, s) == s,
        !all_set(satisfied[s]@),
    ensures
        first_invalid(satisfied, n) == s,
    decreases n,
{
    if n > s + 1 {
        lemma_first_invalid_stays(satisfied, s, n - 1);
    }
}

/// Verifies that all suggestions are valid. `satisfied[s][i]` tells whether
/// suggestion `s` satisfies constraint `i`, and `distances[s][i]` is its
/// signed distance to it. The first suggestion that violates a constraint
/// is reported, with the first constraint that it violates.
pub fn verify_all_valid(
    satisfied: &Vec<Vec<bool>>,
    distances: &Vec<Vec<u64>>,
    descriptions: &Vec<String>,
) -> (r: Result<(), ContractViolation>)
    requires
        answers_fit(satisfied@, distances@, descriptions@.len()),
    ensures
        r is Ok <==> forall|s: int| 0 <= s < satisfied@.len() ==> all_set(#[trigger] satisfied@[s]@),
        r matches Err(e) ==> {
            let s = first_invalid(satisfied@, satisfied@.len() as int);
            &&& 0 <= s < satisfied@.len()
            &&& e matches ContractViolation::InvalidSuggestion {
                constraint_index,
                description,
                violation_amount,
            }
            &&& constraint_index == first_unset(satisfied@[s]@, satisfied@[s]@.len() as int)
            &&& 0 <= constraint_index < descriptions@.len()
            &&& description == descriptions@[constraint_index as int]
            &&& violation_amount == distances@[s]@[constraint_index as int]
        },
{
    let n = satisfied.len();
    let mut s: usize = 0;
    while s < n
        invariant
            n == satisfied@.len(),
            n == distances@.len(),
            answers_fit(satisfied@, distances@, descriptions@.len()),
            s <= n,
            first_invalid(satisfied@, s as int) == s,
            forall|t: int| 0 <= t < s ==> all_set(#[trigger] satisfied@[t]@),
        decreases n - s,
    {
        assert(satisfied@[s as int]@.len() == descriptions@.len());
        match verify_validity(&satisfied[s], &distances[s], descriptions) {
            Ok(()) => {},
            Err(e) => {
                proof {
                    lemma_first_invalid_stays(satisfied@, s as int, n as int);
                }
                return Err(e);
            },
        }
        s += 1;
    }
    Ok(())
}

/// Compares the results of two runs of one computation bit for bit. Equal
/// results pass and the first is handed back; others are reported, both
/// as observed.
pub fn compare_runs(first: Vector, second: &Vector) -> (r: Result<Vector, ContractViolation>)
    ensures
        first@ == second@ ==> r == Ok::<Vector, ContractViolation>(first),
        first@ != second@ ==> (r matches Err(
            ContractViolation::NonDeterministic { result1, result2 },
        ) && result1@ == first@ && result2@ == second@),
{
    if first.same_bits(second) {
        Ok(first)
    } else {
        Err(ContractViolation::NonDeterministic { result1: first.to_vec(), result2: second.to_vec() })
    }
}

/// Verifies determinism: runs the producer twice and compares the two
/// results bit for bit.
pub fn verify_determinism<F: Fn() -> Vector>(f: F) -> (r: Result<Vector, ContractViolation>)
    requires
        f.requires(()),
    ensures
        r matches Ok(v) ==> f.ensures((), v) && exists|again: Vector|
            f.ensures((), again) && again@ == v@,
        r matches Err(e) ==> e matches ContractViolation::NonDeterministic { result1, result2 }
            && result1@ != result2@ && exists|a: Vector, b: Vector|
            f.ensures((), a) && f.ensures((), b) && a@ == result1@ && b@ == result2@,
{
    let first = f();
    let second = f();
    compare_runs(first, &second)
}

/// The low 64 bits of a count of microseconds.
pub open spec fn low_64_bits(micros: u128) -> u64 {
    (micros % 0x1_0000_0000_0000_0000) as u64
}

/// Cuts a count of microseconds to its low 64 bits.
pub fn cut_to_64_bits(micros: u128) -> (r: u64)
    ensures
        r == low_64_bits(micros),
        micros <= u64::MAX ==> r == micros,
{
    (micros % 0x1_0000_0000_0000_0000u128) as u64
}

/// The microseconds since `start` on the monotonic clock, cut to 64 bits:
/// what the clock gave as the time since `start`, in whole microseconds, in
/// its low 64 bits.
pub(crate) fn micros_since(start: &std::time::Instant) -> (r: u64)
    ensures
        exists|spent: std::time::Duration, micros: u128|
            call_ensures(clock_elapsed, (start,), spent) && #[trigger] call_ensures(
                whole_micros,
                (&spent,),
                micros,
            ) && r == low_64_bits(micros),
{
    let spent = clock_elapsed(start);
    let micros = whole_micros(&spent);
    cut_to_64_bits(micros)
}

/// Checks a measured time against the budget: a time above
/// [`TIMEOUT_US`] is a violation.
pub fn check_elapsed(elapsed_us: u64) -> (r: Result<u64, ContractViolation>)
    ensures
        elapsed_us <= TIMEOUT_US ==> r == Ok::<u64, ContractViolation>(elapsed_us),
        elapsed_us > TIMEOUT_US ==> (r matches Err(
            ContractViolation::NonTerminating { reason, iterations, elapsed_us: reported },
        ) && reason@ == "Exceeded timeout of 500000us"@ && iterations == 0 && reported
            == elapsed_us),
{
    if elapsed_us > TIMEOUT_US {
        Err(
            ContractViolation::NonTerminating {
                reason: "Exceeded timeout of 500000us".to_owned(),
                iterations: 0,
                elapsed_us,
            },
        )
    } else {
        Ok(elapsed_us)
    }
}

/// Verifies termination: runs the computation, measures it on the
/// monotonic clock, and reports a time above [`TIMEOUT_US`]. Within the
/// budget the computation's result comes back with the time it took.
pub fn verify_termination<T, F: FnOnce() -> T>(f: F) -> (r: Result<(T, u64), ContractViolation>)
    requires
        f.requires(()),
    ensures
        r matches Ok((value, elapsed_us)) ==> f.ensures((), value) && elapsed_us <= TIMEOUT_US,
        r matches Err(e) ==> e matches ContractViolation::NonTerminating {
            reason,
            iterations,
            elapsed_us,
        } && elapsed_us > TIMEOUT_US && iterations == 0 && reason@
            == "Exceeded timeout of 500000us"@,
{
    let start = clock_now();
    let value = f();
    let elapsed_us = micros_since(&start);
    match check_elapsed(elapsed_us) {
        Ok(us) => Ok((value, us)),
        Err(e) => Err(e),
    }
}

/// Verifies that a diff describes the change of state. `reconstructed` is
/// the original with the diff applied, and `mismatch` its distance to the
/// suggested state; a mismatch above [`TOLERANCE`] is a violation.
pub fn verify_diff_monotonicity(suggested: &Vector, reconstructed: &Vector, mismatch: u64) -> (r:
    Result<(), ContractViolation>)
    ensures
        r is Ok <==> !lt(TOLERANCE, mismatch),
        r matches Err(e) ==> e matches ContractViolation::DiffMismatch { expected, actual }
            && expected@ == suggested@ && actual@ == reconstructed@,
{
    if less(TOLERANCE, mismatch) {
        Err(
            ContractViolation::DiffMismatch {
                expected: suggested.to_vec(),
                actual: reconstructed.to_vec(),
            },
        )
    } else {
        Ok(())
    }
}

/// Verifies the contract of a response: every suggestion satisfies every
/// constraint, and the response came within [`TIMEOUT_US`]. Validity is
/// checked first.
pub fn verify_contract(
    satisfied: &Vec<Vec<bool>>,
    distances: &Vec<Vec<u64>>,
    descriptions: &Vec<String>,
    elapsed_us: u64,
) -> (r: Result<(), ContractViolation>)
    requires
        answers_fit(satisfied@, distances@, descriptions@.len()),
    ensures
        r is Ok <==> elapsed_us <= TIMEOUT_US && forall|s: int|
            0 <= s < satisfied@.len() ==> all_set(#[trigger] satisfied@[s]@),
        r matches Err(e) ==> if forall|s: int|
            0 <= s < satisfied@.len() ==> all_set(#[trigger] satisfied@[s]@) {
            e matches ContractViolation::NonTerminating { reason, iterations, elapsed_us: reported }
                && reason@ == "Exceeded time limit"@ && iterations == 0 && reported == elapsed_us
        } else {
            let s = first_invalid(satisfied@, satisfied@.len() as int);
            &&& 0 <= s < satisfied@.len()
            &&& e matches ContractViolation::InvalidSuggestion {
                constraint_index,
                description,
                violation_amount,
            }
            &&& constraint_index == first_unset(satisfied@[s]@, satisfied@[s]@.len() as int)
            &&& 0 <= constraint_index < descriptions@.len()
            &&& description == descriptions@[constraint_index as int]
            &&& violation_amount == distances@[s]@[constraint_index as int]
        },
{
    match verify_all_valid(satisfied, distances, descriptions) {
        Ok(()) => {},
        Err(e) => {
            return Err(e);
        },
    }
    if elapsed_us > TIMEOUT_US {
        return Err(
            ContractViolation::NonTerminating {
                reason: "Exceeded time limit".to_owned(),
                iterations: 0,
                elapsed_us,
            },
        );
    }
    Ok(())
}

/// Collects the outcomes of checks into a pass/fail summary.
#[derive(Clone, Debug)]
pub struct ContractHarness {
    /// The violations found, in the order of the checks.
    pub violations: Vec<ContractViolation>,
    /// Number of checks run.
    pub checks_run: usize,
    /// Number of checks passed.
    pub checks_passed: usize,
}

impl ContractHarness {
    /// The invariant of a harness: every check run either passed or left a
    /// violation.
    pub open spec fn wf(&self) -> bool {
        self.checks_run == self.checks_passed + self.violations@.len()
    }

    /// Creates a harness that has run no check.
    pub fn new() -> (r: Self)
        ensures
            r.wf(),
            r.violations@.len() == 0,
            r.checks_run == 0,
            r.checks_passed == 0,
    {
        ContractHarness { violations: Vec::new(), checks_run: 0, checks_passed: 0 }
    }

    /// Whether this harness is `before` with one more check recorded: a
    /// pass counts as passed, a violation is added to the violations.
    pub open spec fn follows(
        &self,
        before: &ContractHarness,
        outcome: Result<(), ContractViolation>,
    ) -> bool {
        &&& self.checks_run == before.checks_run + 1
        &&& match outcome {
            Ok(()) => self.checks_passed == before.checks_passed + 1 && self.violations@
                == before.violations@,
            Err(violation) => self.checks_passed == before.checks_passed && self.violations@
                == before.violations@.push(violation),
        }
    }

    /// Records the outcome of one check.
    pub fn record(&mut self, outcome: Result<(), ContractViolation>)
        requires
            old(self).wf(),
            old(self).checks_run < usize::MAX,
        ensures
            final(self).wf(),
            final(self).follows(old(self), outcome),
    {
        self.checks_run = self.checks_run + 1;
        match outcome {
            Ok(()) => {
                self.checks_passed = self.checks_passed + 1;
            },
            Err(violation) => {
                self.violations.push(violation);
            },
        }
    }

    /// Runs a check and records its outcome.
    pub fn check<F: FnOnce() -> Result<(), ContractViolation>>(&mut self, name: &str, f: F)
        requires
            old(self).wf(),
            old(self).checks_run < usize::MAX,
            f.requires(()),
        ensures
            final(self).wf(),
            exists|outcome: Result<(), ContractViolation>|
                f.ensures((), outcome) && #[trigger] final(self).follows(old(self), outcome),
    {
        let outcome = f();
        self.record(outcome);
    }

    /// A one-line summary of the checks run, passed and violated.
    pub fn summary(&self) -> (r: String)
        ensures
            r@ == "Contract verification: "@ + decimal_text(self.checks_passed as nat) + "/"@
                + decimal_text(self.checks_run as nat) + " checks passed, "@ + decimal_text(
                self.violations@.len(),
            ) + " violations"@,
    {
        let mut out = "Contract verification: ".to_owned();
        append_decimal(&mut out, self.checks_passed as u64);
        out.append("/");
        append_decimal(&mut out, self.checks_run as u64);
        out.append(" checks passed, ");
        append_decimal(&mut out, self.violations.len() as u64);
        out.append(" violations");
        out
    }

    /// Whether no check left a violation.
    pub fn all_passed(&self) -> (r: bool)
        ensures
            r == (self.violations@.len() == 0),
    {
        self.violations.len() == 0
    }
}

impl Default for ContractHarness {
    fn default() -> (r: Self)
        ensures
            r.wf(),
            r.violations@.len() == 0,
            r.checks_run == 0,
            r.checks_passed == 0,
    {
        Self::new()
    }
}

} // verus!
