//! The fail-fast verifier.
//!
//! A verification pass walks an ordered sequence of exercises. For each
//! one the application invokes the external toolchain and re-reads the
//! completion marker; the graded result comes back to the pass as a
//! [`StepOutcome`]. The pass advances only on a definitive success and
//! stops at the first exercise that fails, so exercises later in the
//! learning order are never graded after an earlier one failed.

use vstd::prelude::*;
use crate::exercise::{Exercise, ExerciseState};

verus! {

/// What one toolchain invocation produced: the captured output, or a
/// failure whose diagnostic the application has already shown.
pub enum VerificationOutcome {
    Success(String),
    Failure,
}

/// The graded result of one exercise within a pass.
#[derive(Clone, Copy, PartialEq, Eq, Structural, Debug)]
pub enum StepOutcome {
    /// The toolchain run itself failed; the diagnostic is shown and the
    /// pass aborts.
    ToolchainFailure,
    /// The toolchain succeeded but the pending marker is still in the
    /// source file; the learner must remove it, so the pass aborts.
    SuccessStillPending,
    /// The toolchain succeeded and the marker is gone: the exercise is
    /// done and the pass moves on.
    SuccessDone,
}

/// Grade a toolchain result together with the re-read completion
/// snapshot of the exercise's source file.
///
/// Completion is decided from the file as it is now, never from a
/// cached flag: the snapshot is taken after the toolchain ran.
pub fn classify_outcome(outcome: &VerificationOutcome, state: &ExerciseState) -> (oc: StepOutcome)
    ensures
        *outcome is Failure ==> oc is ToolchainFailure,
        *outcome is Success && *state is Done ==> oc is SuccessDone,
        *outcome is Success && *state is Pending ==> oc is SuccessStillPending,
{
    match outcome {
        VerificationOutcome::Failure => StepOutcome::ToolchainFailure,
        VerificationOutcome::Success(_) => match state {
            ExerciseState::Done => StepOutcome::SuccessDone,
            ExerciseState::Pending(_) => StepOutcome::SuccessStillPending,
        },
    }
}

/// Whether an outcome lets the pass continue to the next exercise.
pub fn outcome_passes(oc: &StepOutcome) -> (r: bool)
    ensures
        r == (*oc is SuccessDone),
{
    match oc {
        StepOutcome::SuccessDone => true,
        _ => false,
    }
}

/// The position of the first outcome in the sequence that is not a
/// definitive success, if any.
pub open spec fn first_failure(outcomes: Seq<StepOutcome>) -> Option<int>
    decreases outcomes.len(),
{
    if outcomes.len() == 0 {
        None
    } else if !(outcomes[0] is SuccessDone) {
        Some(0)
    } else {
        match first_failure(outcomes.drop_first()) {
            None => None,
            Some(k) => Some(k + 1),
        }
    }
}

/// How many exercises a fail-fast pass over `outcomes` grades: all of
/// them, or those up to and including the first failure.
pub open spec fn invoked_count(outcomes: Seq<StepOutcome>) -> int {
    match first_failure(outcomes) {
        None => outcomes.len() as int,
        Some(k) => k + 1,
    }
}

/// What a pass over the sequence returns, as a function of the graded
/// outcomes alone: `Ok` when every outcome is a definitive success,
/// otherwise `Err` with the exercise at the first failing position.
pub open spec fn pass_result(order: Seq<usize>, outcomes: Seq<StepOutcome>) -> Result<(), usize> {
    match first_failure(outcomes) {
        None => Ok(()),
        Some(k) => Err(order[k]),
    }
}

/// The hint held for the learner after a pass: the failing exercise's
/// hint, or none when the pass succeeded.
pub open spec fn hint_after(exercises: Seq<Exercise>, r: Result<(), usize>) -> Option<Seq<char>> {
    match r {
        Ok(_) => None,
        Err(i) => Some(exercises[i as int].hint@),
    }
}

/// `first_failure` finds exactly the first position whose outcome is
/// not a definitive success.
pub proof fn lemma_first_failure_is_first(outcomes: Seq<StepOutcome>, k: int)
    requires
        0 <= k <= outcomes.len(),
        forall|j: int| 0 <= j < k ==> outcomes[j] is SuccessDone,
        k < outcomes.len() ==> !(outcomes[k] is SuccessDone),
    ensures
        k == outcomes.len() ==> first_failure(outcomes) is None,
        k < outcomes.len() ==> first_failure(outcomes) == Some(k),
    decreases outcomes.len(),
{
    if outcomes.len() == 0 {
    } else if k == 0 {
        if 0 < outcomes.len() && outcomes[0] is SuccessDone {
            lemma_first_failure_is_first(outcomes.drop_first(), 0);
        }
    } else {
        lemma_first_failure_is_first(outcomes.drop_first(), k - 1);
    }
}

/// One running fail-fast verification pass.
///
/// `order` holds the indices of the exercises to grade, in the order
/// they are to be graded; the application asks for the next exercise
/// with [`VerifyPass::next_exercise`], runs the toolchain, and hands
/// the graded outcome back with [`VerifyPass::record`]. `invoked`
/// records which exercises were graded, in order.
pub struct VerifyPass {
    /// Exercise indices, in grading order.
    pub order: Vec<usize>,
    /// Position in `order` of the next exercise to grade.
    pub position: usize,
    /// Definitive successes recorded so far in this pass.
    pub successes: usize,
    /// Exercises already done when the pass started.
    pub num_done: usize,
    /// Total number of exercises in the curriculum.
    pub total: usize,
    /// The failing exercise's index, once one failed.
    pub failed_at: Option<usize>,
    /// The exercises graded so far, in grading order.
    pub invoked: Vec<usize>,
}

impl VerifyPass {
    /// The pass's bookkeeping is consistent: it has graded exactly the
    /// positions before `position` (plus the failing one), each a
    /// success except the failure.
    pub open spec fn wf(self) -> bool {
        &&& self.position <= self.order@.len()
        &&& self.successes == self.position
        &&& self.num_done + self.order@.len() <= usize::MAX
        &&& match self.failed_at {
            Some(i) => {
                &&& self.position < self.order@.len()
                &&& self.order@[self.position as int] == i
                &&& self.invoked@ == self.order@.take(self.position + 1)
            },
            None => self.invoked@ == self.order@.take(self.position as int),
        }
    }

    /// The pass still has exercises to grade and none has failed.
    pub open spec fn in_progress(self) -> bool {
        self.failed_at is None && self.position < self.order@.len()
    }

    /// Start a pass over the given sequence, with `num_done` of the
    /// `total` exercises already done for the progress display.
    pub fn new(order: Vec<usize>, num_done: usize, total: usize) -> (p: VerifyPass)
        requires
            num_done + order@.len() <= usize::MAX,
        ensures
            p.wf(),
            p.order == order,
            p.position == 0,
            p.successes == 0,
            p.num_done == num_done,
            p.total == total,
            p.failed_at is None,
            p.invoked@.len() == 0,
    {
        proof {
            assert(order@.take(0) =~= Seq::<usize>::empty());
        }
        VerifyPass {
            order,
            position: 0,
            successes: 0,
            num_done,
            total,
            failed_at: None,
            invoked: Vec::new(),
        }
    }

    /// The exercise to grade next, while the pass is running.
    pub fn next_exercise(&self) -> (r: Option<usize>)
        requires
            self.wf(),
        ensures
            self.in_progress() ==> r == Some(self.order@[self.position as int]),
            !self.in_progress() ==> r is None,
    {
        if self.failed_at.is_none() && self.position < self.order.len() {
            Some(self.order[self.position])
        } else {
            None
        }
    }

    /// Record the graded outcome of the current exercise: advance on a
    /// definitive success, otherwise mark the pass failed at it.
    pub fn record(&mut self, outcome: StepOutcome)
        requires
            old(self).wf(),
            old(self).in_progress(),
        ensures
            final(self).wf(),
            final(self).order == old(self).order,
            final(self).num_done == old(self).num_done,
            final(self).total == old(self).total,
            final(self).invoked@ == old(self).invoked@.push(
                old(self).order@[old(self).position as int],
            ),
            outcome is SuccessDone ==> {
                &&& final(self).position == old(self).position + 1
                &&& final(self).successes == old(self).successes + 1
                &&& final(self).failed_at is None
            },
            !(outcome is SuccessDone) ==> {
                &&& final(self).position == old(self).position
                &&& final(self).successes == old(self).successes
                &&& final(self).failed_at == Some(old(self).order@[old(self).position as int])
            },
    {
        let ex = self.order[self.position];
        self.invoked.push(ex);
        proof {
            assert(self.order@.take(self.position as int).push(ex) =~= self.order@.take(
                self.position + 1,
            ));
        }
        match outcome {
            StepOutcome::SuccessDone => {
                self.position = self.position + 1;
                self.successes = self.successes + 1;
            },
            _ => {
                self.failed_at = Some(ex);
            },
        }
    }

    /// The outcome of the pass once it has ended: `Ok` when every
    /// exercise in the sequence reached the done state, `Err` with the
    /// failing exercise's index otherwise.
    pub fn outcome(&self) -> (r: Option<Result<(), usize>>)
        requires
            self.wf(),
        ensures
            self.in_progress() ==> r is None,
            !self.in_progress() ==> match self.failed_at {
                Some(i) => r == Some(Err::<(), usize>(i)),
                None => r == Some(Ok::<(), usize>(())),
            },
    {
        match self.failed_at {
            Some(i) => Some(Err(i)),
            None => {
                if self.position == self.order.len() {
                    Some(Ok(()))
                } else {
                    None
                }
            },
        }
    }

    /// Progress for display: exercises done so far, counting one unit
    /// per definitive success of this pass, and the total.
    pub fn progress(&self) -> (p: (usize, usize))
        requires
            self.wf(),
        ensures
            p.0 == self.num_done + self.successes,
            p.1 == self.total,
    {
        (self.num_done + self.successes, self.total)
    }
}

/// The fraction of the curriculum completed, in tenths of a percent:
/// the figure behind the progress display.
pub fn percent_tenths(done: usize, total: usize) -> (r: usize)
    requires
        0 < total,
        done <= total,
        done <= usize::MAX / 1000,
    ensures
        r == (done as int) * 1000 / (total as int),
{
    (done * 1000) / total
}

/// Grade an ordered sequence of exercises, fail-fast.
///
/// `order` holds the exercise indices in grading order and
/// `outcomes[i]` the graded outcome of the exercise at sequence
/// position `i`. Returns `Ok` only if every exercise in the sequence
/// reaches the done state, and `Err` with the first failing exercise's
/// index otherwise; outcomes after the first failure are never
/// consulted.
pub fn verify(order: &Vec<usize>, outcomes: &Vec<StepOutcome>) -> (r: Result<(), usize>)
    requires
        outcomes@.len() == order@.len(),
    ensures
        r == pass_result(order@, outcomes@),
{
    let n = order.len();
    let mut i: usize = 0;
    while i < n
        invariant
            i <= n,
            n == order@.len(),
            outcomes@.len() == n,
            forall|j: int| 0 <= j < i ==> outcomes@[j] is SuccessDone,
        decreases n - i,
    {
        let oc = outcomes[i];
        if !outcome_passes(&oc) {
            proof {
                lemma_first_failure_is_first(outcomes@, i as int);
            }
            return Err(order[i]);
        }
        i += 1;
    }
    proof {
        lemma_first_failure_is_first(outcomes@, n as int);
    }
    Ok(())
}

/// When every exercise in the sequence passes, the pass returns `Ok`,
/// and it grades every exercise exactly once, in sequence order.
pub proof fn lemma_all_pass(order: Seq<usize>, outcomes: Seq<StepOutcome>)
    requires
        outcomes.len() == order.len(),
        forall|i: int| 0 <= i < outcomes.len() ==> outcomes[i] is SuccessDone,
    ensures
        pass_result(order, outcomes) == Ok::<(), usize>(()),
        invoked_count(outcomes) == order.len(),
        order.take(invoked_count(outcomes)) == order,
{
    lemma_first_failure_is_first(outcomes, outcomes.len() as int);
    assert(order.take(order.len() as int) =~= order);
}

/// When the first failure in the sequence is at position `k`, the pass
/// returns `Err` with the exercise at that position, and it grades the
/// exercises at positions `0..=k` only.
pub proof fn lemma_fail_fast(order: Seq<usize>, outcomes: Seq<StepOutcome>, k: int)
    requires
        outcomes.len() == order.len(),
        0 <= k < outcomes.len(),
        !(outcomes[k] is SuccessDone),
        forall|j: int| 0 <= j < k ==> outcomes[j] is SuccessDone,
    ensures
        pass_result(order, outcomes) == Err::<(), usize>(order[k]),
        invoked_count(outcomes) == k + 1,
{
    lemma_first_failure_is_first(outcomes, k);
}

/// Re-running a pass on a sequence where nothing changed — the same
/// order and, since completion is re-read from the unchanged files,
/// the same outcomes — fails at the same exercise and leaves the same
/// hint.
pub proof fn lemma_rerun_unchanged(
    exercises: Seq<Exercise>,
    order: Seq<usize>,
    first: Seq<StepOutcome>,
    second: Seq<StepOutcome>,
    k: int,
)
    requires
        second == first,
        first_failure(first) == Some(k),
    ensures
        first_failure(second) == Some(k),
        pass_result(order, second) == pass_result(order, first),
        hint_after(exercises, pass_result(order, second)) == hint_after(
            exercises,
            pass_result(order, first),
        ),
{
}

} // verus!
