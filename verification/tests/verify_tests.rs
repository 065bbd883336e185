use starklings::exercise::{ContextLine, Exercise, ExerciseState, Mode};
use starklings::verify::{
    classify_outcome, outcome_passes, percent_tenths, verify, StepOutcome, VerificationOutcome,
    VerifyPass,
};

fn exercise(name: &str, path: &str, mode: Mode, hint: &str) -> Exercise {
    Exercise { name: name.to_string(), path: path.to_string(), mode, hint: hint.to_string() }
}

#[test]
fn all_passing_sequence_returns_ok() {
    let order: Vec<usize> = vec![0, 1, 2];
    let outcomes = vec![StepOutcome::SuccessDone, StepOutcome::SuccessDone, StepOutcome::SuccessDone];
    assert_eq!(verify(&order, &outcomes), Ok(()));
}

#[test]
fn empty_sequence_returns_ok() {
    let order: Vec<usize> = vec![];
    let outcomes = vec![];
    assert_eq!(verify(&order, &outcomes), Ok(()));
}

#[test]
fn first_failure_is_reported() {
    let order: Vec<usize> = vec![4, 2, 7];
    let outcomes = vec![StepOutcome::SuccessDone, StepOutcome::ToolchainFailure, StepOutcome::SuccessDone];
    assert_eq!(verify(&order, &outcomes), Err(2));
}

#[test]
fn still_pending_counts_as_failure() {
    let order: Vec<usize> = vec![0, 1];
    let outcomes = vec![StepOutcome::SuccessStillPending, StepOutcome::SuccessDone];
    assert_eq!(verify(&order, &outcomes), Err(0));
}

#[test]
fn rerun_without_changes_fails_at_the_same_exercise() {
    let order: Vec<usize> = vec![0, 1, 2];
    let outcomes = vec![StepOutcome::SuccessDone, StepOutcome::ToolchainFailure, StepOutcome::SuccessDone];
    let first = verify(&order, &outcomes);
    let second = verify(&order, &outcomes);
    assert_eq!(first, Err(1));
    assert_eq!(second, first);
}

#[test]
fn session_grades_in_order_and_stops_at_failure() {
    // exercises 5 and 9 pass, 3 fails: 8 must never be asked for
    let order: Vec<usize> = vec![5, 9, 3, 8];
    let outcomes = vec![
        StepOutcome::SuccessDone,
        StepOutcome::SuccessDone,
        StepOutcome::ToolchainFailure,
        StepOutcome::SuccessDone,
    ];
    let mut pass = VerifyPass::new(order, 1, 6);
    let mut graded: Vec<usize> = Vec::new();
    let mut i = 0;
    while let Some(ex) = pass.next_exercise() {
        graded.push(ex);
        pass.record(outcomes[i]);
        i += 1;
    }
    assert_eq!(graded, vec![5, 9, 3]);
    assert_eq!(pass.outcome(), Some(Err(3)));
    assert_eq!(pass.invoked, vec![5, 9, 3]);
    // two definitive successes on top of the one already done
    assert_eq!(pass.progress(), (3, 6));
}

#[test]
fn session_completes_when_all_pass() {
    let order: Vec<usize> = vec![0, 1];
    let mut pass = VerifyPass::new(order, 0, 2);
    assert_eq!(pass.outcome(), None);
    assert_eq!(pass.next_exercise(), Some(0));
    pass.record(StepOutcome::SuccessDone);
    assert_eq!(pass.next_exercise(), Some(1));
    pass.record(StepOutcome::SuccessDone);
    assert_eq!(pass.next_exercise(), None);
    assert_eq!(pass.outcome(), Some(Ok(())));
    assert_eq!(pass.progress(), (2, 2));
}

#[test]
fn toolchain_failure_aborts_whatever_the_marker_says() {
    let state = ExerciseState::Done;
    assert_eq!(
        classify_outcome(&VerificationOutcome::Failure, &state),
        StepOutcome::ToolchainFailure
    );
    assert!(!outcome_passes(&StepOutcome::ToolchainFailure));
}

#[test]
fn success_with_marker_still_present_keeps_the_exercise_pending() {
    let context = vec![ContextLine { number: 3, line: "// marker".to_string(), important: true }];
    let state = ExerciseState::Pending(context);
    let outcome = VerificationOutcome::Success("ran fine".to_string());
    assert_eq!(classify_outcome(&outcome, &state), StepOutcome::SuccessStillPending);
    assert!(!outcome_passes(&StepOutcome::SuccessStillPending));
}

#[test]
fn success_with_marker_removed_is_done() {
    let state = ExerciseState::Done;
    let outcome = VerificationOutcome::Success("ran fine".to_string());
    assert_eq!(classify_outcome(&outcome, &state), StepOutcome::SuccessDone);
    assert!(outcome_passes(&StepOutcome::SuccessDone));
}

#[test]
fn percentage_is_exact_in_tenths() {
    assert_eq!(percent_tenths(0, 4), 0);
    assert_eq!(percent_tenths(1, 3), 333);
    assert_eq!(percent_tenths(2, 3), 666);
    assert_eq!(percent_tenths(5, 8), 625);
    assert_eq!(percent_tenths(8, 8), 1000);
}

#[test]
fn modes_tell_run_and_test_exercises_apart() {
    let a = exercise("intro1", "exercises/intro/intro1.cairo", Mode::Compile, "just run it");
    let b = exercise("tests1", "exercises/tests/tests1.cairo", Mode::Test, "make the test pass");
    assert_eq!(a.mode, Mode::Compile);
    assert_eq!(b.mode, Mode::Test);
}
