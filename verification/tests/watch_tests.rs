use starklings::exercise::{Exercise, Mode};
use starklings::verify::{verify, StepOutcome};
use starklings::watch::{
    build_watch_order, initial_order, is_actionable, num_done_of, plan_cycle, record_pass_result,
    should_end, ChangeEvent, ChangeKind, CycleDecision, SharedWatchState, WatchPoll, WatchStatus,
};

fn exercise(name: &str, path: &str, mode: Mode, hint: &str) -> Exercise {
    Exercise { name: name.to_string(), path: path.to_string(), mode, hint: hint.to_string() }
}

fn curriculum() -> Vec<Exercise> {
    vec![
        exercise("a", "exercises/intro/a.cairo", Mode::Compile, "H_A"),
        exercise("b", "exercises/intro/b.cairo", Mode::Compile, "H_B"),
        exercise("c", "exercises/tests/c.cairo", Mode::Test, "H_C"),
    ]
}

fn event(kind: ChangeKind, path: &str, path_exists: bool) -> ChangeEvent {
    ChangeEvent { kind, path: path.to_string(), path_exists }
}

#[test]
fn unrelated_file_without_extension_triggers_no_pass() {
    let exercises = curriculum();
    let done = vec![false, false, false];
    let ev = event(ChangeKind::Modified, "/work/notes/todo.txt", true);
    assert!(!is_actionable(&ev));
    let decision = plan_cycle(&WatchPoll::Event(ev), &exercises, &done);
    assert!(matches!(decision, CycleDecision::Wait));
}

#[test]
fn deleted_file_triggers_no_pass() {
    let ev = event(ChangeKind::Modified, "/work/exercises/intro/a.cairo", false);
    assert!(!is_actionable(&ev));
}

#[test]
fn other_event_kinds_trigger_no_pass() {
    let ev = event(ChangeKind::Other, "/work/exercises/intro/a.cairo", true);
    assert!(!is_actionable(&ev));
}

#[test]
fn timeout_and_watcher_error_trigger_no_pass() {
    let exercises = curriculum();
    let done = vec![true, false, false];
    assert!(matches!(plan_cycle(&WatchPoll::TimedOut, &exercises, &done), CycleDecision::Wait));
    assert!(matches!(plan_cycle(&WatchPoll::WatchError, &exercises, &done), CycleDecision::Wait));
}

#[test]
fn changed_exercise_is_graded_first() {
    let exercises = curriculum();
    let done = vec![false, false, false];
    let order = build_watch_order(&exercises, &done, "/work/exercises/intro/b.cairo");
    assert_eq!(order, vec![1, 0, 2]);
}

#[test]
fn done_exercises_are_skipped_in_the_reordered_tail() {
    let exercises = curriculum();
    let done = vec![true, false, false];
    let order = build_watch_order(&exercises, &done, "/work/exercises/tests/c.cairo");
    assert_eq!(order, vec![2, 1]);
}

#[test]
fn unknown_source_file_reverifies_all_pending() {
    let exercises = curriculum();
    let done = vec![true, false, false];
    let order = build_watch_order(&exercises, &done, "/work/exercises/other/zz.cairo");
    assert_eq!(order, vec![1, 2]);
}

#[test]
fn actionable_event_plans_a_reordered_pass() {
    let exercises = curriculum();
    let done = vec![true, false, false];
    let ev = event(ChangeKind::Created, "/work/exercises/intro/b.cairo", true);
    match plan_cycle(&WatchPoll::Event(ev), &exercises, &done) {
        CycleDecision::RunPass(plan) => {
            assert_eq!(plan.order, vec![1, 2]);
            assert_eq!(plan.num_done, 1);
            assert_eq!(plan.total, 3);
        }
        CycleDecision::Wait => panic!("an actionable event must plan a pass"),
    }
}

#[test]
fn changed_done_exercise_is_still_graded_first() {
    // the changed exercise heads the sequence even when its marker is
    // already gone; completion is re-read, never cached
    let exercises = curriculum();
    let done = vec![true, false, false];
    let order = build_watch_order(&exercises, &done, "/work/exercises/intro/a.cairo");
    assert_eq!(order, vec![0, 1, 2]);
}

#[test]
fn nothing_pending_and_no_match_leaves_an_empty_pass() {
    let exercises = curriculum();
    let done = vec![true, true, true];
    let order = build_watch_order(&exercises, &done, "/work/exercises/other/zz.cairo");
    assert_eq!(order, Vec::<usize>::new());
    let outcomes: Vec<StepOutcome> = vec![];
    assert_eq!(verify(&order, &outcomes), Ok(()));
}

#[test]
fn initial_pass_covers_the_whole_curriculum_in_order() {
    let exercises = curriculum();
    assert_eq!(initial_order(&exercises), vec![0, 1, 2]);
    assert_eq!(num_done_of(&vec![true, false, true]), 2);
}

#[test]
fn failing_pass_stores_the_hint_and_keeps_watching() {
    let exercises = curriculum();
    let mut state = SharedWatchState { current_hint: None, quit_requested: false };
    let end = record_pass_result(&mut state, &exercises, &Err(1));
    assert_eq!(end, None);
    assert_eq!(state.current_hint.as_deref(), Some("H_B"));
    assert!(!state.quit_requested);
}

#[test]
fn successful_pass_finishes_the_session() {
    let exercises = curriculum();
    let mut state = SharedWatchState { current_hint: Some("H_B".to_string()), quit_requested: false };
    let end = record_pass_result(&mut state, &exercises, &Ok(()));
    assert_eq!(end, Some(WatchStatus::Finished));
}

#[test]
fn quit_flag_ends_the_next_cycle_unfinished() {
    let quitting = SharedWatchState { current_hint: Some("H_B".to_string()), quit_requested: true };
    assert_eq!(should_end(&quitting), Some(WatchStatus::Unfinished));
    let staying = SharedWatchState { current_hint: Some("H_B".to_string()), quit_requested: false };
    assert_eq!(should_end(&staying), None);
}

#[test]
fn watch_session_reverifies_on_change_until_all_done() {
    // exercises: a done, b pending (Compile), c pending (Test); the
    // initial pass fails at b with hint H_B
    let exercises = curriculum();
    let mut state = SharedWatchState { current_hint: Some("H_B".to_string()), quit_requested: false };

    // a change event for b's path arrives; b now passes and its marker
    // is gone, so only c is still pending — but b, as the changed
    // exercise, is graded first all the same
    let done = vec![true, true, false];
    let ev = event(ChangeKind::Modified, "/work/exercises/intro/b.cairo", true);
    let plan = match plan_cycle(&WatchPoll::Event(ev), &exercises, &done) {
        CycleDecision::RunPass(plan) => plan,
        CycleDecision::Wait => panic!("the change refers to a known exercise"),
    };
    assert_eq!(plan.order, vec![1, 2]);
    assert_eq!(plan.num_done, 2);
    // b is graded first and passes; c is graded next and still fails
    let outcomes = vec![StepOutcome::SuccessDone, StepOutcome::ToolchainFailure];
    let result = verify(&plan.order, &outcomes);
    assert_eq!(result, Err(2));
    let end = record_pass_result(&mut state, &exercises, &result);
    assert_eq!(end, None);
    assert_eq!(state.current_hint.as_deref(), Some("H_C"));
    // no quit was requested: the session keeps watching
    assert_eq!(should_end(&state), None);

    // after the next edit both remaining exercises pass
    let done = vec![true, true, false];
    let ev = event(ChangeKind::Modified, "/work/exercises/tests/c.cairo", true);
    let plan = match plan_cycle(&WatchPoll::Event(ev), &exercises, &done) {
        CycleDecision::RunPass(plan) => plan,
        CycleDecision::Wait => panic!("the change refers to a known exercise"),
    };
    assert_eq!(plan.order, vec![2]);
    assert_eq!(plan.num_done, 2);
    let outcomes = vec![StepOutcome::SuccessDone];
    let result = verify(&plan.order, &outcomes);
    let end = record_pass_result(&mut state, &exercises, &result);
    assert_eq!(end, Some(WatchStatus::Finished));
}
