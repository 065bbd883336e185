//! The watch coordinator.
//!
//! A watch session starts with a full verification pass. If that pass
//! fails, the coordinator stores the failing exercise's hint in the
//! state it shares with the interactive shell and enters its polling
//! loop: wait a bounded time for a debounced file-change event, run a
//! reordered pass when an actionable event arrives, and re-check the
//! shell's quit flag at the end of every cycle. The application owns
//! the lock around the shared state, the event queue and the toolchain;
//! every decision is taken here, on plain values.

use vstd::prelude::*;
use crate::exercise::Exercise;
use crate::path_match::{has_source_extension, path_match, file_matches_exercise, is_source_file};

verus! {

/// How a watch session ends: every exercise done, or quit requested.
#[derive(Clone, Copy, PartialEq, Eq, Structural, Debug)]
pub enum WatchStatus {
    Finished,
    Unfinished,
}

/// State shared between the coordinator and the interactive shell.
///
/// The application keeps one value of this behind a lock; each function
/// taking it works on the locked-out value, so a call is one short
/// critical section and readers never see a partial update.
pub struct SharedWatchState {
    /// The currently failing exercise's hint, shown by the `hint`
    /// command.
    pub current_hint: Option<String>,
    /// Set by the shell's `quit` command, polled by the coordinator at
    /// the end of every cycle.
    pub quit_requested: bool,
}

/// The kind of a debounced file-change notification.
#[derive(Clone, Copy, PartialEq, Eq, Structural, Debug)]
pub enum ChangeKind {
    /// A file was created.
    Created,
    /// A file's contents or permissions changed.
    Modified,
    /// Any other notification; never actionable.
    Other,
}

/// One debounced file-change event, as handed over by the watcher.
pub struct ChangeEvent {
    pub kind: ChangeKind,
    /// Path of the file the event is about.
    pub path: String,
    /// Whether the file still existed when the event was delivered.
    pub path_exists: bool,
}

/// What the coordinator's bounded wait for an event returned.
pub enum WatchPoll {
    /// A debounced change event arrived.
    Event(ChangeEvent),
    /// The wait timed out; only the quit flag is checked this cycle.
    TimedOut,
    /// The watcher reported a transient error; logged, the loop goes
    /// on.
    WatchError,
}

/// A verification pass the coordinator has decided to run.
pub struct PassPlan {
    /// Exercise indices in grading order.
    pub order: Vec<usize>,
    /// Exercises already done, for the progress display.
    pub num_done: usize,
    /// Total number of exercises in the curriculum.
    pub total: usize,
}

/// The coordinator's decision for one polling cycle.
pub enum CycleDecision {
    /// Clear the screen and run a verification pass.
    RunPass(PassPlan),
    /// Nothing to grade this cycle.
    Wait,
}

/// An event is worth a verification pass: a creation or modification
/// of a source file that still exists.
pub open spec fn actionable(e: ChangeEvent) -> bool {
    &&& e.kind is Created || e.kind is Modified
    &&& has_source_extension(e.path@)
    &&& e.path_exists
}

/// A polling cycle runs a pass exactly when an actionable event
/// arrived.
pub open spec fn cycle_runs_pass(poll: WatchPoll) -> bool {
    poll matches WatchPoll::Event(e) && actionable(e)
}

/// How many exercises are marked done.
pub open spec fn count_done(done: Seq<bool>) -> int
    decreases done.len(),
{
    if done.len() == 0 {
        0
    } else {
        count_done(done.drop_last()) + if done.last() {
            1int
        } else {
            0int
        }
    }
}

/// The exercise a changed file refers to: the first, from position `i`
/// on, whose path matches the changed path.
pub open spec fn first_match(exercises: Seq<Exercise>, changed: Seq<char>, i: int) -> Option<int>
    decreases exercises.len() - i,
{
    if i < 0 || i >= exercises.len() {
        None
    } else if path_match(changed, exercises[i].path@) {
        Some(i)
    } else {
        first_match(exercises, changed, i + 1)
    }
}

/// The tail of a reordered watch sequence: the not-yet-done exercises
/// the change does not refer to, in curriculum order, from position
/// `i` on.
pub open spec fn rest_order(
    exercises: Seq<Exercise>,
    done: Seq<bool>,
    changed: Seq<char>,
    i: int,
) -> Seq<usize>
    decreases exercises.len() - i,
{
    if i < 0 || i >= exercises.len() {
        Seq::empty()
    } else {
        let tail = rest_order(exercises, done, changed, i + 1);
        if !done[i] && !path_match(changed, exercises[i].path@) {
            seq![i as usize] + tail
        } else {
            tail
        }
    }
}

/// The grading order after a change: the exercise the changed file
/// refers to first, if any, then the not-yet-done exercises it does
/// not refer to, in curriculum order.
pub open spec fn watch_order(exercises: Seq<Exercise>, done: Seq<bool>, changed: Seq<char>) -> Seq<
    usize,
> {
    let rest = rest_order(exercises, done, changed, 0);
    match first_match(exercises, changed, 0) {
        Some(m) => seq![m as usize] + rest,
        None => rest,
    }
}

/// `first_match` yields a matching exercise and skips only
/// non-matching ones.
pub proof fn lemma_first_match_props(exercises: Seq<Exercise>, changed: Seq<char>, i: int)
    requires
        0 <= i,
    ensures
        match first_match(exercises, changed, i) {
            Some(m) => {
                &&& i <= m < exercises.len()
                &&& path_match(changed, exercises[m].path@)
                &&& forall|j: int| i <= j < m ==> !path_match(changed, exercises[j].path@)
            },
            None => forall|j: int|
                i <= j < exercises.len() ==> !path_match(changed, exercises[j].path@),
        },
    decreases exercises.len() - i,
{
    if i < 0 || i >= exercises.len() {
    } else if path_match(changed, exercises[i].path@) {
    } else {
        lemma_first_match_props(exercises, changed, i + 1);
    }
}

/// The reordered tail holds exactly the not-yet-done exercises the
/// change does not refer to, each once, in curriculum order.
pub proof fn lemma_rest_order_entries(
    exercises: Seq<Exercise>,
    done: Seq<bool>,
    changed: Seq<char>,
    i: int,
)
    requires
        0 <= i,
        done.len() == exercises.len(),
        exercises.len() <= usize::MAX,
    ensures
        ({
            let rest = rest_order(exercises, done, changed, i);
            &&& rest.len() <= exercises.len() - i || rest.len() == 0
            &&& forall|j: int|
                0 <= j < rest.len() ==> i <= #[trigger] rest[j] < exercises.len() && !done[rest[j] as int]
                    && !path_match(changed, exercises[rest[j] as int].path@)
            &&& forall|j1: int, j2: int| 0 <= j1 < j2 < rest.len() ==> rest[j1] < rest[j2]
            &&& forall|k: int|
                i <= k < exercises.len() && !done[k] && !path_match(changed, exercises[k].path@)
                    ==> rest.contains(k as usize)
        }),
    decreases exercises.len() - i,
{
    let rest = rest_order(exercises, done, changed, i);
    if i < 0 || i >= exercises.len() {
    } else {
        lemma_rest_order_entries(exercises, done, changed, i + 1);
        let tail = rest_order(exercises, done, changed, i + 1);
        if !done[i] && !path_match(changed, exercises[i].path@) {
            assert(rest == seq![i as usize] + tail);
            assert(rest[0] == i as usize);
            assert(forall|j: int| 1 <= j < rest.len() ==> rest[j] == tail[j - 1]);
            assert forall|k: int|
                i <= k < exercises.len() && !done[k] && !path_match(changed, exercises[k].path@)
                    implies rest.contains(k as usize) by {
                if k == i {
                    assert(rest[0] == k as usize);
                } else {
                    assert(tail.contains(k as usize));
                    let j = choose|j: int| 0 <= j < tail.len() && tail[j] == k as usize;
                    assert(rest[j + 1] == k as usize);
                }
            }
        } else {
            assert(rest == tail);
            assert forall|k: int|
                i <= k < exercises.len() && !done[k] && !path_match(changed, exercises[k].path@)
                    implies rest.contains(k as usize) by {
                assert(k != i);
                assert(tail.contains(k as usize));
            }
        }
    }
}

/// The reordered sequence is never longer than the curriculum: the
/// referred exercise stands only at the head, never again in the tail.
pub proof fn lemma_watch_order_len(exercises: Seq<Exercise>, done: Seq<bool>, changed: Seq<char>)
    requires
        done.len() == exercises.len(),
        exercises.len() <= usize::MAX,
    ensures
        watch_order(exercises, done, changed).len() <= exercises.len(),
{
    lemma_first_match_props(exercises, changed, 0);
    lemma_rest_order_entries(exercises, done, changed, 0);
    let rest = rest_order(exercises, done, changed, 0);
    match first_match(exercises, changed, 0) {
        Some(m) => {
            if rest.len() + 1 > exercises.len() {
                // a strictly increasing sequence of `rest.len()` indices
                // drawn from `0..exercises.len()` that all avoid `m`
                // cannot be that long
                lemma_increasing_avoiding_len(rest, exercises.len() as int, m);
            }
        },
        None => {
        },
    }
}

/// A strictly increasing sequence of indices below `n` that avoids one
/// index `m` in `0..n` has fewer than `n` entries.
proof fn lemma_increasing_avoiding_len(s: Seq<usize>, n: int, m: int)
    requires
        0 <= m < n,
        forall|j: int| 0 <= j < s.len() ==> 0 <= #[trigger] s[j] < n && s[j] != m,
        forall|j1: int, j2: int| 0 <= j1 < j2 < s.len() ==> s[j1] < s[j2],
    ensures
        s.len() < n,
    decreases n,
{
    if s.len() == 0 {
    } else if n == 1 {
        assert(s[0] != m);
        assert(false);
    } else {
        // drop the last entry and shrink the range
        let last = s[s.len() - 1] as int;
        let front = s.drop_last();
        assert(forall|j: int| 0 <= j < front.len() ==> front[j] == s[j]);
        if last == n - 1 {
            if m == n - 1 {
                assert(s[s.len() - 1] != m);
                assert(false);
            }
            lemma_increasing_avoiding_len(front, n - 1, m);
        } else {
            // every entry is below n - 1
            assert(forall|j: int| 0 <= j < s.len() ==> s[j] <= last);
            if m < n - 1 {
                lemma_increasing_avoiding_len(s, n - 1, m);
            } else {
                lemma_all_below_len(s, n - 1);
            }
        }
    }
}

/// A strictly increasing sequence of indices below `n` has at most `n`
/// entries.
proof fn lemma_all_below_len(s: Seq<usize>, n: int)
    requires
        0 <= n,
        forall|j: int| 0 <= j < s.len() ==> 0 <= #[trigger] s[j] < n,
        forall|j1: int, j2: int| 0 <= j1 < j2 < s.len() ==> s[j1] < s[j2],
    ensures
        s.len() <= n,
    decreases n,
{
    if s.len() == 0 {
    } else {
        assert(s[s.len() - 1] < n);
        let front = s.drop_last();
        assert(forall|j: int| 0 <= j < front.len() ==> front[j] == s[j]);
        assert(forall|j: int| 0 <= j < front.len() ==> front[j] < s[s.len() - 1]);
        lemma_all_below_len(front, n - 1);
    }
}

/// Whether the event is worth a verification pass.
pub fn is_actionable(e: &ChangeEvent) -> (r: bool)
    ensures
        r == actionable(*e),
{
    let kind_ok = match e.kind {
        ChangeKind::Created => true,
        ChangeKind::Modified => true,
        ChangeKind::Other => false,
    };
    kind_ok && e.path_exists && is_source_file(e.path.as_str())
}

/// Count the exercises marked done, for the progress display.
pub fn num_done_of(done: &Vec<bool>) -> (r: usize)
    ensures
        r == count_done(done@),
        r <= done@.len(),
{
    let n = done.len();
    let mut r: usize = 0;
    let mut i: usize = 0;
    while i < n
        invariant
            i <= n,
            n == done@.len(),
            r <= i,
            r == count_done(done@.take(i as int)),
        decreases n - i,
    {
        proof {
            assert(done@.take(i + 1).drop_last() =~= done@.take(i as int));
            assert(done@.take(i + 1).last() == done@[i as int]);
        }
        if done[i] {
            r = r + 1;
        }
        i += 1;
    }
    proof {
        assert(done@.take(n as int) =~= done@);
    }
    r
}

/// Build the reordered grading sequence for a change: the exercise the
/// changed path refers to first, if any, then the not-yet-done
/// exercises it does not refer to, in curriculum order.
pub fn build_watch_order(exercises: &Vec<Exercise>, done: &Vec<bool>, changed: &str) -> (order:
    Vec<usize>)
    requires
        done@.len() == exercises@.len(),
    ensures
        order@ == watch_order(exercises@, done@, changed@),
        order@.len() <= exercises@.len(),
        forall|j: int| 0 <= j < order@.len() ==> #[trigger] order@[j] < exercises@.len(),
{
    let n = exercises.len();
    let mut head: Option<usize> = None;
    let mut i: usize = 0;
    while i < n
        invariant
            i <= n,
            n == exercises@.len(),
            head is None ==> first_match(exercises@, changed@, 0) == first_match(
                exercises@,
                changed@,
                i as int,
            ),
            head matches Some(k) ==> first_match(exercises@, changed@, 0) == Some(k as int),
        decreases n - i,
    {
        if head.is_none() {
            if file_matches_exercise(changed, exercises[i].path.as_str()) {
                head = Some(i);
            }
        }
        i += 1;
    }
    let mut rest: Vec<usize> = Vec::new();
    let mut j: usize = 0;
    while j < n
        invariant
            j <= n,
            n == exercises@.len(),
            done@.len() == n,
            rest@ + rest_order(exercises@, done@, changed@, j as int) == rest_order(
                exercises@,
                done@,
                changed@,
                0,
            ),
        decreases n - j,
    {
        if !done[j] && !file_matches_exercise(changed, exercises[j].path.as_str()) {
            rest.push(j);
            proof {
                assert(rest@ =~= rest@.drop_last() + seq![j]);
                assert(rest@.drop_last() + (seq![j] + rest_order(
                    exercises@,
                    done@,
                    changed@,
                    j + 1,
                )) =~= rest@ + rest_order(exercises@, done@, changed@, j + 1));
            }
        }
        j += 1;
    }
    proof {
        assert(rest@ + rest_order(exercises@, done@, changed@, n as int) =~= rest@);
        lemma_watch_order_len(exercises@, done@, changed@);
    }
    let mut order: Vec<usize> = Vec::new();
    if let Some(k) = head {
        order.push(k);
    }
    order.append(&mut rest);
    proof {
        lemma_rest_order_entries(exercises@, done@, changed@, 0);
        lemma_first_match_props(exercises@, changed@, 0);
        let rest_entries = rest_order(exercises@, done@, changed@, 0);
        match first_match(exercises@, changed@, 0) {
            Some(m) => {
                assert(order@ =~= seq![m as usize] + rest_entries);
                assert forall|j: int| 0 <= j < order@.len() implies #[trigger] order@[j]
                    < exercises@.len() by {
                    if j > 0 {
                        assert(order@[j] == rest_entries[j - 1]);
                    }
                }
            },
            None => {
                assert(order@ =~= rest_entries);
            },
        }
    }
    order
}

/// The initial full pass of a watch session: every exercise, in
/// curriculum order.
pub fn initial_order(exercises: &Vec<Exercise>) -> (order: Vec<usize>)
    ensures
        order@.len() == exercises@.len(),
        forall|i: int| 0 <= i < order@.len() ==> order@[i] == i,
{
    let n = exercises.len();
    let mut order: Vec<usize> = Vec::new();
    let mut i: usize = 0;
    while i < n
        invariant
            i <= n,
            order@.len() == i,
            forall|k: int| 0 <= k < i ==> order@[k] == k,
        decreases n - i,
    {
        order.push(i);
        i += 1;
    }
    order
}

/// Decide one polling cycle from what the bounded wait returned: only
/// a creation or modification of a still-existing source file triggers
/// a new, reordered verification pass; a timeout, a watcher error or
/// an unrelated file is waited out.
pub fn plan_cycle(poll: &WatchPoll, exercises: &Vec<Exercise>, done: &Vec<bool>) -> (d:
    CycleDecision)
    requires
        done@.len() == exercises@.len(),
    ensures
        match *poll {
            WatchPoll::Event(e) => {
                if actionable(e) {
                    d matches CycleDecision::RunPass(p) && p.order@ == watch_order(
                        exercises@,
                        done@,
                        e.path@,
                    ) && p.num_done == count_done(done@) && p.total == exercises@.len()
                } else {
                    d is Wait
                }
            },
            _ => d is Wait,
        },
        d is RunPass <==> cycle_runs_pass(*poll),
        d matches CycleDecision::RunPass(p) ==> p.order@.len() <= exercises@.len() && p.num_done
            <= exercises@.len() && (forall|j: int|
            0 <= j < p.order@.len() ==> #[trigger] p.order@[j] < exercises@.len()),
{
    match poll {
        WatchPoll::Event(e) => {
            if is_actionable(e) {
                let order = build_watch_order(exercises, done, e.path.as_str());
                let nd = num_done_of(done);
                CycleDecision::RunPass(PassPlan { order, num_done: nd, total: exercises.len() })
            } else {
                CycleDecision::Wait
            }
        },
        WatchPoll::TimedOut => CycleDecision::Wait,
        WatchPoll::WatchError => CycleDecision::Wait,
    }
}

/// Store a pass's outcome in the shared state: a success ends the
/// session as Finished; a failure makes the failing exercise's hint
/// the current one and the session goes on watching.
pub fn record_pass_result(
    state: &mut SharedWatchState,
    exercises: &Vec<Exercise>,
    r: &Result<(), usize>,
) -> (end: Option<WatchStatus>)
    requires
        *r matches Err(i) ==> i < exercises@.len(),
    ensures
        final(state).quit_requested == old(state).quit_requested,
        match *r {
            Ok(_) => end == Some(WatchStatus::Finished) && final(state).current_hint == old(
                state,
            ).current_hint,
            Err(i) => end is None && (final(state).current_hint matches Some(h) && h@
                == exercises@[i as int].hint@),
        },
{
    match r {
        Ok(_) => Some(WatchStatus::Finished),
        Err(i) => {
            state.current_hint = Some(exercises[*i].hint.clone());
            None
        },
    }
}

/// The end-of-cycle quit check: once the shell has requested quitting,
/// the session ends as Unfinished. The coordinator re-reads the flag
/// every cycle, so a quit is honoured within one polling timeout even
/// when no change event ever arrives.
pub fn should_end(state: &SharedWatchState) -> (r: Option<WatchStatus>)
    ensures
        r == if state.quit_requested {
            Some(WatchStatus::Unfinished)
        } else {
            None::<WatchStatus>
        },
{
    if state.quit_requested {
        Some(WatchStatus::Unfinished)
    } else {
        None
    }
}

/// Once quit is requested, the next polling cycle ends the session as
/// Unfinished even when no change event arrives: a cycle without an
/// event runs no pass, so nothing can end the session as Finished
/// before [`should_end`] reads the flag.
pub proof fn lemma_quit_ends_cycle(state: SharedWatchState, poll: WatchPoll)
    requires
        state.quit_requested,
        !(poll is Event),
    ensures
        !cycle_runs_pass(poll),
{
}

/// A change referring to a known exercise is graded first: the head of
/// the reordered sequence is the first exercise whose path the change
/// refers to, it appears nowhere else in the sequence, and the tail
/// holds only not-yet-done exercises in curriculum order.
pub proof fn lemma_changed_exercise_first(
    exercises: Seq<Exercise>,
    done: Seq<bool>,
    changed: Seq<char>,
    m: int,
)
    requires
        first_match(exercises, changed, 0) == Some(m),
        done.len() == exercises.len(),
        exercises.len() <= usize::MAX,
    ensures
        watch_order(exercises, done, changed).len() > 0,
        watch_order(exercises, done, changed)[0] == m as usize,
        0 <= m < exercises.len(),
        path_match(changed, exercises[m].path@),
        forall|j: int|
            1 <= j < watch_order(exercises, done, changed).len() ==> #[trigger] watch_order(
                exercises,
                done,
                changed,
            )[j] != m as usize && !done[watch_order(exercises, done, changed)[j] as int],
        forall|j1: int, j2: int|
            1 <= j1 < j2 < watch_order(exercises, done, changed).len() ==> watch_order(
                exercises,
                done,
                changed,
            )[j1] < watch_order(exercises, done, changed)[j2],
{
    lemma_first_match_props(exercises, changed, 0);
    lemma_rest_order_entries(exercises, done, changed, 0);
    let rest = rest_order(exercises, done, changed, 0);
    let order = watch_order(exercises, done, changed);
    assert(order == seq![m as usize] + rest);
    assert forall|j: int| 1 <= j < order.len() implies #[trigger] order[j] != m as usize && !done[order[j] as int] by {
        assert(order[j] == rest[j - 1]);
        assert(!path_match(changed, exercises[rest[j - 1] as int].path@));
    }
    assert forall|j1: int, j2: int| 1 <= j1 < j2 < order.len() implies order[j1] < order[j2] by {
        assert(order[j1] == rest[j1 - 1]);
        assert(order[j2] == rest[j2 - 1]);
    }
}

} // verus!
