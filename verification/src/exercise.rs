//! Exercises and their per-pass states.

use vstd::prelude::*;
use crate::path_match::str_eq;

verus! {

/// How an exercise is graded: by compiling and running it, or by
/// running its test harness.
#[derive(Clone, Copy, PartialEq, Eq, Structural, Debug)]
pub enum Mode {
    Compile,
    Test,
}

/// One learning unit: a named source file with a grading mode and a
/// hint shown while the exercise is the failing one.
///
/// Exercises are loaded once from the manifest and never mutated; the
/// engine only reads them.
pub struct Exercise {
    /// Unique name, used to look the exercise up from the command line.
    pub name: String,
    /// Location of the source file, relative to the exercises root.
    pub path: String,
    /// Grading mode.
    pub mode: Mode,
    /// Free text shown to the learner on failure.
    pub hint: String,
}

/// One annotated source line shown when an exercise is still pending.
pub struct ContextLine {
    /// Line number in the exercise's source file.
    pub number: usize,
    /// The text of the line.
    pub line: String,
    /// Whether the line should be highlighted.
    pub important: bool,
}

/// Completion snapshot of an exercise, derived by re-reading its source
/// file: either the pending marker is gone, or it is still present and
/// the lines around it are reported for display.
pub enum ExerciseState {
    Done,
    Pending(Vec<ContextLine>),
}

/// The keyword that asks for the next pending exercise instead of one
/// by name.
pub open spec fn next_keyword() -> Seq<char> {
    seq!['s', 'i', 'g', 'u', 'i', 'e', 'n', 't', 'e']
}

/// The first exercise, from position `i` on, that is not yet done.
pub open spec fn first_pending(done: Seq<bool>, i: int) -> Option<usize>
    decreases done.len() - i,
{
    if i < 0 || i >= done.len() {
        None
    } else if !done[i] {
        Some(i as usize)
    } else {
        first_pending(done, i + 1)
    }
}

/// The first exercise, from position `i` on, with the given name.
pub open spec fn first_named(exercises: Seq<Exercise>, name: Seq<char>, i: int) -> Option<usize>
    decreases exercises.len() - i,
{
    if i < 0 || i >= exercises.len() {
        None
    } else if exercises[i].name@ == name {
        Some(i as usize)
    } else {
        first_named(exercises, name, i + 1)
    }
}

/// What a name given on the command line refers to: under the
/// next-exercise keyword, the first not-yet-done exercise; otherwise
/// the first exercise carrying that name.
pub open spec fn lookup(exercises: Seq<Exercise>, done: Seq<bool>, name: Seq<char>) -> Option<
    usize,
> {
    if name == next_keyword() {
        first_pending(done, 0)
    } else {
        first_named(exercises, name, 0)
    }
}

/// Look an exercise up by name, for the commands that act on a single
/// exercise. `done` holds, per exercise, whether its source file no
/// longer carries the pending marker, re-read by the caller.
pub fn find_exercise(name: &str, exercises: &Vec<Exercise>, done: &Vec<bool>) -> (r: Option<usize>)
    requires
        done@.len() == exercises@.len(),
    ensures
        r == lookup(exercises@, done@, name@),
        r matches Some(i) ==> i < exercises@.len(),
{
    proof {
        reveal_strlit("siguiente");
        assert("siguiente"@ =~= next_keyword());
    }
    let n = exercises.len();
    let mut r: Option<usize> = None;
    if str_eq(name, "siguiente") {
        let mut i: usize = 0;
        while i < n
            invariant
                i <= n,
                n == done@.len(),
                r is None ==> first_pending(done@, 0) == first_pending(done@, i as int),
                r matches Some(k) ==> first_pending(done@, 0) == Some(k) && k < n,
            decreases n - i,
        {
            if r.is_none() && !done[i] {
                r = Some(i);
            }
            i += 1;
        }
    } else {
        let mut i: usize = 0;
        while i < n
            invariant
                i <= n,
                n == exercises@.len(),
                r is None ==> first_named(exercises@, name@, 0) == first_named(
                    exercises@,
                    name@,
                    i as int,
                ),
                r matches Some(k) ==> first_named(exercises@, name@, 0) == Some(k) && k < n,
            decreases n - i,
        {
            if r.is_none() && str_eq(name, exercises[i].name.as_str()) {
                r = Some(i);
            }
            i += 1;
        }
    }
    r
}

} // verus!
