//! Matching changed file paths against exercise paths.
//!
//! A change event carries the (absolute) path of the file that changed,
//! while an exercise records its path relative to the exercises root.
//! The two are related by a component-wise suffix check: the exercise
//! path must be the tail of the changed path, starting at a path
//! separator. A change is only worth reacting to at all when the file
//! carries the recognized source extension.

use vstd::prelude::*;
use vstd::string::StrSliceExecFns;

verus! {

/// `suffix` is the tail of `s`.
pub open spec fn is_char_suffix(suffix: Seq<char>, s: Seq<char>) -> bool {
    s.len() >= suffix.len() && s.subrange(s.len() - suffix.len(), s.len() as int) == suffix
}

/// The extension that marks a file as a source file of the curriculum,
/// including its leading dot.
pub open spec fn source_extension() -> Seq<char> {
    seq!['.', 'c', 'a', 'i', 'r', 'o']
}

/// A path names a source file of the curriculum: it ends in the
/// recognized extension, and the extension follows a non-empty file
/// stem (a file whose whole name is the extension has no extension).
pub open spec fn has_source_extension(p: Seq<char>) -> bool {
    &&& p.len() > source_extension().len()
    &&& is_char_suffix(source_extension(), p)
    &&& p[p.len() - source_extension().len() - 1] != '/'
}

/// A changed file path refers to an exercise path when the exercise
/// path is a component-wise suffix of it: the whole path, or its tail
/// right after a path separator.
pub open spec fn path_match(file: Seq<char>, exercise_path: Seq<char>) -> bool {
    ||| file == exercise_path
    ||| (file.len() > exercise_path.len() && is_char_suffix(exercise_path, file)
        && file[file.len() - exercise_path.len() - 1] == '/')
}

/// Whether `suffix` is the tail of `s`, comparing characters from the
/// back.
pub fn ends_with_chars(s: &str, suffix: &str) -> (r: bool)
    ensures
        r == is_char_suffix(suffix@, s@),
{
    let n = s.unicode_len();
    let m = suffix.unicode_len();
    if m > n {
        return false;
    }
    let mut i: usize = 0;
    while i < m
        invariant
            i <= m,
            m <= n,
            n == s@.len(),
            m == suffix@.len(),
            forall|j: int| 0 <= j < i ==> s@[n - m + j] == suffix@[j],
        decreases m - i,
    {
        if s.get_char(n - m + i) != suffix.get_char(i) {
            proof {
                assert(!is_char_suffix(suffix@, s@)) by {
                    if is_char_suffix(suffix@, s@) {
                        assert(s@.subrange(n - m, n as int)[i as int] == s@[n - m + i]);
                    }
                }
            }
            return false;
        }
        i += 1;
    }
    proof {
        assert(s@.subrange(n - m, n as int) =~= suffix@);
    }
    true
}

/// Whether two string slices hold the same characters.
pub fn str_eq(a: &str, b: &str) -> (r: bool)
    ensures
        r == (a@ == b@),
{
    let n = a.unicode_len();
    let m = b.unicode_len();
    if n != m {
        return false;
    }
    let mut i: usize = 0;
    while i < n
        invariant
            i <= n,
            n == a@.len(),
            n == b@.len(),
            forall|j: int| 0 <= j < i ==> a@[j] == b@[j],
        decreases n - i,
    {
        if a.get_char(i) != b.get_char(i) {
            return false;
        }
        i += 1;
    }
    proof {
        assert(a@ =~= b@);
    }
    true
}

/// Whether the path names a source file of the curriculum; only such
/// files can trigger a new verification pass.
pub fn is_source_file(p: &str) -> (r: bool)
    ensures
        r == has_source_extension(p@),
{
    let ext: &str = ".cairo";
    proof {
        reveal_strlit(".cairo");
        assert(ext@ =~= source_extension());
    }
    let n = p.unicode_len();
    if n <= 6 {
        return false;
    }
    if !ends_with_chars(p, ext) {
        return false;
    }
    p.get_char(n - 7) != '/'
}

/// Whether the changed file path refers to the given exercise path.
pub fn file_matches_exercise(file: &str, exercise_path: &str) -> (r: bool)
    ensures
        r == path_match(file@, exercise_path@),
{
    if !ends_with_chars(file, exercise_path) {
        proof {
            assert(file@.subrange(0, file@.len() as int) =~= file@);
        }
        return false;
    }
    let n = file.unicode_len();
    let m = exercise_path.unicode_len();
    if n == m {
        proof {
            assert(file@.subrange(0, file@.len() as int) =~= file@);
        }
        true
    } else {
        file.get_char(n - m - 1) == '/'
    }
}

} // verus!
