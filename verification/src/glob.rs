//! Glob patterns, matched by the `globset` crate.

use globset::{Candidate, GlobBuilder, GlobSetBuilder};
use vstd::prelude::*;

verus! {

/// What `globset` answers for one pattern and one candidate path, where `/`
/// is the only path separator: `None` where it rejects the pattern, otherwise
/// whether the pattern matches the whole candidate. `literal_separator` says
/// whether only a literal `/` in the pattern may match a `/` of the candidate;
/// `backslash_escape` says whether `\` escapes the next character of the
/// pattern.
pub uninterp spec fn glob_match(
    pattern: Seq<char>,
    literal_separator: bool,
    backslash_escape: bool,
    candidate: Seq<u8>,
) -> Option<bool>;

/// `globset::Error`, why a pattern is no glob. Nothing inside it is visible
/// here.
#[verifier::external_type_specification]
#[verifier::external_body]
pub struct ExGlobError(globset::Error);

/// Compiles `pattern` with `globset::GlobBuilder` under the two options, puts
/// it alone into a `globset::GlobSet` and asks `GlobSet::is_match_candidate`
/// about the candidate's bytes. The error of either builder is handed on.
///
/// Trusted: the answer is a function of the four arguments. This holds of
/// `globset` as built for a platform whose only path separator is `/`, which
/// is what this library's paths assume; where `\` separates paths too,
/// `globset` reads it as `/` in patterns and candidates. Matching is case
/// sensitive and a leading dot is matched like any other byte, as `globset`
/// does by default.
#[verifier::external_body]
fn glob_is_match(
    pattern: &str,
    literal_separator: bool,
    backslash_escape: bool,
    candidate: &[u8],
) -> (r: Result<bool, globset::Error>)
    ensures
        match r {
            Ok(b) => glob_match(pattern@, literal_separator, backslash_escape, candidate@) == Some(
                b,
            ),
            Err(_) => glob_match(pattern@, literal_separator, backslash_escape, candidate@)
                is None,
        },
{
    let mut builder = GlobBuilder::new(pattern);
    builder.literal_separator(literal_separator).backslash_escape(backslash_escape);
    let set = GlobSetBuilder::new().add(builder.build()?).build()?;
    Ok(set.is_match_candidate(&Candidate::from_bytes(candidate)))
}

/// Writes out a `globset::Error` through its `Display`.
///
/// Trusted: nothing is claimed of the text.
#[verifier::external_body]
fn glob_error_text(error: &globset::Error) -> (r: String) {
    error.to_string()
}

/// Whether `pattern` is a glob that matches `candidate`, where wildcards stop
/// at path separators and `\` escapes.
pub open spec fn pattern_matches(pattern: Seq<char>, candidate: Seq<u8>) -> bool {
    glob_match(pattern, true, true, candidate) == Some(true)
}

/// Whether `pattern` is accepted as a glob.
pub open spec fn pattern_is_valid(pattern: Seq<char>) -> bool {
    glob_match(pattern, true, true, Seq::empty()) is Some
}

/// Whether some pattern of the list matches `candidate`.
pub open spec fn any_pattern_matches(patterns: Seq<String>, candidate: Seq<u8>) -> bool {
    exists|i: int| 0 <= i < patterns.len() && pattern_matches(#[trigger] patterns[i]@, candidate)
}

/// Whether one pattern matches a candidate path.
pub fn matches_pattern(pattern: &str, candidate: &[u8]) -> (r: bool)
    ensures
        r == pattern_matches(pattern@, candidate@),
{
    match glob_is_match(pattern, true, true, candidate) {
        Ok(b) => b,
        Err(_) => false,
    }
}

/// Whether any pattern of the list matches a candidate path. A pattern that is
/// no valid glob matches nothing.
pub fn matches_any(patterns: &Vec<String>, candidate: &[u8]) -> (r: bool)
    ensures
        r == any_pattern_matches(patterns@, candidate@),
{
    let mut i: usize = 0;
    while i < patterns.len()
        invariant
            i <= patterns.len(),
            forall|j: int| 0 <= j < i ==> !pattern_matches(#[trigger] patterns@[j]@, candidate@),
        decreases patterns.len() - i,
    {
        if matches_pattern(patterns[i].as_str(), candidate) {
            return true;
        }
        i = i + 1;
    }
    false
}

/// A pattern of a list that is no glob.
#[derive(Debug)]
pub struct PatternError {
    /// The index of the pattern in the list.
    pub index: usize,
    /// Why it is no glob, in the words of `globset`.
    pub reason: String,
}

/// Whether `r` is owed for the patterns: success where every pattern is a
/// glob, else the first pattern that is none.
pub open spec fn is_pattern_check(r: Result<(), PatternError>, patterns: Seq<String>) -> bool {
    match r {
        Ok(_) => forall|j: int| 0 <= j < patterns.len() ==> pattern_is_valid(#[trigger] patterns[j]@),
        Err(e) => {
            &&& e.index < patterns.len()
            &&& !pattern_is_valid(patterns[e.index as int]@)
            &&& forall|j: int| 0 <= j < e.index ==> pattern_is_valid(#[trigger] patterns[j]@)
        },
    }
}

/// Checks that every pattern of the list is a glob, and reports the first
/// that is none with the reason.
pub fn check_patterns(patterns: &Vec<String>) -> (r: Result<(), PatternError>)
    ensures
        is_pattern_check(r, patterns@),
{
    let mut i: usize = 0;
    let empty: Vec<u8> = Vec::new();
    while i < patterns.len()
        invariant
            i <= patterns.len(),
            empty@ == Seq::<u8>::empty(),
            forall|j: int| 0 <= j < i ==> pattern_is_valid(#[trigger] patterns@[j]@),
        decreases patterns.len() - i,
    {
        match glob_is_match(patterns[i].as_str(), true, true, empty.as_slice()) {
            Ok(_) => {},
            Err(e) => {
                return Err(PatternError { index: i, reason: glob_error_text(&e) });
            },
        }
        i = i + 1;
    }
    Ok(())
}

} // verus!
