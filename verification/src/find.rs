//! Searching a byte string for another, by the `bstr` crate.

use bstr::ByteSlice;
use vstd::prelude::*;

verus! {

/// Whether `needle` stands in `haystack` at index `i`.
pub open spec fn occurs_at(haystack: Seq<u8>, needle: Seq<u8>, i: int) -> bool {
    0 <= i && i + needle.len() <= haystack.len() && haystack.subrange(i, i + needle.len())
        == needle
}

/// The greatest index not above `i` at which `needle` stands in `haystack`.
pub open spec fn last_occurrence_up_to(haystack: Seq<u8>, needle: Seq<u8>, i: int) -> Option<int>
    decreases i + 1,
{
    if i < 0 {
        None
    } else if occurs_at(haystack, needle, i) {
        Some(i)
    } else {
        last_occurrence_up_to(haystack, needle, i - 1)
    }
}

/// The greatest index at which `needle` stands in `haystack`.
pub open spec fn last_occurrence(haystack: Seq<u8>, needle: Seq<u8>) -> Option<int> {
    last_occurrence_up_to(haystack, needle, haystack.len() - needle.len())
}

/// An occurrence at or below `bound` with none between it and `bound` is the
/// last occurrence up to `bound`; with no occurrence at all there is none.
pub proof fn lemma_last_occurrence_up_to(
    haystack: Seq<u8>,
    needle: Seq<u8>,
    bound: int,
    found: Option<int>,
)
    requires
        match found {
            Some(i) => i <= bound && occurs_at(haystack, needle, i) && forall|j: int|
                i < j <= bound ==> !occurs_at(haystack, needle, j),
            None => forall|j: int| 0 <= j <= bound ==> !occurs_at(haystack, needle, j),
        },
    ensures
        last_occurrence_up_to(haystack, needle, bound) == found,
    decreases bound + 1,
{
    if bound >= 0 && !occurs_at(haystack, needle, bound) {
        lemma_last_occurrence_up_to(haystack, needle, bound - 1, found);
    }
}

/// The last occurrence, where there is one, is an occurrence.
pub proof fn lemma_last_occurrence_in_range(haystack: Seq<u8>, needle: Seq<u8>)
    ensures
        match last_occurrence(haystack, needle) {
            Some(i) => occurs_at(haystack, needle, i),
            None => true,
        },
{
    lemma_up_to_is_occurrence(haystack, needle, haystack.len() - needle.len());
}

proof fn lemma_up_to_is_occurrence(haystack: Seq<u8>, needle: Seq<u8>, bound: int)
    ensures
        match last_occurrence_up_to(haystack, needle, bound) {
            Some(i) => i <= bound && occurs_at(haystack, needle, i),
            None => true,
        },
    decreases bound + 1,
{
    if bound >= 0 && !occurs_at(haystack, needle, bound) {
        lemma_up_to_is_occurrence(haystack, needle, bound - 1);
    }
}

/// Calls `bstr::ByteSlice::rfind`.
///
/// Trusted: the result is the index of the last occurrence of `needle` in
/// `haystack`, and `None` where there is no occurrence.
#[verifier::external_body]
fn rfind_bytes(haystack: &[u8], needle: &[u8]) -> (r: Option<usize>)
    requires
        needle@.len() > 0,
    ensures
        match r {
            Some(i) => occurs_at(haystack@, needle@, i as int) && forall|j: int|
                i < j ==> !occurs_at(haystack@, needle@, j),
            None => forall|j: int| !occurs_at(haystack@, needle@, j),
        },
{
    haystack.rfind(needle)
}

/// Finds the last occurrence of a byte string. The empty byte string occurs
/// last at the end.
pub fn find_last_occurrence(haystack: &[u8], needle: &[u8]) -> (r: Option<usize>)
    ensures
        match r {
            Some(i) => last_occurrence(haystack@, needle@) == Some(i as int),
            None => last_occurrence(haystack@, needle@) is None,
        },
{
    if needle.len() == 0 {
        assert(occurs_at(haystack@, needle@, haystack@.len() as int)) by {
            assert(haystack@.subrange(haystack@.len() as int, haystack@.len() as int) =~= needle@);
        }
        return Some(haystack.len());
    }
    let r = rfind_bytes(haystack, needle);
    proof {
        let found: Option<int> = match r {
            Some(i) => Some(i as int),
            None => None,
        };
        lemma_last_occurrence_up_to(
            haystack@,
            needle@,
            haystack@.len() - needle@.len(),
            found,
        );
    }
    r
}

} // verus!
