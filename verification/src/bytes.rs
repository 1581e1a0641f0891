//! Two ways of reading a byte buffer: searching it for a fixed sequence, and
//! taking consecutive pieces off it behind a moving offset.

use crate::error::ExifError;
use vstd::prelude::*;

verus! {

/// `needle` lies in `haystack` starting at the byte with index `start`.
///
/// A match starts at a byte of the haystack, so nothing, not even the empty
/// sequence, occurs in an empty haystack.
pub open spec fn occurs_at(haystack: Seq<u8>, needle: Seq<u8>, start: int) -> bool {
    &&& 0 <= start < haystack.len()
    &&& start + needle.len() <= haystack.len()
    &&& haystack.subrange(start, start + needle.len()) == needle
}

/// `needle` lies somewhere in `haystack`.
pub open spec fn occurs(haystack: Seq<u8>, needle: Seq<u8>) -> bool {
    exists|start: int| occurs_at(haystack, needle, start)
}

/// `start` is where `needle` lies in `haystack` for the first time.
pub open spec fn is_first_occurrence(haystack: Seq<u8>, needle: Seq<u8>, start: int) -> bool {
    &&& occurs_at(haystack, needle, start)
    &&& forall|earlier: int| 0 <= earlier < start ==> !occurs_at(haystack, needle, earlier)
}

/// Where `needle` lies in `haystack` for the first time, if it does.
pub open spec fn first_occurrence(haystack: Seq<u8>, needle: Seq<u8>) -> Option<int> {
    if occurs(haystack, needle) {
        Some(choose|start: int| is_first_occurrence(haystack, needle, start))
    } else {
        None
    }
}

/// `needle` has at most one first occurrence in `haystack`, and
/// `first_occurrence` names it.
pub proof fn lemma_first_occurrence_is(haystack: Seq<u8>, needle: Seq<u8>, start: int)
    requires
        is_first_occurrence(haystack, needle, start),
    ensures
        first_occurrence(haystack, needle) == Some(start),
{
}

/// Whether `needle` lies in `haystack` at `start`, compared byte by byte.
fn matches_at(haystack: &[u8], needle: &[u8], start: usize) -> (found: bool)
    requires
        start < haystack.len(),
        start + needle.len() <= haystack.len(),
    ensures
        found == occurs_at(haystack@, needle@, start as int),
{
    let mut matched: usize = 0;
    while matched < needle.len()
        invariant
            matched <= needle.len(),
            start + needle.len() <= haystack.len(),
            forall|k: int| 0 <= k < matched ==> haystack@[start + k] == needle@[k],
        decreases needle.len() - matched,
    {
        if haystack[start + matched] != needle[matched] {
            return false;
        }
        matched += 1;
    }
    assert(haystack@.subrange(start as int, start + needle.len()) =~= needle@);
    true
}

/// Finds the first place in `haystack` where `needle` lies.
///
/// Returns the index of the first byte of that occurrence, and `None` where
/// there is none: in particular for every empty haystack and for every needle
/// longer than the haystack.
pub fn find_bytes(haystack: &[u8], needle: &[u8]) -> (found: Option<usize>)
    ensures
        match found {
            Some(index) => is_first_occurrence(haystack@, needle@, index as int),
            None => !occurs(haystack@, needle@),
        },
        found matches Some(index) ==> haystack@.subrange(index as int, index + needle.len())
            == needle@,
{
    if needle.len() > haystack.len() {
        return None;
    }
    let last_start = haystack.len() - needle.len();
    let mut start: usize = 0;
    while start < haystack.len() && start <= last_start
        invariant
            last_start == haystack.len() - needle.len(),
            forall|earlier: int| 0 <= earlier < start ==> !occurs_at(haystack@, needle@, earlier),
        decreases haystack.len() - start,
    {
        if matches_at(haystack, needle, start) {
            return Some(start);
        }
        start += 1;
    }
    None
}

/// Takes the next `n` bytes of `bytes`, those from `*byte_advance` on, and
/// moves `*byte_advance` past them.
///
/// Where fewer than `n` bytes are left, nothing is taken: the offset stays
/// and the error says which read failed.
pub fn take_bytes<'a>(bytes: &'a [u8], byte_advance: &mut usize, n: usize) -> (taken: Result<
    &'a [u8],
    ExifError,
>)
    ensures
        match taken {
            Ok(piece) => {
                &&& *old(byte_advance) + n <= bytes.len()
                &&& piece@ == bytes@.subrange(*old(byte_advance) as int, *old(byte_advance) + n)
                &&& *final(byte_advance) == *old(byte_advance) + n
            },
            Err(error) => {
                &&& *old(byte_advance) + n > bytes.len()
                &&& error == (ExifError::TruncatedBuffer {
                    offset: *old(byte_advance),
                    needed: n,
                    available: bytes.len(),
                })
                &&& *final(byte_advance) == *old(byte_advance)
            },
        },
{
    let start = *byte_advance;
    if start > bytes.len() || n > bytes.len() - start {
        return Err(ExifError::TruncatedBuffer { offset: start, needed: n, available: bytes.len() });
    }
    *byte_advance = start + n;
    Ok(&bytes[start..start + n])
}

} // verus!
