//! Utility functions for validating and sizing null-terminated C-strings.

use vstd::prelude::*;

verus! {

/// Whether `b` holds no NUL byte except possibly as its very last byte.
pub open spec fn spec_at_most_terminating_null(b: Seq<u8>) -> bool {
    forall|i: int| 0 <= i < b.len() - 1 ==> b[i] != 0
}

/// Whether `b` ends with a NUL byte.
pub open spec fn spec_null_terminated(b: Seq<u8>) -> bool {
    b.len() > 0 && b[b.len() - 1] == 0
}

/// The length of `b` once a terminating NUL byte is guaranteed: unchanged if
/// one is already present, one more otherwise.
pub open spec fn spec_len_with_null(b: Seq<u8>) -> int {
    if spec_null_terminated(b) {
        b.len() as int
    } else {
        b.len() + 1int
    }
}

/// `b` with a terminating NUL byte guaranteed: unchanged if one is already
/// present, extended by one NUL byte otherwise.
pub open spec fn spec_with_null(b: Seq<u8>) -> Seq<u8> {
    if spec_null_terminated(b) {
        b
    } else {
        b + seq![0u8]
    }
}

/// A normalized C-string: non-empty, NUL-terminated, and without interior
/// NUL bytes. This is the shape in which the builder stores every string.
pub open spec fn spec_cstr_wf(b: Seq<u8>) -> bool {
    spec_null_terminated(b) && spec_at_most_terminating_null(b)
}

/// Normalizing a string that has no interior NUL yields a well-formed
/// C-string of the promised length.
pub proof fn lemma_with_null_wf(b: Seq<u8>)
    requires
        spec_at_most_terminating_null(b),
    ensures
        spec_cstr_wf(spec_with_null(b)),
        spec_with_null(b).len() == spec_len_with_null(b),
        spec_with_null(b).take(b.len() as int) == b || spec_with_null(b) == b,
{
    if !spec_null_terminated(b) {
        let w = spec_with_null(b);
        assert(w[w.len() - 1] == 0);
        assert(w.take(b.len() as int) =~= b);
    }
}

/// Checks that a C-string doesn't contain a null byte somewhere in the
/// middle: NUL may appear at most once, and only as the final byte.
pub fn cstr_contains_at_most_terminating_null_byte(cstr: &[u8]) -> (r: bool)
    ensures
        r == spec_at_most_terminating_null(cstr@),
{
    let n = cstr.len();
    let mut i: usize = 0;
    while i < n
        invariant
            i <= n,
            n == cstr@.len(),
            forall|j: int| 0 <= j < i && j < n - 1 ==> cstr@[j] != 0,
        decreases n - i,
    {
        if cstr[i] == 0 && i + 1 < n {
            return false;
        }
        i = i + 1;
    }
    true
}

/// Checks if a C-string has a terminating null byte.
pub fn c_str_null_terminated(cstr: &[u8]) -> (r: bool)
    ensures
        r == spec_null_terminated(cstr@),
{
    if cstr.len() == 0 {
        false
    } else {
        cstr[cstr.len() - 1] == 0
    }
}

/// Returns the length of a C-string including the final null byte: its
/// length as given if it already ends with NUL, one more otherwise.
pub fn cstr_len_with_nullbyte(cstr: &[u8]) -> (r: usize)
    requires
        cstr@.len() + 1 <= usize::MAX,
    ensures
        r == spec_len_with_null(cstr@),
{
    if c_str_null_terminated(cstr) {
        cstr.len()
    } else {
        cstr.len() + 1
    }
}

} // verus!
