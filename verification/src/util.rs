//! Scanning byte buffers for NUL bytes.

use vstd::prelude::*;

verus! {

/// Whether `b` holds a zero byte at or after index `from`.
pub open spec fn spec_has_null(b: Seq<u8>, from: int) -> bool {
    exists|i: int| from <= i < b.len() && b[i] == 0
}

/// The index of the first zero byte of `b` at or after `from`.
pub open spec fn spec_null_index(b: Seq<u8>, from: int) -> int
    recommends
        spec_has_null(b, from),
    decreases b.len() - from,
{
    if from >= b.len() {
        from
    } else if b[from] == 0 {
        from
    } else {
        spec_null_index(b, from + 1)
    }
}

/// The first zero byte at or after `from` really is the first: it is in
/// range, zero, and everything before it (from `from` on) is non-zero.
pub proof fn lemma_null_index(b: Seq<u8>, from: int)
    requires
        0 <= from,
        spec_has_null(b, from),
    ensures
        from <= spec_null_index(b, from) < b.len(),
        b[spec_null_index(b, from)] == 0,
        forall|i: int| from <= i < spec_null_index(b, from) ==> b[i] != 0,
    decreases b.len() - from,
{
    if from < b.len() && b[from] != 0 {
        assert(spec_has_null(b, from + 1)) by {
            let w = choose|i: int| from <= i < b.len() && b[i] == 0;
            assert(from + 1 <= w < b.len() && b[w] == 0);
        }
        lemma_null_index(b, from + 1);
    }
}

/// Returns the index of the first null byte in the given slice.
///
/// If this returns `None`, the slice doesn't contain a NUL byte.
pub fn get_null_index(bytes: &[u8]) -> (r: Option<usize>)
    ensures
        r is Some <==> spec_has_null(bytes@, 0),
        r is Some ==> r->0 == spec_null_index(bytes@, 0),
{
    let n = bytes.len();
    let mut i: usize = 0;
    while i < n
        invariant
            i <= n,
            n == bytes@.len(),
            forall|j: int| 0 <= j < i ==> bytes@[j] != 0,
        decreases n - i,
    {
        if bytes[i] == 0 {
            proof {
                lemma_null_index(bytes@, 0);
                lemma_null_index_step(bytes@, 0, i as int);
            }
            return Some(i);
        }
        i = i + 1;
    }
    None
}

/// If every byte before `at` is non-zero and `b[at] == 0`, then `at` is the
/// first null index.
pub proof fn lemma_null_index_step(b: Seq<u8>, from: int, at: int)
    requires
        0 <= from <= at < b.len(),
        b[at] == 0,
        forall|i: int| from <= i < at ==> b[i] != 0,
    ensures
        spec_has_null(b, from),
        spec_null_index(b, from) == at,
    decreases at - from,
{
    if from < at {
        lemma_null_index_step(b, from + 1, at);
    }
}

/// Returns the index of the first null byte at or after `from`.
pub fn find_null_from(bytes: &[u8], from: usize) -> (r: Option<usize>)
    requires
        from <= bytes@.len(),
    ensures
        r is Some <==> spec_has_null(bytes@, from as int),
        r is Some ==> r->0 == spec_null_index(bytes@, from as int) && from <= r->0
            < bytes@.len(),
{
    let n = bytes.len();
    let mut i: usize = from;
    while i < n
        invariant
            from <= i <= n,
            n == bytes@.len(),
            forall|j: int| from <= j < i ==> bytes@[j] != 0,
        decreases n - i,
    {
        if bytes[i] == 0 {
            proof {
                lemma_null_index_step(bytes@, from as int, i as int);
            }
            return Some(i);
        }
        i = i + 1;
    }
    None
}

/// Returns the number of bytes until the first null byte in the given slice.
///
/// If this returns `None`, the slice doesn't contain a NUL byte.
pub fn count_bytes_until_null(bytes: &[u8]) -> (r: Option<usize>)
    ensures
        r is Some <==> spec_has_null(bytes@, 0),
        r is Some ==> r->0 == spec_null_index(bytes@, 0),
{
    get_null_index(bytes)
}

} // verus!
