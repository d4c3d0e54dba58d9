//! The 8-byte little-endian machine words that every slot of the stack
//! layout is made of: reading a word out of a byte buffer, and appending a
//! word to one.

use vstd::prelude::*;

verus! {

/// Number of bytes in one machine word of the layout.
pub const WORD_SIZE: usize = 8;

/// The little-endian bytes of one machine word.
pub open spec fn le_bytes(v: u64) -> Seq<u8> {
    seq![
        (v & 0xff) as u8,
        ((v >> 8) & 0xff) as u8,
        ((v >> 16) & 0xff) as u8,
        ((v >> 24) & 0xff) as u8,
        ((v >> 32) & 0xff) as u8,
        ((v >> 40) & 0xff) as u8,
        ((v >> 48) & 0xff) as u8,
        ((v >> 56) & 0xff) as u8,
    ]
}

/// The machine word stored little-endian at byte offset `off` of `b`.
pub open spec fn word_at(b: Seq<u8>, off: int) -> u64
    recommends
        0 <= off,
        off + 8 <= b.len(),
{
    (b[off] as u64) | ((b[off + 1] as u64) << 8) | ((b[off + 2] as u64) << 16) | ((b[off
        + 3] as u64) << 24) | ((b[off + 4] as u64) << 32) | ((b[off + 5] as u64) << 40) | ((b[off
        + 6] as u64) << 48) | ((b[off + 7] as u64) << 56)
}

/// Reading back the bytes of a word yields the word.
pub proof fn lemma_word_le_round_trip(v: u64)
    ensures
        word_at(le_bytes(v), 0) == v,
{
    assert(((v & 0xff) as u8 as u64) | ((((v >> 8) & 0xff) as u8 as u64) << 8) | ((((v >> 16)
        & 0xff) as u8 as u64) << 16) | ((((v >> 24) & 0xff) as u8 as u64) << 24) | ((((v >> 32)
        & 0xff) as u8 as u64) << 32) | ((((v >> 40) & 0xff) as u8 as u64) << 40) | ((((v >> 48)
        & 0xff) as u8 as u64) << 48) | ((((v >> 56) & 0xff) as u8 as u64) << 56) == v)
        by (bit_vector);
}

/// If two buffers hold the same eight bytes at the respective offsets, the
/// words read there agree.
pub proof fn lemma_word_at_eq(a: Seq<u8>, b: Seq<u8>, off_a: int, off_b: int)
    requires
        0 <= off_a,
        off_a + 8 <= a.len(),
        0 <= off_b,
        off_b + 8 <= b.len(),
        forall|k: int| 0 <= k < 8 ==> a[off_a + k] == #[trigger] b[off_b + k],
    ensures
        word_at(a, off_a) == word_at(b, off_b),
{
    assert(a[off_a + 0] == b[off_b + 0]);
    assert(a[off_a + 1] == b[off_b + 1]);
    assert(a[off_a + 2] == b[off_b + 2]);
    assert(a[off_a + 3] == b[off_b + 3]);
    assert(a[off_a + 4] == b[off_b + 4]);
    assert(a[off_a + 5] == b[off_b + 5]);
    assert(a[off_a + 6] == b[off_b + 6]);
    assert(a[off_a + 7] == b[off_b + 7]);
    assert(a[off_a] == b[off_b]);
}

/// A stretch of eight bytes equal to the little-endian bytes of `v` reads
/// back as the word `v`.
pub proof fn lemma_word_value(l: Seq<u8>, off: int, v: u64)
    requires
        0 <= off,
        off + 8 <= l.len(),
        l.subrange(off, off + 8) == le_bytes(v),
    ensures
        word_at(l, off) == v,
{
    let w = l.subrange(off, off + 8);
    assert forall|k: int| 0 <= k < 8 implies l[off + k] == #[trigger] w[0 + k] by {
        assert(w[k] == l[off + k]);
    }
    lemma_word_at_eq(l, w, off, 0);
    lemma_word_le_round_trip(v);
}

/// A subrange that lies within the left part of a concatenation ignores
/// the right part.
pub proof fn lemma_sub_add_left(x: Seq<u8>, y: Seq<u8>, a: int, b: int)
    requires
        0 <= a <= b <= x.len(),
    ensures
        (x + y).subrange(a, b) == x.subrange(a, b),
{
    assert((x + y).subrange(a, b) =~= x.subrange(a, b));
}

/// The right part of a concatenation is the subrange past the left part.
pub proof fn lemma_sub_add_right(x: Seq<u8>, y: Seq<u8>)
    ensures
        (x + y).subrange(x.len() as int, x.len() + y.len() as int) == y,
{
    assert((x + y).subrange(x.len() as int, x.len() + y.len() as int) =~= y);
}

/// A subrange of a recovered region equals the region's own subrange.
pub proof fn lemma_sub_of_region(l: Seq<u8>, off: int, rlen: int, r: Seq<u8>, a: int, b: int)
    requires
        0 <= off,
        off + rlen <= l.len(),
        r.len() == rlen,
        l.subrange(off, off + rlen) == r,
        0 <= a <= b <= rlen,
    ensures
        l.subrange(off + a, off + b) == r.subrange(a, b),
{
    let reg = l.subrange(off, off + rlen);
    assert forall|t: int| 0 <= t < b - a implies l.subrange(off + a, off + b)[t] == #[trigger] r
        .subrange(a, b)[t] by {
        assert(reg[a + t] == l[off + (a + t)]);
    }
    assert(l.subrange(off + a, off + b) =~= r.subrange(a, b));
}

/// Reads the machine word stored at byte offset `off`.
pub fn read_word(bytes: &[u8], off: usize) -> (r: u64)
    requires
        off + 8 <= bytes@.len(),
    ensures
        r == word_at(bytes@, off as int),
{
    (bytes[off] as u64) | ((bytes[off + 1] as u64) << 8) | ((bytes[off + 2] as u64) << 16) | ((
    bytes[off + 3] as u64) << 24) | ((bytes[off + 4] as u64) << 32) | ((bytes[off + 5] as u64)
        << 40) | ((bytes[off + 6] as u64) << 48) | ((bytes[off + 7] as u64) << 56)
}

/// Appends the little-endian bytes of one machine word.
pub fn append_word(out: &mut Vec<u8>, v: u64)
    ensures
        final(out)@ == old(out)@ + le_bytes(v),
{
    let ghost pre = out@;
    out.push((v & 0xff) as u8);
    out.push(((v >> 8) & 0xff) as u8);
    out.push(((v >> 16) & 0xff) as u8);
    out.push(((v >> 24) & 0xff) as u8);
    out.push(((v >> 32) & 0xff) as u8);
    out.push(((v >> 40) & 0xff) as u8);
    out.push(((v >> 48) & 0xff) as u8);
    out.push(((v >> 56) & 0xff) as u8);
    assert(out@ =~= pre + le_bytes(v));
}

/// Appends `n` zero bytes.
pub fn append_zeros(out: &mut Vec<u8>, n: usize)
    ensures
        final(out)@ == old(out)@ + Seq::<u8>::new(n as nat, |i: int| 0u8),
{
    let ghost pre = out@;
    let mut k: usize = 0;
    while k < n
        invariant
            k <= n,
            out@ == pre + Seq::<u8>::new(k as nat, |i: int| 0u8),
        decreases n - k,
    {
        out.push(0u8);
        assert(out@ =~= pre + Seq::<u8>::new((k + 1) as nat, |i: int| 0u8));
        k = k + 1;
    }
    assert(out@ =~= pre + Seq::<u8>::new(n as nat, |i: int| 0u8));
}

/// Overwrites the first `src.len()` bytes of `buf` with `src`, leaving the
/// rest of `buf` unchanged.
pub fn write_prefix(buf: &mut Vec<u8>, src: &Vec<u8>)
    requires
        old(buf)@.len() >= src@.len(),
    ensures
        final(buf)@.len() == old(buf)@.len(),
        final(buf)@.subrange(0, src@.len() as int) == src@,
        final(buf)@.skip(src@.len() as int) == old(buf)@.skip(src@.len() as int),
{
    let n = src.len();
    let mut i: usize = 0;
    while i < n
        invariant
            i <= n,
            n == src@.len(),
            buf@.len() == old(buf)@.len() >= n,
            forall|j: int| 0 <= j < i ==> buf@[j] == src@[j],
            forall|j: int| i <= j < buf@.len() ==> buf@[j] == old(buf)@[j],
        decreases n - i,
    {
        buf.set(i, src[i]);
        i = i + 1;
    }
    assert(buf@.subrange(0, n as int) =~= src@);
    assert(buf@.skip(n as int) =~= old(buf)@.skip(n as int));
}

/// Copies the bytes in `[start, end)` into a fresh vector.
pub fn copy_range(bytes: &[u8], start: usize, end: usize) -> (r: Vec<u8>)
    requires
        start <= end <= bytes@.len(),
    ensures
        r@ == bytes@.subrange(start as int, end as int),
{
    let mut r: Vec<u8> = Vec::new();
    let mut i: usize = start;
    while i < end
        invariant
            start <= i <= end <= bytes@.len(),
            r@ == bytes@.subrange(start as int, i as int),
        decreases end - i,
    {
        r.push(bytes[i]);
        assert(r@ =~= bytes@.subrange(start as int, (i + 1) as int));
        i = i + 1;
    }
    assert(r@ =~= bytes@.subrange(start as int, end as int));
    r
}

/// Appends a copy of `src`.
pub fn append_bytes(out: &mut Vec<u8>, src: &Vec<u8>)
    ensures
        final(out)@ == old(out)@ + src@,
{
    let ghost pre = out@;
    let mut k: usize = 0;
    while k < src.len()
        invariant
            k <= src@.len(),
            out@ == pre + src@.take(k as int),
        decreases src@.len() - k,
    {
        out.push(src[k]);
        assert(out@ =~= pre + src@.take((k + 1) as int));
        k = k + 1;
    }
    assert(out@ =~= pre + src@);
}

} // verus!
