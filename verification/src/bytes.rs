//! Little-endian integer fields inside a byte region: what a field at a
//! given offset means, and the executable reads and writes proved against it.

use vstd::prelude::*;

verus! {

/// The `u16` stored little-endian at offset `i` of `b`.
pub open spec fn u16_le_at(b: Seq<u8>, i: int) -> u16
    recommends
        0 <= i,
        i + 2 <= b.len(),
{
    (b[i] as u16) | ((b[i + 1] as u16) << 8)
}

/// The `u32` stored little-endian at offset `i` of `b`.
pub open spec fn u32_le_at(b: Seq<u8>, i: int) -> u32
    recommends
        0 <= i,
        i + 4 <= b.len(),
{
    (b[i] as u32) | ((b[i + 1] as u32) << 8) | ((b[i + 2] as u32) << 16) | ((b[i + 3] as u32)
        << 24)
}

/// The two bytes that store `v` little-endian.
pub open spec fn u16_le_bytes(v: u16) -> Seq<u8> {
    seq![v as u8, (v >> 8) as u8]
}

/// The four bytes that store `v` little-endian.
pub open spec fn u32_le_bytes(v: u32) -> Seq<u8> {
    seq![v as u8, (v >> 8) as u8, (v >> 16) as u8, (v >> 24) as u8]
}

/// Reading a field back from the bytes that were written for it yields the
/// written value.
pub proof fn lemma_u16_le_roundtrip(v: u16)
    ensures
        u16_le_at(u16_le_bytes(v), 0) == v,
{
    assert((v as u8 as u16) | (((v >> 8) as u8 as u16) << 8) == v) by (bit_vector);
}

/// Reading a field back from the bytes that were written for it yields the
/// written value.
pub proof fn lemma_u32_le_roundtrip(v: u32)
    ensures
        u32_le_at(u32_le_bytes(v), 0) == v,
{
    assert((v as u8 as u32) | (((v >> 8) as u8 as u32) << 8) | (((v >> 16) as u8 as u32) << 16) | (
    ((v >> 24) as u8 as u32) << 24) == v) by (bit_vector);
}

/// A field read depends only on the bytes it covers.
pub proof fn lemma_u16_le_at_eq(a: Seq<u8>, b: Seq<u8>, i: int, j: int)
    requires
        0 <= i,
        i + 2 <= a.len(),
        0 <= j,
        j + 2 <= b.len(),
        forall|k: int| 0 <= k < 2 ==> a[i + k] == #[trigger] b[j + k],
    ensures
        u16_le_at(a, i) == u16_le_at(b, j),
{
    assert(a[i + 0] == b[j + 0]);
    assert(a[i + 1] == b[j + 1]);
}

/// A field read depends only on the bytes it covers.
pub proof fn lemma_u32_le_at_eq(a: Seq<u8>, b: Seq<u8>, i: int, j: int)
    requires
        0 <= i,
        i + 4 <= a.len(),
        0 <= j,
        j + 4 <= b.len(),
        forall|k: int| 0 <= k < 4 ==> a[i + k] == #[trigger] b[j + k],
    ensures
        u32_le_at(a, i) == u32_le_at(b, j),
{
    assert(a[i + 0] == b[j + 0]);
    assert(a[i + 1] == b[j + 1]);
    assert(a[i + 2] == b[j + 2]);
    assert(a[i + 3] == b[j + 3]);
}

/// Reads the little-endian `u16` field at offset `i`.
pub fn read_u16_le(b: &Vec<u8>, i: usize) -> (r: u16)
    requires
        i + 2 <= b@.len(),
    ensures
        r == u16_le_at(b@, i as int),
{
    let n: usize = b.len();
    proof {
        assert(i + 2 <= n);
    }
    (b[i] as u16) | ((b[i + 1] as u16) << 8)
}

/// Reads the little-endian `u32` field at offset `i`.
pub fn read_u32_le(b: &Vec<u8>, i: usize) -> (r: u32)
    requires
        i + 4 <= b@.len(),
    ensures
        r == u32_le_at(b@, i as int),
{
    let n: usize = b.len();
    proof {
        assert(i + 4 <= n);
    }
    (b[i] as u32) | ((b[i + 1] as u32) << 8) | ((b[i + 2] as u32) << 16) | ((b[i + 3] as u32)
        << 24)
}

/// Appends the two little-endian bytes of `v`.
pub fn push_u16_le(out: &mut Vec<u8>, v: u16)
    ensures
        final(out)@ == old(out)@ + u16_le_bytes(v),
{
    out.push(v as u8);
    out.push((v >> 8) as u8);
    assert(final(out)@ =~= old(out)@ + u16_le_bytes(v));
}

/// Appends the four little-endian bytes of `v`.
pub fn push_u32_le(out: &mut Vec<u8>, v: u32)
    ensures
        final(out)@ == old(out)@ + u32_le_bytes(v),
{
    out.push(v as u8);
    out.push((v >> 8) as u8);
    out.push((v >> 16) as u8);
    out.push((v >> 24) as u8);
    assert(final(out)@ =~= old(out)@ + u32_le_bytes(v));
}

} // verus!
