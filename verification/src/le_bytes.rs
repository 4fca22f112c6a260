//! Little-endian reads and writes of integers and byte arrays at offsets of a byte buffer.

use vstd::bytes::{
    spec_u16_from_le_bytes,
    spec_u16_to_le_bytes,
    spec_u32_from_le_bytes,
    spec_u32_to_le_bytes,
    spec_u64_from_le_bytes,
    spec_u64_to_le_bytes,
};
use vstd::prelude::*;

verus! {

/// The `u16` stored little-endian at `offset`.
pub open spec fn le_u16_at(bytes: Seq<u8>, offset: int) -> u16 {
    spec_u16_from_le_bytes(bytes.subrange(offset, offset + 2))
}

/// The `u32` stored little-endian at `offset`.
pub open spec fn le_u32_at(bytes: Seq<u8>, offset: int) -> u32 {
    spec_u32_from_le_bytes(bytes.subrange(offset, offset + 4))
}

/// The `u64` stored little-endian at `offset`.
pub open spec fn le_u64_at(bytes: Seq<u8>, offset: int) -> u64 {
    spec_u64_from_le_bytes(bytes.subrange(offset, offset + 8))
}

/// The little-endian bytes of a `u16`.
pub open spec fn le_u16(x: u16) -> Seq<u8> {
    spec_u16_to_le_bytes(x)
}

/// The little-endian bytes of a `u32`.
pub open spec fn le_u32(x: u32) -> Seq<u8> {
    spec_u32_to_le_bytes(x)
}

/// The little-endian bytes of a `u64`.
pub open spec fn le_u64(x: u64) -> Seq<u8> {
    spec_u64_to_le_bytes(x)
}

/// Decoding the little-endian bytes of an integer gives the integer back, and the encodings have
/// the expected lengths.
pub proof fn lemma_le_round_trip()
    ensures
        forall|x: u16| #[trigger] le_u16(x).len() == 2 && spec_u16_from_le_bytes(le_u16(x)) == x,
        forall|x: u32| #[trigger] le_u32(x).len() == 4 && spec_u32_from_le_bytes(le_u32(x)) == x,
        forall|x: u64| #[trigger] le_u64(x).len() == 8 && spec_u64_from_le_bytes(le_u64(x)) == x,
{
    vstd::bytes::lemma_auto_spec_u16_to_from_le_bytes();
    vstd::bytes::lemma_auto_spec_u32_to_from_le_bytes();
    vstd::bytes::lemma_auto_spec_u64_to_from_le_bytes();
}

/// Reads the little-endian `u16` at `offset`.
pub fn read_u16(bytes: &[u8], offset: usize) -> (r: u16)
    requires
        offset + 2 <= bytes@.len(),
    ensures
        r == le_u16_at(bytes@, offset as int),
{
    let _len = bytes.len();
    vstd::bytes::u16_from_le_bytes(vstd::slice::slice_subrange(bytes, offset, offset + 2))
}

/// Reads the little-endian `u32` at `offset`.
pub fn read_u32(bytes: &[u8], offset: usize) -> (r: u32)
    requires
        offset + 4 <= bytes@.len(),
    ensures
        r == le_u32_at(bytes@, offset as int),
{
    let _len = bytes.len();
    vstd::bytes::u32_from_le_bytes(vstd::slice::slice_subrange(bytes, offset, offset + 4))
}

/// Reads the little-endian `u64` at `offset`.
pub fn read_u64(bytes: &[u8], offset: usize) -> (r: u64)
    requires
        offset + 8 <= bytes@.len(),
    ensures
        r == le_u64_at(bytes@, offset as int),
{
    let _len = bytes.len();
    vstd::bytes::u64_from_le_bytes(vstd::slice::slice_subrange(bytes, offset, offset + 8))
}

/// Copies `N` bytes starting at `offset` into an array.
pub fn read_array<const N: usize>(bytes: &[u8], offset: usize) -> (r: [u8; N])
    requires
        offset + N <= bytes@.len(),
    ensures
        r@ == bytes@.subrange(offset as int, offset + N),
{
    let mut out: [u8; N] = [0u8; N];
    let mut i: usize = 0;
    let len = bytes.len();
    while i < N
        invariant
            offset + N <= bytes@.len(),
            len == bytes@.len(),
            i <= N,
            out@.len() == N,
            forall|k: int| 0 <= k < i ==> out@[k] == bytes@[offset + k],
        decreases N - i,
    {
        out[i] = bytes[offset + i];
        i = i + 1;
    }
    assert(out@ =~= bytes@.subrange(offset as int, offset + N));
    out
}

/// Appends all of `src` to `out`.
pub fn push_bytes(out: &mut Vec<u8>, src: &[u8])
    ensures
        final(out)@ == old(out)@ + src@,
{
    let ghost start = out@;
    let mut i: usize = 0;
    while i < src.len()
        invariant
            i <= src@.len(),
            out@ == start + src@.subrange(0, i as int),
        decreases src@.len() - i,
    {
        out.push(src[i]);
        i = i + 1;
        assert(out@ =~= start + src@.subrange(0, i as int));
    }
    assert(src@.subrange(0, src@.len() as int) =~= src@);
}

/// Appends the little-endian bytes of a `u16`.
pub fn push_u16(out: &mut Vec<u8>, x: u16)
    ensures
        final(out)@ == old(out)@ + le_u16(x),
{
    let b = vstd::bytes::u16_to_le_bytes(x);
    push_bytes(out, b.as_slice());
}

/// Appends the little-endian bytes of a `u32`.
pub fn push_u32(out: &mut Vec<u8>, x: u32)
    ensures
        final(out)@ == old(out)@ + le_u32(x),
{
    let b = vstd::bytes::u32_to_le_bytes(x);
    push_bytes(out, b.as_slice());
}

/// Appends the little-endian bytes of a `u64`.
pub fn push_u64(out: &mut Vec<u8>, x: u64)
    ensures
        final(out)@ == old(out)@ + le_u64(x),
{
    let b = vstd::bytes::u64_to_le_bytes(x);
    push_bytes(out, b.as_slice());
}

/// The array whose bytes are `bytes` (of length `N`).
pub open spec fn array_from_seq<const N: usize>(bytes: Seq<u8>) -> [u8; N] {
    choose|a: [u8; N]| a@ == bytes
}

/// An array is the one [`array_from_seq`] picks for its own bytes.
pub proof fn lemma_array_from_seq<const N: usize>(a: [u8; N])
    ensures
        array_from_seq::<N>(a@) == a,
{
    let b = array_from_seq::<N>(a@);
    assert(b@ == a@);
    assert(b =~= a);
}

/// An array holding the first `k` bytes of `s` and zeros after them.
spec fn array_prefix<const N: usize>(s: Seq<u8>, k: nat) -> [u8; N]
    decreases k,
{
    if k == 0 {
        vstd::array::spec_array_fill_for_copy_type::<u8, N>(0u8)
    } else {
        vstd::array::spec_array_update(array_prefix::<N>(s, (k - 1) as nat), k - 1, s[k - 1])
    }
}

proof fn lemma_array_prefix<const N: usize>(s: Seq<u8>, k: nat)
    requires
        k <= N,
    ensures
        array_prefix::<N>(s, k)@.len() == N,
        forall|i: int| 0 <= i < k ==> array_prefix::<N>(s, k)@[i] == s[i],
    decreases k,
{
    let a = array_prefix::<N>(s, k);
    vstd::array::array_len_matches_n(&a);
    if k > 0 {
        let prev = array_prefix::<N>(s, (k - 1) as nat);
        lemma_array_prefix::<N>(s, (k - 1) as nat);
        vstd::array::axiom_spec_array_update(prev, k - 1, s[k - 1]);
    }
}

/// Every byte sequence of length `N` is the bytes of an array, the one [`array_from_seq`] picks.
pub proof fn lemma_array_from_seq_view<const N: usize>(s: Seq<u8>)
    requires
        s.len() == N,
    ensures
        array_from_seq::<N>(s)@ == s,
{
    lemma_array_prefix::<N>(s, N as nat);
    let a = array_prefix::<N>(s, N as nat);
    assert(a@ =~= s);
}

/// The zero-filled sequence of `n` bytes.
pub open spec fn zeros(n: nat) -> Seq<u8> {
    Seq::new(n, |i: int| 0u8)
}

/// Appends `n` zero bytes.
pub fn push_zeros(out: &mut Vec<u8>, n: usize)
    ensures
        final(out)@ == old(out)@ + zeros(n as nat),
{
    let ghost start = out@;
    let mut i: usize = 0;
    while i < n
        invariant
            i <= n,
            out@ == start + zeros(i as nat),
        decreases n - i,
    {
        out.push(0u8);
        i = i + 1;
        assert(out@ =~= start + zeros(i as nat));
    }
}

} // verus!
