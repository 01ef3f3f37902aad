//! Little- and big-endian byte encodings and in-place field writers.
use vstd::prelude::*;

verus! {

/// The four little-endian bytes of `v`.
pub open spec fn le_u32(v: u32) -> Seq<u8> {
    seq![
        (v % 256) as u8,
        ((v / 256) % 256) as u8,
        ((v / 65536) % 256) as u8,
        (v / 16777216) as u8,
    ]
}

/// The two little-endian bytes of `v`.
pub open spec fn le_u16(v: u16) -> Seq<u8> {
    seq![(v % 256) as u8, (v / 256) as u8]
}

/// The two big-endian bytes of `v`.
pub open spec fn be_u16(v: u16) -> Seq<u8> {
    seq![(v / 256) as u8, (v % 256) as u8]
}

/// The value of the four little-endian bytes of `s` that start at `at`.
pub open spec fn read_le_u32(s: Seq<u8>, at: int) -> int {
    s[at] + 256 * s[at + 1] + 65536 * s[at + 2] + 16777216 * s[at + 3]
}

/// The value of the two little-endian bytes of `s` that start at `at`.
pub open spec fn read_le_u16(s: Seq<u8>, at: int) -> int {
    s[at] + 256 * s[at + 1]
}

/// The value of the two big-endian bytes of `s` that start at `at`.
pub open spec fn read_be_u16(s: Seq<u8>, at: int) -> int {
    256 * s[at] + s[at + 1]
}

/// Decoding the little-endian bytes of a `u32` gives the value back.
pub proof fn lemma_le_u32_roundtrip(v: u32)
    ensures
        read_le_u32(le_u32(v), 0) == v,
        le_u32(v).len() == 4,
{
    let b0 = v % 256;
    let b1 = (v / 256) % 256;
    let b2 = (v / 65536) % 256;
    let b3 = v / 16777216;
    assert(v == b0 + 256 * b1 + 65536 * b2 + 16777216 * b3) by (nonlinear_arith)
        requires
            b0 == v % 256,
            b1 == (v / 256) % 256,
            b2 == (v / 65536) % 256,
            b3 == v / 16777216,
            0 <= v,
    ;
}

/// Decoding the little-endian bytes of a `u16` gives the value back.
pub proof fn lemma_le_u16_roundtrip(v: u16)
    ensures
        read_le_u16(le_u16(v), 0) == v,
        le_u16(v).len() == 2,
{
}

/// Decoding the big-endian bytes of a `u16` gives the value back.
pub proof fn lemma_be_u16_roundtrip(v: u16)
    ensures
        read_be_u16(be_u16(v), 0) == v,
        be_u16(v).len() == 2,
{
}

/// Writes the little-endian bytes of `v` at `at` in `out`, leaving every
/// other byte unchanged.
pub fn put_le_u32<const N: usize>(out: &mut [u8; N], at: usize, v: u32)
    requires
        at + 4 <= N,
    ensures
        final(out)@.len() == N,
        forall|i: int|
            0 <= i < N ==> #[trigger] final(out)@[i] == if at <= i < at + 4 {
                le_u32(v)[i - at]
            } else {
                old(out)@[i]
            },
{
    out[at] = (v % 256) as u8;
    out[at + 1] = ((v / 256) % 256) as u8;
    out[at + 2] = ((v / 65536) % 256) as u8;
    out[at + 3] = (v / 16777216) as u8;
}

/// Writes the little-endian bytes of `v` at `at` in `out`, leaving every
/// other byte unchanged.
pub fn put_le_u16<const N: usize>(out: &mut [u8; N], at: usize, v: u16)
    requires
        at + 2 <= N,
    ensures
        final(out)@.len() == N,
        forall|i: int|
            0 <= i < N ==> #[trigger] final(out)@[i] == if at <= i < at + 2 {
                le_u16(v)[i - at]
            } else {
                old(out)@[i]
            },
{
    out[at] = (v % 256) as u8;
    out[at + 1] = (v / 256) as u8;
}

/// `n` zero bytes.
pub open spec fn zeros(n: nat) -> Seq<u8> {
    Seq::new(n, |i: int| 0u8)
}

/// Appends the bytes of `src` to `out`.
pub fn append_slice(out: &mut Vec<u8>, src: &[u8])
    ensures
        final(out)@ == old(out)@ + src@,
{
    let mut i: usize = 0;
    while i < src.len()
        invariant
            0 <= i <= src@.len(),
            out@ == old(out)@ + src@.subrange(0, i as int),
        decreases src@.len() - i,
    {
        out.push(src[i]);
        i = i + 1;
        assert(out@ =~= old(out)@ + src@.subrange(0, i as int));
    }
    assert(src@.subrange(0, src@.len() as int) =~= src@);
}

/// Appends `n` zero bytes to `out`.
pub fn append_zeros(out: &mut Vec<u8>, n: usize)
    ensures
        final(out)@ == old(out)@ + zeros(n as nat),
{
    let mut i: usize = 0;
    while i < n
        invariant
            0 <= i <= n,
            out@ == old(out)@ + zeros(i as nat),
        decreases n - i,
    {
        out.push(0u8);
        i = i + 1;
        assert(out@ =~= old(out)@ + zeros(i as nat));
    }
}

} // verus!
