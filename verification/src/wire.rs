//! Big-endian field encoding used by every wire format of the library.
use vstd::prelude::*;

verus! {

/// The two big-endian bytes of a 16-bit value.
pub open spec fn be16(v: u16) -> Seq<u8> {
    seq![(v / 256) as u8, (v % 256) as u8]
}

/// The four big-endian bytes of a 32-bit value.
pub open spec fn be32(v: u32) -> Seq<u8> {
    seq![(v / 0x100_0000) as u8, ((v / 0x1_0000) % 256) as u8, ((v / 256) % 256) as u8, (v % 256) as u8]
}

/// The 16-bit value of two big-endian bytes.
pub open spec fn from_be16(hi: u8, lo: u8) -> u16 {
    (hi * 256 + lo) as u16
}

/// The 32-bit value of four big-endian bytes.
pub open spec fn from_be32(b0: u8, b1: u8, b2: u8, b3: u8) -> u32 {
    (b0 * 0x100_0000 + b1 * 0x1_0000 + b2 * 256 + b3) as u32
}

/// `u16::to_be_bytes`.
pub fn u16_to_be(v: u16) -> (b: [u8; 2])
    ensures
        b@ == be16(v),
{
    let b = [(v / 256) as u8, (v % 256) as u8];
    assert(b@ =~= be16(v));
    b
}

/// `u32::to_be_bytes`.
pub fn u32_to_be(v: u32) -> (b: [u8; 4])
    ensures
        b@ == be32(v),
{
    let b = [(v / 0x100_0000) as u8, ((v / 0x1_0000) % 256) as u8, ((v / 256) % 256) as u8, (v % 256) as u8];
    assert(b@ =~= be32(v));
    b
}

/// `u16::from_be_bytes`.
pub fn u16_from_be(hi: u8, lo: u8) -> (v: u16)
    ensures
        v == from_be16(hi, lo),
        v as int == hi * 256 + lo,
{
    hi as u16 * 256 + lo as u16
}

/// `u32::from_be_bytes`.
pub fn u32_from_be(b0: u8, b1: u8, b2: u8, b3: u8) -> (v: u32)
    ensures
        v == from_be32(b0, b1, b2, b3),
        v as int == b0 * 0x100_0000 + b1 * 0x1_0000 + b2 * 256 + b3,
{
    b0 as u32 * 0x100_0000 + b1 as u32 * 0x1_0000 + b2 as u32 * 256 + b3 as u32
}

/// Decoding the encoding of a 16-bit value gives the value back.
pub proof fn lemma_be16_roundtrip(v: u16)
    ensures
        from_be16(be16(v)[0], be16(v)[1]) == v,
{
}

/// Decoding the encoding of a 32-bit value gives the value back.
pub proof fn lemma_be32_roundtrip(v: u32)
    ensures
        from_be32(be32(v)[0], be32(v)[1], be32(v)[2], be32(v)[3]) == v,
{
}

/// Encoding the value of two bytes gives the bytes back.
pub proof fn lemma_from_be16_roundtrip(hi: u8, lo: u8)
    ensures
        be16(from_be16(hi, lo)) == seq![hi, lo],
{
    assert(be16(from_be16(hi, lo)) =~= seq![hi, lo]);
}

/// Encoding the value of four bytes gives the bytes back.
pub proof fn lemma_from_be32_roundtrip(b0: u8, b1: u8, b2: u8, b3: u8)
    ensures
        be32(from_be32(b0, b1, b2, b3)) == seq![b0, b1, b2, b3],
{
    let v = from_be32(b0, b1, b2, b3);
    let x: int = b0 * 0x100_0000 + b1 * 0x1_0000 + b2 * 256 + b3;
    assert(v as int == x);
    assert(x / 0x100_0000 == b0) by (nonlinear_arith)
        requires
            x == b0 * 0x100_0000 + b1 * 0x1_0000 + b2 * 256 + b3,
            0 <= b1 < 256,
            0 <= b2 < 256,
            0 <= b3 < 256,
    ;
    assert((x / 0x1_0000) % 256 == b1) by (nonlinear_arith)
        requires
            x == b0 * 0x100_0000 + b1 * 0x1_0000 + b2 * 256 + b3,
            0 <= b0 < 256,
            0 <= b1 < 256,
            0 <= b2 < 256,
            0 <= b3 < 256,
    ;
    assert((x / 256) % 256 == b2) by (nonlinear_arith)
        requires
            x == b0 * 0x100_0000 + b1 * 0x1_0000 + b2 * 256 + b3,
            0 <= b0 < 256,
            0 <= b1 < 256,
            0 <= b2 < 256,
            0 <= b3 < 256,
    ;
    assert(x % 256 == b3) by (nonlinear_arith)
        requires
            x == b0 * 0x100_0000 + b1 * 0x1_0000 + b2 * 256 + b3,
            0 <= b0 < 256,
            0 <= b1 < 256,
            0 <= b2 < 256,
            0 <= b3 < 256,
    ;
    assert(be32(v) =~= seq![b0, b1, b2, b3]);
}


/// `n` zero bytes.
pub open spec fn zeros(n: nat) -> Seq<u8> {
    Seq::new(n, |i: int| 0u8)
}

/// A vector of `n` zero bytes (`vec![0u8; n]`).
pub fn zero_vec(n: usize) -> (v: Vec<u8>)
    ensures
        v@ == zeros(n as nat),
{
    let v = vec![0u8; n];
    assert(v@ =~= zeros(n as nat));
    v
}

/// Appends the bytes of `src` to `buf`.
pub fn push_bytes(buf: &mut Vec<u8>, src: &[u8])
    ensures
        final(buf)@ == old(buf)@ + src@,
{
    let mut i: usize = 0;
    while i < src.len()
        invariant
            i <= src.len(),
            buf@ == old(buf)@ + src@.subrange(0, i as int),
        decreases src.len() - i,
    {
        buf.push(src[i]);
        i = i + 1;
        assert(buf@ =~= old(buf)@ + src@.subrange(0, i as int));
    }
    assert(src@.subrange(0, src.len() as int) =~= src@);
}

/// Appends `n` zero bytes to `buf`.
pub fn push_zeros(buf: &mut Vec<u8>, n: usize)
    ensures
        final(buf)@ == old(buf)@ + zeros(n as nat),
{
    let mut i: usize = 0;
    while i < n
        invariant
            i <= n,
            buf@ == old(buf)@ + zeros(i as nat),
        decreases n - i,
    {
        buf.push(0u8);
        i = i + 1;
        assert(buf@ =~= old(buf)@ + zeros(i as nat));
    }
}

} // verus!
