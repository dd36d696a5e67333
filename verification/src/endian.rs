//! Fixed-width integers and their byte order.
use vstd::prelude::*;

verus! {

/// The value of four bytes, most significant first.
pub open spec fn be32(b: [u8; 4]) -> u32 {
    (b[0] as int * 0x100_0000 + b[1] as int * 0x1_0000 + b[2] as int * 0x100 + b[3] as int) as u32
}

/// The value of four bytes, least significant first.
pub open spec fn le32(b: Seq<u8>) -> u32 {
    (b[3] as int * 0x100_0000 + b[2] as int * 0x1_0000 + b[1] as int * 0x100 + b[0] as int) as u32
}

/// The value of two bytes, most significant first.
pub open spec fn be16(b: [u8; 2]) -> u16 {
    (b[0] as int * 0x100 + b[1] as int) as u16
}

/// The four bytes of `x`, most significant first.
pub open spec fn be32_bytes(x: u32) -> Seq<u8> {
    seq![(x / 0x100_0000) as u8, ((x / 0x1_0000) % 0x100) as u8, ((x / 0x100) % 0x100) as u8, (x % 0x100) as u8]
}

/// The four bytes of `x`, least significant first.
pub open spec fn le32_bytes(x: u32) -> Seq<u8> {
    seq![(x % 0x100) as u8, ((x / 0x100) % 0x100) as u8, ((x / 0x1_0000) % 0x100) as u8, (x / 0x100_0000) as u8]
}

/// The two bytes of `x`, most significant first.
pub open spec fn be16_bytes(x: u16) -> Seq<u8> {
    seq![(x / 0x100) as u8, (x % 0x100) as u8]
}

/// Four bytes read as a big-endian number (what `u32::from_be_bytes` computes).
pub(crate) fn u32_from_be_bytes(b: [u8; 4]) -> (r: u32)
    ensures
        r == be32(b),
{
    (b[0] as u32) * 0x100_0000 + (b[1] as u32) * 0x1_0000 + (b[2] as u32) * 0x100 + (b[3] as u32)
}

/// The big-endian bytes of a number (what `u32::to_be_bytes` computes).
pub(crate) fn u32_to_be_bytes(x: u32) -> (r: [u8; 4])
    ensures
        r@ == be32_bytes(x),
{
    let r = [(x / 0x100_0000) as u8, ((x / 0x1_0000) % 0x100) as u8, ((x / 0x100) % 0x100) as u8, (x % 0x100) as u8];
    assert(r@ =~= be32_bytes(x));
    r
}

/// Two bytes read as a big-endian number (what `u16::from_be_bytes` computes).
pub(crate) fn u16_from_be_bytes(b: [u8; 2]) -> (r: u16)
    ensures
        r == be16(b),
{
    (b[0] as u16) * 0x100 + (b[1] as u16)
}

/// The big-endian bytes of a number (what `u16::to_be_bytes` computes).
pub(crate) fn u16_to_be_bytes(x: u16) -> (r: [u8; 2])
    ensures
        r@ == be16_bytes(x),
{
    let r = [(x / 0x100) as u8, (x % 0x100) as u8];
    assert(r@ =~= be16_bytes(x));
    r
}

/// Reading back the big-endian bytes of a number gives the number.
pub proof fn lemma_be32_roundtrip(x: u32, b: [u8; 4])
    requires
        b@ == be32_bytes(x),
    ensures
        be32(b) == x,
{
    assert(b[0] == b@[0] && b[1] == b@[1] && b[2] == b@[2] && b[3] == b@[3]);
    assert(x as int == (x / 0x100_0000) * 0x100_0000 + ((x / 0x1_0000) % 0x100) * 0x1_0000
        + ((x / 0x100) % 0x100) * 0x100 + x % 0x100) by (nonlinear_arith);
}

/// Reading back the big-endian bytes of a number gives the number.
pub proof fn lemma_be16_roundtrip(x: u16, b: [u8; 2])
    requires
        b@ == be16_bytes(x),
    ensures
        be16(b) == x,
{
    assert(b[0] == b@[0] && b[1] == b@[1]);
    assert(x as int == (x / 0x100) * 0x100 + x % 0x100) by (nonlinear_arith);
}

/// Reading back the little-endian bytes of a number gives the number.
pub proof fn lemma_le32_roundtrip(x: u32)
    ensures
        le32(le32_bytes(x)) == x,
{
    assert(x as int == (x / 0x100_0000) * 0x100_0000 + ((x / 0x1_0000) % 0x100) * 0x1_0000
        + ((x / 0x100) % 0x100) * 0x100 + x % 0x100) by (nonlinear_arith);
}

/// The big-endian bytes of the number that four bytes denote are those bytes.
pub proof fn lemma_be32_bytes_of_value(b: [u8; 4])
    ensures
        be32_bytes(be32(b)) == b@,
{
    let (b0, b1, b2, b3) = (b[0] as int, b[1] as int, b[2] as int, b[3] as int);
    let v = b0 * 0x100_0000 + b1 * 0x1_0000 + b2 * 0x100 + b3;
    assert(0 <= v < 0x1_0000_0000) by (nonlinear_arith)
        requires
            0 <= b0 < 256, 0 <= b1 < 256, 0 <= b2 < 256, 0 <= b3 < 256, v == b0 * 0x100_0000 + b1 * 0x1_0000 + b2 * 0x100 + b3;
    assert(v / 0x100_0000 == b0 && (v / 0x1_0000) % 0x100 == b1 && (v / 0x100) % 0x100 == b2 && v % 0x100 == b3)
        by (nonlinear_arith)
        requires
            0 <= b0 < 256, 0 <= b1 < 256, 0 <= b2 < 256, 0 <= b3 < 256, v == b0 * 0x100_0000 + b1 * 0x1_0000 + b2 * 0x100 + b3;
    assert(be32_bytes(be32(b)) =~= b@);
}

/// The big-endian bytes of the number that two bytes denote are those bytes.
pub proof fn lemma_be16_bytes_of_value(b: [u8; 2])
    ensures
        be16_bytes(be16(b)) == b@,
{
    let (b0, b1) = (b[0] as int, b[1] as int);
    let v = b0 * 0x100 + b1;
    assert(0 <= v < 0x1_0000 && v / 0x100 == b0 && v % 0x100 == b1) by (nonlinear_arith)
        requires
            0 <= b0 < 256, 0 <= b1 < 256, v == b0 * 0x100 + b1;
    assert(be16_bytes(be16(b)) =~= b@);
}

/// The value of eight bytes, most significant first.
pub open spec fn be64(b: Seq<u8>) -> u64 {
    (b[0] as int * 0x100_0000_0000_0000 + b[1] as int * 0x1_0000_0000_0000 + b[2] as int * 0x100_0000_0000
        + b[3] as int * 0x1_0000_0000 + b[4] as int * 0x100_0000 + b[5] as int * 0x1_0000 + b[6] as int * 0x100
        + b[7] as int) as u64
}

/// The eight bytes of `x`, most significant first.
pub open spec fn be64_bytes(x: u64) -> Seq<u8> {
    Seq::new(8, |i: int| ((x as int / pow256(7 - i)) % 0x100) as u8)
}

/// 256 to the power `e`.
pub open spec fn pow256(e: int) -> int
    decreases e,
{
    if e <= 0 {
        1
    } else {
        256 * pow256(e - 1)
    }
}

/// Reading back the big-endian bytes of a 64-bit number gives the number.
pub proof fn lemma_be64_roundtrip(x: u64)
    ensures
        be64(be64_bytes(x)) == x,
{
    reveal_with_fuel(pow256, 8);
    assert(((x / 0x100_0000_0000_0000u64) % 0x100u64) * 0x100_0000_0000_0000u64
        + ((x / 0x1_0000_0000_0000u64) % 0x100u64) * 0x1_0000_0000_0000u64
        + ((x / 0x100_0000_0000u64) % 0x100u64) * 0x100_0000_0000u64
        + ((x / 0x1_0000_0000u64) % 0x100u64) * 0x1_0000_0000u64
        + ((x / 0x100_0000u64) % 0x100u64) * 0x100_0000u64
        + ((x / 0x1_0000u64) % 0x100u64) * 0x1_0000u64
        + ((x / 0x100u64) % 0x100u64) * 0x100u64
        + x % 0x100u64 == x) by (bit_vector);
}

/// Eight bytes read as a big-endian number (what `u64::from_be_bytes` computes).
pub(crate) fn u64_from_be_bytes(b: [u8; 8]) -> (r: u64)
    ensures
        r == be64(b@),
{
    (b[0] as u64) * 0x100_0000_0000_0000 + (b[1] as u64) * 0x1_0000_0000_0000 + (b[2] as u64) * 0x100_0000_0000
        + (b[3] as u64) * 0x1_0000_0000 + (b[4] as u64) * 0x100_0000 + (b[5] as u64) * 0x1_0000 + (b[6] as u64)
        * 0x100 + (b[7] as u64)
}

/// The big-endian bytes of a number (what `u64::to_be_bytes` computes).
pub(crate) fn u64_to_be_bytes(x: u64) -> (r: [u8; 8])
    ensures
        r@ == be64_bytes(x),
{
    let r = [
        (x / 0x100_0000_0000_0000) as u8,
        ((x / 0x1_0000_0000_0000) % 0x100) as u8,
        ((x / 0x100_0000_0000) % 0x100) as u8,
        ((x / 0x1_0000_0000) % 0x100) as u8,
        ((x / 0x100_0000) % 0x100) as u8,
        ((x / 0x1_0000) % 0x100) as u8,
        ((x / 0x100) % 0x100) as u8,
        (x % 0x100) as u8,
    ];
    proof {
        reveal_with_fuel(pow256, 8);
        assert(x / 0x100_0000_0000_0000 < 0x100);
    }
    assert(r@ =~= be64_bytes(x));
    r
}

} // verus!
