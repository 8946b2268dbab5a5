use vstd::prelude::*;

verus! {

/// The two bytes of a 16-bit number, most significant first.
pub open spec fn be16(x: u16) -> Seq<u8> {
    seq![(x / 256) as u8, (x % 256) as u8]
}

/// The four bytes of a 32-bit number, most significant first.
pub open spec fn be32(x: u32) -> Seq<u8> {
    seq![(x / 0x100_0000) as u8, ((x / 0x1_0000) % 256) as u8, ((x / 256) % 256) as u8, (x % 256) as u8]
}

/// The 16-bit number whose big-endian bytes are `b0 b1`.
pub open spec fn u16_from_be(b0: u8, b1: u8) -> u16 {
    (b0 * 256 + b1) as u16
}

/// The 32-bit number whose big-endian bytes are `b0 b1 b2 b3`.
pub open spec fn u32_from_be(b0: u8, b1: u8, b2: u8, b3: u8) -> u32 {
    (b0 * 0x100_0000 + b1 * 0x1_0000 + b2 * 256 + b3) as u32
}

/// Appends the big-endian bytes of a 16-bit number.
pub fn push_be16(out: &mut Vec<u8>, x: u16)
    ensures
        final(out)@ == old(out)@ + be16(x),
{
    out.push((x / 256) as u8);
    out.push((x % 256) as u8);
    assert(out@ =~= old(out)@ + be16(x));
}

/// Appends the big-endian bytes of a 32-bit number.
pub fn push_be32(out: &mut Vec<u8>, x: u32)
    ensures
        final(out)@ == old(out)@ + be32(x),
{
    out.push((x / 0x100_0000) as u8);
    out.push(((x / 0x1_0000) % 256) as u8);
    out.push(((x / 256) % 256) as u8);
    out.push((x % 256) as u8);
    assert(out@ =~= old(out)@ + be32(x));
}

/// Reads a big-endian 16-bit number at `at`.
pub fn read_be16(b: &[u8], at: usize) -> (r: u16)
    requires
        at + 2 <= b@.len(),
    ensures
        r == u16_from_be(b@[at as int], b@[at + 1]),
{
    (b[at] as u16) * 256 + (b[at + 1] as u16)
}

/// Reads a big-endian 32-bit number at `at`.
pub fn read_be32(b: &[u8], at: usize) -> (r: u32)
    requires
        at + 4 <= b@.len(),
    ensures
        r == u32_from_be(b@[at as int], b@[at + 1], b@[at + 2], b@[at + 3]),
{
    (b[at] as u32) * 0x100_0000 + (b[at + 1] as u32) * 0x1_0000 + (b[at + 2] as u32) * 256
        + (b[at + 3] as u32)
}

/// The bytes of a 16-bit number are its base-256 digits, most significant
/// first.
pub proof fn lemma_be16_digits(x: u16)
    ensures
        be16(x).len() == 2,
        x == be16(x)[0] * 256 + be16(x)[1],
{
    assert(((x / 256) as u8) * 256 + ((x % 256) as u8) == x) by (bit_vector);
}

/// The bytes of a 32-bit number are its base-256 digits, most significant
/// first.
pub proof fn lemma_be32_digits(x: u32)
    ensures
        be32(x).len() == 4,
        x == be32(x)[0] * 0x100_0000 + be32(x)[1] * 0x1_0000 + be32(x)[2] * 256 + be32(x)[3],
{
    lemma_be32_roundtrip(x);
}

/// The number read from two bytes has them as base-256 digits, most
/// significant first.
pub proof fn lemma_u16_from_be_digits(b0: u8, b1: u8)
    ensures
        u16_from_be(b0, b1) == b0 * 256 + b1,
{
}

/// The number read from four bytes has them as base-256 digits, most
/// significant first.
pub proof fn lemma_u32_from_be_digits(b0: u8, b1: u8, b2: u8, b3: u8)
    ensures
        u32_from_be(b0, b1, b2, b3) == b0 * 0x100_0000 + b1 * 0x1_0000 + b2 * 256 + b3,
{
}

/// Reading back the bytes of a 16-bit number gives the number.
pub proof fn lemma_be16_roundtrip(x: u16)
    ensures
        u16_from_be(be16(x)[0], be16(x)[1]) == x,
{
    assert(((x / 256) as u8) * 256 + ((x % 256) as u8) == x) by (bit_vector);
}

/// Reading back the bytes of a 32-bit number gives the number.
pub proof fn lemma_be32_roundtrip(x: u32)
    ensures
        u32_from_be(be32(x)[0], be32(x)[1], be32(x)[2], be32(x)[3]) == x,
{
    assert(((x / 0x100_0000) as u8) * 0x100_0000 + (((x / 0x1_0000) % 256) as u8) * 0x1_0000
        + (((x / 256) % 256) as u8) * 256 + ((x % 256) as u8) == x) by (bit_vector);
}

/// Writing out a number read from two bytes gives those bytes.
pub proof fn lemma_u16_from_be_roundtrip(b0: u8, b1: u8)
    ensures
        be16(u16_from_be(b0, b1)) == seq![b0, b1],
{
    let x = u16_from_be(b0, b1);
    assert(x == (b0 as u16) * 256 + (b1 as u16));
    assert(((b0 as u16) * 256 + (b1 as u16)) / 256 == b0 && ((b0 as u16) * 256 + (b1 as u16)) % 256
        == b1) by (bit_vector);
    assert(be16(x) =~= seq![b0, b1]);
}

/// Writing out a number read from four bytes gives those bytes.
pub proof fn lemma_u32_from_be_roundtrip(b0: u8, b1: u8, b2: u8, b3: u8)
    ensures
        be32(u32_from_be(b0, b1, b2, b3)) == seq![b0, b1, b2, b3],
{
    let x = u32_from_be(b0, b1, b2, b3);
    assert(x == (b0 as u32) * 0x100_0000 + (b1 as u32) * 0x1_0000 + (b2 as u32) * 256 + (b3 as u32));
    assert({
        let y = (b0 as u32) * 0x100_0000 + (b1 as u32) * 0x1_0000 + (b2 as u32) * 256 + (b3 as u32);
        &&& y / 0x100_0000 == b0
        &&& (y / 0x1_0000) % 256 == b1
        &&& (y / 256) % 256 == b2
        &&& y % 256 == b3
    }) by (bit_vector);
    assert(be32(x) =~= seq![b0, b1, b2, b3]);
}

} // verus!
