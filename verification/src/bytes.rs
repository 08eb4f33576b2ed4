//! Big-endian integers, as they travel on the wire.
use vstd::prelude::*;

verus! {

/// The two bytes of `x`, most significant first.
pub open spec fn be16(x: u16) -> Seq<u8> {
    seq![(x / 256) as u8, (x % 256) as u8]
}

/// The four bytes of `x`, most significant first.
pub open spec fn be32(x: u32) -> Seq<u8> {
    seq![
        (x / 0x100_0000) as u8,
        (x / 0x1_0000 % 256) as u8,
        (x / 256 % 256) as u8,
        (x % 256) as u8,
    ]
}

/// The eight bytes of `x`, most significant first.
pub open spec fn be64(x: u64) -> Seq<u8> {
    be32((x / 0x1_0000_0000) as u32) + be32((x % 0x1_0000_0000) as u32)
}

/// The integer whose big-endian bytes are `hi`, `lo`.
pub open spec fn from_be16(hi: u8, lo: u8) -> u16 {
    (hi * 256 + lo) as u16
}

/// The integer whose big-endian bytes are `a`, `b`, `c`, `d`.
pub open spec fn from_be32(a: u8, b: u8, c: u8, d: u8) -> u32 {
    (a * 0x100_0000 + b * 0x1_0000 + c * 256 + d) as u32
}

/// Reads two bytes as a big-endian integer.
pub fn read_be16(hi: u8, lo: u8) -> (res: u16)
    ensures
        res == from_be16(hi, lo),
{
    hi as u16 * 256 + lo as u16
}

/// Reads four bytes as a big-endian integer.
pub fn read_be32(a: u8, b: u8, c: u8, d: u8) -> (res: u32)
    ensures
        res == from_be32(a, b, c, d),
{
    a as u32 * 0x100_0000 + b as u32 * 0x1_0000 + c as u32 * 256 + d as u32
}

/// Appends the big-endian bytes of `x`.
pub fn push_be16(out: &mut Vec<u8>, x: u16)
    ensures
        final(out)@ == old(out)@ + be16(x),
{
    out.push((x / 256) as u8);
    out.push((x % 256) as u8);
    assert(out@ =~= old(out)@ + be16(x));
}

/// Appends the big-endian bytes of `x`.
pub fn push_be32(out: &mut Vec<u8>, x: u32)
    ensures
        final(out)@ == old(out)@ + be32(x),
{
    out.push((x / 0x100_0000) as u8);
    out.push((x / 0x1_0000 % 256) as u8);
    out.push((x / 256 % 256) as u8);
    out.push((x % 256) as u8);
    assert(out@ =~= old(out)@ + be32(x));
}

/// Appends the big-endian bytes of `x`.
pub fn push_be64(out: &mut Vec<u8>, x: u64)
    ensures
        final(out)@ == old(out)@ + be64(x),
{
    push_be32(out, (x / 0x1_0000_0000) as u32);
    push_be32(out, (x % 0x1_0000_0000) as u32);
    assert(out@ =~= old(out)@ + be64(x));
}

/// Appends a run of bytes.
pub fn push_all(out: &mut Vec<u8>, bytes: &[u8])
    ensures
        final(out)@ == old(out)@ + bytes@,
{
    out.extend_from_slice(bytes);
    assert(out@ =~= old(out)@ + bytes@);
}

/// Reading back the two bytes of an integer gives the integer.
pub proof fn be16_round_trip(x: u16)
    ensures
        from_be16(be16(x)[0], be16(x)[1]) == x,
{
}

/// Reading back the four bytes of an integer gives the integer.
pub proof fn be32_round_trip(x: u32)
    ensures
        from_be32(be32(x)[0], be32(x)[1], be32(x)[2], be32(x)[3]) == x,
{
}

/// The bytes of an integer determine it.
pub proof fn be32_injective(x: u32, y: u32)
    requires
        be32(x) == be32(y),
    ensures
        x == y,
{
    be32_round_trip(x);
    be32_round_trip(y);
}

/// The first byte counts most: the bytes of an integer are its digits to the base
/// of 256, from the highest down.
pub proof fn the_first_byte_counts_most(x: u16, y: u32, z: u64)
    ensures
        be16(x).len() == 2,
        be16(x)[0] as int * 256 + be16(x)[1] == x,
        be32(y).len() == 4,
        be32(y)[0] as int * 0x100_0000 + be32(y)[1] as int * 0x1_0000 + be32(y)[2] as int * 256
            + be32(y)[3] == y,
        be64(z).len() == 8,
        be64(z).take(4) == be32((z / 0x1_0000_0000) as u32),
        be64(z).skip(4) == be32((z % 0x1_0000_0000) as u32),
{
    assert(be64(z).take(4) =~= be32((z / 0x1_0000_0000) as u32));
    assert(be64(z).skip(4) =~= be32((z % 0x1_0000_0000) as u32));
}

} // verus!
