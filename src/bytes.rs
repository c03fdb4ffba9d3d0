//! Little-endian integers read out of a byte buffer.
use byteorder::{ByteOrder, LittleEndian};
use vstd::prelude::*;

verus! {

/// The unsigned value of `s`, least significant byte first.
pub open spec fn le_nat(s: Seq<u8>) -> nat
    decreases s.len(),
{
    if s.len() == 0 {
        0
    } else {
        s[0] as nat + 256 * le_nat(s.drop_first())
    }
}

/// The unsigned value of the `width` bytes of `b` that start at `pos`.
pub open spec fn le_at(b: Seq<u8>, pos: int, width: int) -> nat {
    le_nat(b.subrange(pos, pos + width))
}

/// Relies on byteorder's `LittleEndian::read_u16`: the first two bytes of the
/// slice, least significant first.
#[verifier::external_body]
pub(crate) fn read_u16_le(b: &[u8], pos: usize) -> (r: u16)
    requires
        pos + 2 <= b@.len(),
    ensures
        r as nat == le_at(b@, pos as int, 2),
{
    LittleEndian::read_u16(&b[pos..])
}

/// Relies on byteorder's `LittleEndian::read_u32`: the first four bytes of the
/// slice, least significant first.
#[verifier::external_body]
pub(crate) fn read_u32_le(b: &[u8], pos: usize) -> (r: u32)
    requires
        pos + 4 <= b@.len(),
    ensures
        r as nat == le_at(b@, pos as int, 4),
{
    LittleEndian::read_u32(&b[pos..])
}

/// Relies on byteorder's `LittleEndian::read_u64`: the first eight bytes of the
/// slice, least significant first.
#[verifier::external_body]
pub(crate) fn read_u64_le(b: &[u8], pos: usize) -> (r: u64)
    requires
        pos + 8 <= b@.len(),
    ensures
        r as nat == le_at(b@, pos as int, 8),
{
    LittleEndian::read_u64(&b[pos..])
}

/// Relies on byteorder's `LittleEndian::read_i32`, which is `read_u32` cast to
/// `i32`: the four bytes at `pos` as a two's complement number.
#[verifier::external_body]
pub(crate) fn read_i32_le(b: &[u8], pos: usize) -> (r: i32)
    requires
        pos + 4 <= b@.len(),
    ensures
        r as int == (if le_at(b@, pos as int, 4) < 0x8000_0000 {
            le_at(b@, pos as int, 4) as int
        } else {
            le_at(b@, pos as int, 4) - 0x1_0000_0000
        }),
{
    LittleEndian::read_i32(&b[pos..])
}

/// The byte at `pos` read as a one-byte little-endian number.
pub(crate) fn read_u8(b: &[u8], pos: usize) -> (r: u8)
    requires
        pos + 1 <= b@.len(),
    ensures
        r as nat == le_at(b@, pos as int, 1),
{
    proof {
        let s = b@.subrange(pos as int, pos + 1);
        assert(s.drop_first().len() == 0);
        assert(le_nat(s) == s[0] as nat + 256 * le_nat(s.drop_first()));
    }
    b[pos]
}

} // verus!
