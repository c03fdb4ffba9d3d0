//! Packing a four-part version number into one 32-bit integer.
use vstd::prelude::*;

verus! {

/// The packed form of `(major, minor, patch, build)`: 8 bits of major, 8 of
/// minor, 12 of patch and 4 of build, from the most significant end; higher
/// bits of each part are dropped.
pub open spec fn packed_version(quad: Seq<u32>) -> int {
    (quad[0] % 0x100) * 0x100_0000 + (quad[1] % 0x100) * 0x1_0000 + (quad[2] % 0x1000) * 0x10 + (
    quad[3] % 0x10)
}

/// Packs a version quad `[major, minor, patch, build]` into one `u32`.
pub fn pack_version(quad: [u32; 4]) -> (r: u32)
    ensures
        r as int == packed_version(quad@),
{
    let a = quad[0];
    let b = quad[1];
    let c = quad[2];
    let d = quad[3];
    let r = ((a & 0xff) << 24) | ((b & 0xff) << 16) | ((c & 0xfff) << 4) | (d & 0xf);
    assert(r == (a % 0x100) * 0x100_0000 + (b % 0x100) * 0x1_0000 + (c % 0x1000) * 0x10 + (d
        % 0x10)) by (bit_vector)
        requires
            r == ((a & 0xff) << 24) | ((b & 0xff) << 16) | ((c & 0xfff) << 4) | (d & 0xf),
    ;
    r
}

} // verus!
