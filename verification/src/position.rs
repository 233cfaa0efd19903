use vstd::prelude::*;

use crate::error::DecodeError;
use crate::mc_buf::{be_bytes, lemma_be_round_trip, read_u64, spec_read_be, write_u64};
use vstd::arithmetic::power2::lemma2_to64;

verus! {

/// A block position in integer world coordinates.
#[derive(Clone, Copy, Debug, PartialEq, Eq, Structural)]
pub struct BlockPos {
    pub x: i32,
    pub y: i32,
    pub z: i32,
}

/// The coordinate ranges the packed 64-bit form represents exactly:
/// twenty-six bits each for x and z, twelve for y, two's complement.
pub open spec fn block_pos_in_range(p: BlockPos) -> bool {
    &&& -0x200_0000 <= p.x < 0x200_0000
    &&& -0x800 <= p.y < 0x800
    &&& -0x200_0000 <= p.z < 0x200_0000
}

/// The packed 64-bit word: x in the top twenty-six bits, then z in
/// twenty-six, then y in the low twelve. An out-of-range coordinate wraps
/// modulo its field width — a fixed policy, not an error.
pub open spec fn block_pos_word(p: BlockPos) -> u64 {
    (((p.x as u64) & 0x3FF_FFFF) << 38) | (((p.z as u64) & 0x3FF_FFFF) << 12) | ((
    p.y as u64) & 0xFFF)
}

/// The x coordinate of a packed word, sign-extended from its top bits.
pub open spec fn word_x(w: u64) -> i32 {
    (((w as i64) >> 38)) as i32
}

/// The z coordinate of a packed word, sign-extended from its middle bits.
pub open spec fn word_z(w: u64) -> i32 {
    ((((w << 26) as i64) >> 38)) as i32
}

/// The y coordinate of a packed word, sign-extended from its low bits.
pub open spec fn word_y(w: u64) -> i32 {
    ((((w << 52) as i64) >> 52)) as i32
}

/// Packing an in-range position and unpacking the word gives the identical
/// coordinates back.
pub proof fn lemma_block_pos_round_trip(p: BlockPos)
    requires
        block_pos_in_range(p),
    ensures
        word_x(block_pos_word(p)) == p.x,
        word_y(block_pos_word(p)) == p.y,
        word_z(block_pos_word(p)) == p.z,
{
    let x = p.x;
    let y = p.y;
    let z = p.z;
    assert((((((((x as u64) & 0x3FF_FFFF) << 38) | (((z as u64) & 0x3FF_FFFF) << 12) | ((
    y as u64) & 0xFFF)) as i64) >> 38)) as i32 == x) by (bit_vector)
        requires
            -0x200_0000 <= x < 0x200_0000,
    ;
    assert(((((((((x as u64) & 0x3FF_FFFF) << 38) | (((z as u64) & 0x3FF_FFFF) << 12) | ((
    y as u64) & 0xFFF)) << 26) as i64) >> 38)) as i32 == z) by (bit_vector)
        requires
            -0x200_0000 <= z < 0x200_0000,
    ;
    assert(((((((((x as u64) & 0x3FF_FFFF) << 38) | (((z as u64) & 0x3FF_FFFF) << 12) | ((
    y as u64) & 0xFFF)) << 52) as i64) >> 52)) as i32 == y) by (bit_vector)
        requires
            -0x800 <= y < 0x800,
    ;
}

/// Wire form of a block position: its packed word in eight big-endian bytes.
pub open spec fn block_pos_wire(p: BlockPos) -> Seq<u8> {
    be_bytes(block_pos_word(p) as nat, 8)
}

/// What a decoder sees at the front of `t` when reading a position field.
pub open spec fn spec_read_block_pos(t: Seq<u8>) -> Result<(BlockPos, int), DecodeError> {
    match spec_read_be(t, 8) {
        Err(e) => Err(e),
        Ok(vn) => {
            let w = vn.0 as u64;
            Ok((BlockPos { x: word_x(w), y: word_y(w), z: word_z(w) }, vn.1))
        },
    }
}

/// Round trip of the position codec at the spec level: an in-range position
/// written as its packed word reads back exactly.
pub proof fn lemma_block_pos_wire_round_trip(p: BlockPos, rest: Seq<u8>)
    requires
        block_pos_in_range(p),
    ensures
        spec_read_block_pos(block_pos_wire(p) + rest) == Ok::<(BlockPos, int), DecodeError>(
            (p, 8),
        ),
{
    lemma2_to64();
    vstd::arithmetic::power2::lemma2_to64_rest();
    lemma_be_round_trip(block_pos_word(p) as nat, 8, rest);
    lemma_block_pos_round_trip(p);
}

/// Reads an eight-byte packed position, exactly as `spec_read_block_pos`
/// describes.
pub fn read_block_pos(data: &[u8], pos: &mut usize) -> (r: Result<BlockPos, DecodeError>)
    requires
        *old(pos) <= data@.len(),
    ensures
        *old(pos) <= *final(pos) <= data@.len(),
        match spec_read_block_pos(data@.skip(*old(pos) as int)) {
            Ok(vn) => r == Ok::<BlockPos, DecodeError>(vn.0) && *final(pos) == *old(pos) + vn.1,
            Err(e) => r == Err::<BlockPos, DecodeError>(e) && *final(pos) == *old(pos),
        },
{
    match read_u64(data, pos) {
        Ok(w) => {
            proof {
                assert(-0x200_0000 <= ((w as i64) >> 38) < 0x200_0000) by (bit_vector);
                assert(-0x200_0000 <= (((w << 26) as i64) >> 38) < 0x200_0000) by (bit_vector);
                assert(-0x800 <= (((w << 52) as i64) >> 52) < 0x800) by (bit_vector);
            }
            let x = ((w as i64) >> 38) as i32;
            let z = (((w << 26) as i64) >> 38) as i32;
            let y = (((w << 52) as i64) >> 52) as i32;
            Ok(BlockPos { x, y, z })
        },
        Err(e) => Err(e),
    }
}

/// Appends the packed word of a position; out-of-range coordinates wrap
/// modulo their field width.
pub fn write_block_pos(p: &BlockPos, buf: &mut Vec<u8>)
    ensures
        final(buf)@ == old(buf)@ + block_pos_wire(*p),
{
    let w: u64 = (((p.x as u64) & 0x3FF_FFFF) << 38) | (((p.z as u64) & 0x3FF_FFFF) << 12) | ((
    p.y as u64) & 0xFFF);
    write_u64(w, buf);
}

} // verus!
