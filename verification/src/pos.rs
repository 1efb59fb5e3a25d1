//! Block and chunk positions.
//!
//! A chunk is a 16 x 16 column of the world. The chunk of a block is found by
//! flooring its `x` and `z` to multiples of sixteen; chunk coordinates are kept
//! in sixteen bits and wrap around beyond them.

use vstd::prelude::*;

verus! {

/// The position of one block in the world.
#[derive(Clone, Copy, PartialEq, Eq, Structural, Debug, Hash)]
pub struct IVec3 {
    pub x: i32,
    pub y: i32,
    pub z: i32,
}

impl IVec3 {
    pub fn new(x: i32, y: i32, z: i32) -> (r: Self)
        ensures
            r == (IVec3 { x, y, z }),
    {
        IVec3 { x, y, z }
    }
}

/// The position of one chunk: `x` along the world's x axis, `y` along its z axis.
#[derive(Clone, Copy, PartialEq, Eq, Structural, Debug, Hash)]
pub struct I16Vec2 {
    pub x: i16,
    pub y: i16,
}

impl I16Vec2 {
    pub fn new(x: i16, y: i16) -> (r: Self)
        ensures
            r == (I16Vec2 { x, y }),
    {
        I16Vec2 { x, y }
    }

    /// The two coordinates as a pair.
    pub open spec fn key(self) -> (i16, i16) {
        (self.x, self.y)
    }
}

/// `v` reduced to sixteen bits, read as a signed number.
pub open spec fn wrap_i16(v: int) -> int {
    (v + 32768) % 65536 - 32768
}

/// The chunk that holds the block at `pos`.
pub open spec fn chunk_at(pos: IVec3) -> I16Vec2 {
    I16Vec2 { x: wrap_i16(pos.x as int / 16) as i16, y: wrap_i16(pos.z as int / 16) as i16 }
}

/// Whether the chunk of `pos` has coordinates of at most sixteen bits, so that
/// finding it did not wrap around.
pub open spec fn in_chunk_range(pos: IVec3) -> bool {
    &&& -32768 <= pos.x as int / 16 <= 32767
    &&& -32768 <= pos.z as int / 16 <= 32767
}

/// `v / 16`, rounded down.
pub(crate) fn floor_16(v: i32) -> (q: i32)
    ensures
        q == v as int / 16,
        -0x800_0000 <= q <= 0x7ff_ffff,
{
    let q: i32 = v >> 4;
    assert(q * 16 <= v && v <= q * 16 + 15) by (bit_vector)
        requires
            q == v >> 4,
    ;
    q
}

/// `v` modulo 16, in `0..16` for negative `v` too.
pub(crate) fn low_4_bits(v: i32) -> (r: u32)
    ensures
        r == v as int % 16,
        r < 16,
{
    let q: i32 = v >> 4;
    let r: i32 = v & 15;
    assert(q * 16 + r == v && 0 <= r < 16) by (bit_vector)
        requires
            q == v >> 4,
            r == v & 15,
    ;
    r as u32
}

/// Keeps the low sixteen bits of `v`.
fn truncate_to_i16(v: i32) -> (r: i16)
    ensures
        r == wrap_i16(v as int),
{
    let r: i16 = v as i16;
    let k: i32 = v >> 16;
    assert(r == v - (k * 65536) || r == v - (k * 65536) - 65536) by (bit_vector)
        requires
            r == v as i16,
            k == v >> 16,
    ;
    r
}

/// The chunk that holds the block at `pos`.
pub fn chunk_of(pos: IVec3) -> (r: I16Vec2)
    ensures
        r == chunk_at(pos),
{
    I16Vec2 { x: truncate_to_i16(floor_16(pos.x)), y: truncate_to_i16(floor_16(pos.z)) }
}

/// The chunk that holds the block at `pos`, unless its coordinates need more
/// than sixteen bits.
pub fn exact_chunk_of(pos: IVec3) -> (r: Option<I16Vec2>)
    ensures
        r == (if in_chunk_range(pos) {
            Some(chunk_at(pos))
        } else {
            None
        }),
{
    let cx: i32 = floor_16(pos.x);
    let cz: i32 = floor_16(pos.z);
    if -32768 <= cx && cx <= 32767 && -32768 <= cz && cz <= 32767 {
        Some(I16Vec2 { x: cx as i16, y: cz as i16 })
    } else {
        None
    }
}

/// Whether `pos` lies in the inclusive cuboid from `min` to `max`.
pub open spec fn in_box(pos: IVec3, min: IVec3, max: IVec3) -> bool {
    &&& min.x <= pos.x <= max.x
    &&& min.y <= pos.y <= max.y
    &&& min.z <= pos.z <= max.z
}

/// A chunk position as one number.
pub open spec fn chunk_code(chunk: I16Vec2) -> u32 {
    ((chunk.x + 32768) * 65536 + (chunk.y + 32768)) as u32
}

/// Packs a chunk position into one number.
pub(crate) fn pack_chunk(chunk: I16Vec2) -> (r: u32)
    ensures
        r == chunk_code(chunk),
{
    ((chunk.x as i32 + 32768) as u32) * 65536 + (chunk.y as i32 + 32768) as u32
}

/// Distinct chunks have distinct numbers.
pub proof fn lemma_chunk_code_injective(a: I16Vec2, b: I16Vec2)
    requires
        chunk_code(a) == chunk_code(b),
    ensures
        a == b,
{
}

/// A block position as one number.
pub open spec fn pos_code(pos: IVec3) -> u128 {
    ((pos.x + 0x8000_0000) * 0x1_0000_0000_0000_0000 + (pos.y + 0x8000_0000) * 0x1_0000_0000 + (pos.z
        + 0x8000_0000)) as u128
}

/// The block position that `code` stands for.
pub open spec fn code_pos(code: u128) -> IVec3 {
    IVec3 {
        x: (code as int / 0x1_0000_0000_0000_0000 - 0x8000_0000) as i32,
        y: (code as int / 0x1_0000_0000 % 0x1_0000_0000 - 0x8000_0000) as i32,
        z: (code as int % 0x1_0000_0000 - 0x8000_0000) as i32,
    }
}

/// Packs a block position into one number.
pub(crate) fn pack_pos(pos: IVec3) -> (r: u128)
    ensures
        r == pos_code(pos),
{
    ((pos.x as i64 + 0x8000_0000) as u128) * 0x1_0000_0000_0000_0000 + ((pos.y as i64
        + 0x8000_0000) as u128) * 0x1_0000_0000 + (pos.z as i64 + 0x8000_0000) as u128
}

/// Recovers a block position from its number.
pub(crate) fn unpack_pos(code: u128) -> (r: IVec3)
    requires
        code < 0x1_0000_0000_0000_0000_0000_0000,
    ensures
        r == code_pos(code),
{
    let x: i64 = (code / 0x1_0000_0000_0000_0000) as i64;
    let y: i64 = (code / 0x1_0000_0000 % 0x1_0000_0000) as i64;
    let z: i64 = (code % 0x1_0000_0000) as i64;
    IVec3 {
        x: (x - 0x8000_0000) as i32,
        y: (y - 0x8000_0000) as i32,
        z: (z - 0x8000_0000) as i32,
    }
}

/// A position is recovered from its number.
pub proof fn lemma_pos_code_round_trip(pos: IVec3)
    ensures
        code_pos(pos_code(pos)) == pos,
        pos_code(pos) < 0x1_0000_0000_0000_0000_0000_0000,
{
}

/// A chunk holds the blocks whose coordinates along x and z lie in its sixteen: a position
/// lies in the chunk that is found for it and, where chunk coordinates can name it at all,
/// in no other.
pub proof fn law_chunk_holds_sixteen_by_sixteen(pos: IVec3, chunk: I16Vec2)
    ensures
        chunk.x * 16 <= pos.x < chunk.x * 16 + 16 && chunk.y * 16 <= pos.z < chunk.y * 16 + 16
            <==> in_chunk_range(pos) && chunk_at(pos) == chunk,
        in_chunk_range(pos) <==> -0x8_0000 <= pos.x < 0x8_0000 && -0x8_0000 <= pos.z < 0x8_0000,
{
}

/// Beyond what chunk coordinates can name they wrap around: positions that lie a whole
/// world apart are in the same chunk, whatever their height.
pub proof fn law_chunk_coordinates_wrap(a: IVec3, b: IVec3)
    requires
        (a.x - b.x) % 0x10_0000 == 0,
        (a.z - b.z) % 0x10_0000 == 0,
    ensures
        chunk_at(a) == chunk_at(b),
{
    let m = (a.x - b.x) / 0x10_0000;
    let n = (a.z - b.z) / 0x10_0000;
    assert(a.x as int == b.x + m * 0x10_0000);
    assert(a.z as int == b.z + n * 0x10_0000);
    assert(a.x as int / 16 == b.x as int / 16 + m * 0x1_0000);
    assert(a.z as int / 16 == b.z as int / 16 + n * 0x1_0000);
}

} // verus!
