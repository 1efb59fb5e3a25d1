//! One loaded chunk: a 16 x 16 column of blocks over the whole world height.

use vstd::prelude::*;

use crate::block::BlockState;
use crate::pos::{low_4_bits, I16Vec2, IVec3};

verus! {

/// How many blocks a column is high.
pub const CHUNK_HEIGHT_SPAN: u32 = 384;

/// The world height of the lowest block of a column.
pub const START_Y: i32 = -64;

/// How many blocks a column has: 16 * 16 * 384.
pub const COLUMN_BLOCKS: usize = 98304;

/// The place of the block at the offsets `x`, `y`, `z` in a column's list.
pub open spec fn cell(x: int, y: int, z: int) -> int {
    (y * 16 + z) * 16 + x
}

/// Whether a column has a block at these offsets.
pub open spec fn in_column(x: int, y: int, z: int) -> bool {
    0 <= x < 16 && 0 <= y < 384 && 0 <= z < 16
}

/// The place of the block at the world position `pos` in its column's list.
pub open spec fn cell_of(pos: IVec3) -> int {
    cell(pos.x as int % 16, pos.y + 64, pos.z as int % 16)
}

/// Offsets in a column lead to a place of its list, and no two to the same one.
pub proof fn lemma_cell(x: int, y: int, z: int)
    requires
        in_column(x, y, z),
    ensures
        0 <= cell(x, y, z) < 98304,
        cell(x, y, z) % 16 == x,
        cell(x, y, z) / 16 % 16 == z,
        cell(x, y, z) / 256 == y,
{
}

/// The blocks of a column, layer by layer from the bottom.
#[derive(Clone, Debug, PartialEq, Eq)]
pub struct ColumnData {
    pub blocks: Vec<BlockState>,
}

impl View for ColumnData {
    type V = Seq<BlockState>;

    open spec fn view(&self) -> Seq<BlockState> {
        self.blocks@
    }
}

impl ColumnData {
    /// Every block of the column is there, in a state of the table.
    pub open spec fn wf(&self) -> bool {
        &&& self@.len() == 98304
        &&& forall|i: int| 0 <= i < self@.len() ==> (#[trigger] self@[i]).valid()
    }

    /// A column that holds nothing but `state`.
    pub fn filled(state: BlockState) -> (r: Self)
        requires
            state.valid(),
        ensures
            r.wf(),
            r@ == Seq::new(98304, |i: int| state),
    {
        let mut blocks: Vec<BlockState> = Vec::new();
        let mut i: usize = 0;
        while i < COLUMN_BLOCKS
            invariant
                i <= COLUMN_BLOCKS,
                blocks@ == Seq::new(i as nat, |j: int| state),
            decreases COLUMN_BLOCKS - i,
        {
            blocks.push(state);
            i += 1;
            assert(blocks@ =~= Seq::new(i as nat, |j: int| state));
        }
        ColumnData { blocks }
    }

    /// How many blocks the column is high.
    pub fn height(&self) -> (r: u32)
        ensures
            r == 384,
    {
        CHUNK_HEIGHT_SPAN
    }

    /// The block at these offsets from the lowest corner of the column.
    pub fn block_state(&self, x: u32, y: u32, z: u32) -> (r: BlockState)
        requires
            self.wf(),
            in_column(x as int, y as int, z as int),
        ensures
            r == self@[cell(x as int, y as int, z as int)],
            r.valid(),
    {
        proof {
            lemma_cell(x as int, y as int, z as int);
        }
        self.blocks[((y * 16 + z) * 16 + x) as usize]
    }

    /// Puts `state` at these offsets and returns what was there before.
    pub fn set_delta(&mut self, x: u32, y: u32, z: u32, state: BlockState) -> (r: BlockState)
        requires
            old(self).wf(),
            state.valid(),
            in_column(x as int, y as int, z as int),
        ensures
            final(self).wf(),
            final(self)@ == old(self)@.update(cell(x as int, y as int, z as int), state),
            r == old(self)@[cell(x as int, y as int, z as int)],
            r.valid(),
    {
        proof {
            lemma_cell(x as int, y as int, z as int);
        }
        let i: usize = ((y * 16 + z) * 16 + x) as usize;
        let before = self.blocks[i];
        self.blocks.set(i, state);
        before
    }
}

/// A loaded chunk.
#[derive(Clone, Debug, PartialEq, Eq)]
pub struct Column {
    pub position: I16Vec2,
    pub data: ColumnData,
    /// The packet that shows this chunk to a client.
    pub base_packet_bytes: Vec<u8>,
}

impl Column {
    pub open spec fn wf(&self) -> bool {
        self.data.wf()
    }

    /// A column at `position` that holds `data`, shown by `base_packet_bytes`.
    pub fn new(position: I16Vec2, data: ColumnData, base_packet_bytes: Vec<u8>) -> (r: Self)
        requires
            data.wf(),
        ensures
            r.wf(),
            r.position == position,
            r.data == data,
            r.base_packet_bytes == base_packet_bytes,
    {
        Column { position, data, base_packet_bytes }
    }

    /// A copy of the packet that shows this chunk to a client.
    pub fn bytes(&self) -> (r: Vec<u8>)
        ensures
            r@ == self.base_packet_bytes@,
    {
        let mut r: Vec<u8> = Vec::new();
        r.extend_from_slice(self.base_packet_bytes.as_slice());
        assert(r@ =~= self.base_packet_bytes@);
        r
    }
}

/// The offsets of `pos` in its column, from the lowest corner.
pub(crate) fn offsets(pos: IVec3) -> (r: (u32, u32, u32))
    requires
        START_Y <= pos.y <= i32::MAX - 64,
    ensures
        r.0 == pos.x as int % 16,
        r.1 == pos.y + 64,
        r.2 == pos.z as int % 16,
        r.0 < 16,
        r.2 < 16,
{
    (low_4_bits(pos.x), (pos.y - START_Y) as u32, low_4_bits(pos.z))
}

/// The blocks of a column lie layer by layer from the bottom, a layer row by row along z, a
/// row along x: each step along x, z or y goes one, sixteen or 256 places further.
pub proof fn law_column_lies_layer_by_layer(x: int, y: int, z: int)
    ensures
        cell(0, 0, 0) == 0,
        cell(x + 1, y, z) == cell(x, y, z) + 1,
        cell(x, y, z + 1) == cell(x, y, z) + 16,
        cell(x, y + 1, z) == cell(x, y, z) + 256,
        in_column(x, y, z) <==> 0 <= x <= 15 && 0 <= y <= 383 && 0 <= z <= 15,
{
}

} // verus!
