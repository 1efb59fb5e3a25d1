//! The blocks of the loaded part of the world.

use bevy::ecs::entity::Entity;
use indexmap::IndexMap;
use roaring::RoaringBitmap;
use rustc_hash::FxBuildHasher;
use vstd::prelude::*;

use crate::block::{BlockState, VOID_AIR_STATE};
use crate::cache::{
    bitmap_insert, bitmap_new, cache_column, cache_column_mut, cache_index_of, cache_new, cached,
    has_key, keys_distinct, lemma_cache_size, lemma_slot, members, slot,
};
use crate::chunk::{cell_of, lemma_cell, offsets, Column, START_Y};
use crate::persist::EditStore;
use crate::pos::{chunk_at, chunk_of, in_chunk_range, I16Vec2, IVec3};

verus! {

/// A chunk that was asked for.
pub enum GetChunk<'a> {
    Loaded(&'a Column),
    Loading,
}

/// A block change of a player's that the player still has to be told is done.
pub struct EntityAndSequence {
    pub entity: Entity,
    pub sequence: i32,
}

impl EntityAndSequence {
    pub fn new(entity: Entity, sequence: i32) -> (r: Self)
        ensures
            r == (EntityAndSequence { entity, sequence }),
    {
        EntityAndSequence { entity, sequence }
    }
}

/// Why a block could not be set.
#[derive(Clone, Copy, PartialEq, Eq, Structural, Debug)]
pub enum TrySetBlockDeltaError {
    OutOfBounds,
    ChunkNotLoaded,
}

impl TrySetBlockDeltaError {
    /// The name of the error.
    pub open spec fn name(self) -> Seq<char> {
        match self {
            TrySetBlockDeltaError::OutOfBounds => "OutOfBounds"@,
            TrySetBlockDeltaError::ChunkNotLoaded => "ChunkNotLoaded"@,
        }
    }

    /// The error in one word.
    pub fn message(&self) -> (r: &'static str)
        ensures
            r@ == self.name(),
    {
        match self {
            TrySetBlockDeltaError::OutOfBounds => "OutOfBounds",
            TrySetBlockDeltaError::ChunkNotLoaded => "ChunkNotLoaded",
        }
    }
}

/// Accessor of blocks.
pub struct Blocks {
    pub chunk_cache: IndexMap<(i16, i16), Column, FxBuildHasher>,
    /// The indices of the chunks that changed.
    pub should_update: RoaringBitmap,
    pub to_confirm: Vec<EntityAndSequence>,
    /// The overlay of edits that are kept; `None` where none are.
    pub edits: Option<EditStore>,
}

/// The height range of a column.
pub open spec fn in_height(pos: IVec3) -> bool {
    -64 <= pos.y < 320
}

/// Whether the entries of the cache are those of well-formed columns, each at its
/// own position.
pub open spec fn columns_wf(entries: Seq<((i16, i16), Column)>) -> bool {
    &&& keys_distinct(entries)
    &&& forall|i: int|
        0 <= i < entries.len() ==> (#[trigger] entries[i]).1.wf() && entries[i].1.position.key()
            == entries[i].0
}

/// The column that holds the block at `pos`, where it is loaded.
pub open spec fn column_for(entries: Seq<((i16, i16), Column)>, pos: IVec3) -> Column {
    entries[slot(entries, chunk_at(pos).key())].1
}

/// Whether the column that holds the block at `pos` is loaded.
pub open spec fn loaded_at(entries: Seq<((i16, i16), Column)>, pos: IVec3) -> bool {
    has_key(entries, chunk_at(pos).key())
}

/// The block at `pos`: void air outside the heights that columns have, and `None`
/// where the chunk is not loaded. Above the columns an unloaded chunk counts as
/// not loaded up to height 383.
pub open spec fn block_at(entries: Seq<((i16, i16), Column)>, pos: IVec3) -> Option<BlockState> {
    if pos.y < -64 || pos.y > 383 {
        Some(BlockState { raw: VOID_AIR_STATE })
    } else if !loaded_at(entries, pos) {
        None
    } else if pos.y >= 320 {
        Some(BlockState { raw: VOID_AIR_STATE })
    } else {
        Some(column_for(entries, pos).data@[cell_of(pos)])
    }
}

/// `after` is `before` with the block at `pos`, which is loaded, set to `state`.
pub open spec fn block_written(
    before: Seq<((i16, i16), Column)>,
    after: Seq<((i16, i16), Column)>,
    pos: IVec3,
    state: BlockState,
) -> bool {
    let i = slot(before, chunk_at(pos).key());
    &&& after.len() == before.len()
    &&& forall|j: int| 0 <= j < before.len() && j != i ==> #[trigger] after[j] == before[j]
    &&& after[i].0 == before[i].0
    &&& after[i].1.position == before[i].1.position
    &&& after[i].1.base_packet_bytes == before[i].1.base_packet_bytes
    &&& after[i].1.data@ == before[i].1.data@.update(cell_of(pos), state)
}

/// `after` is `before` with the edit of `pos` to `state` recorded, where edits are
/// kept at all.
pub open spec fn edit_recorded(
    before: Option<EditStore>,
    after: Option<EditStore>,
    pos: IVec3,
    state: BlockState,
) -> bool {
    match before {
        Some(b) => after matches Some(a) && a@ == b@.insert(pos, state) && a.dirty && a.dir == b.dir,
        None => after is None,
    }
}

/// The edits that are kept.
pub open spec fn kept_edits(edits: Option<EditStore>) -> Map<IVec3, BlockState> {
    match edits {
        Some(e) => e@,
        None => Map::empty(),
    }
}

/// The position of the block at place `k` of the list of the column at `chunk`.
pub open spec fn pos_in(chunk: I16Vec2, k: int) -> IVec3 {
    IVec3 {
        x: (chunk.x * 16 + k % 16) as i32,
        y: (k / 256 - 64) as i32,
        z: (chunk.y * 16 + k / 16 % 16) as i32,
    }
}

/// Whether the block at `pos` is one of the column at `chunk`.
pub open spec fn in_own_column(chunk: I16Vec2, pos: IVec3) -> bool {
    pos.x as int / 16 == chunk.x && pos.z as int / 16 == chunk.y && in_height(pos)
}

/// A block of a column lies at the place that its position gives, and nowhere
/// else.
pub proof fn lemma_pos_in(chunk: I16Vec2)
    ensures
        forall|pos: IVec3| #[trigger]
            in_own_column(chunk, pos) ==> 0 <= cell_of(pos) < 98304 && pos_in(chunk, cell_of(pos))
                == pos && chunk_at(pos) == chunk && in_chunk_range(pos),
        forall|k: int|
            0 <= k < 98304 ==> in_own_column(chunk, #[trigger] pos_in(chunk, k)) && cell_of(
                pos_in(chunk, k),
            ) == k,
{
    assert forall|pos: IVec3| #[trigger] in_own_column(chunk, pos) implies 0 <= cell_of(pos) < 98304
        && pos_in(chunk, cell_of(pos)) == pos && chunk_at(pos) == chunk && in_chunk_range(pos) by {
        lemma_cell(pos.x as int % 16, pos.y + 64, pos.z as int % 16);
    }
    assert forall|k: int| 0 <= k < 98304 implies in_own_column(chunk, #[trigger] pos_in(chunk, k))
        && cell_of(pos_in(chunk, k)) == k by {
        let p = pos_in(chunk, k);
        assert(p.x as int % 16 == k % 16 && p.x as int / 16 == chunk.x);
        assert(p.z as int % 16 == k / 16 % 16 && p.z as int / 16 == chunk.y);
    }
}

impl Blocks {
    /// The entries of the chunk cache.
    pub open spec fn columns(&self) -> Seq<((i16, i16), Column)> {
        cached(self.chunk_cache)
    }

    /// The columns are well formed, the chunks that changed are loaded ones, and
    /// the overlay is well formed.
    pub open spec fn wf(&self) -> bool {
        &&& columns_wf(self.columns())
        &&& forall|i: u32| #[trigger]
            members(self.should_update).contains(i) ==> i < self.columns().len()
        &&& self.edits matches Some(e) ==> e.wf()
    }

    /// A world without any chunk loaded, which keeps its edits in `edits`.
    pub fn new(edits: Option<EditStore>) -> (r: Self)
        requires
            edits matches Some(e) ==> e.wf(),
        ensures
            r.wf(),
            r.columns().len() == 0,
            members(r.should_update) == Set::<u32>::empty(),
            r.to_confirm@.len() == 0,
            r.edits == edits,
    {
        Blocks {
            chunk_cache: cache_new(),
            should_update: bitmap_new(),
            to_confirm: Vec::new(),
            edits,
        }
    }

    /// A world without any chunk loaded, which keeps no edits.
    pub fn empty() -> (r: Self)
        ensures
            r.wf(),
            r.columns().len() == 0,
            members(r.should_update) == Set::<u32>::empty(),
            r.to_confirm@.len() == 0,
            r.edits is None,
    {
        Blocks::new(None)
    }

    /// The column at `chunk_position`, where it is loaded.
    pub fn get_loaded_chunk(&self, chunk_position: I16Vec2) -> (r: Option<&Column>)
        requires
            self.wf(),
        ensures
            match r {
                Some(column) => has_key(self.columns(), chunk_position.key()) && *column
                    == self.columns()[slot(self.columns(), chunk_position.key())].1 && column.wf(),
                None => !has_key(self.columns(), chunk_position.key()),
            },
    {
        match cache_index_of(&self.chunk_cache, (chunk_position.x, chunk_position.y)) {
            Some(i) => {
                proof {
                    lemma_slot(self.columns(), i as int);
                }
                Some(cache_column(&self.chunk_cache, i))
            },
            None => None,
        }
    }

    /// Lends the column at `chunk_position`, where it is loaded, for writing.
    pub fn get_loaded_chunk_mut(&mut self, chunk_position: I16Vec2) -> (r: Option<&mut Column>)
        requires
            old(self).wf(),
        ensures
            match r {
                Some(column) => {
                    let i = slot(old(self).columns(), chunk_position.key());
                    &&& has_key(old(self).columns(), chunk_position.key())
                    &&& *column == old(self).columns()[i].1
                    &&& final(self).columns() == old(self).columns().update(
                        i,
                        (chunk_position.key(), *final(column)),
                    )
                },
                None => !has_key(old(self).columns(), chunk_position.key()) && final(self).columns()
                    == old(self).columns(),
            },
            final(self).should_update == old(self).should_update,
            final(self).to_confirm == old(self).to_confirm,
            final(self).edits == old(self).edits,
    {
        match cache_index_of(&self.chunk_cache, (chunk_position.x, chunk_position.y)) {
            Some(i) => {
                proof {
                    lemma_slot(self.columns(), i as int);
                }
                Some(cache_column_mut(&mut self.chunk_cache, i))
            },
            None => None,
        }
    }

    /// Lends the whole chunk cache for writing.
    pub fn cache_mut(&mut self) -> (r: &mut IndexMap<(i16, i16), Column, FxBuildHasher>)
        ensures
            *r == old(self).chunk_cache,
            final(self).chunk_cache == *final(r),
            final(self).should_update == old(self).should_update,
            final(self).to_confirm == old(self).to_confirm,
            final(self).edits == old(self).edits,
    {
        &mut self.chunk_cache
    }

    /// The packet of the chunk at `position`, where it is loaded.
    pub fn get_cached(&self, position: I16Vec2) -> (r: Option<Vec<u8>>)
        requires
            self.wf(),
        ensures
            match r {
                Some(bytes) => has_key(self.columns(), position.key()) && bytes@
                    == self.columns()[slot(self.columns(), position.key())].1.base_packet_bytes@,
                None => !has_key(self.columns(), position.key()),
            },
    {
        match self.get_loaded_chunk(position) {
            Some(column) => Some(column.bytes()),
            None => None,
        }
    }

    /// The chunk at `position`, or that it has to be loaded first.
    pub fn get_cached_or_load(&self, position: I16Vec2) -> (r: GetChunk<'_>)
        requires
            self.wf(),
        ensures
            match r {
                GetChunk::Loaded(column) => has_key(self.columns(), position.key()) && *column
                    == self.columns()[slot(self.columns(), position.key())].1,
                GetChunk::Loading => !has_key(self.columns(), position.key()),
            },
    {
        match self.get_loaded_chunk(position) {
            Some(column) => GetChunk::Loaded(column),
            None => GetChunk::Loading,
        }
    }

    /// The block at `position`.
    pub fn get_block(&self, position: IVec3) -> (r: Option<BlockState>)
        requires
            self.wf(),
        ensures
            r == block_at(self.columns(), position),
            r matches Some(state) ==> state.valid(),
    {
        if position.y < START_Y || position.y > 383 {
            return Some(BlockState::void_air());
        }
        match self.get_loaded_chunk(chunk_of(position)) {
            None => None,
            Some(column) => {
                let (x, y, z) = offsets(position);
                if y >= column.data.height() {
                    Some(BlockState::void_air())
                } else {
                    Some(column.data.block_state(x, y, z))
                }
            },
        }
    }

    /// Sets a block and keeps the edit, so that it survives restarts. Returns the
    /// state that the block had before.
    pub fn set_block(&mut self, position: IVec3, state: BlockState) -> (r: Result<
        BlockState,
        TrySetBlockDeltaError,
    >)
        requires
            old(self).wf(),
            state.valid(),
        ensures
            r == set_result(old(self).columns(), position),
            set_block_outcome(*old(self), *final(self), position, state, true),
    {
        self.set_block_inner(position, state, true)
    }

    /// Sets a block without keeping the edit, for effects that must never end up in
    /// the saved world. Returns the state that the block had before.
    pub fn set_block_transient(&mut self, position: IVec3, state: BlockState) -> (r: Result<
        BlockState,
        TrySetBlockDeltaError,
    >)
        requires
            old(self).wf(),
            state.valid(),
        ensures
            r == set_result(old(self).columns(), position),
            set_block_outcome(*old(self), *final(self), position, state, false),
    {
        self.set_block_inner(position, state, false)
    }

    fn set_block_inner(&mut self, position: IVec3, state: BlockState, persist: bool) -> (r: Result<
        BlockState,
        TrySetBlockDeltaError,
    >)
        requires
            old(self).wf(),
            state.valid(),
        ensures
            r == set_result(old(self).columns(), position),
            set_block_outcome(*old(self), *final(self), position, state, persist),
    {
        if position.y < START_Y {
            return Err(TrySetBlockDeltaError::OutOfBounds);
        }
        let chunk_pos = chunk_of(position);
        let chunk_idx: usize = match cache_index_of(&self.chunk_cache, (chunk_pos.x, chunk_pos.y)) {
            Some(i) => i,
            None => {
                return Err(TrySetBlockDeltaError::ChunkNotLoaded);
            },
        };
        if position.y >= 320 {
            proof {
                lemma_slot(self.columns(), chunk_idx as int);
            }
            return Err(TrySetBlockDeltaError::OutOfBounds);
        }
        let ghost before = self.columns();
        proof {
            lemma_slot(before, chunk_idx as int);
            lemma_cache_size(before);
            lemma_cell(position.x as int % 16, position.y + 64, position.z as int % 16);
        }
        let (x, y, z) = offsets(position);
        let column = cache_column_mut(&mut self.chunk_cache, chunk_idx);
        let old_state = column.data.set_delta(x, y, z, state);
        if old_state != state {
            bitmap_insert(&mut self.should_update, chunk_idx as u32);
        }
        if persist {
            if let Some(edits) = &mut self.edits {
                edits.record(position, state);
            }
        }
        Ok(old_state)
    }
}

/// The result of setting the block at `pos`: its state before, or that it is out
/// of bounds, below or above its column, or that its chunk is not loaded.
pub open spec fn set_result(entries: Seq<((i16, i16), Column)>, pos: IVec3) -> Result<
    BlockState,
    TrySetBlockDeltaError,
> {
    if pos.y < -64 {
        Err(TrySetBlockDeltaError::OutOfBounds)
    } else if !loaded_at(entries, pos) {
        Err(TrySetBlockDeltaError::ChunkNotLoaded)
    } else if pos.y >= 320 {
        Err(TrySetBlockDeltaError::OutOfBounds)
    } else {
        Ok(column_for(entries, pos).data@[cell_of(pos)])
    }
}

/// What setting a block comes to. Where it fails, nothing changes. Otherwise the
/// block is written, where that made a difference its chunk counts as changed, and
/// if `persist` is set the edit is recorded, whatever the block was before: it may
/// have come into that state transiently.
pub open spec fn set_block_outcome(
    before: Blocks,
    after: Blocks,
    pos: IVec3,
    state: BlockState,
    persist: bool,
) -> bool {
    let i = slot(before.columns(), chunk_at(pos).key());
    match set_result(before.columns(), pos) {
        Err(_) => after == before,
        Ok(old_state) => {
            &&& old_state.valid()
            &&& after.wf()
            &&& block_written(before.columns(), after.columns(), pos, state)
            &&& after.to_confirm == before.to_confirm
            &&& members(after.should_update) == if old_state != state {
                members(before.should_update).insert(i as u32)
            } else {
                members(before.should_update)
            }
            &&& if persist {
                edit_recorded(before.edits, after.edits, pos, state)
            } else {
                after.edits == before.edits
            }
        },
    }
}

} // verus!
