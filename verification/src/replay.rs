//! Taking in loaded chunks, with the kept edits replayed onto them, handing out
//! the chunks that changed, and saving.

use vstd::prelude::*;

use crate::block::{BlockState, VOID_AIR_STATE};
use crate::blocks::{
    block_at, columns_wf, in_height, in_own_column, kept_edits, lemma_pos_in, pos_in,
    set_block_outcome, set_result, Blocks, TrySetBlockDeltaError,
};
use crate::cache::{
    bitmap_clear, bitmap_numbers, cache_column, cache_column_mut, cache_insert, has_key,
    keys_distinct, lemma_slot, members, slot,
};
use crate::chunk::{cell_of, lemma_cell, offsets, Column, ColumnData};
use crate::overlay::{applied, is_listing};
use crate::persist::{decoded, law_snapshot_restores, snapshot_of};
use crate::pos::{chunk_at, floor_16, in_chunk_range, I16Vec2, IVec3};

verus! {

/// `after` is the column `before` with `edits` written over it: every block that
/// was edited is in the state of its edit, every other one as it was. Edits of
/// positions that no block of this column has do not count.
pub open spec fn replayed(
    before: Column,
    edits: Map<IVec3, BlockState>,
    after: Column,
) -> bool {
    &&& after.position == before.position
    &&& after.base_packet_bytes == before.base_packet_bytes
    &&& after.data@ == overlaid(before.data@, edits, before.position)
}

/// The blocks of the column at `chunk` with `edits` written over them.
pub open spec fn overlaid(
    data: Seq<BlockState>,
    edits: Map<IVec3, BlockState>,
    chunk: I16Vec2,
) -> Seq<BlockState> {
    Seq::new(
        data.len(),
        |k: int|
            if edits.contains_key(pos_in(chunk, k)) {
                edits[pos_in(chunk, k)]
            } else {
                data[k]
            },
    )
}

/// Some kept edit lies in the chunk at `chunk`, so that its packet has to be built
/// anew.
pub open spec fn has_edits(edits: Map<IVec3, BlockState>, chunk: I16Vec2) -> bool {
    exists|p: IVec3| edits.contains_key(p) && #[trigger] chunk_at(p) == chunk
}

/// The keys of the cache after chunks came in at `added`, one by one: a key that
/// is new goes to the end.
pub open spec fn keys_after(keys: Seq<(i16, i16)>, added: Seq<Column>) -> Seq<(i16, i16)>
    decreases added.len(),
{
    if added.len() == 0 {
        keys
    } else {
        let before = keys_after(keys, added.drop_last());
        let key = added.last().position.key();
        if before.contains(key) {
            before
        } else {
            before.push(key)
        }
    }
}

/// The keys of the entries, by index.
pub open spec fn keys_of(entries: Seq<((i16, i16), Column)>) -> Seq<(i16, i16)> {
    entries.map_values(|e: ((i16, i16), Column)| e.0)
}

/// The last of `added` that stands at `chunk`.
pub open spec fn last_at(added: Seq<Column>, chunk: I16Vec2) -> Option<Column>
    decreases added.len(),
{
    if added.len() == 0 {
        None
    } else if added.last().position == chunk {
        Some(added.last())
    } else {
        last_at(added.drop_last(), chunk)
    }
}

/// The positions of those of `added` whose packet has to be built anew.
pub open spec fn to_encode(added: Seq<Column>, edits: Map<IVec3, BlockState>) -> Seq<I16Vec2>
    decreases added.len(),
{
    if added.len() == 0 {
        Seq::empty()
    } else if has_edits(edits, added.last().position) {
        to_encode(added.drop_last(), edits).push(added.last().position)
    } else {
        to_encode(added.drop_last(), edits)
    }
}

/// The column at `chunk` once `added` came in: what came in there last, with the
/// edits written over it, or else what was there before.
pub open spec fn taken_in(
    before: Seq<((i16, i16), Column)>,
    added: Seq<Column>,
    edits: Map<IVec3, BlockState>,
    after: Seq<((i16, i16), Column)>,
    chunk: I16Vec2,
) -> bool {
    match last_at(added, chunk) {
        Some(column) => has_key(after, chunk.key()) && replayed(
            column,
            edits,
            after[slot(after, chunk.key())].1,
        ),
        None => has_key(after, chunk.key()) == has_key(before, chunk.key()) && (has_key(
            before,
            chunk.key(),
        ) ==> after[slot(after, chunk.key())] == before[slot(before, chunk.key())]),
    }
}

/// Writes the edits of a chunk over its blocks.
fn replay(data: &mut ColumnData, chunk: I16Vec2, recs: &Vec<(IVec3, BlockState)>)
    requires
        old(data).wf(),
        forall|i: int, j: int|
            0 <= i < j < recs@.len() ==> #[trigger] recs@[i].0 != #[trigger] recs@[j].0,
        forall|i: int| 0 <= i < recs@.len() ==> (#[trigger] recs@[i]).1.valid(),
    ensures
        final(data).wf(),
        forall|i: int|
            0 <= i < recs@.len() && in_own_column(chunk, (#[trigger] recs@[i]).0)
                ==> final(data)@[cell_of(recs@[i].0)] == recs@[i].1,
        forall|k: int|
            0 <= k < 98304 && (forall|i: int|
                0 <= i < recs@.len() ==> (#[trigger] recs@[i]).0 != pos_in(chunk, k))
                ==> #[trigger] final(data)@[k] == old(data)@[k],
{
    let mut n: usize = 0;
    proof {
        lemma_pos_in(chunk);
    }
    while n < recs.len()
        invariant
            n <= recs@.len(),
            data.wf(),
            forall|i: int, j: int|
                0 <= i < j < recs@.len() ==> #[trigger] recs@[i].0 != #[trigger] recs@[j].0,
            forall|i: int| 0 <= i < recs@.len() ==> (#[trigger] recs@[i]).1.valid(),
            forall|i: int|
                0 <= i < n && in_own_column(chunk, (#[trigger] recs@[i]).0) ==> data@[cell_of(
                    recs@[i].0,
                )] == recs@[i].1,
            forall|k: int|
                0 <= k < 98304 && (forall|i: int|
                    0 <= i < n ==> (#[trigger] recs@[i]).0 != pos_in(chunk, k)) ==> #[trigger]
                data@[k] == old(data)@[k],
        decreases recs@.len() - n,
    {
        let (pos, state) = recs[n];
        let ghost before = data@;
        if floor_16(pos.x) == chunk.x as i32 && floor_16(pos.z) == chunk.y as i32 && -64 <= pos.y
            && pos.y < 320 {
            let (x, y, z) = offsets(pos);
            data.set_delta(x, y, z, state);
        }
        proof {
            lemma_pos_in(chunk);
            assert(recs@[n as int] == (pos, state));
            assert forall|i: int|
                0 <= i < n + 1 && in_own_column(chunk, (#[trigger] recs@[i]).0) implies data@[cell_of(
                recs@[i].0,
            )] == recs@[i].1 by {
                if i < n && in_own_column(chunk, pos) {
                    assert(recs@[i].0 != recs@[n as int].0);
                    assert(pos_in(chunk, cell_of(recs@[i].0)) != pos_in(chunk, cell_of(pos)));
                }
            }
            assert forall|k: int|
                0 <= k < 98304 && (forall|i: int|
                    0 <= i < n + 1 ==> (#[trigger] recs@[i]).0 != pos_in(
                        chunk,
                        k,
                    )) implies #[trigger] data@[k] == old(data)@[k] by {
                assert(recs@[n as int].0 != pos_in(chunk, k));
                assert(before[k] == old(data)@[k]);
            }
        }
        n += 1;
    }
}

impl Blocks {
    /// Takes in one chunk that was loaded, with the kept edits written over it.
    /// Returns whether its packet has to be built anew.
    pub fn load_chunk(&mut self, chunk: Column) -> (r: bool)
        requires
            old(self).wf(),
            chunk.wf(),
        ensures
            final(self).wf(),
            r == has_edits(kept_edits(old(self).edits), chunk.position),
            r <==> exists|p: IVec3|
                kept_edits(old(self).edits).contains_key(p) && #[trigger] chunk_at(p)
                    == chunk.position,
            keys_of(final(self).columns()) == keys_after(keys_of(old(self).columns()), seq![chunk]),
            forall|at: I16Vec2| #[trigger]
                taken_in(
                    old(self).columns(),
                    seq![chunk],
                    kept_edits(old(self).edits),
                    final(self).columns(),
                    at,
                ),
            final(self).should_update == old(self).should_update,
            final(self).to_confirm == old(self).to_confirm,
            final(self).edits == old(self).edits,
    {
        let mut chunk = chunk;
        let ghost came = chunk;
        let ghost edits = kept_edits(self.edits);
        let position = chunk.position;
        let mut edited = false;
        if let Some(store) = &self.edits {
            if let Some(of_chunk) = store.for_chunk(position) {
                if !of_chunk.is_empty() {
                    edited = true;
                    let recs = of_chunk.entries();
                    let ghost here = of_chunk@;
                    proof {
                        store.lemma_states_valid();
                        assert forall|i: int| 0 <= i < recs@.len() implies (
                        #[trigger] recs@[i]).1.valid() by {
                            assert(here.contains_key(recs@[i].0));
                        }
                    }
                    replay(&mut chunk.data, position, &recs);
                    proof {
                        lemma_replay_is_overlay(came.data@, chunk.data@, here, edits, recs@, position);
                        let p = choose|p: IVec3| here.contains_key(p);
                        assert(here.contains_key(p)) by {
                            if forall|q: IVec3| !here.contains_key(q) {
                                assert(here =~= Map::<IVec3, BlockState>::empty());
                            }
                        }
                        assert(edits.contains_key(p) && chunk_at(p) == position);
                    }
                }
            }
        }
        proof {
            if !edited {
                assert(forall|p: IVec3| edits.contains_key(p) ==> #[trigger] chunk_at(p) != position) by {
                    if let Some(store) = self.edits {
                        assert forall|p: IVec3| edits.contains_key(p) implies #[trigger] chunk_at(p)
                            != position by {
                            if chunk_at(p) == position {
                                let here = edits.restrict(Set::new(|q: IVec3| chunk_at(q) == position));
                                assert(here.contains_key(p));
                            }
                        }
                    }
                }
                lemma_pos_in(position);
                assert(overlaid(came.data@, edits, position) =~= came.data@);
            }
        }
        let ghost before = self.columns();
        let ghost taken = chunk;
        cache_insert(&mut self.chunk_cache, (position.x, position.y), chunk);
        proof {
            lemma_taken_in(before, came, edits, taken, self.columns());
        }
        edited
    }
}

/// Replaying a listing of the edits of a chunk overlays the chunk's blocks.
proof fn lemma_replay_is_overlay(
    before: Seq<BlockState>,
    after: Seq<BlockState>,
    here: Map<IVec3, BlockState>,
    edits: Map<IVec3, BlockState>,
    recs: Seq<(IVec3, BlockState)>,
    chunk: I16Vec2,
)
    requires
        before.len() == 98304,
        after.len() == 98304,
        here == edits.restrict(Set::new(|p: IVec3| chunk_at(p) == chunk)),
        is_listing(here, recs),
        forall|i: int|
            0 <= i < recs.len() && in_own_column(chunk, (#[trigger] recs[i]).0) ==> after[cell_of(
                recs[i].0,
            )] == recs[i].1,
        forall|k: int|
            0 <= k < 98304 && (forall|i: int|
                0 <= i < recs.len() ==> (#[trigger] recs[i]).0 != pos_in(chunk, k)) ==> #[trigger]
            after[k] == before[k],
    ensures
        after == overlaid(before, edits, chunk),
{
    lemma_pos_in(chunk);
    assert forall|k: int| 0 <= k < 98304 implies after[k] == overlaid(before, edits, chunk)[k] by {
        let p = pos_in(chunk, k);
        assert(in_own_column(chunk, p) && cell_of(p) == k);
        if edits.contains_key(p) {
            assert(here.contains_key(p));
            let i = choose|i: int| 0 <= i < recs.len() && #[trigger] recs[i].0 == p;
            assert(here.contains_key(recs[i].0));
        } else {
            assert forall|i: int| 0 <= i < recs.len() implies (#[trigger] recs[i]).0 != p by {
                assert(here.contains_key(recs[i].0));
            }
        }
    }
    assert(after =~= overlaid(before, edits, chunk));
}

/// Inserting a column puts it at its position and leaves the others in place.
proof fn lemma_taken_in(
    before: Seq<((i16, i16), Column)>,
    came: Column,
    edits: Map<IVec3, BlockState>,
    taken: Column,
    after: Seq<((i16, i16), Column)>,
)
    requires
        columns_wf(before),
        taken.wf(),
        replayed(came, edits, taken),
        after == (if has_key(before, came.position.key()) {
            before.update(slot(before, came.position.key()), (came.position.key(), taken))
        } else {
            before.push((came.position.key(), taken))
        }),
    ensures
        columns_wf(after),
        after.len() >= before.len(),
        keys_of(after) == keys_after(keys_of(before), seq![came]),
        forall|at: I16Vec2| #[trigger] taken_in(before, seq![came], edits, after, at),
{
    let key = came.position.key();
    let added = seq![came];
    assert(added.drop_last() =~= Seq::empty());
    assert(added.last() == came);
    reveal_with_fuel(keys_after, 2);
    reveal_with_fuel(last_at, 2);
    if has_key(before, key) {
        let i = slot(before, key);
        assert(before[i].0 == key);
        assert(keys_of(before)[i] == key);
        assert(keys_of(after) =~= keys_of(before));
    } else {
        assert(!keys_of(before).contains(key)) by {
            if keys_of(before).contains(key) {
                let i = choose|i: int| 0 <= i < keys_of(before).len() && keys_of(before)[i] == key;
                assert(before[i].0 == key);
            }
        }
        assert(keys_of(after) =~= keys_of(before).push(key));
    }
    assert(keys_distinct(after)) by {
        assert forall|i: int, j: int| 0 <= i < j < after.len() implies (#[trigger] after[i]).0 != (
        #[trigger] after[j]).0 by {
            if has_key(before, key) {
                assert(after[i].0 == before[i].0 && after[j].0 == before[j].0);
            } else {
                assert(after[i] == before[i]);
                if j < before.len() {
                    assert(after[j] == before[j]);
                }
            }
        }
    }
    assert forall|i: int| 0 <= i < after.len() implies (#[trigger] after[i]).1.wf()
        && after[i].1.position.key() == after[i].0 by {
        if i < before.len() {
            assert(before[i].1.wf() && before[i].1.position.key() == before[i].0);
        }
    }
    assert forall|at: I16Vec2| #[trigger] taken_in(before, added, edits, after, at) by {
        if at == came.position {
            let i: int = if has_key(before, key) {
                slot(before, key)
            } else {
                before.len() as int
            };
            assert(after[i] == (key, taken));
            lemma_slot(after, i);
        } else {
            assert(at.key() != key);
            if has_key(before, at.key()) {
                let i = slot(before, at.key());
                assert(before[i].0 == at.key());
                assert(after[i] == before[i]);
                lemma_slot(after, i);
            } else if has_key(after, at.key()) {
                let i = slot(after, at.key());
                assert(after[i].0 == at.key());
                if i < before.len() {
                    assert(before[i].0 == at.key());
                }
            }
        }
    }
}

/// What comes in one by one is as if it had come in together.
proof fn lemma_taken_in_next(
    before: Seq<((i16, i16), Column)>,
    added: Seq<Column>,
    edits: Map<IVec3, BlockState>,
    mid: Seq<((i16, i16), Column)>,
    came: Column,
    after: Seq<((i16, i16), Column)>,
)
    requires
        forall|at: I16Vec2| #[trigger] taken_in(before, added, edits, mid, at),
        forall|at: I16Vec2| #[trigger] taken_in(mid, seq![came], edits, after, at),
        keys_of(mid) == keys_after(keys_of(before), added),
        keys_of(after) == keys_after(keys_of(mid), seq![came]),
    ensures
        forall|at: I16Vec2| #[trigger] taken_in(before, added.push(came), edits, after, at),
        keys_of(after) == keys_after(keys_of(before), added.push(came)),
{
    let one = seq![came];
    assert(one.drop_last() =~= Seq::empty());
    assert(one.last() == came);
    assert(added.push(came).drop_last() =~= added);
    assert(added.push(came).last() == came);
    reveal_with_fuel(keys_after, 2);
    reveal_with_fuel(last_at, 2);
    assert forall|at: I16Vec2| #[trigger]
        taken_in(before, added.push(came), edits, after, at) by {
        assert(taken_in(before, added, edits, mid, at));
        assert(taken_in(mid, one, edits, after, at));
    }
}

impl Blocks {
    /// Takes in the chunks that were loaded, in order, with the kept edits written
    /// over them. Returns the positions of those whose packet has to be built anew.
    pub fn load_pending(&mut self, chunks: Vec<Column>) -> (r: Vec<I16Vec2>)
        requires
            old(self).wf(),
            forall|i: int| 0 <= i < chunks@.len() ==> (#[trigger] chunks@[i]).wf(),
        ensures
            final(self).wf(),
            r@ == to_encode(chunks@, kept_edits(old(self).edits)),
            forall|at: I16Vec2| #[trigger]
                r@.contains(at) <==> (exists|i: int|
                    0 <= i < chunks@.len() && (#[trigger] chunks@[i]).position == at) && (exists|
                    p: IVec3,
                | kept_edits(old(self).edits).contains_key(p) && #[trigger] chunk_at(p) == at),
            keys_of(final(self).columns()) == keys_after(keys_of(old(self).columns()), chunks@),
            forall|at: I16Vec2| #[trigger]
                taken_in(
                    old(self).columns(),
                    chunks@,
                    kept_edits(old(self).edits),
                    final(self).columns(),
                    at,
                ),
            final(self).should_update == old(self).should_update,
            final(self).to_confirm == old(self).to_confirm,
            final(self).edits == old(self).edits,
    {
        let mut r: Vec<I16Vec2> = Vec::new();
        let ghost all = chunks@;
        let ghost before = self.columns();
        let ghost edits = kept_edits(self.edits);
        assert(all.take(0) =~= Seq::empty());
        for chunk in it: chunks.into_iter()
            invariant
                it.seq() == all,
                forall|i: int| 0 <= i < all.len() ==> (#[trigger] all[i]).wf(),
                self.wf(),
                edits == kept_edits(self.edits),
                r@ == to_encode(all.take(it.index()), edits),
                keys_of(self.columns()) == keys_after(keys_of(before), all.take(it.index())),
                forall|at: I16Vec2| #[trigger]
                    taken_in(before, all.take(it.index()), edits, self.columns(), at),
                self.should_update == old(self).should_update,
                self.to_confirm == old(self).to_confirm,
                self.edits == old(self).edits,
        {
            let ghost mid = self.columns();
            let ghost came = chunk;
            let ghost added = all.take(it.index());
            assert(came == all[it.index()]);
            let position = chunk.position;
            if self.load_chunk(chunk) {
                r.push(position);
            }
            proof {
                lemma_taken_in_next(before, added, edits, mid, came, self.columns());
                assert(all.take(it.index() + 1) =~= added.push(came));
                assert(added.push(came).drop_last() =~= added);
            }
        }
        assert(all.take(all.len() as int) =~= all);
        proof {
            assert forall|at: I16Vec2| #[trigger]
                r@.contains(at) <==> (exists|i: int|
                    0 <= i < all.len() && (#[trigger] all[i]).position == at) && (exists|p: IVec3|
                    edits.contains_key(p) && #[trigger] chunk_at(p) == at) by {
                law_edited_chunks_are_sent_anew(all, edits, at);
            }
        }
        r
    }

    /// The chunks that changed, by ascending index.
    pub fn for_each_to_update(&self) -> (r: Vec<&Column>)
        requires
            self.wf(),
        ensures
            exists|indices: Seq<u32>| #[trigger]
                updates(*self, indices) && r@.len() == indices.len() && forall|n: int|
                0 <= n < r@.len() ==> *(#[trigger] r@[n]) == self.columns()[indices[n] as int].1,
    {
        let indices = bitmap_numbers(&self.should_update);
        assert(updates(*self, indices@));
        let mut r: Vec<&Column> = Vec::new();
        let mut n: usize = 0;
        while n < indices.len()
            invariant
                self.wf(),
                updates(*self, indices@),
                n <= indices@.len(),
                r@.len() == n,
                forall|k: int|
                    0 <= k < n ==> *(#[trigger] r@[k]) == self.columns()[indices@[k] as int].1,
            decreases indices@.len() - n,
        {
            proof {
                assert(indices@.contains(indices@[n as int]));
            }
            r.push(cache_column(&self.chunk_cache, indices[n] as usize));
            n += 1;
        }
        r
    }

    /// The indices of the chunks that changed, ascending. Each can be lent for
    /// writing with [`Blocks::column_to_update`].
    pub fn for_each_to_update_mut(&mut self) -> (r: Vec<u32>)
        requires
            old(self).wf(),
        ensures
            updates(*old(self), r@),
            *final(self) == *old(self),
    {
        bitmap_numbers(&self.should_update)
    }

    /// Lends the chunk with the index `i` for writing.
    pub fn column_to_update(&mut self, i: u32) -> (r: &mut Column)
        requires
            i < old(self).columns().len(),
        ensures
            *r == old(self).columns()[i as int].1,
            final(self).columns() == old(self).columns().update(
                i as int,
                (old(self).columns()[i as int].0, *final(r)),
            ),
            final(self).should_update == old(self).should_update,
            final(self).to_confirm == old(self).to_confirm,
            final(self).edits == old(self).edits,
    {
        cache_column_mut(&mut self.chunk_cache, i as usize)
    }

    /// Forgets which chunks changed.
    pub fn clear_should_update(&mut self)
        requires
            old(self).wf(),
        ensures
            final(self).wf(),
            members(final(self).should_update) == Set::<u32>::empty(),
            final(self).chunk_cache == old(self).chunk_cache,
            final(self).to_confirm == old(self).to_confirm,
            final(self).edits == old(self).edits,
    {
        bitmap_clear(&mut self.should_update);
    }

    /// The snapshot to publish, with the directory it goes to: `None` where edits
    /// are not kept, or none is unsaved. Where it cannot be published,
    /// [`Blocks::save_failed`] has to be told.
    pub fn save_edits(&mut self) -> (r: Option<(String, Vec<u8>)>)
        requires
            old(self).wf(),
        ensures
            save_outcome(*old(self), *final(self), r),
    {
        match &mut self.edits {
            None => None,
            Some(edits) => {
                if !edits.is_dirty() {
                    return None;
                }
                let dir = edits.dir().to_owned();
                let buf = edits.serialize_and_clear();
                Some((dir, buf))
            },
        }
    }

    /// Takes note that the last snapshot could not be published: its edits count as
    /// unsaved again, so that the next save tries once more.
    pub fn save_failed(&mut self)
        requires
            old(self).wf(),
        ensures
            save_failed_outcome(*old(self), *final(self)),
    {
        match &mut self.edits {
            None => {},
            Some(edits) => edits.save_failed(),
        }
    }
}

/// What handing out a snapshot comes to: it lists all kept edits, and is handed out
/// exactly where some of them are unsaved.
pub open spec fn save_outcome(
    before: Blocks,
    after: Blocks,
    r: Option<(String, Vec<u8>)>,
) -> bool {
    &&& after.wf()
    &&& after.chunk_cache == before.chunk_cache
    &&& after.should_update == before.should_update
    &&& after.to_confirm == before.to_confirm
    &&& match before.edits {
        Some(store) => {
            &&& after.edits matches Some(cleared)
            &&& cleared@ == store@
            &&& cleared.dir == store.dir
            &&& !cleared.dirty
            &&& store.dirty == (r is Some)
            &&& r matches Some(out) ==> out.0@ == store.dir@ && snapshot_of(store@, out.1@)
        },
        None => r is None && after.edits is None,
    }
}

/// What a snapshot that could not be published leaves: all edits are kept as they
/// were, and count as unsaved.
pub open spec fn save_failed_outcome(before: Blocks, after: Blocks) -> bool {
    &&& after.wf()
    &&& after.chunk_cache == before.chunk_cache
    &&& after.should_update == before.should_update
    &&& after.to_confirm == before.to_confirm
    &&& match before.edits {
        Some(store) => {
            &&& after.edits matches Some(marked)
            &&& marked@ == store@
            &&& marked.dir == store.dir
            &&& marked.dirty
        },
        None => after.edits is None,
    }
}

/// Where edits are kept and some of them are unsaved.
pub open spec fn unsaved(blocks: Blocks) -> bool {
    blocks.edits matches Some(store) && store.dirty
}

/// Edits that never reached the disk are still unsaved: after a save that could not be
/// published, the next one hands out a snapshot that lists all of them again.
pub proof fn law_failed_save_is_tried_again(
    before: Blocks,
    saved: Blocks,
    marked: Blocks,
    after: Blocks,
    first: Option<(String, Vec<u8>)>,
    second: Option<(String, Vec<u8>)>,
)
    requires
        save_outcome(before, saved, first),
        first is Some,
        save_failed_outcome(saved, marked),
        save_outcome(marked, after, second),
    ensures
        unsaved(marked),
        second matches Some(out) && snapshot_of(kept_edits(before.edits), out.1@),
{
}

/// Setting blocks never makes edits count as saved, and a block that is set to be kept
/// leaves an unsaved edit: what was not saved waits for the next save.
pub proof fn law_edits_wait_for_a_save(
    before: Blocks,
    after: Blocks,
    pos: IVec3,
    state: BlockState,
    persist: bool,
)
    requires
        set_block_outcome(before, after, pos, state, persist),
    ensures
        unsaved(before) ==> unsaved(after),
        persist && before.edits is Some && set_result(before.columns(), pos) is Ok ==> unsaved(
            after,
        ),
{
}

/// `indices` are those of the chunks that changed, ascending.
pub open spec fn updates(blocks: Blocks, indices: Seq<u32>) -> bool {
    &&& forall|i: u32| members(blocks.should_update).contains(i) <==> #[trigger] indices.contains(i)
    &&& forall|m: int, n: int| 0 <= m < n < indices.len() ==> indices[m] < indices[n]
}

/// A block that was set is what is then read at its position, and at every
/// position that stands for the same block; every other block is as it was.
pub proof fn law_read_after_set(
    before: Blocks,
    after: Blocks,
    pos: IVec3,
    state: BlockState,
    persist: bool,
    at: IVec3,
)
    requires
        before.wf(),
        set_block_outcome(before, after, pos, state, persist),
    ensures
        set_result(before.columns(), pos) is Ok && chunk_at(at) == chunk_at(pos) && cell_of(at) == cell_of(pos) && in_height(at)
            ==> block_at(after.columns(), at) == Some(state),
        !(set_result(before.columns(), pos) is Ok && chunk_at(at) == chunk_at(pos) && cell_of(at)
            == cell_of(pos) && in_height(at)) ==> block_at(after.columns(), at) == block_at(before.columns(), at),
        set_result(before.columns(), pos) matches Ok(old_state) ==> block_at(before.columns(), pos)
            == Some(old_state),
{
    if set_result(before.columns(), pos) is Ok {
        let b = before.columns();
        let a = after.columns();
        let i = slot(b, chunk_at(pos).key());
        assert(b[i].0 == chunk_at(pos).key());
        lemma_cell(pos.x as int % 16, pos.y + 64, pos.z as int % 16);
        if in_height(at) {
            lemma_cell(at.x as int % 16, at.y + 64, at.z as int % 16);
        }
        if has_key(b, chunk_at(at).key()) {
            let j = slot(b, chunk_at(at).key());
            assert(b[j].0 == chunk_at(at).key());
            assert(a[j].0 == b[j].0);
            lemma_slot(a, j);
        }
        if has_key(a, chunk_at(at).key()) {
            let j = slot(a, chunk_at(at).key());
            assert(a[j].0 == chunk_at(at).key());
            assert(b[j].0 == a[j].0);
            lemma_slot(b, j);
        }
    }
}

/// Setting a block back to the state that it had, as it was returned, undoes the
/// change: every block is as it was before.
pub proof fn law_setting_back_undoes(
    before: Blocks,
    mid: Blocks,
    after: Blocks,
    pos: IVec3,
    state: BlockState,
    old_state: BlockState,
    persist: bool,
    persist_back: bool,
    at: IVec3,
)
    requires
        before.wf(),
        set_result(before.columns(), pos) == Ok::<BlockState, TrySetBlockDeltaError>(old_state),
        set_block_outcome(before, mid, pos, state, persist),
        set_block_outcome(mid, after, pos, old_state, persist_back),
    ensures
        block_at(after.columns(), at) == block_at(before.columns(), at),
{
    law_read_after_set(before, mid, pos, state, persist, pos);
    law_read_after_set(before, mid, pos, state, persist, at);
    law_read_after_set(mid, after, pos, old_state, persist_back, at);
}

/// Two positions whose chunks can be told apart stand for the same block only if
/// they are equal.
pub proof fn law_positions_name_blocks(a: IVec3, b: IVec3)
    requires
        in_chunk_range(a),
        in_chunk_range(b),
        in_height(a),
        in_height(b),
        chunk_at(a) == chunk_at(b),
        cell_of(a) == cell_of(b),
    ensures
        a == b,
{
    lemma_cell(a.x as int % 16, a.y + 64, a.z as int % 16);
    lemma_cell(b.x as int % 16, b.y + 64, b.z as int % 16);
}

/// Setting a block transiently never touches what is saved.
pub proof fn law_transient_is_not_kept(
    before: Blocks,
    after: Blocks,
    pos: IVec3,
    state: BlockState,
)
    requires
        set_block_outcome(before, after, pos, state, false),
    ensures
        after.edits == before.edits,
{
}

/// An edit of a block of the column shows in it.
proof fn lemma_overlaid_at(
    data: Seq<BlockState>,
    edits: Map<IVec3, BlockState>,
    chunk: I16Vec2,
    pos: IVec3,
)
    requires
        data.len() == 98304,
        chunk == chunk_at(pos),
        in_chunk_range(pos),
        in_height(pos),
        edits.contains_key(pos),
    ensures
        overlaid(data, edits, chunk)[cell_of(pos)] == edits[pos],
{
    lemma_pos_in(chunk);
    assert(in_own_column(chunk, pos));
}

/// A kept edit survives a restart: where a snapshot was taken of edits that hold
/// one, and a fresh store is opened on that snapshot, the chunk loads with the
/// edited block in place.
pub proof fn law_edit_survives_restart(
    edits: Map<IVec3, BlockState>,
    snapshot: Seq<u8>,
    from_base: Column,
    loaded: Column,
    pos: IVec3,
)
    requires
        forall|p: IVec3| #[trigger] edits.contains_key(p) ==> edits[p].valid(),
        snapshot_of(edits, snapshot),
        edits.contains_key(pos),
        in_height(pos),
        in_chunk_range(pos),
        from_base.wf(),
        from_base.position == chunk_at(pos),
        replayed(from_base, applied(Map::empty(), decoded(snapshot)), loaded),
    ensures
        loaded.data@[cell_of(pos)] == edits[pos],
{
    let restored = applied(Map::empty(), decoded(snapshot));
    assert(restored == edits) by {
        law_snapshot_restores(edits, snapshot);
    }
    lemma_overlaid_at(from_base.data@, restored, from_base.position, pos);
}

/// The state that the block at `pos` loads in: that of its kept edit, or else that
/// of the base world, of which `base` is the column.
pub open spec fn saved_state(
    edits: Map<IVec3, BlockState>,
    base: Column,
    pos: IVec3,
) -> BlockState {
    if edits.contains_key(pos) {
        edits[pos]
    } else {
        base.data@[cell_of(pos)]
    }
}

/// Whether the block at `pos` is loaded, and in the state that it would load in
/// again.
pub open spec fn in_step(blocks: Blocks, base: Column, pos: IVec3) -> bool {
    block_at(blocks.columns(), pos) == Some(saved_state(kept_edits(blocks.edits), base, pos))
}

/// A chunk that was loaded is in step with what is saved.
pub proof fn law_loaded_chunk_is_in_step(
    before: Seq<((i16, i16), Column)>,
    added: Seq<Column>,
    after: Blocks,
    base: Column,
    pos: IVec3,
)
    requires
        taken_in(before, added, kept_edits(after.edits), after.columns(), base.position),
        last_at(added, base.position) == Some(base),
        base.wf(),
        base.position == chunk_at(pos),
        in_chunk_range(pos),
        in_height(pos),
    ensures
        in_step(after, base, pos),
{
    lemma_pos_in(base.position);
    assert(in_own_column(base.position, pos));
}

/// Blocks that are set to be kept leave the world in step with what is saved.
pub proof fn law_kept_edits_stay_in_step(
    before: Blocks,
    after: Blocks,
    pos: IVec3,
    state: BlockState,
    base: Column,
    at: IVec3,
)
    requires
        before.wf(),
        before.edits is Some,
        set_block_outcome(before, after, pos, state, true),
        in_chunk_range(pos),
        in_chunk_range(at),
        in_height(at),
        in_step(before, base, at),
    ensures
        after.edits is Some,
        in_step(after, base, at),
{
    law_read_after_set(before, after, pos, state, true, at);
    law_read_after_set(before, after, pos, state, true, pos);
    if set_result(before.columns(), pos) is Ok && chunk_at(at) == chunk_at(pos) && cell_of(at)
        == cell_of(pos) {
        law_positions_name_blocks(at, pos);
    }
}

/// A block that was set to be kept survives a restart: the chunk loads with it in
/// place, from whatever snapshot was taken after it was set.
pub proof fn law_set_block_survives_restart(
    before: Blocks,
    after: Blocks,
    pos: IVec3,
    state: BlockState,
    snapshot: Seq<u8>,
    from_base: Column,
    loaded: Column,
)
    requires
        before.wf(),
        before.edits is Some,
        state.valid(),
        set_block_outcome(before, after, pos, state, true),
        set_result(before.columns(), pos) is Ok,
        snapshot_of(kept_edits(after.edits), snapshot),
        in_chunk_range(pos),
        from_base.wf(),
        from_base.position == chunk_at(pos),
        replayed(from_base, applied(Map::empty(), decoded(snapshot)), loaded),
    ensures
        loaded.data@[cell_of(pos)] == state,
{
    let edits = kept_edits(after.edits);
    after.edits->0.lemma_states_valid();
    law_edit_survives_restart(edits, snapshot, from_base, loaded, pos);
}

/// A block that is set to be kept is in step with what is saved from then on,
/// whatever was done to it before.
pub proof fn law_kept_block_is_in_step(
    before: Blocks,
    after: Blocks,
    pos: IVec3,
    state: BlockState,
    base: Column,
)
    requires
        before.wf(),
        before.edits is Some,
        set_block_outcome(before, after, pos, state, true),
        set_result(before.columns(), pos) is Ok,
    ensures
        in_step(after, base, pos),
{
    law_read_after_set(before, after, pos, state, true, pos);
}

/// The chunks whose packet is built anew are just those that came in and have an edit,
/// wherever they lie, in the order in which they came.
pub proof fn law_edited_chunks_are_sent_anew(
    added: Seq<Column>,
    edits: Map<IVec3, BlockState>,
    at: I16Vec2,
)
    ensures
        to_encode(added, edits).contains(at) <==> (exists|i: int|
            0 <= i < added.len() && (#[trigger] added[i]).position == at) && (exists|p: IVec3|
            edits.contains_key(p) && #[trigger] chunk_at(p) == at),
        to_encode(added, edits) == added.map_values(|c: Column| c.position).filter(
            |c: I16Vec2| exists|p: IVec3| edits.contains_key(p) && #[trigger] chunk_at(p) == c,
        ),
    decreases added.len(),
{
    let edited = |c: I16Vec2| exists|p: IVec3| edits.contains_key(p) && #[trigger] chunk_at(p) == c;
    let places = added.map_values(|c: Column| c.position);
    reveal(Seq::filter);
    if added.len() > 0 {
        let fewer = added.drop_last();
        law_edited_chunks_are_sent_anew(fewer, edits, at);
        assert(places.drop_last() =~= fewer.map_values(|c: Column| c.position));
        assert(places.last() == added.last().position);
        let before = to_encode(fewer, edits);
        let after = to_encode(added, edits);
        if edited(added.last().position) {
            assert(after == before.push(added.last().position));
            assert(after[before.len() as int] == added.last().position);
            if before.contains(at) {
                let k = choose|k: int| 0 <= k < before.len() && before[k] == at;
                assert(after[k] == at);
            }
            if after.contains(at) && !before.contains(at) {
                let k = choose|k: int| 0 <= k < after.len() && after[k] == at;
                if k < before.len() {
                    assert(before[k] == at);
                }
                assert(added[added.len() - 1].position == at);
            }
        } else {
            assert(after == before);
        }
        if exists|i: int| 0 <= i < added.len() && (#[trigger] added[i]).position == at {
            let i = choose|i: int| 0 <= i < added.len() && (#[trigger] added[i]).position == at;
            if i < fewer.len() {
                assert(fewer[i].position == at);
            }
        }
        if exists|i: int| 0 <= i < fewer.len() && (#[trigger] fewer[i]).position == at {
            let i = choose|i: int| 0 <= i < fewer.len() && (#[trigger] fewer[i]).position == at;
            assert(added[i].position == at);
        }
    } else {
        assert(places =~= Seq::empty());
    }
}

/// A chunk that looks different from how it came in is one whose packet is built anew.
pub proof fn law_replayed_chunks_are_sent_anew(
    added: Seq<Column>,
    edits: Map<IVec3, BlockState>,
    i: int,
    after: Column,
)
    requires
        0 <= i < added.len(),
        added[i].wf(),
        replayed(added[i], edits, after),
        after.data@ != added[i].data@,
    ensures
        to_encode(added, edits).contains(added[i].position),
{
    let came = added[i];
    law_edited_chunks_are_sent_anew(added, edits, came.position);
    lemma_pos_in(came.position);
    if forall|p: IVec3| edits.contains_key(p) ==> #[trigger] chunk_at(p) != came.position {
        assert(after.data@ =~= came.data@) by {
            assert forall|k: int| 0 <= k < came.data@.len() implies after.data@[k]
                == came.data@[k] by {
                assert(in_own_column(came.position, pos_in(came.position, k)));
            }
        }
    }
}

/// Of the chunks that came in at one place the last one counts, whatever came before it
/// or at other places.
pub proof fn law_last_chunk_counts(added: Seq<Column>, chunk: I16Vec2)
    ensures
        match last_at(added, chunk) {
            Some(column) => exists|i: int|
                0 <= i < added.len() && #[trigger] added[i] == column && column.position == chunk
                    && forall|j: int| i < j < added.len() ==> (#[trigger] added[j]).position != chunk,
            None => forall|i: int| 0 <= i < added.len() ==> (#[trigger] added[i]).position != chunk,
        },
    decreases added.len(),
{
    if added.len() > 0 {
        let fewer = added.drop_last();
        if added.last().position == chunk {
            assert(added[added.len() - 1] == added.last());
        } else {
            law_last_chunk_counts(fewer, chunk);
            match last_at(fewer, chunk) {
                Some(column) => {
                    let i = choose|i: int|
                        0 <= i < fewer.len() && #[trigger] fewer[i] == column && column.position
                            == chunk && forall|j: int|
                            i < j < fewer.len() ==> (#[trigger] fewer[j]).position != chunk;
                    assert(added[i] == column);
                    assert forall|j: int| i < j < added.len() implies (#[trigger] added[j]).position
                        != chunk by {
                        if j < fewer.len() {
                            assert(fewer[j] == added[j]);
                        }
                    }
                },
                None => {
                    assert forall|i: int| 0 <= i < added.len() implies (#[trigger] added[i]).position
                        != chunk by {
                        if i < fewer.len() {
                            assert(fewer[i] == added[i]);
                        }
                    }
                },
            }
        }
    }
}

/// Chunks that come in keep the index of every chunk that was there, and each of them
/// has one: no chunk is lost, none is there that did not come in, and none twice.
pub proof fn law_loaded_chunks_keep_their_index(
    keys: Seq<(i16, i16)>,
    added: Seq<Column>,
    key: (i16, i16),
)
    ensures
        keys.is_prefix_of(keys_after(keys, added)),
        keys_after(keys, added).contains(key) <==> keys.contains(key) || exists|i: int|
            0 <= i < added.len() && (#[trigger] added[i]).position.x == key.0 && added[i].position.y
                == key.1,
        keys.no_duplicates() ==> keys_after(keys, added).no_duplicates(),
    decreases added.len(),
{
    if added.len() > 0 {
        let fewer = added.drop_last();
        law_loaded_chunks_keep_their_index(keys, fewer, key);
        let before = keys_after(keys, fewer);
        let after = keys_after(keys, added);
        let new = added.last().position.key();
        assert(added[added.len() - 1] == added.last());
        assert(keys =~= after.take(keys.len() as int)) by {
            assert(keys =~= before.take(keys.len() as int));
        }
        if !before.contains(new) {
            assert(after[before.len() as int] == new);
            if before.contains(key) {
                let k = choose|k: int| 0 <= k < before.len() && before[k] == key;
                assert(after[k] == key);
            }
            if after.contains(key) && !before.contains(key) {
                let k = choose|k: int| 0 <= k < after.len() && after[k] == key;
                if k < before.len() {
                    assert(before[k] == key);
                }
            }
        }
        if exists|i: int|
            0 <= i < added.len() && (#[trigger] added[i]).position.x == key.0 && added[i].position.y
                == key.1 {
            let i = choose|i: int|
                0 <= i < added.len() && (#[trigger] added[i]).position.x == key.0
                    && added[i].position.y == key.1;
            if i < fewer.len() {
                assert(fewer[i] == added[i]);
            } else {
                assert(new == key);
            }
        }
        if exists|i: int|
            0 <= i < fewer.len() && (#[trigger] fewer[i]).position.x == key.0 && fewer[i].position.y
                == key.1 {
            let i = choose|i: int|
                0 <= i < fewer.len() && (#[trigger] fewer[i]).position.x == key.0
                    && fewer[i].position.y == key.1;
            assert(added[i] == fewer[i]);
        }
    } else {
        assert(keys =~= keys.take(keys.len() as int));
    }
}

/// What is read of a chunk that came in is the edit of the block, where there is one, and
/// else the block that came, layer by layer from the bottom.
pub proof fn law_loaded_block_shows_its_edit(
    before: Seq<((i16, i16), Column)>,
    added: Seq<Column>,
    edits: Map<IVec3, BlockState>,
    after: Seq<((i16, i16), Column)>,
    i: int,
    p: IVec3,
)
    requires
        taken_in(before, added, edits, after, added[i].position),
        0 <= i < added.len(),
        added[i].wf(),
        forall|j: int| i < j < added.len() ==> (#[trigger] added[j]).position != added[i].position,
        added[i].position.x * 16 <= p.x < added[i].position.x * 16 + 16,
        added[i].position.y * 16 <= p.z < added[i].position.y * 16 + 16,
        -64 <= p.y < 320,
    ensures
        block_at(after, p) == Some(
            if edits.contains_key(p) {
                edits[p]
            } else {
                added[i].data@[(p.y + 64) * 256 + (p.z - added[i].position.y * 16) * 16 + (p.x
                    - added[i].position.x * 16)]
            },
        ),
        exists|j: int|
            0 <= j < after.len() && (#[trigger] after[j]).0 == (
                added[i].position.x,
                added[i].position.y,
            ) && after[j].1.base_packet_bytes == added[i].base_packet_bytes,
{
    let chunk = added[i].position;
    law_last_chunk_counts(added, chunk);
    assert(last_at(added, chunk) == Some(added[i])) by {
        let column = last_at(added, chunk)->0;
        let j = choose|j: int|
            0 <= j < added.len() && #[trigger] added[j] == column && column.position == chunk
                && forall|k: int| j < k < added.len() ==> (#[trigger] added[k]).position != chunk;
        if j < i {
            assert(added[i].position != chunk);
        }
    }
    lemma_pos_in(chunk);
    assert(in_own_column(chunk, p));
    assert(cell_of(p) == (p.y + 64) * 256 + (p.z - chunk.y * 16) * 16 + (p.x - chunk.x * 16));
    assert(after[slot(after, chunk.key())].0 == chunk.key());
}

/// A chunk at which nothing came in reads as before.
pub proof fn law_other_chunks_read_as_before(
    before: Seq<((i16, i16), Column)>,
    added: Seq<Column>,
    edits: Map<IVec3, BlockState>,
    after: Seq<((i16, i16), Column)>,
    p: IVec3,
)
    requires
        taken_in(before, added, edits, after, chunk_at(p)),
        forall|j: int| 0 <= j < added.len() ==> (#[trigger] added[j]).position != chunk_at(p),
    ensures
        block_at(after, p) == block_at(before, p),
{
    law_last_chunk_counts(added, chunk_at(p));
}

/// Every block of a loaded column can be read and set, over the whole height, and lies
/// layer by layer from the bottom; below and above is the void, and a chunk that is not
/// loaded gives nothing.
pub proof fn law_loaded_blocks_are_found(entries: Seq<((i16, i16), Column)>, i: int, p: IVec3)
    requires
        columns_wf(entries),
        0 <= i < entries.len(),
        entries[i].0.0 * 16 <= p.x < entries[i].0.0 * 16 + 16,
        entries[i].0.1 * 16 <= p.z < entries[i].0.1 * 16 + 16,
    ensures
        -64 <= p.y < 320 ==> {
            let state = entries[i].1.data@[(p.y + 64) * 256 + (p.z - entries[i].0.1 * 16) * 16 + (p.x
                - entries[i].0.0 * 16)];
            &&& block_at(entries, p) == Some(state)
            &&& set_result(entries, p) == Ok::<BlockState, TrySetBlockDeltaError>(state)
        },
        !(-64 <= p.y < 320) ==> block_at(entries, p) == Some(BlockState { raw: VOID_AIR_STATE })
            && set_result(entries, p) == Err::<BlockState, TrySetBlockDeltaError>(
            TrySetBlockDeltaError::OutOfBounds,
        ),
{
    let chunk = I16Vec2 { x: entries[i].0.0, y: entries[i].0.1 };
    assert(chunk_at(p) == chunk);
    assert(entries[i].0 == chunk.key());
    lemma_slot(entries, i);
    if -64 <= p.y < 320 {
        lemma_pos_in(chunk);
        assert(in_own_column(chunk, p));
        assert(cell_of(p) == (p.y + 64) * 256 + (p.z - chunk.y * 16) * 16 + (p.x - chunk.x * 16));
    }
}

/// Where no loaded column holds the position there is nothing to set, and nothing to read
/// but the void below the columns and far above them.
pub proof fn law_unloaded_blocks_are_not_found(entries: Seq<((i16, i16), Column)>, p: IVec3)
    requires
        in_chunk_range(p),
        forall|i: int|
            0 <= i < entries.len() ==> !((#[trigger] entries[i]).0.0 * 16 <= p.x < entries[i].0.0
                * 16 + 16 && entries[i].0.1 * 16 <= p.z < entries[i].0.1 * 16 + 16),
    ensures
        -64 <= p.y < 384 ==> block_at(entries, p) is None,
        !(-64 <= p.y < 384) ==> block_at(entries, p) == Some(BlockState { raw: VOID_AIR_STATE }),
        p.y >= -64 ==> set_result(entries, p) == Err::<BlockState, TrySetBlockDeltaError>(
            TrySetBlockDeltaError::ChunkNotLoaded,
        ),
        p.y < -64 ==> set_result(entries, p) == Err::<BlockState, TrySetBlockDeltaError>(
            TrySetBlockDeltaError::OutOfBounds,
        ),
{
    if has_key(entries, chunk_at(p).key()) {
        let i = slot(entries, chunk_at(p).key());
        assert(entries[i].0 == chunk_at(p).key());
    }
}

/// A chunk counts as changed once one of its blocks is set to something else, and by
/// nothing else: other chunks count as they did.
pub proof fn law_changed_chunk_is_marked(
    before: Blocks,
    after: Blocks,
    pos: IVec3,
    state: BlockState,
    persist: bool,
    i: u32,
    j: u32,
)
    requires
        before.wf(),
        set_block_outcome(before, after, pos, state, persist),
        i < before.columns().len(),
        before.columns()[i as int].0 == (chunk_at(pos).x, chunk_at(pos).y),
        -64 <= pos.y < 320,
        j != i,
    ensures
        members(after.should_update).contains(i) <==> members(before.should_update).contains(i)
            || block_at(before.columns(), pos) != Some(state),
        members(after.should_update).contains(j) <==> members(before.should_update).contains(j),
        after.to_confirm == before.to_confirm,
        after.columns().len() == before.columns().len(),
        after.columns()[i as int].0 == before.columns()[i as int].0,
        after.columns()[i as int].1.base_packet_bytes
            == before.columns()[i as int].1.base_packet_bytes,
        j < before.columns().len() ==> after.columns()[j as int] == before.columns()[j as int],
{
    lemma_slot(before.columns(), i as int);
}

/// A block that is set to be kept becomes the edit of its position, and no other edit
/// changes; one that is set transiently, or cannot be set, leaves all edits as they were.
pub proof fn law_kept_block_becomes_an_edit(
    before: Blocks,
    after: Blocks,
    pos: IVec3,
    state: BlockState,
    persist: bool,
    other: IVec3,
)
    requires
        before.edits is Some,
        set_block_outcome(before, after, pos, state, persist),
    ensures
        persist && set_result(before.columns(), pos) is Ok ==> kept_edits(after.edits).contains_key(
            pos,
        ) && kept_edits(after.edits)[pos] == state,
        other != pos ==> kept_edits(after.edits).contains_key(other) == kept_edits(
            before.edits,
        ).contains_key(other) && kept_edits(after.edits)[other] == kept_edits(before.edits)[other],
        !persist || set_result(before.columns(), pos) is Err ==> kept_edits(after.edits)
            == kept_edits(before.edits),
{
}

/// A save hands out a snapshot exactly where edits are unsaved. A store that is opened on it
/// holds every edit, and nothing counts as unsaved then; the edits themselves stay.
pub proof fn law_save_hands_out_all_edits(
    before: Blocks,
    after: Blocks,
    r: Option<(String, Vec<u8>)>,
)
    requires
        before.wf(),
        save_outcome(before, after, r),
    ensures
        r is Some <==> (before.edits is Some && before.edits->0.dirty),
        r matches Some(out) ==> before.edits is Some && out.0@ == before.edits->0.dir@ && applied(
            Map::empty(),
            decoded(out.1@),
        ) == kept_edits(before.edits),
        kept_edits(after.edits) == kept_edits(before.edits),
        after.edits is Some ==> !after.edits->0.dirty,
        after.edits is Some <==> before.edits is Some,
        after.columns() == before.columns(),
{
    if let Some(out) = r {
        before.edits->0.lemma_states_valid();
        law_snapshot_restores(kept_edits(before.edits), out.1@);
    }
}

/// The chunks that are handed out as changed are all that count as such, each once, by
/// ascending index.
pub proof fn law_every_changed_chunk_is_handed_out(blocks: Blocks, indices: Seq<u32>, i: u32)
    requires
        updates(blocks, indices),
    ensures
        members(blocks.should_update).contains(i) <==> exists|n: int|
            0 <= n < indices.len() && #[trigger] indices[n] == i,
        indices.no_duplicates(),
        forall|m: int, n: int| 0 <= m < n < indices.len() ==> indices[m] < indices[n],
{
    assert(members(blocks.should_update).contains(i) <==> indices.contains(i));
}

} // verus!
