//! Setting many blocks to one state, one after the other.

use vstd::prelude::*;

use crate::block::BlockState;
use crate::blocks::{
    block_at, block_written, edit_recorded, in_height, loaded_at, set_block_outcome, set_result,
    Blocks, TrySetBlockDeltaError,
};
use crate::cache::{has_key, keys_distinct, lemma_slot, members, slot};
use crate::chunk::{cell_of, Column};
use crate::pos::{chunk_at, in_box, IVec3};
use crate::replay::{keys_of, law_read_after_set};

verus! {

/// Whether the block at `pos` can be set: it is loaded, and not below or above its
/// column.
pub open spec fn settable(entries: Seq<((i16, i16), Column)>, pos: IVec3) -> bool {
    in_height(pos) && loaded_at(entries, pos)
}

/// Whether two positions stand for the same block.
pub open spec fn same_block(a: IVec3, b: IVec3) -> bool {
    chunk_at(a) == chunk_at(b) && cell_of(a) == cell_of(b) && in_height(a) && in_height(b)
}

/// Whether the block at `pos` is one of those that can be set among `cells`.
pub open spec fn covered(
    entries: Seq<((i16, i16), Column)>,
    cells: Seq<IVec3>,
    pos: IVec3,
) -> bool {
    exists|j: int|
        0 <= j < cells.len() && settable(entries, #[trigger] cells[j]) && same_block(cells[j], pos)
}

/// Whether setting the block at `pos` to `state` makes a difference.
pub open spec fn changes(
    entries: Seq<((i16, i16), Column)>,
    pos: IVec3,
    state: BlockState,
) -> bool {
    settable(entries, pos) && block_at(entries, pos) != Some(state)
}

/// No two of `cells` stand for the same block.
pub open spec fn distinct_blocks(cells: Seq<IVec3>) -> bool {
    forall|i: int, j: int|
        0 <= i < j < cells.len() ==> !same_block(#[trigger] cells[i], #[trigger] cells[j])
}

/// Those of `cells` that can be set, in order.
pub open spec fn settable_of(
    entries: Seq<((i16, i16), Column)>,
    cells: Seq<IVec3>,
) -> Seq<IVec3>
    decreases cells.len(),
{
    if cells.len() == 0 {
        Seq::empty()
    } else if settable(entries, cells.last()) {
        settable_of(entries, cells.drop_last()).push(cells.last())
    } else {
        settable_of(entries, cells.drop_last())
    }
}

/// Some of `cells` lies in the column with the index `i`, and setting it to
/// `state` makes a difference.
pub open spec fn touches(
    entries: Seq<((i16, i16), Column)>,
    cells: Seq<IVec3>,
    state: BlockState,
    i: u32,
) -> bool {
    exists|j: int|
        0 <= j < cells.len() && changes(entries, #[trigger] cells[j], state) && i == slot(
            entries,
            chunk_at(cells[j]).key(),
        )
}

/// Whether `pos` is one of `cells` whose block can be set.
pub open spec fn edits_at(
    entries: Seq<((i16, i16), Column)>,
    cells: Seq<IVec3>,
    pos: IVec3,
) -> bool {
    cells.contains(pos) && settable(entries, pos)
}

/// `after` keeps the edits of `before` and those of `cells` to `state`, of blocks that
/// can be set.
pub open spec fn edits_painted(
    before: Blocks,
    after: Blocks,
    cells: Seq<IVec3>,
    state: BlockState,
) -> bool {
    match before.edits {
        Some(b) => {
            &&& after.edits matches Some(a)
            &&& a.dir == b.dir
            &&& a.dirty == (b.dirty || exists|p: IVec3| #[trigger]
                edits_at(before.columns(), cells, p))
            &&& forall|p: IVec3| #[trigger]
                a@.contains_key(p) == (b@.contains_key(p) || edits_at(before.columns(), cells, p))
            &&& forall|p: IVec3|
                a@.contains_key(p) ==> #[trigger] a@[p] == if edits_at(
                    before.columns(),
                    cells,
                    p,
                ) {
                    state
                } else {
                    b@[p]
                }
        },
        None => after.edits is None,
    }
}

/// `after` is `before` with those of `cells` that can be set in the state `state`:
/// every other block is as it was, the chunks where that made a difference count
/// as changed, and if `persist` is set all these edits are kept.
pub open spec fn painted(
    before: Blocks,
    after: Blocks,
    cells: Seq<IVec3>,
    state: BlockState,
    persist: bool,
) -> bool {
    &&& after.wf()
    &&& keys_of(after.columns()) == keys_of(before.columns())
    &&& forall|i: int|
        0 <= i < before.columns().len() ==> (#[trigger] after.columns()[i]).1.base_packet_bytes
            == before.columns()[i].1.base_packet_bytes
    &&& forall|p: IVec3| #[trigger]
        block_at(after.columns(), p) == if covered(before.columns(), cells, p) {
            Some(state)
        } else {
            block_at(before.columns(), p)
        }
    &&& forall|i: u32| #[trigger]
        members(after.should_update).contains(i) <==> members(before.should_update).contains(i)
            || touches(before.columns(), cells, state, i)
    &&& after.to_confirm == before.to_confirm
    &&& if persist {
        edits_painted(before, after, cells, state)
    } else {
        after.edits == before.edits
    }
}

/// Where the keys are the same, the same chunks are loaded, at the same indices.
pub proof fn lemma_same_keys(
    a: Seq<((i16, i16), Column)>,
    b: Seq<((i16, i16), Column)>,
    key: (i16, i16),
)
    requires
        keys_distinct(a),
        keys_distinct(b),
        keys_of(a) == keys_of(b),
    ensures
        has_key(a, key) == has_key(b, key),
        has_key(a, key) ==> slot(a, key) == slot(b, key),
{
    assert(a.len() == keys_of(a).len() && b.len() == keys_of(b).len());
    if has_key(a, key) {
        let i = slot(a, key);
        assert(a[i].0 == key);
        assert(keys_of(a)[i] == keys_of(b)[i]);
        assert(b[i].0 == key);
        lemma_slot(b, i);
    }
    if has_key(b, key) {
        let i = slot(b, key);
        assert(b[i].0 == key);
        assert(keys_of(a)[i] == keys_of(b)[i]);
        assert(a[i].0 == key);
    }
}

/// Setting no block at all.
pub proof fn lemma_painted_none(before: Blocks, state: BlockState, persist: bool)
    requires
        before.wf(),
    ensures
        painted(before, before, Seq::empty(), state, persist),
{
}

pub proof fn lemma_keys_of_written(
    before: Seq<((i16, i16), Column)>,
    after: Seq<((i16, i16), Column)>,
    pos: IVec3,
    state: BlockState,
)
    requires
        loaded_at(before, pos),
        block_written(before, after, pos, state),
    ensures
        keys_of(after) == keys_of(before),
        forall|i: int|
            0 <= i < before.len() ==> (#[trigger] after[i]).1.base_packet_bytes
                == before[i].1.base_packet_bytes,
{
    let s = slot(before, chunk_at(pos).key());
    assert forall|i: int| 0 <= i < before.len() implies keys_of(after)[i] == keys_of(before)[i] by {
        if i != s {
            assert(after[i] == before[i]);
        }
    }
    assert(keys_of(after) =~= keys_of(before));
    assert forall|i: int| 0 <= i < before.len() implies (#[trigger] after[i]).1.base_packet_bytes
        == before[i].1.base_packet_bytes by {
        if i != s {
            assert(after[i] == before[i]);
        }
    }
}

/// What can be set, and what a change is, is the same before and after the keys
/// stayed what they were.
pub proof fn lemma_settable_stays(before: Blocks, mid: Blocks, pos: IVec3)
    requires
        before.wf(),
        mid.wf(),
        keys_of(mid.columns()) == keys_of(before.columns()),
    ensures
        settable(mid.columns(), pos) == settable(before.columns(), pos),
        settable(before.columns(), pos) ==> slot(mid.columns(), chunk_at(pos).key()) == slot(
            before.columns(),
            chunk_at(pos).key(),
        ),
{
    lemma_same_keys(mid.columns(), before.columns(), chunk_at(pos).key());
}

/// One more block: what `covered` says of the longer list.
proof fn lemma_covered_push(
    entries: Seq<((i16, i16), Column)>,
    cells: Seq<IVec3>,
    pos: IVec3,
    at: IVec3,
)
    ensures
        covered(entries, cells.push(pos), at) == (covered(entries, cells, at) || settable(
            entries,
            pos,
        ) && same_block(pos, at)),
{
    let more = cells.push(pos);
    if covered(entries, cells, at) {
        let j = choose|j: int|
            0 <= j < cells.len() && settable(entries, #[trigger] cells[j]) && same_block(
                cells[j],
                at,
            );
        assert(more[j] == cells[j]);
    }
    assert(more[cells.len() as int] == pos);
    if covered(entries, more, at) {
        let j = choose|j: int|
            0 <= j < more.len() && settable(entries, #[trigger] more[j]) && same_block(more[j], at);
        if j < cells.len() {
            assert(more[j] == cells[j]);
        }
    }
}

/// One more block: what `touches` says of the longer list.
proof fn lemma_touches_push(
    entries: Seq<((i16, i16), Column)>,
    cells: Seq<IVec3>,
    pos: IVec3,
    state: BlockState,
    i: u32,
)
    ensures
        touches(entries, cells.push(pos), state, i) == (touches(entries, cells, state, i) || changes(
            entries,
            pos,
            state,
        ) && i == slot(entries, chunk_at(pos).key())),
{
    let more = cells.push(pos);
    if touches(entries, cells, state, i) {
        let j = choose|j: int|
            0 <= j < cells.len() && changes(entries, #[trigger] cells[j], state) && i == slot(
                entries,
                chunk_at(cells[j]).key(),
            );
        assert(more[j] == cells[j]);
    }
    assert(more[cells.len() as int] == pos);
    if touches(entries, more, state, i) {
        let j = choose|j: int|
            0 <= j < more.len() && changes(entries, #[trigger] more[j], state) && i == slot(
                entries,
                chunk_at(more[j]).key(),
            );
        if j < cells.len() {
            assert(more[j] == cells[j]);
        }
    }
}

/// One more block: what `edits_at` says of the longer list.
proof fn lemma_edits_at_push(
    entries: Seq<((i16, i16), Column)>,
    cells: Seq<IVec3>,
    pos: IVec3,
    at: IVec3,
)
    ensures
        edits_at(entries, cells.push(pos), at) == (edits_at(entries, cells, at) || (at == pos
            && settable(entries, pos))),
{
    let more = cells.push(pos);
    if cells.contains(at) {
        let j = choose|j: int| 0 <= j < cells.len() && cells[j] == at;
        assert(more[j] == at);
    }
    assert(more[cells.len() as int] == pos);
    if more.contains(at) {
        let j = choose|j: int| 0 <= j < more.len() && more[j] == at;
        if j < cells.len() {
            assert(cells[j] == at);
        }
    }
}

/// Setting one more block that none of the blocks set before stands for.
pub proof fn lemma_painted_step(
    before: Blocks,
    mid: Blocks,
    after: Blocks,
    cells: Seq<IVec3>,
    pos: IVec3,
    state: BlockState,
    persist: bool,
)
    requires
        before.wf(),
        painted(before, mid, cells, state, persist),
        set_block_outcome(mid, after, pos, state, persist),
        distinct_blocks(cells.push(pos)),
    ensures
        painted(before, after, cells.push(pos), state, persist),
        set_result(mid.columns(), pos) is Ok <==> settable(before.columns(), pos),
        set_result(mid.columns(), pos) matches Ok(old_state) ==> block_at(before.columns(), pos)
            == Some(old_state),
{
    let r = set_result(mid.columns(), pos);
    let entries = before.columns();
    let more = cells.push(pos);
    lemma_settable_stays(before, mid, pos);
    assert(!covered(entries, cells, pos)) by {
        if covered(entries, cells, pos) {
            let j = choose|j: int|
                0 <= j < cells.len() && settable(entries, #[trigger] cells[j]) && same_block(
                    cells[j],
                    pos,
                );
            assert(more[j] == cells[j] && more[cells.len() as int] == pos);
        }
    }
    assert(block_at(mid.columns(), pos) == block_at(entries, pos));
    law_read_after_set(mid, after, pos, state, persist, pos);
    if r is Ok {
        lemma_keys_of_written(mid.columns(), after.columns(), pos, state);
        assert forall|i: int| 0 <= i < entries.len() implies (
        #[trigger] after.columns()[i]).1.base_packet_bytes == entries[i].1.base_packet_bytes by {
            assert(keys_of(mid.columns()).len() == keys_of(entries).len());
            assert(mid.columns()[i].1.base_packet_bytes == entries[i].1.base_packet_bytes);
        }
    }
    assert forall|p: IVec3| #[trigger]
        block_at(after.columns(), p) == if covered(entries, more, p) {
            Some(state)
        } else {
            block_at(entries, p)
        } by {
        lemma_covered_push(entries, cells, pos, p);
        law_read_after_set(mid, after, pos, state, persist, p);
        assert(block_at(mid.columns(), p) == if covered(entries, cells, p) {
            Some(state)
        } else {
            block_at(entries, p)
        });
    }
    assert(r is Ok ==> (changes(entries, pos, state) <==> r->Ok_0 != state));
    assert forall|i: u32| #[trigger]
        members(after.should_update).contains(i) <==> members(before.should_update).contains(i)
            || touches(entries, more, state, i) by {
        lemma_touches_push(entries, cells, pos, state, i);
        if r is Ok {
            crate::cache::lemma_cache_size(entries);
            assert(entries[slot(entries, chunk_at(pos).key())].0 == chunk_at(pos).key());
        }
    }
    if persist {
        lemma_edits_painted_step(before, mid, after, cells, pos, state, r);
    }
}

proof fn lemma_edits_painted_step(
    before: Blocks,
    mid: Blocks,
    after: Blocks,
    cells: Seq<IVec3>,
    pos: IVec3,
    state: BlockState,
    r: Result<BlockState, TrySetBlockDeltaError>,
)
    requires
        edits_painted(before, mid, cells, state),
        r is Ok <==> settable(before.columns(), pos),
        if r is Ok {
            edit_recorded(mid.edits, after.edits, pos, state)
        } else {
            after.edits == mid.edits
        },
    ensures
        edits_painted(before, after, cells.push(pos), state),
{
    let entries = before.columns();
    let more = cells.push(pos);
    assert forall|p: IVec3| #[trigger]
        edits_at(entries, more, p) == (edits_at(entries, cells, p) || (p == pos && settable(
            entries,
            pos,
        ))) by {
        lemma_edits_at_push(entries, cells, pos, p);
    }
    if let Some(b) = before.edits {
        let m = mid.edits->0;
        let a = after.edits->0;
        if settable(entries, pos) {
            assert(edits_at(entries, more, pos));
            assert(a.dirty);
        } else if exists|p: IVec3| #[trigger] edits_at(entries, cells, p) {
            let p = choose|p: IVec3| #[trigger] edits_at(entries, cells, p);
            assert(edits_at(entries, more, p));
        }
        assert forall|p: IVec3| #[trigger]
            a@.contains_key(p) == (b@.contains_key(p) || edits_at(entries, more, p)) by {
            assert(m@.contains_key(p) == (b@.contains_key(p) || edits_at(entries, cells, p)));
        }
        assert forall|p: IVec3| a@.contains_key(p) implies #[trigger] a@[p] == if edits_at(
            entries,
            more,
            p,
        ) {
            state
        } else {
            b@[p]
        } by {
            assert(m@.contains_key(p) == (b@.contains_key(p) || edits_at(entries, cells, p)));
            if m@.contains_key(p) {
                assert(m@[p] == if edits_at(entries, cells, p) {
                    state
                } else {
                    b@[p]
                });
            }
        }
    }
}

/// The blocks of the inclusive cuboid from `min` to `max` along z, at one x and
/// one y.
pub open spec fn z_run(x: int, y: int, z: int, n: int) -> Seq<IVec3> {
    Seq::new(
        if n > 0 {
            n as nat
        } else {
            0
        },
        |k: int| IVec3 { x: x as i32, y: y as i32, z: (z + k) as i32 },
    )
}

/// `n` such runs, along y.
pub open spec fn y_run(x: int, y: int, n: int, z: int, nz: int) -> Seq<IVec3>
    decreases n,
{
    if n <= 0 {
        Seq::empty()
    } else {
        y_run(x, y, n - 1, z, nz) + z_run(x, y + n - 1, z, nz)
    }
}

/// `n` such layers, along x.
pub open spec fn x_run(x: int, n: int, y: int, ny: int, z: int, nz: int) -> Seq<IVec3>
    decreases n,
{
    if n <= 0 {
        Seq::empty()
    } else {
        x_run(x, n - 1, y, ny, z, nz) + y_run(x + n - 1, y, ny, z, nz)
    }
}

/// The positions of the inclusive cuboid from `min` to `max`, along x, then y, then
/// z.
pub open spec fn box_cells(min: IVec3, max: IVec3) -> Seq<IVec3> {
    x_run(
        min.x as int,
        max.x - min.x + 1,
        min.y as int,
        max.y - min.y + 1,
        min.z as int,
        max.z - min.z + 1,
    )
}

proof fn lemma_z_run(x: int, y: int, z: int, n: int)
    requires
        i32::MIN <= x <= i32::MAX,
        i32::MIN <= y <= i32::MAX,
        i32::MIN <= z,
        z + n - 1 <= i32::MAX,
    ensures
        z_run(x, y, z, n).no_duplicates(),
        forall|p: IVec3| #[trigger]
            z_run(x, y, z, n).contains(p) <==> p.x == x && p.y == y && z <= p.z < z + n,
{
    let run = z_run(x, y, z, n);
    assert forall|p: IVec3| #[trigger] run.contains(p) <==> p.x == x && p.y == y && z <= p.z < z
        + n by {
        if p.x == x && p.y == y && z <= p.z < z + n {
            assert(run[p.z - z] == p);
        }
    }
}

proof fn lemma_concat(a: Seq<IVec3>, b: Seq<IVec3>)
    requires
        a.no_duplicates(),
        b.no_duplicates(),
        forall|p: IVec3| a.contains(p) ==> !(#[trigger] b.contains(p)),
    ensures
        (a + b).no_duplicates(),
        forall|p: IVec3| #[trigger] (a + b).contains(p) <==> a.contains(p) || b.contains(p),
{
    let c = a + b;
    assert forall|p: IVec3| #[trigger] c.contains(p) <==> a.contains(p) || b.contains(p) by {
        if a.contains(p) {
            let i = choose|i: int| 0 <= i < a.len() && a[i] == p;
            assert(c[i] == p);
        }
        if b.contains(p) {
            let i = choose|i: int| 0 <= i < b.len() && b[i] == p;
            assert(c[a.len() + i] == p);
        }
    }
    assert forall|i: int, j: int| 0 <= i < c.len() && 0 <= j < c.len() && i != j implies c[i]
        != c[j] by {
        if i < a.len() && j >= a.len() {
            assert(a.contains(a[i]) && b.contains(b[j - a.len()]));
        }
        if j < a.len() && i >= a.len() {
            assert(a.contains(a[j]) && b.contains(b[i - a.len()]));
        }
    }
}

proof fn lemma_y_run(x: int, y: int, n: int, z: int, nz: int)
    requires
        i32::MIN <= x <= i32::MAX,
        i32::MIN <= y,
        y + n - 1 <= i32::MAX,
        i32::MIN <= z,
        z + nz - 1 <= i32::MAX,
    ensures
        y_run(x, y, n, z, nz).no_duplicates(),
        forall|p: IVec3| #[trigger]
            y_run(x, y, n, z, nz).contains(p) <==> p.x == x && y <= p.y < y + n && z <= p.z < z
                + nz,
    decreases n,
{
    if n > 0 {
        lemma_y_run(x, y, n - 1, z, nz);
        lemma_z_run(x, y + n - 1, z, nz);
        lemma_concat(y_run(x, y, n - 1, z, nz), z_run(x, y + n - 1, z, nz));
    }
}

proof fn lemma_x_run(x: int, n: int, y: int, ny: int, z: int, nz: int)
    requires
        i32::MIN <= x,
        x + n - 1 <= i32::MAX,
        i32::MIN <= y,
        y + ny - 1 <= i32::MAX,
        i32::MIN <= z,
        z + nz - 1 <= i32::MAX,
    ensures
        x_run(x, n, y, ny, z, nz).no_duplicates(),
        forall|p: IVec3| #[trigger]
            x_run(x, n, y, ny, z, nz).contains(p) <==> x <= p.x < x + n && y <= p.y < y + ny && z
                <= p.z < z + nz,
    decreases n,
{
    if n > 0 {
        lemma_x_run(x, n - 1, y, ny, z, nz);
        lemma_y_run(x + n - 1, y, ny, z, nz);
        lemma_concat(x_run(x, n - 1, y, ny, z, nz), y_run(x + n - 1, y, ny, z, nz));
    }
}

/// The list of a cuboid holds each of its positions once, and no other.
pub proof fn lemma_box_cells(min: IVec3, max: IVec3)
    ensures
        box_cells(min, max).no_duplicates(),
        forall|p: IVec3| #[trigger] box_cells(min, max).contains(p) <==> in_box(p, min, max),
{
    lemma_x_run(
        min.x as int,
        max.x - min.x + 1,
        min.y as int,
        max.y - min.y + 1,
        min.z as int,
        max.z - min.z + 1,
    );
}

proof fn lemma_y_run_len(x: int, y: int, n: int, z: int, nz: int)
    requires
        n >= 0,
        nz >= 0,
    ensures
        y_run(x, y, n, z, nz).len() == n * nz,
    decreases n,
{
    if n > 0 {
        lemma_y_run_len(x, y, n - 1, z, nz);
        assert((n - 1) * nz + nz == n * nz) by (nonlinear_arith);
    } else {
        assert(0 * nz == 0) by (nonlinear_arith);
    }
}

proof fn lemma_x_run_len(x: int, n: int, y: int, ny: int, z: int, nz: int)
    requires
        n >= 0,
        ny >= 0,
        nz >= 0,
    ensures
        x_run(x, n, y, ny, z, nz).len() == n * (ny * nz),
    decreases n,
{
    if n > 0 {
        lemma_x_run_len(x, n - 1, y, ny, z, nz);
        lemma_y_run_len(x + n - 1, y, ny, z, nz);
        assert((n - 1) * (ny * nz) + ny * nz == n * (ny * nz)) by (nonlinear_arith);
    } else {
        assert(0 * (ny * nz) == 0) by (nonlinear_arith);
    }
}

/// How many blocks the inclusive cuboid from `min` to `max` has.
pub open spec fn volume(min: IVec3, max: IVec3) -> int {
    (max.x - min.x + 1) * (max.y - min.y + 1) * (max.z - min.z + 1)
}

/// The size of the cuboid from `min` to `max`.
pub(crate) fn volume_of(min: IVec3, max: IVec3) -> (r: i128)
    ensures
        r == volume(min, max),
        r > i128::MIN,
{
    let a: i128 = max.x as i128 - min.x as i128 + 1;
    let b: i128 = max.y as i128 - min.y as i128 + 1;
    let c: i128 = max.z as i128 - min.z as i128 + 1;
    assert(-0x2_0000_0000 * 0x2_0000_0000 <= a * b <= 0x2_0000_0000 * 0x2_0000_0000)
        by (nonlinear_arith)
        requires
            -0x2_0000_0000 <= a <= 0x2_0000_0000,
            -0x2_0000_0000 <= b <= 0x2_0000_0000,
    ;
    let ab: i128 = a * b;
    assert(-0x4_0000_0000_0000_0000 * 0x2_0000_0000 <= ab * c <= 0x4_0000_0000_0000_0000
        * 0x2_0000_0000) by (nonlinear_arith)
        requires
            -0x4_0000_0000_0000_0000 <= ab <= 0x4_0000_0000_0000_0000,
            -0x2_0000_0000 <= c <= 0x2_0000_0000,
    ;
    ab * c
}

/// The list of a cuboid whose corners are sorted is as long as the cuboid is
/// large.
pub proof fn lemma_box_volume(min: IVec3, max: IVec3)
    requires
        min.x <= max.x,
        min.y <= max.y,
        min.z <= max.z,
    ensures
        box_cells(min, max).len() == volume(min, max),
{
    let nx = max.x - min.x + 1;
    let ny = max.y - min.y + 1;
    let nz = max.z - min.z + 1;
    lemma_x_run_len(min.x as int, nx, min.y as int, ny, min.z as int, nz);
    assert(nx * (ny * nz) == nx * ny * nz) by (nonlinear_arith);
}

/// In a cuboid that is not wider than chunk coordinates can tell apart, no two
/// positions stand for the same block.
pub proof fn lemma_box_distinct(min: IVec3, max: IVec3)
    requires
        max.x - min.x < 0x10_0000,
        max.z - min.z < 0x10_0000,
    ensures
        distinct_blocks(box_cells(min, max)),
{
    let cells = box_cells(min, max);
    lemma_box_cells(min, max);
    assert forall|i: int, j: int| 0 <= i < j < cells.len() implies !same_block(
        #[trigger] cells[i],
        #[trigger] cells[j],
    ) by {
        let a = cells[i];
        let b = cells[j];
        assert(cells.contains(a) && cells.contains(b));
        assert(a != b);
        if same_block(a, b) {
            crate::chunk::lemma_cell(a.x as int % 16, a.y + 64, a.z as int % 16);
            crate::chunk::lemma_cell(b.x as int % 16, b.y + 64, b.z as int % 16);
            lemma_unwrap(a.x as int / 16, b.x as int / 16);
            lemma_unwrap(a.z as int / 16, b.z as int / 16);
        }
    }
}

/// Two numbers less than 65536 apart with the same low sixteen bits are equal.
pub proof fn lemma_unwrap(a: int, b: int)
    requires
        -0x800_0000 <= a < 0x800_0000,
        -0x800_0000 <= b < 0x800_0000,
        -0x1_0000 < a - b < 0x1_0000,
        crate::pos::wrap_i16(a) as i16 == crate::pos::wrap_i16(b) as i16,
    ensures
        a == b,
{
}

/// The positions of the inclusive cuboid from `min` to `max`, along x, then y, then
/// z.
pub fn box_positions(min: IVec3, max: IVec3) -> (r: Vec<IVec3>)
    ensures
        r@ == box_cells(min, max),
{
    let mut r: Vec<IVec3> = Vec::new();
    let ghost ny = max.y - min.y + 1;
    let ghost nz = max.z - min.z + 1;
    let mut x: i64 = min.x as i64;
    while x <= max.x as i64
        invariant
            min.x <= x,
            x <= max.x + 1 || x == min.x,
            ny == max.y - min.y + 1,
            nz == max.z - min.z + 1,
            r@ == x_run(min.x as int, x - min.x, min.y as int, ny, min.z as int, nz),
        decreases max.x - x + 1,
    {
        let ghost layers = r@;
        let mut y: i64 = min.y as i64;
        assert(layers + y_run(x as int, min.y as int, 0, min.z as int, nz) =~= layers);
        while y <= max.y as i64
            invariant
                min.x <= x <= max.x,
                min.y <= y,
                y <= max.y + 1 || y == min.y,
                ny == max.y - min.y + 1,
                nz == max.z - min.z + 1,
                r@ == layers + y_run(x as int, min.y as int, y - min.y, min.z as int, nz),
            decreases max.y - y + 1,
        {
            let ghost runs = r@;
            let mut z: i64 = min.z as i64;
            assert(runs + z_run(x as int, y as int, min.z as int, 0) =~= runs);
            while z <= max.z as i64
                invariant
                    min.x <= x <= max.x,
                    min.y <= y <= max.y,
                    min.z <= z,
                    z <= max.z + 1 || z == min.z,
                    r@ == runs + z_run(x as int, y as int, min.z as int, z - min.z),
                decreases max.z - z + 1,
            {
                r.push(IVec3::new(x as i32, y as i32, z as i32));
                assert(r@ =~= runs + z_run(x as int, y as int, min.z as int, z + 1 - min.z));
                z += 1;
            }
            assert(z_run(x as int, y as int, min.z as int, z - min.z) =~= z_run(
                x as int,
                y as int,
                min.z as int,
                nz,
            ));
            assert(r@ =~= layers + y_run(x as int, min.y as int, y + 1 - min.y, min.z as int, nz));
            y += 1;
        }
        proof {
            if min.y > max.y {
                assert(y_run(x as int, min.y as int, y - min.y, min.z as int, nz) == y_run(
                    x as int,
                    min.y as int,
                    ny,
                    min.z as int,
                    nz,
                ));
            }
        }
        x += 1;
    }
    r
}

/// One more block: which of the longer list can be set.
pub proof fn lemma_settable_of_push(
    entries: Seq<((i16, i16), Column)>,
    cells: Seq<IVec3>,
    pos: IVec3,
)
    ensures
        settable_of(entries, cells.push(pos)) == if settable(entries, pos) {
            settable_of(entries, cells).push(pos)
        } else {
            settable_of(entries, cells)
        },
        settable_of(entries, cells).len() <= cells.len(),
    decreases cells.len(),
{
    assert(cells.push(pos).drop_last() =~= cells);
    if cells.len() > 0 {
        lemma_settable_of_push(entries, cells.drop_last(), cells.last());
    }
}

/// A block can be set exactly where a column is loaded that holds its chunk and its
/// height, and then setting it succeeds.
pub proof fn law_settable_blocks_are_the_loaded_ones(
    entries: Seq<((i16, i16), Column)>,
    pos: IVec3,
)
    ensures
        settable(entries, pos) <==> -64 <= pos.y <= 319 && exists|i: int|
            0 <= i < entries.len() && (#[trigger] entries[i]).0 == (chunk_at(pos).x, chunk_at(pos).y),
        settable(entries, pos) <==> set_result(entries, pos) is Ok,
{
}

/// Picking out what can be set leaves out nothing else, and keeps the order.
pub proof fn law_settable_are_picked_in_order(
    entries: Seq<((i16, i16), Column)>,
    cells: Seq<IVec3>,
)
    ensures
        settable_of(entries, cells) == cells.filter(|p: IVec3| settable(entries, p)),
    decreases cells.len(),
{
    reveal(Seq::filter);
    if cells.len() > 0 {
        law_settable_are_picked_in_order(entries, cells.drop_last());
    }
}

/// What can be set is picked out once for each time it is listed.
pub proof fn lemma_settable_of(entries: Seq<((i16, i16), Column)>, cells: Seq<IVec3>)
    ensures
        forall|p: IVec3| #[trigger]
            settable_of(entries, cells).contains(p) <==> cells.contains(p) && settable(entries, p),
        cells.no_duplicates() ==> settable_of(entries, cells).no_duplicates(),
        settable_of(entries, cells).len() <= cells.len(),
    decreases cells.len(),
{
    if cells.len() > 0 {
        let front = cells.drop_last();
        lemma_settable_of(entries, front);
        let before = settable_of(entries, front);
        let after = settable_of(entries, cells);
        assert forall|p: IVec3| cells.contains(p) <==> front.contains(p) || p == cells.last() by {
            if front.contains(p) {
                let i = choose|i: int| 0 <= i < front.len() && front[i] == p;
                assert(cells[i] == p);
            }
            if cells.contains(p) {
                let i = choose|i: int| 0 <= i < cells.len() && cells[i] == p;
                if i < front.len() {
                    assert(front[i] == p);
                }
            }
            assert(cells[cells.len() - 1] == cells.last());
        }
        if settable(entries, cells.last()) {
            assert forall|p: IVec3| after.contains(p) <==> before.contains(p) || p
                == cells.last() by {
                assert(after[before.len() as int] == cells.last());
                if before.contains(p) {
                    let i = choose|i: int| 0 <= i < before.len() && before[i] == p;
                    assert(after[i] == p);
                }
                if after.contains(p) {
                    let i = choose|i: int| 0 <= i < after.len() && after[i] == p;
                    if i < before.len() {
                        assert(before[i] == p);
                    }
                }
            }
            if cells.no_duplicates() {
                assert(!front.contains(cells.last())) by {
                    if front.contains(cells.last()) {
                        let i = choose|i: int| 0 <= i < front.len() && front[i] == cells.last();
                        assert(cells[i] == cells[cells.len() - 1]);
                    }
                }
                assert(!before.contains(cells.last()));
                assert(after.no_duplicates());
            }
        }
    }
}

/// Whether `a` comes before `b` in a list along x, then y, then z.
pub open spec fn earlier(a: IVec3, b: IVec3) -> bool {
    ||| a.x < b.x
    ||| a.x == b.x && a.y < b.y
    ||| a.x == b.x && a.y == b.y && a.z < b.z
}

/// The list of a cuboid holds every position between its corners once and no other, in
/// order, and so it is as long as its three sides multiplied.
pub proof fn law_box_lists_every_position_once(min: IVec3, max: IVec3)
    ensures
        forall|p: IVec3| #[trigger]
            box_cells(min, max).contains(p) <==> min.x <= p.x <= max.x && min.y <= p.y <= max.y
                && min.z <= p.z <= max.z,
        forall|i: int, j: int|
            0 <= i < j < box_cells(min, max).len() ==> earlier(
                #[trigger] box_cells(min, max)[i],
                #[trigger] box_cells(min, max)[j],
            ),
        min.x <= max.x && min.y <= max.y && min.z <= max.z ==> box_cells(min, max).len() == (max.x
            - min.x + 1) * ((max.y - min.y + 1) * (max.z - min.z + 1)) && volume(min, max)
            == box_cells(min, max).len(),
{
    lemma_box_cells(min, max);
    lemma_x_run_order(
        min.x as int,
        max.x - min.x + 1,
        min.y as int,
        max.y - min.y + 1,
        min.z as int,
        max.z - min.z + 1,
    );
    if min.x <= max.x && min.y <= max.y && min.z <= max.z {
        lemma_x_run_len(
            min.x as int,
            max.x - min.x + 1,
            min.y as int,
            max.y - min.y + 1,
            min.z as int,
            max.z - min.z + 1,
        );
        lemma_box_volume(min, max);
    }
}

proof fn lemma_y_run_order(x: int, y: int, n: int, z: int, nz: int)
    requires
        i32::MIN <= x <= i32::MAX,
        i32::MIN <= y,
        y + n - 1 <= i32::MAX,
        i32::MIN <= z,
        z + nz - 1 <= i32::MAX,
    ensures
        forall|i: int, j: int|
            0 <= i < j < y_run(x, y, n, z, nz).len() ==> earlier(
                #[trigger] y_run(x, y, n, z, nz)[i],
                #[trigger] y_run(x, y, n, z, nz)[j],
            ),
    decreases n,
{
    if n > 0 {
        let a = y_run(x, y, n - 1, z, nz);
        let b = z_run(x, y + n - 1, z, nz);
        lemma_y_run_order(x, y, n - 1, z, nz);
        lemma_y_run(x, y, n - 1, z, nz);
        let c = y_run(x, y, n, z, nz);
        assert forall|i: int, j: int| 0 <= i < j < c.len() implies earlier(
            #[trigger] c[i],
            #[trigger] c[j],
        ) by {
            if j < a.len() {
                assert(c[i] == a[i] && c[j] == a[j]);
            } else if i < a.len() {
                assert(c[i] == a[i] && a.contains(a[i]));
                assert(c[j] == b[j - a.len()]);
            } else {
                assert(c[i] == b[i - a.len()] && c[j] == b[j - a.len()]);
            }
        }
    }
}

proof fn lemma_x_run_order(x: int, n: int, y: int, ny: int, z: int, nz: int)
    requires
        i32::MIN <= x,
        x + n - 1 <= i32::MAX,
        i32::MIN <= y,
        y + ny - 1 <= i32::MAX,
        i32::MIN <= z,
        z + nz - 1 <= i32::MAX,
    ensures
        forall|i: int, j: int|
            0 <= i < j < x_run(x, n, y, ny, z, nz).len() ==> earlier(
                #[trigger] x_run(x, n, y, ny, z, nz)[i],
                #[trigger] x_run(x, n, y, ny, z, nz)[j],
            ),
    decreases n,
{
    if n > 0 {
        let a = x_run(x, n - 1, y, ny, z, nz);
        let b = y_run(x + n - 1, y, ny, z, nz);
        lemma_x_run_order(x, n - 1, y, ny, z, nz);
        lemma_x_run(x, n - 1, y, ny, z, nz);
        lemma_y_run_order(x + n - 1, y, ny, z, nz);
        lemma_y_run(x + n - 1, y, ny, z, nz);
        let c = x_run(x, n, y, ny, z, nz);
        assert forall|i: int, j: int| 0 <= i < j < c.len() implies earlier(
            #[trigger] c[i],
            #[trigger] c[j],
        ) by {
            if j < a.len() {
                assert(c[i] == a[i] && c[j] == a[j]);
            } else if i < a.len() {
                assert(c[i] == a[i] && a.contains(a[i]));
                assert(c[j] == b[j - a.len()] && b.contains(b[j - a.len()]));
            } else {
                assert(c[i] == b[i - a.len()] && c[j] == b[j - a.len()]);
            }
        }
    }
}

/// Painting tells on every chunk where a block came to look different, and on no chunk
/// where none did.
pub proof fn law_painted_chunks_are_marked(
    before: Blocks,
    after: Blocks,
    cells: Seq<IVec3>,
    state: BlockState,
    persist: bool,
    j: int,
    i: u32,
)
    requires
        before.wf(),
        painted(before, after, cells, state, persist),
        0 <= j < cells.len(),
        i < before.columns().len(),
    ensures
        before.columns()[i as int].0 == (chunk_at(cells[j]).x, chunk_at(cells[j]).y) && -64
            <= cells[j].y < 320 && block_at(before.columns(), cells[j]) != Some(state) ==> members(
            after.should_update,
        ).contains(i),
        (forall|k: int|
            0 <= k < cells.len() && -64 <= (#[trigger] cells[k]).y < 320 && before.columns()[i as int].0
                == (chunk_at(cells[k]).x, chunk_at(cells[k]).y) ==> block_at(
                before.columns(),
                cells[k],
            ) == Some(state)) ==> (members(after.should_update).contains(i) <==> members(
            before.should_update,
        ).contains(i)),
{
    let entries = before.columns();
    if entries[i as int].0 == (chunk_at(cells[j]).x, chunk_at(cells[j]).y) && -64 <= cells[j].y < 320
        && block_at(entries, cells[j]) != Some(state) {
        lemma_slot(entries, i as int);
        assert(changes(entries, cells[j], state));
        assert(touches(entries, cells, state, i));
    }
    if touches(entries, cells, state, i) {
        let k = choose|k: int|
            0 <= k < cells.len() && changes(entries, #[trigger] cells[k], state) && i == slot(
                entries,
                chunk_at(cells[k]).key(),
            );
        assert(entries[slot(entries, chunk_at(cells[k]).key())].0 == chunk_at(cells[k]).key());
    }
}

} // verus!
