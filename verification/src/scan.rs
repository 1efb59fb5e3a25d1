//! Listing the loaded blocks of a region, or those in a given state.

use vstd::prelude::*;

use crate::block::BlockState;
use crate::blocks::{
    block_at, column_for, columns_wf, in_height, in_own_column, lemma_pos_in, loaded_at, pos_in,
    Blocks,
};
use crate::cache::{cache_column, cache_len, has_key, lemma_slot, slot};
use crate::chunk::{cell_of, Column, COLUMN_BLOCKS};
use crate::pos::{chunk_at, floor_16, in_box, in_chunk_range, I16Vec2, IVec3};

verus! {

/// Whether the block at `pos` is loaded and lies in the inclusive cuboid from
/// `start` to `end`.
pub open spec fn wanted(
    entries: Seq<((i16, i16), Column)>,
    start: IVec3,
    end: IVec3,
    pos: IVec3,
) -> bool {
    in_box(pos, start, end) && in_height(pos) && in_chunk_range(pos) && loaded_at(entries, pos)
}

/// The order in which blocks are listed: chunk by chunk, along x and then z, and
/// in a chunk column by column, along x and then z, each from the bottom up.
/// Whether `pos` comes before the block with these coordinates in this chunk.
pub open spec fn listed_before(pos: IVec3, cx: int, cz: int, x: int, z: int, y: int) -> bool {
    let px = pos.x as int / 16;
    let pz = pos.z as int / 16;
    ||| px < cx
    ||| px == cx && pz < cz
    ||| px == cx && pz == cz && pos.x < x
    ||| px == cx && pz == cz && pos.x == x && pos.z < z
    ||| px == cx && pz == cz && pos.x == x && pos.z == z && pos.y < y
}

/// Whether `a` is listed before `b`.
pub open spec fn in_order(a: IVec3, b: IVec3) -> bool {
    listed_before(
        a,
        b.x as int / 16,
        b.z as int / 16,
        b.x as int,
        b.z as int,
        b.y as int,
    )
}

/// `r` lists `pos`.
pub open spec fn lists(r: Seq<(IVec3, BlockState)>, pos: IVec3) -> bool {
    exists|i: int| 0 <= i < r.len() && (#[trigger] r[i]).0 == pos
}

/// `r` lists blocks of the region, in order, each with its state.
pub open spec fn lists_only(
    r: Seq<(IVec3, BlockState)>,
    entries: Seq<((i16, i16), Column)>,
    start: IVec3,
    end: IVec3,
) -> bool {
    &&& forall|i: int|
        0 <= i < r.len() ==> wanted(entries, start, end, (#[trigger] r[i]).0) && block_at(
            entries,
            r[i].0,
        ) == Some(r[i].1)
    &&& forall|i: int, j: int|
        0 <= i < j < r.len() ==> in_order((#[trigger] r[i]).0, (#[trigger] r[j]).0)
}

/// `r` lists what is wanted up to a given place in the order, and no more.
spec fn lists_up_to(
    r: Seq<(IVec3, BlockState)>,
    entries: Seq<((i16, i16), Column)>,
    start: IVec3,
    end: IVec3,
    cx: int,
    cz: int,
    x: int,
    z: int,
    y: int,
) -> bool {
    &&& lists_only(r, entries, start, end)
    &&& forall|i: int|
        0 <= i < r.len() ==> listed_before((#[trigger] r[i]).0, cx, cz, x, z, y)
    &&& forall|pos: IVec3| #[trigger]
        wanted(entries, start, end, pos) && listed_before(pos, cx, cz, x, z, y) ==> lists(r, pos)
}

/// Moving on in the order past places where nothing is wanted.
proof fn lemma_move_on(
    r: Seq<(IVec3, BlockState)>,
    entries: Seq<((i16, i16), Column)>,
    start: IVec3,
    end: IVec3,
    from: (int, int, int, int, int),
    to: (int, int, int, int, int),
)
    requires
        lists_up_to(r, entries, start, end, from.0, from.1, from.2, from.3, from.4),
        forall|pos: IVec3| #[trigger]
            wanted(entries, start, end, pos) ==> listed_before(
                pos,
                from.0,
                from.1,
                from.2,
                from.3,
                from.4,
            ) == listed_before(pos, to.0, to.1, to.2, to.3, to.4),
    ensures
        lists_up_to(r, entries, start, end, to.0, to.1, to.2, to.3, to.4),
{
}

/// Appending the block that is next in the order.
proof fn lemma_append(
    r: Seq<(IVec3, BlockState)>,
    entries: Seq<((i16, i16), Column)>,
    start: IVec3,
    end: IVec3,
    pos: IVec3,
    state: BlockState,
)
    requires
        lists_up_to(
            r,
            entries,
            start,
            end,
            pos.x as int / 16,
            pos.z as int / 16,
            pos.x as int,
            pos.z as int,
            pos.y as int,
        ),
        wanted(entries, start, end, pos),
        block_at(entries, pos) == Some(state),
    ensures
        lists_up_to(
            r.push((pos, state)),
            entries,
            start,
            end,
            pos.x as int / 16,
            pos.z as int / 16,
            pos.x as int,
            pos.z as int,
            pos.y + 1,
        ),
{
    let more = r.push((pos, state));
    assert(more[r.len() as int] == (pos, state));
    assert forall|i: int| 0 <= i < more.len() implies wanted(
        entries,
        start,
        end,
        (#[trigger] more[i]).0,
    ) && block_at(entries, more[i].0) == Some(more[i].1) && listed_before(
        more[i].0,
        pos.x as int / 16,
        pos.z as int / 16,
        pos.x as int,
        pos.z as int,
        pos.y + 1,
    ) by {
        if i < r.len() {
            assert(more[i] == r[i]);
        }
    }
    assert forall|i: int, j: int| 0 <= i < j < more.len() implies in_order(
        (#[trigger] more[i]).0,
        (#[trigger] more[j]).0,
    ) by {
        assert(more[i] == r[i]);
        if j < r.len() {
            assert(more[j] == r[j]);
        }
    }
    assert forall|p: IVec3| #[trigger]
        wanted(entries, start, end, p) && listed_before(
            p,
            pos.x as int / 16,
            pos.z as int / 16,
            pos.x as int,
            pos.z as int,
            pos.y + 1,
        ) implies lists(more, p) by {
        if p == pos {
            assert(more[r.len() as int].0 == p);
        } else {
            assert(lists(r, p));
            let i = choose|i: int| 0 <= i < r.len() && (#[trigger] r[i]).0 == p;
            assert(more[i].0 == p);
        }
    }
}

/// The larger of two numbers.
spec fn max_of(a: int, b: int) -> int {
    if a >= b {
        a
    } else {
        b
    }
}

/// The smaller of two numbers.
spec fn min_of(a: int, b: int) -> int {
    if a <= b {
        a
    } else {
        b
    }
}

fn larger(a: i32, b: i32) -> (r: i32)
    ensures
        r == max_of(a as int, b as int),
{
    if a >= b {
        a
    } else {
        b
    }
}

fn smaller(a: i32, b: i32) -> (r: i32)
    ensures
        r == min_of(a as int, b as int),
{
    if a <= b {
        a
    } else {
        b
    }
}

impl Blocks {
    /// All loaded blocks within the range from `start` to `end` (inclusive), chunk
    /// by chunk.
    pub fn get_blocks(&self, start: IVec3, end: IVec3) -> (r: Vec<(IVec3, BlockState)>)
        requires
            self.wf(),
        ensures
            lists_only(r@, self.columns(), start, end),
            forall|pos: IVec3| #[trigger]
                wanted(self.columns(), start, end, pos) ==> lists(r@, pos),
    {
        let mut r: Vec<(IVec3, BlockState)> = Vec::new();
        let first_cx: i32 = larger(floor_16(start.x), -32768);
        let last_cx: i32 = smaller(floor_16(end.x), 32767);
        let first_cz: i32 = larger(floor_16(start.z), -32768);
        let last_cz: i32 = smaller(floor_16(end.z), 32767);
        let ghost entries = self.columns();
        let mut cx: i32 = first_cx;
        while cx <= last_cx
            invariant
                self.wf(),
                entries == self.columns(),
                first_cx <= cx,
                first_cx == max_of(start.x as int / 16, -32768),
                last_cx == min_of(end.x as int / 16, 32767),
                first_cz == max_of(start.z as int / 16, -32768),
                last_cz == min_of(end.z as int / 16, 32767),
                lists_up_to(r@, entries, start, end, cx as int, first_cz as int, -0x8000_0000, -0x8000_0000, -0x8000_0000),
            decreases last_cx - cx + 1,
        {
            let mut cz: i32 = first_cz;
            while cz <= last_cz
                invariant
                    self.wf(),
                    entries == self.columns(),
                    -32768 <= cx <= 32767,
                    first_cz <= cz,
                    first_cz == max_of(start.z as int / 16, -32768),
                    last_cz == min_of(end.z as int / 16, 32767),
                    lists_up_to(r@, entries, start, end, cx as int, cz as int, -0x8000_0000, -0x8000_0000, -0x8000_0000),
                decreases last_cz - cz + 1,
            {
                self.list_chunk(I16Vec2::new(cx as i16, cz as i16), start, end, &mut r);
                cz += 1;
            }
            proof {
                lemma_move_on(
                    r@,
                    entries,
                    start,
                    end,
                    (cx as int, cz as int, -0x8000_0000, -0x8000_0000, -0x8000_0000),
                    (cx + 1, first_cz as int, -0x8000_0000, -0x8000_0000, -0x8000_0000),
                );
            }
            cx += 1;
        }
        r
    }

    /// Appends the blocks of one chunk that lie within the range from `start` to
    /// `end`.
    fn list_chunk(&self, chunk: I16Vec2, start: IVec3, end: IVec3, r: &mut Vec<(IVec3, BlockState)>)
        requires
            self.wf(),
            lists_up_to(
                old(r)@,
                self.columns(),
                start,
                end,
                chunk.x as int,
                chunk.y as int,
                -0x8000_0000,
                -0x8000_0000,
                -0x8000_0000,
            ),
        ensures
            lists_up_to(
                final(r)@,
                self.columns(),
                start,
                end,
                chunk.x as int,
                chunk.y + 1,
                -0x8000_0000,
                -0x8000_0000,
                -0x8000_0000,
            ),
    {
        let ghost entries = self.columns();
        let ghost low: int = -0x8000_0000;
        match self.get_loaded_chunk(chunk) {
            None => {
                proof {
                    lemma_move_on(
                        r@,
                        entries,
                        start,
                        end,
                        (chunk.x as int, chunk.y as int, low, low, low),
                        (chunk.x as int, chunk.y + 1, low, low, low),
                    );
                }
            },
            Some(column) => {
                let base_x: i32 = chunk.x as i32 * 16;
                let base_z: i32 = chunk.y as i32 * 16;
                let first_x: i32 = larger(start.x, base_x);
                let last_x: i32 = smaller(end.x, base_x + 15);
                let first_z: i32 = larger(start.z, base_z);
                let last_z: i32 = smaller(end.z, base_z + 15);
                let first_y: i32 = larger(start.y, -64);
                let last_y: i32 = smaller(end.y, 319);
                let mut x: i32 = first_x;
                proof {
                    lemma_move_on(
                        r@,
                        entries,
                        start,
                        end,
                        (chunk.x as int, chunk.y as int, low, low, low),
                        (chunk.x as int, chunk.y as int, x as int, first_z as int, first_y as int),
                    );
                }
                while x <= last_x
                    invariant
                        self.wf(),
                        entries == self.columns(),
                        has_key(entries, chunk.key()),
                        *column == entries[slot(entries, chunk.key())].1,
                        column.wf(),
                        base_x == chunk.x * 16,
                        base_z == chunk.y * 16,
                        first_x == max_of(start.x as int, base_x as int),
                        last_x == min_of(end.x as int, base_x + 15),
                        first_z == max_of(start.z as int, base_z as int),
                        last_z == min_of(end.z as int, base_z + 15),
                        first_y == max_of(start.y as int, -64),
                        last_y == min_of(end.y as int, 319),
                        first_x <= x,
                        lists_up_to(r@, entries, start, end, chunk.x as int, chunk.y as int, x as int, first_z as int, first_y as int),
                    decreases last_x - x + 1,
                {
                    let mut z: i32 = first_z;
                    while z <= last_z
                        invariant
                            self.wf(),
                            entries == self.columns(),
                            has_key(entries, chunk.key()),
                            *column == entries[slot(entries, chunk.key())].1,
                            column.wf(),
                            base_x == chunk.x * 16,
                            base_z == chunk.y * 16,
                            start.x <= x <= end.x,
                            base_x <= x <= base_x + 15,
                            first_z == max_of(start.z as int, base_z as int),
                            last_z == min_of(end.z as int, base_z + 15),
                            first_y == max_of(start.y as int, -64),
                            last_y == min_of(end.y as int, 319),
                            first_z <= z,
                            lists_up_to(r@, entries, start, end, chunk.x as int, chunk.y as int, x as int, z as int, first_y as int),
                        decreases last_z - z + 1,
                    {
                        let mut y: i32 = first_y;
                        while y <= last_y
                            invariant
                                self.wf(),
                                entries == self.columns(),
                                has_key(entries, chunk.key()),
                                *column == entries[slot(entries, chunk.key())].1,
                                column.wf(),
                                base_x == chunk.x * 16,
                                base_z == chunk.y * 16,
                                start.x <= x <= end.x,
                                base_x <= x <= base_x + 15,
                                start.z <= z <= end.z,
                                base_z <= z <= base_z + 15,
                                first_y == max_of(start.y as int, -64),
                                last_y == min_of(end.y as int, 319),
                                first_y <= y,
                                lists_up_to(r@, entries, start, end, chunk.x as int, chunk.y as int, x as int, z as int, y as int),
                            decreases last_y - y + 1,
                        {
                            let pos = IVec3::new(x, y, z);
                            proof {
                                assert(x as int / 16 == chunk.x && z as int / 16 == chunk.y);
                                assert(chunk_at(pos) == chunk);
                            }
                            let state = column.data.block_state(
                                (x - base_x) as u32,
                                (y + 64) as u32,
                                (z - base_z) as u32,
                            );
                            proof {
                                assert(wanted(entries, start, end, pos));
                                lemma_append(r@, entries, start, end, pos, state);
                            }
                            r.push((pos, state));
                            y += 1;
                        }
                        proof {
                            lemma_move_on(
                                r@,
                                entries,
                                start,
                                end,
                                (chunk.x as int, chunk.y as int, x as int, z as int, y as int),
                                (chunk.x as int, chunk.y as int, x as int, z + 1, first_y as int),
                            );
                        }
                        z += 1;
                    }
                    proof {
                        lemma_move_on(
                            r@,
                            entries,
                            start,
                            end,
                            (chunk.x as int, chunk.y as int, x as int, z as int, first_y as int),
                            (chunk.x as int, chunk.y as int, x + 1, first_z as int, first_y as int),
                        );
                    }
                    x += 1;
                }
                proof {
                    lemma_move_on(
                        r@,
                        entries,
                        start,
                        end,
                        (chunk.x as int, chunk.y as int, x as int, first_z as int, first_y as int),
                        (chunk.x as int, chunk.y + 1, low, low, low),
                    );
                }
            },
        }
    }
}

/// Whether the block at `pos` is loaded and in the state `state`.
pub open spec fn found(
    entries: Seq<((i16, i16), Column)>,
    state: BlockState,
    pos: IVec3,
) -> bool {
    in_height(pos) && in_chunk_range(pos) && loaded_at(entries, pos) && column_for(
        entries,
        pos,
    ).data@[cell_of(pos)] == state
}

/// Whether the block at `pos` belongs to a column before number `i`, or to that
/// column and stands before place `k` of its list.
spec fn scanned(entries: Seq<((i16, i16), Column)>, pos: IVec3, i: int, k: int) -> bool {
    let s = slot(entries, chunk_at(pos).key());
    s < i || s == i && cell_of(pos) < k
}

/// `r` holds the positions found so far, each once.
spec fn found_up_to(
    r: Seq<IVec3>,
    entries: Seq<((i16, i16), Column)>,
    state: BlockState,
    i: int,
    k: int,
) -> bool {
    &&& r.no_duplicates()
    &&& forall|pos: IVec3| #[trigger]
        r.contains(pos) <==> found(entries, state, pos) && scanned(entries, pos, i, k)
}

/// Going on to the next place of the column.
proof fn lemma_scan_step(
    r: Seq<IVec3>,
    entries: Seq<((i16, i16), Column)>,
    state: BlockState,
    i: int,
    k: int,
)
    requires
        columns_wf(entries),
        0 <= i < entries.len(),
        0 <= k < 98304,
        found_up_to(r, entries, state, i, k),
    ensures
        entries[i].1.data@[k] == state ==> found_up_to(
            r.push(pos_in(entries[i].1.position, k)),
            entries,
            state,
            i,
            k + 1,
        ),
        entries[i].1.data@[k] != state ==> found_up_to(r, entries, state, i, k + 1),
{
    let chunk = entries[i].1.position;
    let here = pos_in(chunk, k);
    lemma_pos_in(chunk);
    lemma_slot(entries, i);
    assert(in_own_column(chunk, here) && cell_of(here) == k && chunk_at(here) == chunk);
    assert(!scanned(entries, here, i, k) && scanned(entries, here, i, k + 1));
    assert(!r.contains(here));
    assert forall|pos: IVec3|
        found(entries, state, pos) && scanned(entries, pos, i, k + 1) && pos != here implies scanned(
        entries,
        pos,
        i,
        k,
    ) by {
        if slot(entries, chunk_at(pos).key()) == i && cell_of(pos) == k {
            assert(in_own_column(chunk_at(pos), pos));
            lemma_pos_in(chunk_at(pos));
            assert(chunk_at(pos).key() == chunk.key());
        }
    }
    let more = r.push(here);
    assert forall|pos: IVec3| #[trigger] more.contains(pos) <==> (r.contains(pos) || pos == here) by {
        if r.contains(pos) {
            let j = choose|j: int| 0 <= j < r.len() && r[j] == pos;
            assert(more[j] == pos);
        }
        assert(more[r.len() as int] == here);
    }
}

impl Blocks {
    /// The positions of all loaded blocks in the state `block`, each once.
    pub fn par_scan_for(&self, block: BlockState) -> (r: Vec<IVec3>)
        requires
            self.wf(),
        ensures
            r@.no_duplicates(),
            forall|pos: IVec3| #[trigger]
                r@.contains(pos) <==> found(self.columns(), block, pos),
    {
        let mut r: Vec<IVec3> = Vec::new();
        let n: usize = cache_len(&self.chunk_cache);
        let ghost entries = self.columns();
        assert forall|pos: IVec3| found(entries, block, pos) implies !scanned(entries, pos, 0, 0) by {
            lemma_pos_in(chunk_at(pos));
            assert(in_own_column(chunk_at(pos), pos));
        }
        let mut i: usize = 0;
        while i < n
            invariant
                self.wf(),
                entries == self.columns(),
                n == entries.len(),
                i <= n,
                found_up_to(r@, entries, block, i as int, 0),
            decreases n - i,
        {
            let column = cache_column(&self.chunk_cache, i);
            let chunk = column.position;
            let mut k: usize = 0;
            while k < COLUMN_BLOCKS
                invariant
                    self.wf(),
                    entries == self.columns(),
                    n == entries.len(),
                    i < n,
                    k <= COLUMN_BLOCKS,
                    *column == entries[i as int].1,
                    chunk == column.position,
                    found_up_to(r@, entries, block, i as int, k as int),
                decreases COLUMN_BLOCKS - k,
            {
                proof {
                    lemma_scan_step(r@, entries, block, i as int, k as int);
                }
                if column.data.blocks[k] == block {
                    r.push(
                        IVec3::new(
                            chunk.x as i32 * 16 + (k % 16) as i32,
                            (k / 256) as i32 - 64,
                            chunk.y as i32 * 16 + (k / 16 % 16) as i32,
                        ),
                    );
                }
                k += 1;
            }
            assert forall|pos: IVec3| found(entries, block, pos) implies scanned(
                entries,
                pos,
                i as int,
                98304,
            ) == scanned(entries, pos, i + 1, 0) by {
                lemma_pos_in(chunk_at(pos));
                assert(in_own_column(chunk_at(pos), pos));
            }
            i += 1;
        }
        r
    }
}

/// What is listed of a region are the loaded blocks between its corners, over the whole
/// height of the columns; what is found in a state are the loaded blocks that read as it.
pub proof fn law_listed_blocks_are_the_loaded_ones(
    entries: Seq<((i16, i16), Column)>,
    start: IVec3,
    end: IVec3,
    state: BlockState,
    pos: IVec3,
)
    ensures
        wanted(entries, start, end, pos) <==> {
            &&& start.x <= pos.x <= end.x && start.y <= pos.y <= end.y && start.z <= pos.z <= end.z
            &&& -64 <= pos.y <= 319
            &&& -0x8_0000 <= pos.x < 0x8_0000 && -0x8_0000 <= pos.z < 0x8_0000
            &&& block_at(entries, pos) is Some
        },
        found(entries, state, pos) <==> {
            &&& -64 <= pos.y <= 319
            &&& -0x8_0000 <= pos.x < 0x8_0000 && -0x8_0000 <= pos.z < 0x8_0000
            &&& block_at(entries, pos) == Some(state)
        },
{
}

/// The order of the list leaves nothing open: of two different blocks exactly one comes
/// first. Chunks come whole, one behind the other, and a column of blocks from the bottom
/// up.
pub proof fn law_listing_order_is_total(a: IVec3, b: IVec3, c: IVec3)
    ensures
        !in_order(a, a),
        a != b ==> in_order(a, b) != in_order(b, a),
        in_order(a, b) && in_order(b, c) ==> in_order(a, c),
        a.x == b.x && a.z == b.z && a.y < b.y ==> in_order(a, b),
        in_order(a, b) && in_order(b, c) && a.x as int / 16 == c.x as int / 16 && a.z as int / 16
            == c.z as int / 16 ==> b.x as int / 16 == a.x as int / 16 && b.z as int / 16
            == a.z as int / 16,
        a.x as int / 16 < b.x as int / 16 ==> in_order(a, b),
        a.x as int / 16 == b.x as int / 16 && a.z as int / 16 < b.z as int / 16 ==> in_order(a, b),
        a.x as int / 16 == b.x as int / 16 && a.z as int / 16 == b.z as int / 16 && a.x < b.x
            ==> in_order(a, b),
        a.x == b.x && a.z as int / 16 == b.z as int / 16 && a.z < b.z ==> in_order(a, b),
{
}

/// The list of a region holds every loaded block between its corners once, with the state
/// that it reads as, and no other.
pub proof fn law_region_list_is_complete(
    r: Seq<(IVec3, BlockState)>,
    entries: Seq<((i16, i16), Column)>,
    start: IVec3,
    end: IVec3,
    pos: IVec3,
    state: BlockState,
)
    requires
        lists_only(r, entries, start, end),
        forall|p: IVec3| #[trigger] wanted(entries, start, end, p) ==> lists(r, p),
    ensures
        r.contains((pos, state)) <==> {
            &&& start.x <= pos.x <= end.x && start.y <= pos.y <= end.y && start.z <= pos.z <= end.z
            &&& -64 <= pos.y <= 319
            &&& -0x8_0000 <= pos.x < 0x8_0000 && -0x8_0000 <= pos.z < 0x8_0000
            &&& block_at(entries, pos) == Some(state)
        },
        r.no_duplicates(),
{
    law_listed_blocks_are_the_loaded_ones(entries, start, end, state, pos);
    if r.contains((pos, state)) {
        let i = choose|i: int| 0 <= i < r.len() && r[i] == (pos, state);
        assert(wanted(entries, start, end, r[i].0));
    }
    if wanted(entries, start, end, pos) && block_at(entries, pos) == Some(state) {
        assert(lists(r, pos));
        let i = choose|i: int| 0 <= i < r.len() && (#[trigger] r[i]).0 == pos;
        assert(r[i] == (pos, state));
    }
    assert forall|i: int, j: int| 0 <= i < r.len() && 0 <= j < r.len() && i != j implies r[i]
        != r[j] by {
        if i < j {
            assert(in_order(r[i].0, r[j].0));
        } else {
            assert(in_order(r[j].0, r[i].0));
        }
    }
}

} // verus!
