//! A lotus of carpet on the ground beneath each player, which follows them around;
//! the ground they leave is restored.
//!
//! The pad lies on the surface of the ground, found by looking down, never at the
//! player's feet, so that jumping does not leave anybody on a floating pad. It is
//! a cosmetic effect and never ends up in the saved world.

use vstd::prelude::*;

use crate::block::{
    BlockState, AIR_STATE, CYAN_CARPET_STATE, LIGHT_BLUE_CARPET_STATE, LIME_CARPET_STATE,
    MAGENTA_CARPET_STATE, ORANGE_CARPET_STATE, PINK_CARPET_STATE, PURPLE_CARPET_STATE,
    RED_CARPET_STATE, VOID_AIR_STATE, YELLOW_CARPET_STATE,
};
use crate::blocks::{block_at, set_block_outcome, set_result, Blocks};
use crate::cache::{lemma_cache_size, lemma_slot, members, slot};
use crate::chance::random_index;
use crate::chunk::{lemma_cell, Column};
use crate::paint::{lemma_keys_of_written, lemma_settable_stays, lemma_unwrap, same_block, settable};
use crate::pos::{chunk_at, IVec3};
use crate::replay::{keys_of, law_read_after_set};

verus! {

/// How far below the feet the ground is looked for.
pub const GROUND_SCAN_DEPTH: i32 = 16;

/// The state that the last of `writes` that stands for the block at `pos`, and can
/// be carried out, puts there.
pub open spec fn write_at(
    entries: Seq<((i16, i16), Column)>,
    writes: Seq<(IVec3, BlockState)>,
    pos: IVec3,
) -> Option<BlockState>
    decreases writes.len(),
{
    if writes.len() == 0 {
        None
    } else if settable(entries, writes.last().0) && same_block(writes.last().0, pos) {
        Some(writes.last().1)
    } else {
        write_at(entries, writes.drop_last(), pos)
    }
}

/// The block at `pos` once `writes` were carried out.
pub open spec fn block_after(
    entries: Seq<((i16, i16), Column)>,
    writes: Seq<(IVec3, BlockState)>,
    pos: IVec3,
) -> Option<BlockState> {
    match write_at(entries, writes, pos) {
        Some(state) => Some(state),
        None => block_at(entries, pos),
    }
}

/// Whether one of `writes` makes a difference in the column with the index `i`.
pub open spec fn marks(
    entries: Seq<((i16, i16), Column)>,
    writes: Seq<(IVec3, BlockState)>,
    i: u32,
) -> bool
    decreases writes.len(),
{
    if writes.len() == 0 {
        false
    } else {
        ||| marks(entries, writes.drop_last(), i)
        ||| settable(entries, writes.last().0) && i == slot(
            entries,
            chunk_at(writes.last().0).key(),
        ) && block_after(entries, writes.drop_last(), writes.last().0) != Some(writes.last().1)
    }
}

/// `after` is `before` once `writes` were carried out in order, transiently: what
/// is saved is untouched.
pub open spec fn written(before: Blocks, after: Blocks, writes: Seq<(IVec3, BlockState)>) -> bool {
    &&& after.wf()
    &&& keys_of(after.columns()) == keys_of(before.columns())
    &&& forall|i: int|
        0 <= i < before.columns().len() ==> (#[trigger] after.columns()[i]).1.base_packet_bytes
            == before.columns()[i].1.base_packet_bytes
    &&& forall|p: IVec3| #[trigger]
        block_at(after.columns(), p) == block_after(before.columns(), writes, p)
    &&& forall|i: u32| #[trigger]
        members(after.should_update).contains(i) <==> members(before.should_update).contains(i)
            || marks(before.columns(), writes, i)
    &&& after.to_confirm == before.to_confirm
    &&& after.edits == before.edits
}

/// One more write.
proof fn lemma_written_step(
    before: Blocks,
    mid: Blocks,
    after: Blocks,
    writes: Seq<(IVec3, BlockState)>,
    pos: IVec3,
    state: BlockState,
)
    requires
        before.wf(),
        written(before, mid, writes),
        set_block_outcome(mid, after, pos, state, false),
    ensures
        written(before, after, writes.push((pos, state))),
        set_result(mid.columns(), pos) is Ok <==> settable(before.columns(), pos),
{
    let entries = before.columns();
    let more = writes.push((pos, state));
    let r = set_result(mid.columns(), pos);
    assert(more.drop_last() =~= writes);
    assert(more.last() == (pos, state));
    lemma_settable_stays(before, mid, pos);
    law_read_after_set(mid, after, pos, state, false, pos);
    if r is Ok {
        lemma_keys_of_written(mid.columns(), after.columns(), pos, state);
        assert forall|i: int| 0 <= i < entries.len() implies (
        #[trigger] after.columns()[i]).1.base_packet_bytes == entries[i].1.base_packet_bytes by {
            assert(keys_of(mid.columns()).len() == keys_of(entries).len());
            assert(mid.columns()[i].1.base_packet_bytes == entries[i].1.base_packet_bytes);
        }
    }
    assert forall|p: IVec3| #[trigger]
        block_at(after.columns(), p) == block_after(entries, more, p) by {
        law_read_after_set(mid, after, pos, state, false, p);
        assert(block_at(mid.columns(), p) == block_after(entries, writes, p));
    }
    assert forall|i: u32| #[trigger]
        members(after.should_update).contains(i) <==> members(before.should_update).contains(i)
            || marks(entries, more, i) by {
        assert(block_at(mid.columns(), pos) == block_after(entries, writes, pos));
        if r is Ok {
            lemma_cache_size(entries);
            assert(entries[slot(entries, chunk_at(pos).key())].0 == chunk_at(pos).key());
        }
    }
}

/// The yellow carpet in the middle of a pad.
pub open spec fn core_state() -> BlockState {
    BlockState { raw: YELLOW_CARPET_STATE }
}

/// The carpets that a lotus can bloom in.
pub open spec fn petal_states() -> Seq<BlockState> {
    seq![
        BlockState { raw: PINK_CARPET_STATE },
        BlockState { raw: MAGENTA_CARPET_STATE },
        BlockState { raw: RED_CARPET_STATE },
        BlockState { raw: PURPLE_CARPET_STATE },
        BlockState { raw: LIGHT_BLUE_CARPET_STATE },
        BlockState { raw: CYAN_CARPET_STATE },
        BlockState { raw: LIME_CARPET_STATE },
        BlockState { raw: ORANGE_CARPET_STATE },
    ]
}

/// The carpet number `i` that a lotus can bloom in.
pub fn petal_color(i: usize) -> (r: BlockState)
    requires
        i < 8,
    ensures
        r == petal_states()[i as int],
        r.valid(),
{
    let raws: [u16; 8] = [
        PINK_CARPET_STATE,
        MAGENTA_CARPET_STATE,
        RED_CARPET_STATE,
        PURPLE_CARPET_STATE,
        LIGHT_BLUE_CARPET_STATE,
        CYAN_CARPET_STATE,
        LIME_CARPET_STATE,
        ORANGE_CARPET_STATE,
    ];
    BlockState { raw: raws[i] }
}

/// Whether a state is one of the carpets of a pad.
pub open spec fn lotus_carpet(state: BlockState) -> bool {
    state == core_state() || petal_states().contains(state)
}

/// Whether a state is one of the carpets of a pad.
pub fn is_lotus_carpet(state: BlockState) -> (r: bool)
    ensures
        r == lotus_carpet(state),
{
    if state.raw == YELLOW_CARPET_STATE {
        return true;
    }
    let mut i: usize = 0;
    while i < 8
        invariant
            i <= 8,
            forall|k: int| 0 <= k < i ==> petal_states()[k] != state,
        decreases 8 - i,
    {
        if petal_color(i) == state {
            assert(petal_states()[i as int] == state);
            return true;
        }
        i += 1;
    }
    false
}

/// Whether the block at `pos` is something that a pad can lie on: neither air nor
/// the void outside the columns nor part of a pad.
pub open spec fn is_ground(entries: Seq<((i16, i16), Column)>, pos: IVec3) -> bool {
    block_at(entries, pos) matches Some(state) && state != (BlockState { raw: AIR_STATE })
        && state != (BlockState { raw: VOID_AIR_STATE }) && !lotus_carpet(state)
}

/// The height of the topmost ground from `hi` down to `lo` at `x`, `z`.
pub open spec fn ground_height(
    entries: Seq<((i16, i16), Column)>,
    x: i32,
    z: i32,
    hi: int,
    lo: int,
) -> Option<int>
    decreases hi - lo + 1,
{
    if hi < lo {
        None
    } else if is_ground(entries, IVec3 { x, y: hi as i32, z }) {
        Some(hi)
    } else {
        ground_height(entries, x, z, hi - 1, lo)
    }
}

/// The height of the ground beneath feet at `x`, `foot_y`, `z`, if there is any
/// within reach.
pub fn find_ground(blocks: &Blocks, x: i32, foot_y: i32, z: i32) -> (r: Option<i32>)
    requires
        blocks.wf(),
        foot_y >= i32::MIN + GROUND_SCAN_DEPTH,
    ensures
        match r {
            Some(y) => ground_height(
                blocks.columns(),
                x,
                z,
                foot_y as int,
                foot_y - GROUND_SCAN_DEPTH,
            ) == Some(y as int) && foot_y - GROUND_SCAN_DEPTH <= y <= foot_y,
            None => ground_height(
                blocks.columns(),
                x,
                z,
                foot_y as int,
                foot_y - GROUND_SCAN_DEPTH,
            ) is None,
        },
{
    let mut depth: i32 = 0;
    while depth <= GROUND_SCAN_DEPTH
        invariant
            blocks.wf(),
            foot_y >= i32::MIN + GROUND_SCAN_DEPTH,
            0 <= depth <= GROUND_SCAN_DEPTH + 1,
            ground_height(
                blocks.columns(),
                x,
                z,
                foot_y as int,
                foot_y - GROUND_SCAN_DEPTH,
            ) == ground_height(
                blocks.columns(),
                x,
                z,
                foot_y - depth,
                foot_y - GROUND_SCAN_DEPTH,
            ),
        decreases GROUND_SCAN_DEPTH + 1 - depth,
    {
        let y: i32 = foot_y - depth;
        let solid = match blocks.get_block(IVec3::new(x, y, z)) {
            Some(state) => state.raw != AIR_STATE && state.raw != VOID_AIR_STATE
                && !is_lotus_carpet(state),
            None => false,
        };
        if solid {
            assert(is_ground(blocks.columns(), IVec3 { x, y, z }));
            return Some(y);
        }
        depth += 1;
    }
    None
}

/// A player's lotus.
#[derive(Clone, Debug, PartialEq, Eq)]
pub struct LotusFootprint {
    /// The middle of the pad, once there is one.
    pub center: Option<IVec3>,
    /// The blocks that the pad was laid over, with the states they had.
    pub restore: Vec<(IVec3, BlockState)>,
}

impl LotusFootprint {
    pub open spec fn wf(&self) -> bool {
        forall|i: int| 0 <= i < self.restore@.len() ==> (#[trigger] self.restore@[i]).1.valid()
    }

    /// No pad yet.
    pub fn new() -> (r: Self)
        ensures
            r.wf(),
            r.center is None,
            r.restore@.len() == 0,
    {
        LotusFootprint { center: None, restore: Vec::new() }
    }
}

/// Block number `k` of the nine of a pad, row by row.
pub open spec fn pad_cell(center: IVec3, k: int) -> IVec3 {
    IVec3 {
        x: (center.x + k % 3 - 1) as i32,
        y: center.y,
        z: (center.z + k / 3 - 1) as i32,
    }
}

/// The carpet of block number `k` of a pad.
pub open spec fn pad_state(petal: BlockState, k: int) -> BlockState {
    if k == 4 {
        core_state()
    } else {
        petal
    }
}

/// The carpets of the first `n` blocks of a pad that are laid: those over air.
pub open spec fn pad_writes(
    entries: Seq<((i16, i16), Column)>,
    center: IVec3,
    petal: BlockState,
    n: int,
) -> Seq<(IVec3, BlockState)>
    decreases n,
{
    if n <= 0 {
        Seq::empty()
    } else if block_at(entries, pad_cell(center, n - 1)) == Some(BlockState { raw: AIR_STATE }) {
        pad_writes(entries, center, petal, n - 1).push(
            (pad_cell(center, n - 1), pad_state(petal, n - 1)),
        )
    } else {
        pad_writes(entries, center, petal, n - 1)
    }
}

/// The writes that undo those of a pad.
pub open spec fn undone(writes: Seq<(IVec3, BlockState)>) -> Seq<(IVec3, BlockState)> {
    writes.map_values(|w: (IVec3, BlockState)| (w.0, BlockState { raw: AIR_STATE }))
}

/// `after` is `before` with a pad laid around `center`, and `restore` is what undoes
/// it.
pub open spec fn bloomed(
    before: Blocks,
    after: Blocks,
    center: IVec3,
    petal: BlockState,
    restore: Seq<(IVec3, BlockState)>,
) -> bool {
    let writes = pad_writes(before.columns(), center, petal, 9);
    written(before, after, writes) && restore == undone(writes)
}

/// The writes of a pad are at its blocks, one for each at most.
proof fn lemma_pad_writes(
    entries: Seq<((i16, i16), Column)>,
    center: IVec3,
    petal: BlockState,
    n: int,
)
    requires
        0 <= n <= 9,
    ensures
        forall|i: int|
            0 <= i < pad_writes(entries, center, petal, n).len() ==> exists|k: int|
                0 <= k < n && (#[trigger] pad_writes(entries, center, petal, n)[i]).0
                    == #[trigger] pad_cell(center, k) && block_at(entries, pad_cell(center, k))
                    == Some(BlockState { raw: AIR_STATE }),
    decreases n,
{
    if n > 0 {
        lemma_pad_writes(entries, center, petal, n - 1);
        let front = pad_writes(entries, center, petal, n - 1);
        let all = pad_writes(entries, center, petal, n);
        assert forall|i: int| 0 <= i < all.len() implies exists|k: int|
            0 <= k < n && (#[trigger] all[i]).0 == #[trigger] pad_cell(center, k) && block_at(
                entries,
                pad_cell(center, k),
            ) == Some(BlockState { raw: AIR_STATE }) by {
            if i < front.len() {
                assert(all[i] == front[i]);
                let k = choose|k: int|
                    0 <= k < n - 1 && front[i].0 == #[trigger] pad_cell(center, k) && block_at(
                        entries,
                        pad_cell(center, k),
                    ) == Some(BlockState { raw: AIR_STATE });
                assert(all[i].0 == pad_cell(center, k));
            } else {
                assert(all[i].0 == pad_cell(center, n - 1));
            }
        }
    }
}

/// No two blocks of a pad are the same one.
proof fn lemma_pad_cells_differ(center: IVec3, j: int, k: int)
    requires
        i32::MIN < center.x < i32::MAX,
        i32::MIN < center.z < i32::MAX,
        0 <= j < k < 9,
    ensures
        !same_block(pad_cell(center, j), pad_cell(center, k)),
{
    let a = pad_cell(center, j);
    let b = pad_cell(center, k);
    if same_block(a, b) {
        lemma_cell(a.x as int % 16, a.y + 64, a.z as int % 16);
        lemma_cell(b.x as int % 16, b.y + 64, b.z as int % 16);
        lemma_unwrap(a.x as int / 16, b.x as int / 16);
        lemma_unwrap(a.z as int / 16, b.z as int / 16);
        assert(a.x == b.x && a.z == b.z);
    }
}

/// Writes that do not stand for the block at `pos` do not change it.
proof fn lemma_untouched(
    entries: Seq<((i16, i16), Column)>,
    writes: Seq<(IVec3, BlockState)>,
    pos: IVec3,
)
    requires
        forall|i: int| 0 <= i < writes.len() ==> !same_block((#[trigger] writes[i]).0, pos),
    ensures
        write_at(entries, writes, pos) is None,
    decreases writes.len(),
{
    if writes.len() > 0 {
        let front = writes.drop_last();
        assert forall|i: int| 0 <= i < front.len() implies !same_block((#[trigger] front[i]).0, pos) by {
            assert(front[i] == writes[i]);
        }
        assert(writes.last() == writes[writes.len() - 1]);
        lemma_untouched(entries, front, pos);
    }
}

/// Carries out writes transiently; those of blocks that cannot be set are passed
/// over.
fn write_all(blocks: &mut Blocks, writes: &Vec<(IVec3, BlockState)>)
    requires
        old(blocks).wf(),
        forall|i: int| 0 <= i < writes@.len() ==> (#[trigger] writes@[i]).1.valid(),
    ensures
        written(*old(blocks), *final(blocks), writes@),
{
    let ghost before = *blocks;
    let mut i: usize = 0;
    assert(writes@.take(0) =~= Seq::empty());
    while i < writes.len()
        invariant
            before.wf(),
            forall|k: int| 0 <= k < writes@.len() ==> (#[trigger] writes@[k]).1.valid(),
            i <= writes@.len(),
            written(before, *blocks, writes@.take(i as int)),
        decreases writes@.len() - i,
    {
        let (pos, state) = writes[i];
        let ghost mid = *blocks;
        let _unused = blocks.set_block_transient(pos, state);
        proof {
            assert(writes@.take(i + 1) =~= writes@.take(i as int).push((pos, state)));
            lemma_written_step(before, mid, *blocks, writes@.take(i as int), pos, state);
        }
        i += 1;
    }
    assert(writes@.take(writes@.len() as int) =~= writes@);
}

/// Lays a pad of the colour `petal` around `center`, over open space only, and
/// returns what undoes it.
pub fn bloom(blocks: &mut Blocks, center: IVec3, petal: BlockState) -> (r: Vec<(IVec3, BlockState)>)
    requires
        old(blocks).wf(),
        petal.valid(),
        i32::MIN < center.x < i32::MAX,
        i32::MIN < center.z < i32::MAX,
    ensures
        bloomed(*old(blocks), *final(blocks), center, petal, r@),
        forall|i: int| 0 <= i < r@.len() ==> (#[trigger] r@[i]).1.valid(),
{
    let ghost before = *blocks;
    let ghost entries = blocks.columns();
    let mut restore: Vec<(IVec3, BlockState)> = Vec::new();
    let mut k: i32 = 0;
    proof {
        assert(restore@ =~= undone(pad_writes(entries, center, petal, 0)));
    }
    while k < 9
        invariant
            before.wf(),
            entries == before.columns(),
            petal.valid(),
            i32::MIN < center.x < i32::MAX,
            i32::MIN < center.z < i32::MAX,
            0 <= k <= 9,
            written(before, *blocks, pad_writes(entries, center, petal, k as int)),
            restore@ == undone(pad_writes(entries, center, petal, k as int)),
        decreases 9 - k,
    {
        let pos = IVec3::new(center.x + (k % 3 - 1), center.y, center.z + (k / 3 - 1));
        let state = if k == 4 {
            BlockState { raw: YELLOW_CARPET_STATE }
        } else {
            petal
        };
        let ghost mid = *blocks;
        let ghost so_far = pad_writes(entries, center, petal, k as int);
        proof {
            assert(pos == pad_cell(center, k as int));
            lemma_pad_writes(entries, center, petal, k as int);
            assert forall|i: int| 0 <= i < so_far.len() implies !same_block(
                (#[trigger] so_far[i]).0,
                pos,
            ) by {
                let j = choose|j: int|
                    0 <= j < k && so_far[i].0 == #[trigger] pad_cell(center, j) && block_at(
                        entries,
                        pad_cell(center, j),
                    ) == Some(BlockState { raw: AIR_STATE });
                lemma_pad_cells_differ(center, j, k as int);
            }
            lemma_untouched(entries, so_far, pos);
            assert(block_at(mid.columns(), pos) == block_after(entries, so_far, pos));
        }
        let open_space = match blocks.get_block(pos) {
            Some(original) => original.raw == AIR_STATE,
            None => false,
        };
        if open_space {
            let r = blocks.set_block_transient(pos, state);
            proof {
                lemma_written_step(before, mid, *blocks, so_far, pos, state);
            }
            if r.is_ok() {
                restore.push((pos, BlockState::air()));
                proof {
                    assert(undone(so_far.push((pos, state))) =~= undone(so_far).push(
                        (pos, BlockState { raw: AIR_STATE }),
                    ));
                }
            }
        }
        k += 1;
    }
    restore
}

/// Takes one step of a player's lotus: the pad moves to the ground beneath the feet
/// at `x`, `foot_y`, `z`, in the colour `petal`, unless it lies there already. Over
/// the void it stays where it is.
pub fn step_lotus_with(
    blocks: &mut Blocks,
    footprint: &mut LotusFootprint,
    x: i32,
    foot_y: i32,
    z: i32,
    petal: BlockState,
)
    requires
        old(blocks).wf(),
        old(footprint).wf(),
        petal.valid(),
        i32::MIN < x < i32::MAX,
        i32::MIN < z < i32::MAX,
        i32::MIN + GROUND_SCAN_DEPTH <= foot_y < i32::MAX,
    ensures
        final(blocks).wf(),
        final(footprint).wf(),
        stepped(
            *old(blocks),
            *final(blocks),
            *old(footprint),
            *final(footprint),
            x,
            foot_y,
            z,
            petal,
        ),
{
    let ground: i32 = match find_ground(blocks, x, foot_y, z) {
        Some(y) => y,
        None => {
            return;
        },
    };
    let center = IVec3::new(x, ground + 1, z);
    let here = match footprint.center {
        Some(old_center) => old_center == center,
        None => false,
    };
    if here {
        return;
    }
    write_all(blocks, &footprint.restore);
    let ghost mid = *blocks;
    footprint.center = Some(center);
    footprint.restore = bloom(blocks, center, petal);
    assert(written(*old(blocks), mid, old(footprint).restore@));
    assert(bloomed(mid, *blocks, center, petal, footprint.restore@));
}

/// What a step of a player's lotus comes to: where there is ground within reach,
/// and the pad does not lie on it yet, the old pad is taken up and a new one is
/// laid.
pub open spec fn stepped(
    before: Blocks,
    after: Blocks,
    pad_before: LotusFootprint,
    pad_after: LotusFootprint,
    x: i32,
    foot_y: i32,
    z: i32,
    petal: BlockState,
) -> bool {
    match ground_height(before.columns(), x, z, foot_y as int, foot_y - GROUND_SCAN_DEPTH) {
        None => after == before && pad_after == pad_before,
        Some(y) => {
            let center = IVec3 { x, y: (y + 1) as i32, z };
            if pad_before.center == Some(center) {
                after == before && pad_after == pad_before
            } else {
                pad_after.center == Some(center) && exists|mid: Blocks| #[trigger]
                    written(before, mid, pad_before.restore@) && bloomed(
                        mid,
                        after,
                        center,
                        petal,
                        pad_after.restore@,
                    )
            }
        },
    }
}

/// Takes one step of a player's lotus, in a random colour.
pub fn step_lotus(
    blocks: &mut Blocks,
    footprint: &mut LotusFootprint,
    x: i32,
    foot_y: i32,
    z: i32,
)
    requires
        old(blocks).wf(),
        old(footprint).wf(),
        i32::MIN < x < i32::MAX,
        i32::MIN < z < i32::MAX,
        i32::MIN + GROUND_SCAN_DEPTH <= foot_y < i32::MAX,
    ensures
        final(blocks).wf(),
        final(footprint).wf(),
        exists|i: int|
            0 <= i < 8 && stepped(
                *old(blocks),
                *final(blocks),
                *old(footprint),
                *final(footprint),
                x,
                foot_y,
                z,
                #[trigger] petal_states()[i],
            ),
{
    let i: usize = random_index(8);
    let petal = petal_color(i);
    step_lotus_with(blocks, footprint, x, foot_y, z, petal);
    assert(stepped(
        *old(blocks),
        *blocks,
        *old(footprint),
        *footprint,
        x,
        foot_y,
        z,
        petal_states()[i as int],
    ));
}

proof fn lemma_no_ground(
    entries: Seq<((i16, i16), Column)>,
    x: i32,
    z: i32,
    hi: int,
    lo: int,
)
    requires
        forall|y: i32| lo <= y <= hi ==> !(#[trigger] is_ground(entries, IVec3 { x, y, z })),
        i32::MIN <= lo,
        hi <= i32::MAX,
    ensures
        ground_height(entries, x, z, hi, lo) is None,
    decreases hi - lo + 1,
{
    if hi >= lo {
        let y = hi as i32;
        assert(!is_ground(entries, IVec3 { x, y, z }));
        lemma_no_ground(entries, x, z, hi - 1, lo);
    }
}

/// Over the void the pad stays where it is: where everything beneath the feet that a
/// column could hold is air or not loaded, a step changes nothing.
pub proof fn law_pad_stays_over_the_void(
    before: Blocks,
    after: Blocks,
    pad_before: LotusFootprint,
    pad_after: LotusFootprint,
    x: i32,
    foot_y: i32,
    z: i32,
    petal: BlockState,
)
    requires
        foot_y >= i32::MIN + GROUND_SCAN_DEPTH,
        stepped(before, after, pad_before, pad_after, x, foot_y, z, petal),
        forall|y: i32|
            foot_y - GROUND_SCAN_DEPTH <= y <= foot_y && -64 <= y < 320 ==> (
            #[trigger] block_at(before.columns(), IVec3 { x, y, z }) matches Some(state) ==> state
                == (BlockState { raw: AIR_STATE })),
    ensures
        after == before,
        pad_after == pad_before,
{
    assert forall|y: i32| foot_y - GROUND_SCAN_DEPTH <= y <= foot_y implies !(#[trigger] is_ground(
        before.columns(),
        IVec3 { x, y, z },
    )) by {
        assert(-64 <= y < 320 || block_at(before.columns(), IVec3 { x, y, z }) != Some(
            BlockState { raw: AIR_STATE },
        ));
    }
    lemma_no_ground(
        before.columns(),
        x,
        z,
        foot_y as int,
        foot_y - GROUND_SCAN_DEPTH,
    );
}

/// Undoing the writes of a pad puts air where it had been, and leaves the rest.
proof fn lemma_undone(
    entries: Seq<((i16, i16), Column)>,
    writes: Seq<(IVec3, BlockState)>,
    pos: IVec3,
)
    ensures
        write_at(entries, undone(writes), pos) is Some <==> write_at(entries, writes, pos) is Some,
        write_at(entries, undone(writes), pos) matches Some(state) ==> state == (BlockState {
            raw: AIR_STATE,
        }),
        write_at(entries, writes, pos) is Some ==> exists|i: int|
            0 <= i < writes.len() && same_block((#[trigger] writes[i]).0, pos) && settable(
                entries,
                writes[i].0,
            ),
    decreases writes.len(),
{
    if writes.len() > 0 {
        let front = writes.drop_last();
        lemma_undone(entries, front, pos);
        assert(undone(writes).drop_last() =~= undone(front));
        assert(undone(writes).last().0 == writes.last().0);
        if settable(entries, writes.last().0) && same_block(writes.last().0, pos) {
            assert(same_block(writes[writes.len() - 1].0, pos));
        } else if write_at(entries, front, pos) is Some {
            let i = choose|i: int|
                0 <= i < front.len() && same_block((#[trigger] front[i]).0, pos) && settable(
                    entries,
                    front[i].0,
                );
            assert(writes[i] == front[i]);
        }
    }
}

/// What can be set decides which writes count, and that is the same as long as the
/// same chunks are loaded.
proof fn lemma_write_at_stays(
    before: Blocks,
    mid: Blocks,
    writes: Seq<(IVec3, BlockState)>,
    pos: IVec3,
)
    requires
        before.wf(),
        mid.wf(),
        keys_of(mid.columns()) == keys_of(before.columns()),
    ensures
        write_at(mid.columns(), writes, pos) == write_at(before.columns(), writes, pos),
    decreases writes.len(),
{
    if writes.len() > 0 {
        lemma_settable_stays(before, mid, writes.last().0);
        lemma_write_at_stays(before, mid, writes.drop_last(), pos);
    }
}

/// A lotus leaves no trace: once a pad is taken up again, every block is as it was
/// before it was laid, and the saved world was never touched.
pub proof fn law_lotus_leaves_no_trace(
    before: Blocks,
    laid: Blocks,
    taken_up: Blocks,
    center: IVec3,
    petal: BlockState,
    restore: Seq<(IVec3, BlockState)>,
    pos: IVec3,
)
    requires
        before.wf(),
        bloomed(before, laid, center, petal, restore),
        written(laid, taken_up, restore),
    ensures
        block_at(taken_up.columns(), pos) == block_at(before.columns(), pos),
        laid.edits == before.edits,
        taken_up.edits == before.edits,
{
    let entries = before.columns();
    let writes = pad_writes(entries, center, petal, 9);
    lemma_undone(entries, writes, pos);
    lemma_write_at_stays(before, laid, restore, pos);
    lemma_pad_writes(entries, center, petal, 9);
    if write_at(entries, writes, pos) is Some {
        let i = choose|i: int|
            0 <= i < writes.len() && same_block((#[trigger] writes[i]).0, pos) && settable(
                entries,
                writes[i].0,
            );
        let k = choose|k: int|
            0 <= k < 9 && writes[i].0 == #[trigger] pad_cell(center, k) && block_at(
                entries,
                pad_cell(center, k),
            ) == Some(BlockState { raw: AIR_STATE });
        assert(block_at(entries, writes[i].0) == Some(BlockState { raw: AIR_STATE }));
    }
}

/// The ground is the topmost: what is found is something other than air, the void and the
/// carpets of a pad, and nothing above it is; there is none only where nothing from `hi`
/// down to `lo` is.
pub proof fn law_ground_is_the_topmost(
    entries: Seq<((i16, i16), Column)>,
    x: i32,
    z: i32,
    hi: int,
    lo: int,
)
    requires
        i32::MIN <= lo,
        hi <= i32::MAX,
    ensures
        match ground_height(entries, x, z, hi, lo) {
            Some(y) => {
                &&& lo <= y <= hi
                &&& block_at(entries, IVec3 { x, y: y as i32, z }) matches Some(state) && state.raw
                    != AIR_STATE && state.raw != VOID_AIR_STATE && !lotus_carpet(state)
                &&& forall|above: i32|
                    y < above <= hi ==> (#[trigger] block_at(
                        entries,
                        IVec3 { x, y: above, z },
                    ) matches Some(state) ==> state.raw == AIR_STATE || state.raw == VOID_AIR_STATE
                        || lotus_carpet(state))
            },
            None => forall|y: i32|
                lo <= y <= hi ==> (#[trigger] block_at(entries, IVec3 { x, y, z }) matches Some(state)
                    ==> state.raw == AIR_STATE || state.raw == VOID_AIR_STATE || lotus_carpet(state)),
        },
    decreases hi - lo + 1,
{
    if hi >= lo && !is_ground(entries, IVec3 { x, y: hi as i32, z }) {
        law_ground_is_the_topmost(entries, x, z, hi - 1, lo);
    }
}

/// The carpets of a pad are the yellow one in its middle and the eight that it can bloom
/// in, no two alike.
pub proof fn law_carpets_of_a_pad(state: BlockState)
    ensures
        lotus_carpet(state) <==> state.raw == YELLOW_CARPET_STATE || state.raw == PINK_CARPET_STATE
            || state.raw == MAGENTA_CARPET_STATE || state.raw == RED_CARPET_STATE || state.raw
            == PURPLE_CARPET_STATE || state.raw == LIGHT_BLUE_CARPET_STATE || state.raw
            == CYAN_CARPET_STATE || state.raw == LIME_CARPET_STATE || state.raw
            == ORANGE_CARPET_STATE,
        petal_states().len() == 8,
        petal_states().no_duplicates(),
        !petal_states().contains(core_state()),
{
    let petals = petal_states();
    assert(petals[0].raw == PINK_CARPET_STATE && petals[1].raw == MAGENTA_CARPET_STATE
        && petals[2].raw == RED_CARPET_STATE && petals[3].raw == PURPLE_CARPET_STATE
        && petals[4].raw == LIGHT_BLUE_CARPET_STATE && petals[5].raw == CYAN_CARPET_STATE
        && petals[6].raw == LIME_CARPET_STATE && petals[7].raw == ORANGE_CARPET_STATE);
    if petals.contains(state) {
        let i = choose|i: int| 0 <= i < petals.len() && petals[i] == state;
        assert(0 <= i < 8);
    }
    if state.raw == PINK_CARPET_STATE {
        assert(petals[0] == state);
    } else if state.raw == MAGENTA_CARPET_STATE {
        assert(petals[1] == state);
    } else if state.raw == RED_CARPET_STATE {
        assert(petals[2] == state);
    } else if state.raw == PURPLE_CARPET_STATE {
        assert(petals[3] == state);
    } else if state.raw == LIGHT_BLUE_CARPET_STATE {
        assert(petals[4] == state);
    } else if state.raw == CYAN_CARPET_STATE {
        assert(petals[5] == state);
    } else if state.raw == LIME_CARPET_STATE {
        assert(petals[6] == state);
    } else if state.raw == ORANGE_CARPET_STATE {
        assert(petals[7] == state);
    }
}

/// The last of several writes that stand for a block decides its state; where none of them
/// can be carried out there, none does.
pub proof fn law_last_write_counts(
    entries: Seq<((i16, i16), Column)>,
    writes: Seq<(IVec3, BlockState)>,
    pos: IVec3,
)
    ensures
        match write_at(entries, writes, pos) {
            Some(state) => exists|i: int|
                0 <= i < writes.len() && (#[trigger] writes[i]).1 == state && settable(
                    entries,
                    writes[i].0,
                ) && same_block(writes[i].0, pos) && forall|j: int|
                    i < j < writes.len() ==> !(settable(entries, (#[trigger] writes[j]).0)
                        && same_block(writes[j].0, pos)),
            None => forall|i: int|
                0 <= i < writes.len() ==> !(settable(entries, (#[trigger] writes[i]).0) && same_block(
                    writes[i].0,
                    pos,
                )),
        },
    decreases writes.len(),
{
    if writes.len() > 0 {
        let front = writes.drop_last();
        assert(writes[writes.len() - 1] == writes.last());
        if !(settable(entries, writes.last().0) && same_block(writes.last().0, pos)) {
            law_last_write_counts(entries, front, pos);
            match write_at(entries, front, pos) {
                Some(state) => {
                    let i = choose|i: int|
                        0 <= i < front.len() && (#[trigger] front[i]).1 == state && settable(
                            entries,
                            front[i].0,
                        ) && same_block(front[i].0, pos) && forall|j: int|
                            i < j < front.len() ==> !(settable(entries, (#[trigger] front[j]).0)
                                && same_block(front[j].0, pos));
                    assert(writes[i] == front[i]);
                    assert forall|j: int| i < j < writes.len() implies !(settable(
                        entries,
                        (#[trigger] writes[j]).0,
                    ) && same_block(writes[j].0, pos)) by {
                        if j < front.len() {
                            assert(front[j] == writes[j]);
                        }
                    }
                },
                None => {
                    assert forall|i: int| 0 <= i < writes.len() implies !(settable(
                        entries,
                        (#[trigger] writes[i]).0,
                    ) && same_block(writes[i].0, pos)) by {
                        if i < front.len() {
                            assert(front[i] == writes[i]);
                        }
                    }
                },
            }
        }
    }
}

/// A block of a pad gets its carpet where it was air, and only there.
proof fn lemma_pad_cell_written(
    entries: Seq<((i16, i16), Column)>,
    center: IVec3,
    petal: BlockState,
    n: int,
    k: int,
)
    requires
        i32::MIN < center.x < i32::MAX,
        i32::MIN < center.z < i32::MAX,
        0 <= k < n <= 9,
    ensures
        write_at(entries, pad_writes(entries, center, petal, n), pad_cell(center, k)) == (
        if block_at(entries, pad_cell(center, k)) == Some(BlockState { raw: AIR_STATE }) {
            Some(pad_state(petal, k))
        } else {
            None
        }),
        block_at(entries, pad_cell(center, k)) == Some(BlockState { raw: AIR_STATE })
            ==> pad_writes(entries, center, petal, n).contains(
            (pad_cell(center, k), pad_state(petal, k)),
        ),
    decreases n,
{
    let cell = pad_cell(center, k);
    let all = pad_writes(entries, center, petal, n);
    let front = pad_writes(entries, center, petal, n - 1);
    let last = pad_cell(center, n - 1);
    if block_at(entries, last) == Some(BlockState { raw: AIR_STATE }) {
        assert(all == front.push((last, pad_state(petal, n - 1))));
        assert(all.drop_last() =~= front);
        assert(all[front.len() as int] == (last, pad_state(petal, n - 1)));
    }
    if k == n - 1 {
        lemma_pad_writes(entries, center, petal, n - 1);
        assert forall|i: int| 0 <= i < front.len() implies !same_block((#[trigger] front[i]).0, cell) by {
            let j = choose|j: int|
                0 <= j < n - 1 && front[i].0 == #[trigger] pad_cell(center, j) && block_at(
                    entries,
                    pad_cell(center, j),
                ) == Some(BlockState { raw: AIR_STATE });
            lemma_pad_cells_differ(center, j, k);
        }
        lemma_untouched(entries, front, cell);
    } else {
        lemma_pad_cell_written(entries, center, petal, n - 1, k);
        lemma_pad_cells_differ(center, k, n - 1);
        assert(!same_block(last, cell));
        if front.contains((cell, pad_state(petal, k))) {
            let i = choose|i: int| 0 <= i < front.len() && front[i] == (cell, pad_state(petal, k));
            assert(all[i] == (cell, pad_state(petal, k)));
        }
    }
}

/// A pad is three by three: each of the nine blocks around its middle that was air gets a
/// carpet, yellow in the middle and of the one colour elsewhere, and is noted down to be
/// taken up again; where something stood it stays.
pub proof fn law_pad_covers_the_open_blocks(
    before: Blocks,
    after: Blocks,
    center: IVec3,
    petal: BlockState,
    restore: Seq<(IVec3, BlockState)>,
    dx: int,
    dz: int,
)
    requires
        before.wf(),
        bloomed(before, after, center, petal, restore),
        i32::MIN < center.x < i32::MAX,
        i32::MIN < center.z < i32::MAX,
        -1 <= dx <= 1,
        -1 <= dz <= 1,
    ensures
        ({
            let cell = IVec3 { x: (center.x + dx) as i32, y: center.y, z: (center.z + dz) as i32 };
            let air = BlockState { raw: AIR_STATE };
            &&& block_at(before.columns(), cell) == Some(air) ==> {
                &&& block_at(after.columns(), cell) == Some(
                    if dx == 0 && dz == 0 {
                        BlockState { raw: YELLOW_CARPET_STATE }
                    } else {
                        petal
                    },
                )
                &&& restore.contains((cell, air))
            }
            &&& block_at(before.columns(), cell) != Some(air) ==> block_at(after.columns(), cell)
                == block_at(before.columns(), cell)
        }),
{
    let entries = before.columns();
    let k = (dz + 1) * 3 + dx + 1;
    let cell = IVec3 { x: (center.x + dx) as i32, y: center.y, z: (center.z + dz) as i32 };
    assert(cell == pad_cell(center, k));
    assert((k == 4) == (dx == 0 && dz == 0));
    lemma_pad_cell_written(entries, center, petal, 9, k);
    let writes = pad_writes(entries, center, petal, 9);
    assert(block_at(after.columns(), cell) == block_after(entries, writes, cell));
    if block_at(entries, cell) == Some(BlockState { raw: AIR_STATE }) {
        let i = choose|i: int| 0 <= i < writes.len() && writes[i] == (cell, pad_state(petal, k));
        assert(undone(writes)[i] == (cell, BlockState { raw: AIR_STATE }));
    }
}

/// A pad changes nothing beyond its nine blocks, and every block that was noted down is one
/// of them that was air.
pub proof fn law_pad_is_no_larger(
    before: Blocks,
    after: Blocks,
    center: IVec3,
    petal: BlockState,
    restore: Seq<(IVec3, BlockState)>,
    pos: IVec3,
    i: int,
)
    requires
        before.wf(),
        bloomed(before, after, center, petal, restore),
        i32::MIN < center.x < i32::MAX,
        i32::MIN < center.z < i32::MAX,
    ensures
        (forall|q: IVec3|
            center.x - 1 <= q.x <= center.x + 1 && q.y == center.y && center.z - 1 <= q.z <= center.z
                + 1 ==> !(#[trigger] same_block(q, pos))) ==> block_at(after.columns(), pos)
            == block_at(before.columns(), pos),
        0 <= i < restore.len() ==> {
            &&& center.x - 1 <= restore[i].0.x <= center.x + 1
            &&& restore[i].0.y == center.y
            &&& center.z - 1 <= restore[i].0.z <= center.z + 1
            &&& restore[i].1 == (BlockState { raw: AIR_STATE })
            &&& block_at(before.columns(), restore[i].0) == Some(BlockState { raw: AIR_STATE })
        },
{
    let entries = before.columns();
    let writes = pad_writes(entries, center, petal, 9);
    lemma_pad_writes(entries, center, petal, 9);
    if forall|q: IVec3|
        center.x - 1 <= q.x <= center.x + 1 && q.y == center.y && center.z - 1 <= q.z <= center.z + 1
            ==> !(#[trigger] same_block(q, pos)) {
        assert forall|j: int| 0 <= j < writes.len() implies !same_block((#[trigger] writes[j]).0, pos) by {
            let k = choose|k: int|
                0 <= k < 9 && writes[j].0 == #[trigger] pad_cell(center, k) && block_at(
                    entries,
                    pad_cell(center, k),
                ) == Some(BlockState { raw: AIR_STATE });
            assert(!same_block(pad_cell(center, k), pos));
        }
        lemma_untouched(entries, writes, pos);
        assert(block_at(after.columns(), pos) == block_after(entries, writes, pos));
    }
    if 0 <= i < restore.len() {
        assert(restore[i].0 == writes[i].0);
        let k = choose|k: int|
            0 <= k < 9 && writes[i].0 == #[trigger] pad_cell(center, k) && block_at(
                entries,
                pad_cell(center, k),
            ) == Some(BlockState { raw: AIR_STATE });
        assert(restore[i].0 == pad_cell(center, k));
    }
}

/// The pad lies on the topmost ground within sixteen blocks beneath the feet: where it does
/// not lie there yet it is taken up and laid anew just above that ground, and where it does
/// nothing changes.
pub proof fn law_pad_follows_the_ground(
    before: Blocks,
    after: Blocks,
    pad_before: LotusFootprint,
    pad_after: LotusFootprint,
    x: i32,
    foot_y: i32,
    z: i32,
    petal: BlockState,
    y: i32,
)
    requires
        i32::MIN + 16 <= foot_y < i32::MAX,
        stepped(before, after, pad_before, pad_after, x, foot_y, z, petal),
        foot_y - 16 <= y <= foot_y,
        block_at(before.columns(), IVec3 { x, y, z }) matches Some(state) && state.raw != AIR_STATE
            && state.raw != VOID_AIR_STATE && !lotus_carpet(state),
        forall|above: i32|
            y < above <= foot_y ==> (#[trigger] block_at(
                before.columns(),
                IVec3 { x, y: above, z },
            ) matches Some(state) ==> state.raw == AIR_STATE || state.raw == VOID_AIR_STATE
                || lotus_carpet(state)),
    ensures
        ({
            let center = IVec3 { x, y: (y + 1) as i32, z };
            &&& pad_after.center == Some(center)
            &&& pad_before.center == Some(center) ==> after == before && pad_after == pad_before
            &&& pad_before.center != Some(center) ==> exists|mid: Blocks| #[trigger]
                written(before, mid, pad_before.restore@) && bloomed(
                    mid,
                    after,
                    center,
                    petal,
                    pad_after.restore@,
                )
        }),
{
    law_ground_is_the_topmost(before.columns(), x, z, foot_y as int, foot_y - 16);
    match ground_height(before.columns(), x, z, foot_y as int, foot_y - 16) {
        None => {
            assert(block_at(before.columns(), IVec3 { x, y, z }) is Some);
        },
        Some(found) => {
            let at = found as i32;
            assert(block_at(before.columns(), IVec3 { x, y: at, z }) is Some);
            assert(block_at(before.columns(), IVec3 { x, y, z }) is Some);
            assert(found == y);
        },
    }
}

/// Writes that leave a block different from what it was tell on its chunk.
proof fn lemma_marks_changes(
    entries: Seq<((i16, i16), Column)>,
    writes: Seq<(IVec3, BlockState)>,
    p: IVec3,
    i: u32,
)
    requires
        i == slot(entries, chunk_at(p).key()),
        block_after(entries, writes, p) != block_at(entries, p),
    ensures
        marks(entries, writes, i),
    decreases writes.len(),
{
    if writes.len() > 0 {
        let front = writes.drop_last();
        let (pos, state) = writes.last();
        if block_after(entries, front, p) != block_at(entries, p) {
            lemma_marks_changes(entries, front, p, i);
        } else {
            assert(settable(entries, pos) && same_block(pos, p));
            lemma_write_at_same(entries, front, pos, p);
            assert(block_at(entries, pos) == block_at(entries, p));
        }
    }
}

/// Positions that stand for the same block are written to alike.
proof fn lemma_write_at_same(
    entries: Seq<((i16, i16), Column)>,
    writes: Seq<(IVec3, BlockState)>,
    a: IVec3,
    b: IVec3,
)
    requires
        same_block(a, b),
    ensures
        write_at(entries, writes, a) == write_at(entries, writes, b),
    decreases writes.len(),
{
    if writes.len() > 0 {
        lemma_write_at_same(entries, writes.drop_last(), a, b);
    }
}

/// A chunk where a carpet was laid or taken up counts as changed; one where none of the
/// writes lies counts as it did.
pub proof fn law_written_chunks_are_marked(
    before: Blocks,
    after: Blocks,
    writes: Seq<(IVec3, BlockState)>,
    p: IVec3,
    i: u32,
)
    requires
        before.wf(),
        written(before, after, writes),
        i < before.columns().len(),
    ensures
        before.columns()[i as int].0 == (chunk_at(p).x, chunk_at(p).y) && block_at(
            after.columns(),
            p,
        ) != block_at(before.columns(), p) ==> members(after.should_update).contains(i),
        (forall|k: int|
            0 <= k < writes.len() ==> before.columns()[i as int].0 != (
                chunk_at((#[trigger] writes[k]).0).x,
                chunk_at(writes[k].0).y,
            )) ==> (members(after.should_update).contains(i) <==> members(
            before.should_update,
        ).contains(i)),
{
    let entries = before.columns();
    if entries[i as int].0 == (chunk_at(p).x, chunk_at(p).y) && block_at(after.columns(), p)
        != block_at(entries, p) {
        lemma_slot(entries, i as int);
        assert(block_at(after.columns(), p) == block_after(entries, writes, p));
        lemma_marks_changes(entries, writes, p, i);
    }
    if forall|k: int|
        0 <= k < writes.len() ==> entries[i as int].0 != (
            chunk_at((#[trigger] writes[k]).0).x,
            chunk_at(writes[k].0).y,
        ) {
        lemma_no_marks(entries, writes, i);
    }
}

proof fn lemma_no_marks(
    entries: Seq<((i16, i16), Column)>,
    writes: Seq<(IVec3, BlockState)>,
    i: u32,
)
    requires
        i < entries.len(),
        forall|k: int|
            0 <= k < writes.len() ==> entries[i as int].0 != (
                chunk_at((#[trigger] writes[k]).0).x,
                chunk_at(writes[k].0).y,
            ),
    ensures
        !marks(entries, writes, i),
    decreases writes.len(),
{
    if writes.len() > 0 {
        let front = writes.drop_last();
        assert forall|k: int| 0 <= k < front.len() implies entries[i as int].0 != (
            chunk_at((#[trigger] front[k]).0).x,
            chunk_at(front[k].0).y,
        ) by {
            assert(front[k] == writes[k]);
        }
        lemma_no_marks(entries, front, i);
        assert(writes[writes.len() - 1] == writes.last());
        if settable(entries, writes.last().0) {
            let key = chunk_at(writes.last().0).key();
            assert(entries[slot(entries, key)].0 == key);
        }
    }
}

} // verus!
