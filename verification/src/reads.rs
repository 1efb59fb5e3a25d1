//! Answering the assistant's questions about the world.

use vstd::prelude::*;

use crate::agent::{BlockInfo, Found, QueryResult};
use crate::block::{
    block_name, is_air, kind_name, kind_of_state, name_of, BlockState, AIR_STATE, CAVE_AIR_STATE,
    VOID_AIR_STATE,
};
use crate::blocks::{block_at, in_height, Blocks};
use crate::cache::slot;
use crate::chunk::{lemma_cell, Column};
use crate::paint::{volume, volume_of};
use crate::pos::{chunk_at, IVec3};
use crate::scan::{lists, lists_only, wanted};
use crate::text::{int_text, push_int};

verus! {

/// The most blocks that one region may have to be read.
pub const MAX_SCAN_VOLUME: i128 = 16_384;

/// An answer without blocks: what went wrong.
pub open spec fn refused(why: Seq<char>) -> Found {
    Found { blocks: Seq::empty(), truncated: false, error: Some(why) }
}

/// What is found at `pos`: the block there, no block where it is air, and an error
/// where it is not loaded.
pub open spec fn block_found(entries: Seq<((i16, i16), Column)>, pos: IVec3) -> Found {
    match block_at(entries, pos) {
        None => refused("not loaded"@),
        Some(state) => Found {
            blocks: if is_air(state) {
                Seq::empty()
            } else {
                seq![(pos, name_of(state))]
            },
            truncated: false,
            error: None,
        },
    }
}

/// The blocks of a list that are not air, with their names.
pub open spec fn visible(list: Seq<(IVec3, BlockState)>) -> Seq<(IVec3, Seq<char>)>
    decreases list.len(),
{
    if list.len() == 0 {
        Seq::empty()
    } else if is_air(list.last().1) {
        visible(list.drop_last())
    } else {
        visible(list.drop_last()).push((list.last().0, name_of(list.last().1)))
    }
}

/// `list` holds the loaded blocks of the region from `min` to `max`, in order.
pub open spec fn lists_region(
    list: Seq<(IVec3, BlockState)>,
    entries: Seq<((i16, i16), Column)>,
    min: IVec3,
    max: IVec3,
) -> bool {
    &&& lists_only(list, entries, min, max)
    &&& forall|pos: IVec3| #[trigger] wanted(entries, min, max, pos) ==> lists(list, pos)
}

/// `found` is what is found in the region from `min` to `max`: all loaded blocks that
/// are not air, unless the region is too large.
pub open spec fn region_found(
    entries: Seq<((i16, i16), Column)>,
    min: IVec3,
    max: IVec3,
    found: Found,
) -> bool {
    if volume(min, max) > MAX_SCAN_VOLUME {
        found == refused(
            "region too large ("@ + int_text(volume(min, max)) + " blocks, max "@ + int_text(
                MAX_SCAN_VOLUME as int,
            ) + ")"@,
        )
    } else {
        exists|list: Seq<(IVec3, BlockState)>| #[trigger]
            lists_region(list, entries, min, max) && found == (Found {
                blocks: visible(list),
                truncated: false,
                error: None,
            })
    }
}

/// Whether a block in this state is air.
fn air(state: BlockState) -> (r: bool)
    ensures
        r == is_air(state),
{
    state.raw == AIR_STATE || state.raw == VOID_AIR_STATE || state.raw == CAVE_AIR_STATE
}

fn info(pos: IVec3, state: BlockState) -> (r: BlockInfo)
    requires
        state.valid(),
    ensures
        (IVec3 { x: r.x, y: r.y, z: r.z }) == pos,
        r.block@ == name_of(state),
{
    BlockInfo { x: pos.x, y: pos.y, z: pos.z, block: block_name(state).to_owned() }
}

fn refusal(why: String) -> (r: QueryResult)
    ensures
        r@ == refused(why@),
{
    let r = QueryResult { blocks: Vec::new(), truncated: false, error: Some(why) };
    assert(r@.blocks =~= Seq::empty());
    r
}

/// What is read is a state of the table.
proof fn lemma_read_states_valid(blocks: Blocks, pos: IVec3, state: BlockState)
    requires
        blocks.wf(),
        in_height(pos),
        block_at(blocks.columns(), pos) == Some(state),
    ensures
        state.valid(),
{
    let entries = blocks.columns();
    let i = slot(entries, chunk_at(pos).key());
    assert(entries[i].0 == chunk_at(pos).key());
    lemma_cell(pos.x as int % 16, pos.y + 64, pos.z as int % 16);
}

/// Reads the block at `pos`.
pub fn read_block(blocks: &Blocks, pos: IVec3) -> (r: QueryResult)
    requires
        blocks.wf(),
    ensures
        r@ == block_found(blocks.columns(), pos),
{
    let state = match blocks.get_block(pos) {
        None => {
            return refusal("not loaded".to_owned());
        },
        Some(state) => state,
    };
    let mut found: Vec<BlockInfo> = Vec::new();
    if !air(state) {
        found.push(info(pos, state));
    }
    let r = QueryResult { blocks: found, truncated: false, error: None };
    assert(r@ =~= block_found(blocks.columns(), pos));
    r
}

/// Reads the region from `min` to `max`, unless it has more than [`MAX_SCAN_VOLUME`]
/// blocks.
pub fn read_region(blocks: &Blocks, min: IVec3, max: IVec3) -> (r: QueryResult)
    requires
        blocks.wf(),
    ensures
        region_found(blocks.columns(), min, max, r@),
{
    let size: i128 = volume_of(min, max);
    if size > MAX_SCAN_VOLUME {
        let mut why = "region too large (".to_owned();
        push_int(&mut why, size);
        why.append(" blocks, max ");
        push_int(&mut why, MAX_SCAN_VOLUME);
        why.append(")");
        return refusal(why);
    }
    let list = blocks.get_blocks(min, max);
    assert(lists_region(list@, blocks.columns(), min, max));
    let mut r = QueryResult { blocks: Vec::new(), truncated: false, error: None };
    let mut i: usize = 0;
    assert(list@.take(0) =~= Seq::empty());
    assert(r@.blocks =~= visible(list@.take(0)));
    while i < list.len()
        invariant
            blocks.wf(),
            lists_only(list@, blocks.columns(), min, max),
            i <= list@.len(),
            r@.blocks == visible(list@.take(i as int)),
            !r.truncated,
            r.error is None,
        decreases list@.len() - i,
    {
        let (pos, state) = list[i];
        let ghost before = r@.blocks;
        proof {
            assert(list@.take(i + 1).drop_last() =~= list@.take(i as int));
            assert(list@.take(i + 1).last() == (pos, state));
            assert(block_at(blocks.columns(), list@[i as int].0) == Some(state));
        }
        if !air(state) {
            proof {
                lemma_read_states_valid(*blocks, pos, state);
            }
            r.blocks.push(info(pos, state));
            assert(r@.blocks =~= before.push((pos, name_of(state))));
        }
        i += 1;
    }
    assert(list@.take(list@.len() as int) =~= list@);
    assert(r@ =~= (Found { blocks: visible(list@), truncated: false, error: None }));
    r
}

/// One block that is asked for is answered with its place and its name, unless it is air:
/// then without a block. Only a block that is not loaded is refused.
pub proof fn law_block_is_found_by_its_name(entries: Seq<((i16, i16), Column)>, pos: IVec3)
    ensures
        block_found(entries, pos).error is Some <==> block_at(entries, pos) is None,
        !block_found(entries, pos).truncated,
        block_at(entries, pos) matches Some(state) ==> {
            &&& state.raw == 0 || state.raw == 12817 || state.raw == 12818 ==> block_found(
                entries,
                pos,
            ).blocks.len() == 0
            &&& state.raw != 0 && state.raw != 12817 && state.raw != 12818 ==> block_found(
                entries,
                pos,
            ).blocks == seq![(pos, kind_name(kind_of_state(state.raw)))]
        },
        block_at(entries, pos) is None ==> block_found(entries, pos).blocks.len() == 0
            && block_found(entries, pos).error == Some("not loaded"@),
{
}

/// What is seen of a list are its blocks that are not air, in order, each with its place and
/// its name.
pub proof fn law_all_but_air_is_seen(list: Seq<(IVec3, BlockState)>)
    ensures
        visible(list) == list.filter(
            |e: (IVec3, BlockState)| e.1.raw != 0 && e.1.raw != 12817 && e.1.raw != 12818,
        ).map_values(|e: (IVec3, BlockState)| (e.0, kind_name(kind_of_state(e.1.raw)))),
    decreases list.len(),
{
    reveal(Seq::filter);
    let solid = |e: (IVec3, BlockState)| e.1.raw != 0 && e.1.raw != 12817 && e.1.raw != 12818;
    let named = |e: (IVec3, BlockState)| (e.0, kind_name(kind_of_state(e.1.raw)));
    if list.len() > 0 {
        let front = list.drop_last();
        law_all_but_air_is_seen(front);
        if solid(list.last()) {
            assert(list.filter(solid) == front.filter(solid).push(list.last()));
            assert(list.filter(solid).map_values(named) =~= front.filter(solid).map_values(
                named,
            ).push(named(list.last())));
        }
    } else {
        assert(visible(list) =~= list.filter(solid).map_values(named));
    }
}

/// A block of a list is seen where it is not air, and what is seen stands in the list.
proof fn lemma_visible(list: Seq<(IVec3, BlockState)>)
    ensures
        forall|i: int|
            0 <= i < list.len() && !is_air((#[trigger] list[i]).1) ==> visible(list).contains(
                (list[i].0, name_of(list[i].1)),
            ),
        forall|k: int|
            0 <= k < visible(list).len() ==> exists|i: int|
                0 <= i < list.len() && !is_air((#[trigger] list[i]).1) && #[trigger] visible(list)[k]
                    == (list[i].0, name_of(list[i].1)),
    decreases list.len(),
{
    if list.len() > 0 {
        let front = list.drop_last();
        lemma_visible(front);
        let before = visible(front);
        let after = visible(list);
        assert(list[list.len() - 1] == list.last());
        assert forall|i: int| 0 <= i < list.len() && !is_air((#[trigger] list[i]).1) implies after.contains(
            (list[i].0, name_of(list[i].1)),
        ) by {
            if i < front.len() {
                assert(front[i] == list[i]);
                let k = choose|k: int|
                    0 <= k < before.len() && before[k] == (front[i].0, name_of(front[i].1));
                assert(after[k] == before[k]);
            } else {
                assert(after[before.len() as int] == (list[i].0, name_of(list[i].1)));
            }
        }
        assert forall|k: int| 0 <= k < after.len() implies exists|i: int|
            0 <= i < list.len() && !is_air((#[trigger] list[i]).1) && #[trigger] after[k] == (
                list[i].0,
                name_of(list[i].1),
            ) by {
            if k < before.len() {
                assert(after[k] == before[k]);
                let i = choose|i: int|
                    0 <= i < front.len() && !is_air((#[trigger] front[i]).1) && before[k] == (
                        front[i].0,
                        name_of(front[i].1),
                    );
                assert(list[i] == front[i]);
            } else {
                assert(!is_air(list[list.len() - 1].1));
            }
        }
    }
}

/// The answer about a region of at most 16384 blocks holds every block of it that is loaded
/// and not air, under its name, and no other; a larger region is refused.
pub proof fn law_region_answer_is_complete(
    entries: Seq<((i16, i16), Column)>,
    min: IVec3,
    max: IVec3,
    found: Found,
    pos: IVec3,
    k: int,
)
    requires
        region_found(entries, min, max, found),
    ensures
        ({
            let size = (max.x - min.x + 1) * (max.y - min.y + 1) * (max.z - min.z + 1);
            &&& found.error is Some <==> size > 16384
            &&& found.error is Some ==> found.blocks.len() == 0 && found.error->0
                == "region too large ("@ + int_text(size) + " blocks, max "@ + int_text(16384)
                + ")"@
            &&& !found.truncated
            &&& size <= 16384 && min.x <= pos.x <= max.x && min.y <= pos.y <= max.y && min.z <= pos.z
                <= max.z && -64 <= pos.y < 320 && -0x8_0000 <= pos.x < 0x8_0000 && -0x8_0000 <= pos.z
                < 0x8_0000 ==> (block_at(entries, pos) matches Some(state) ==> state.raw == 0
                || state.raw == 12817 || state.raw == 12818 || found.blocks.contains(
                (pos, kind_name(kind_of_state(state.raw))),
            ))
            &&& 0 <= k < found.blocks.len() ==> {
                let at = found.blocks[k].0;
                &&& min.x <= at.x <= max.x && min.y <= at.y <= max.y && min.z <= at.z <= max.z
                &&& block_at(entries, at) matches Some(state) && state.raw != 0 && state.raw != 12817
                    && state.raw != 12818 && found.blocks[k].1 == kind_name(
                    kind_of_state(state.raw),
                )
            }
        }),
{
    if volume(min, max) <= MAX_SCAN_VOLUME {
        let list = choose|list: Seq<(IVec3, BlockState)>| #[trigger]
            lists_region(list, entries, min, max) && found == (Found {
                blocks: visible(list),
                truncated: false,
                error: None,
            });
        lemma_visible(list);
        if in_height(pos) && min.x <= pos.x <= max.x && min.y <= pos.y <= max.y && min.z <= pos.z
            <= max.z && -0x8_0000 <= pos.x < 0x8_0000 && -0x8_0000 <= pos.z < 0x8_0000 && block_at(
            entries,
            pos,
        ) is Some {
            assert(wanted(entries, min, max, pos));
            let i = choose|i: int| 0 <= i < list.len() && (#[trigger] list[i]).0 == pos;
            assert(block_at(entries, list[i].0) == Some(list[i].1));
        }
        if 0 <= k < found.blocks.len() {
            let i = choose|i: int|
                0 <= i < list.len() && !is_air((#[trigger] list[i]).1) && visible(list)[k] == (
                    list[i].0,
                    name_of(list[i].1),
                );
            assert(wanted(entries, min, max, list[i].0));
        }
    }
}

} // verus!
