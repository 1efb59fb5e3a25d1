//! Applying the assistant's actions to the world.

use vstd::prelude::*;

use crate::agent::{Found, QueryResult};
use crate::block::{block_named, state_named, BlockState};
use crate::blocks::{
    block_at, kept_edits, set_block_outcome, set_result, Blocks, TrySetBlockDeltaError,
};
use crate::bridge::{ActionKind, GameAction};
use crate::paint::{
    box_cells, box_positions, covered, distinct_blocks, edits_at, lemma_box_cells,
    lemma_box_distinct, lemma_box_volume, lemma_painted_none, lemma_painted_step,
    lemma_settable_of, lemma_settable_of_push, law_settable_blocks_are_the_loaded_ones, painted,
    same_block, settable, settable_of, volume, volume_of,
};
use crate::pos::{chunk_at, exact_chunk_of, in_box, in_chunk_range, I16Vec2, IVec3};
use crate::reads::{block_found, read_block, read_region, region_found};
use crate::replay::law_read_after_set;
use crate::session::ConnectionId;
use crate::text::{int_text, push_int};

verus! {

/// The most blocks that one fill may touch.
pub const MAX_FILL_VOLUME: i128 = 16_384;

/// Something to send to players, or to the assistant.
#[derive(Clone, Debug, PartialEq, Eq)]
pub enum Outgoing {
    /// A chat line for one player.
    Chat { to: ConnectionId, text: String },
    /// A block change, for all players near that chunk.
    BlockUpdate { chunk: I16Vec2, pos: IVec3, state: BlockState },
    /// The answer to the assistant's question with this number.
    Answer { request_id: u64, result: QueryResult },
}

/// A packet, as contracts speak of it.
pub ghost enum Sent {
    Chat { to: ConnectionId, text: Seq<char> },
    BlockUpdate { chunk: I16Vec2, pos: IVec3, state: BlockState },
    Answer { request_id: u64, found: Found },
}

impl View for Outgoing {
    type V = Sent;

    open spec fn view(&self) -> Sent {
        match self {
            Outgoing::Chat { to, text } => Sent::Chat { to: *to, text: text@ },
            Outgoing::BlockUpdate { chunk, pos, state } => Sent::BlockUpdate {
                chunk: *chunk,
                pos: *pos,
                state: *state,
            },
            Outgoing::Answer { request_id, result } => Sent::Answer {
                request_id: *request_id,
                found: result@,
            },
        }
    }
}

/// What is sent, one after the other.
pub open spec fn sent(out: Seq<Outgoing>) -> Seq<Sent> {
    out.map_values(|o: Outgoing| o@)
}

proof fn lemma_sent_push(out: Seq<Outgoing>, o: Outgoing)
    ensures
        sent(out.push(o)) == sent(out).push(o@),
{
    assert(sent(out.push(o)) =~= sent(out).push(o@));
}

fn send_chat(out: &mut Vec<Outgoing>, to: ConnectionId, text: String)
    ensures
        sent(final(out)@) == sent(old(out)@).push(Sent::Chat { to, text: text@ }),
{
    let o = Outgoing::Chat { to, text };
    proof {
        lemma_sent_push(out@, o);
    }
    out.push(o);
}

fn send_answer(out: &mut Vec<Outgoing>, request_id: u64, result: QueryResult)
    ensures
        sent(final(out)@) == sent(old(out)@).push(Sent::Answer { request_id, found: result@ }),
{
    let o = Outgoing::Answer { request_id, result };
    proof {
        lemma_sent_push(out@, o);
    }
    out.push(o);
}

/// What the player is told about the name of a block, for what was found under it:
/// nothing, unless that is nothing.
pub open spec fn unknown_block(
    connection: ConnectionId,
    block: Seq<char>,
    found: Option<BlockState>,
) -> Seq<Sent> {
    match found {
        Some(_) => Seq::empty(),
        None => seq![Sent::Chat { to: connection, text: "§c[AI] unknown block: "@ + block }],
    }
}

/// Tells the player that a block is unknown, where nothing was found under its
/// name.
pub fn report_unknown(
    out: &mut Vec<Outgoing>,
    connection: ConnectionId,
    block: &str,
    found: Option<BlockState>,
)
    ensures
        sent(final(out)@) == sent(old(out)@) + unknown_block(connection, block@, found),
{
    if found.is_none() {
        let mut text = "§c[AI] unknown block: ".to_owned();
        text.append(block);
        send_chat(out, connection, text);
    }
    assert(sent(out@) =~= sent(old(out)@) + unknown_block(connection, block@, found));
}

/// The block named `block`, or `None`, and then the player is told that it is
/// unknown.
pub fn resolve_block(out: &mut Vec<Outgoing>, connection: ConnectionId, block: &str) -> (r: Option<
    BlockState,
>)
    ensures
        r == state_named(block@),
        r matches Some(state) ==> state.valid(),
        sent(final(out)@) == sent(old(out)@) + unknown_block(
            connection,
            block@,
            state_named(block@),
        ),
{
    let found = block_named(block);
    report_unknown(out, connection, block, found);
    found
}

/// The news of one block change. There is none for blocks whose chunk cannot be
/// named.
pub open spec fn update_of(pos: IVec3, state: BlockState) -> Seq<Sent> {
    if in_chunk_range(pos) {
        seq![Sent::BlockUpdate { chunk: chunk_at(pos), pos, state }]
    } else {
        Seq::empty()
    }
}

/// Tells all players near the block at `pos` that it changed.
pub fn broadcast_block(out: &mut Vec<Outgoing>, pos: IVec3, state: BlockState)
    ensures
        sent(final(out)@) == sent(old(out)@) + update_of(pos, state),
{
    match exact_chunk_of(pos) {
        Some(chunk) => {
            let o = Outgoing::BlockUpdate { chunk, pos, state };
            proof {
                lemma_sent_push(out@, o);
            }
            out.push(o);
            assert(sent(out@) =~= sent(old(out)@) + update_of(pos, state));
        },
        None => {
            assert(sent(out@) =~= sent(old(out)@) + update_of(pos, state));
        },
    }
}

/// What the player is told when a block could not be placed.
pub open spec fn not_placed(
    connection: ConnectionId,
    block: Seq<char>,
    e: TrySetBlockDeltaError,
) -> Seq<Sent> {
    seq![
        Sent::Chat {
            to: connection,
            text: "§c[AI] couldn't place "@ + block + ": "@ + e.name(),
        },
    ]
}

/// What setting the block at `pos` to `state`, which the player calls `block`, comes
/// to: it is set, and the players near it are told, or the player is told why not.
pub open spec fn state_placed(
    before: Blocks,
    after: Blocks,
    sent_before: Seq<Sent>,
    sent_after: Seq<Sent>,
    connection: ConnectionId,
    pos: IVec3,
    block: Seq<char>,
    state: BlockState,
) -> bool {
    &&& set_block_outcome(before, after, pos, state, true)
    &&& sent_after == sent_before + match set_result(before.columns(), pos) {
        Ok(_) => update_of(pos, state),
        Err(e) => not_placed(connection, block, e),
    }
}

/// Sets one block in the world to `state`, which the player calls `block`, and tells
/// the players near it.
pub fn place_state(
    blocks: &mut Blocks,
    out: &mut Vec<Outgoing>,
    connection: ConnectionId,
    pos: IVec3,
    block: &str,
    state: BlockState,
)
    requires
        old(blocks).wf(),
        state.valid(),
    ensures
        final(blocks).wf(),
        state_placed(
            *old(blocks),
            *final(blocks),
            sent(old(out)@),
            sent(final(out)@),
            connection,
            pos,
            block@,
            state,
        ),
{
    match blocks.set_block(pos, state) {
        Err(e) => {
            let mut text = "§c[AI] couldn't place ".to_owned();
            text.append(block);
            text.append(": ");
            text.append(e.message());
            send_chat(out, connection, text);
            assert(sent(out@) =~= sent(old(out)@) + not_placed(connection, block@, e));
        },
        Ok(_) => {
            broadcast_block(out, pos, state);
        },
    }
}

/// What placing the block named `block` at `pos` comes to.
pub open spec fn placed(
    before: Blocks,
    after: Blocks,
    sent_before: Seq<Sent>,
    sent_after: Seq<Sent>,
    connection: ConnectionId,
    pos: IVec3,
    block: Seq<char>,
) -> bool {
    match state_named(block) {
        None => after == before && sent_after == sent_before + unknown_block(
            connection,
            block,
            None,
        ),
        Some(state) => state_placed(
            before,
            after,
            sent_before,
            sent_after,
            connection,
            pos,
            block,
            state,
        ),
    }
}

/// Sets one block in the world by its name and tells the players near it.
pub fn place_block(
    blocks: &mut Blocks,
    out: &mut Vec<Outgoing>,
    connection: ConnectionId,
    pos: IVec3,
    block: &str,
)
    requires
        old(blocks).wf(),
    ensures
        final(blocks).wf(),
        placed(
            *old(blocks),
            *final(blocks),
            sent(old(out)@),
            sent(final(out)@),
            connection,
            pos,
            block@,
        ),
{
    if let Some(state) = resolve_block(out, connection, block) {
        assert(sent(out@) =~= sent(old(out)@));
        place_state(blocks, out, connection, pos, block, state);
    }
}

/// The news of many block changes.
pub open spec fn updates_of(cells: Seq<IVec3>, state: BlockState) -> Seq<Sent>
    decreases cells.len(),
{
    if cells.len() == 0 {
        Seq::empty()
    } else {
        updates_of(cells.drop_last(), state) + update_of(cells.last(), state)
    }
}

/// What the player is told when a fill is too large.
pub open spec fn too_large(connection: ConnectionId, blocks: int) -> Sent {
    Sent::Chat {
        to: connection,
        text: "§c[AI] region too large ("@ + int_text(blocks) + " blocks, max "@ + int_text(
            MAX_FILL_VOLUME as int,
        ) + ")"@,
    }
}

/// What the player is told once a fill is done.
pub open spec fn fill_report(
    connection: ConnectionId,
    placed: int,
    skipped: int,
    block: Seq<char>,
) -> Sent {
    Sent::Chat {
        to: connection,
        text: "§7[AI] filled "@ + int_text(placed) + " × "@ + block + if skipped > 0 {
            " ("@ + int_text(skipped) + " skipped — out of bounds or unloaded)"@
        } else {
            Seq::empty()
        },
    }
}

/// What filling the inclusive cuboid from `min` to `max` with `state`, which the
/// player calls `block`, comes to: a cuboid that is too large changes nothing;
/// otherwise every block of it that can be set is, the players near each of them
/// are told, and the player who asked is told how many.
pub open spec fn filled_with(
    before: Blocks,
    after: Blocks,
    sent_before: Seq<Sent>,
    sent_after: Seq<Sent>,
    connection: ConnectionId,
    min: IVec3,
    max: IVec3,
    block: Seq<char>,
    state: BlockState,
) -> bool {
    if volume(min, max) > MAX_FILL_VOLUME {
        after == before && sent_after == sent_before.push(too_large(connection, volume(min, max)))
    } else {
        let cells = box_cells(min, max);
        let set = settable_of(before.columns(), cells);
        &&& painted(before, after, cells, state, true)
        &&& sent_after == (sent_before + updates_of(set, state)).push(
            fill_report(connection, set.len() as int, cells.len() - set.len(), block),
        )
    }
}

/// What filling the inclusive cuboid from `min` to `max` with the block named
/// `block` comes to.
pub open spec fn filled(
    before: Blocks,
    after: Blocks,
    sent_before: Seq<Sent>,
    sent_after: Seq<Sent>,
    connection: ConnectionId,
    min: IVec3,
    max: IVec3,
    block: Seq<char>,
) -> bool {
    match state_named(block) {
        None => after == before && sent_after == sent_before + unknown_block(
            connection,
            block,
            None,
        ),
        Some(state) => filled_with(
            before,
            after,
            sent_before,
            sent_after,
            connection,
            min,
            max,
            block,
            state,
        ),
    }
}

/// No two positions of a cuboid that is not too large stand for the same block,
/// and there are no more of them than allowed.
proof fn lemma_allowed_box(min: IVec3, max: IVec3)
    requires
        volume(min, max) <= MAX_FILL_VOLUME,
    ensures
        distinct_blocks(box_cells(min, max)),
        box_cells(min, max).len() <= MAX_FILL_VOLUME,
{
    let cells = box_cells(min, max);
    if min.x <= max.x && min.y <= max.y && min.z <= max.z {
        lemma_box_volume(min, max);
        let a = max.x - min.x + 1;
        let b = max.y - min.y + 1;
        let c = max.z - min.z + 1;
        assert(a <= a * b * c && c <= a * b * c) by (nonlinear_arith)
            requires
                a >= 1,
                b >= 1,
                c >= 1,
        ;
        lemma_box_distinct(min, max);
    } else {
        lemma_box_cells(min, max);
        if cells.len() > 0 {
            assert(cells.contains(cells[0]));
            assert(in_box(cells[0], min, max));
        }
    }
}

/// Fills the inclusive cuboid from `min` to `max` with `state`, which the player
/// calls `block`, unless it has more than [`MAX_FILL_VOLUME`] blocks.
pub fn fill_with(
    blocks: &mut Blocks,
    out: &mut Vec<Outgoing>,
    connection: ConnectionId,
    min: IVec3,
    max: IVec3,
    block: &str,
    state: BlockState,
)
    requires
        old(blocks).wf(),
        state.valid(),
    ensures
        final(blocks).wf(),
        filled_with(
            *old(blocks),
            *final(blocks),
            sent(old(out)@),
            sent(final(out)@),
            connection,
            min,
            max,
            block@,
            state,
        ),
{
    let size: i128 = volume_of(min, max);
    if size > MAX_FILL_VOLUME {
        let mut text = "§c[AI] region too large (".to_owned();
        push_int(&mut text, size);
        text.append(" blocks, max ");
        push_int(&mut text, MAX_FILL_VOLUME);
        text.append(")");
        send_chat(out, connection, text);
        return;
    }
    let cells = box_positions(min, max);
    proof {
        lemma_allowed_box(min, max);
    }
    let (done, passed_over) = fill_cells(blocks, out, &cells, state);
    let mut text = "§7[AI] filled ".to_owned();
    push_int(&mut text, done as i128);
    text.append(" × ");
    text.append(block);
    if passed_over > 0 {
        text.append(" (");
        push_int(&mut text, passed_over as i128);
        text.append(" skipped — out of bounds or unloaded)");
    }
    proof {
        let report = fill_report(connection, done as int, passed_over as int, block@);
        assert(text@ =~= report->Chat_text);
    }
    send_chat(out, connection, text);
}

/// Fills the inclusive cuboid from `min` to `max` with the block named `block`.
pub fn fill_region(
    blocks: &mut Blocks,
    out: &mut Vec<Outgoing>,
    connection: ConnectionId,
    min: IVec3,
    max: IVec3,
    block: &str,
)
    requires
        old(blocks).wf(),
    ensures
        final(blocks).wf(),
        filled(
            *old(blocks),
            *final(blocks),
            sent(old(out)@),
            sent(final(out)@),
            connection,
            min,
            max,
            block@,
        ),
{
    if let Some(state) = resolve_block(out, connection, block) {
        assert(sent(out@) =~= sent(old(out)@));
        fill_with(blocks, out, connection, min, max, block, state);
    }
}

/// Sets `cells` to `state`, one after the other, and tells the players near each.
/// Returns how many could be set and how many could not.
fn fill_cells(
    blocks: &mut Blocks,
    out: &mut Vec<Outgoing>,
    cells: &Vec<IVec3>,
    state: BlockState,
) -> (r: (u32, u32))
    requires
        old(blocks).wf(),
        state.valid(),
        distinct_blocks(cells@),
        cells@.len() <= MAX_FILL_VOLUME,
    ensures
        painted(*old(blocks), *final(blocks), cells@, state, true),
        sent(final(out)@) == sent(old(out)@) + updates_of(
            settable_of(old(blocks).columns(), cells@),
            state,
        ),
        r.0 == settable_of(old(blocks).columns(), cells@).len(),
        r.1 == cells@.len() - r.0,
{
    let ghost before = *blocks;
    let ghost entries = blocks.columns();
    let mut done: u32 = 0;
    let mut passed_over: u32 = 0;
    let mut i: usize = 0;
    proof {
        lemma_painted_none(before, state, true);
        assert(cells@.take(0) =~= Seq::empty());
        assert(sent(out@) =~= sent(old(out)@) + updates_of(settable_of(entries, cells@.take(0)), state));
    }
    while i < cells.len()
        invariant
            before.wf(),
            entries == before.columns(),
            state.valid(),
            distinct_blocks(cells@),
            cells@.len() <= MAX_FILL_VOLUME,
            i <= cells@.len(),
            painted(before, *blocks, cells@.take(i as int), state, true),
            sent(out@) == sent(old(out)@) + updates_of(
                settable_of(entries, cells@.take(i as int)),
                state,
            ),
            done == settable_of(entries, cells@.take(i as int)).len(),
            passed_over == i - done,
        decreases cells@.len() - i,
    {
        let pos = cells[i];
        let ghost mid = *blocks;
        let ghost so_far = cells@.take(i as int);
        let ghost told = sent(out@);
        proof {
            let more = cells@.take(i + 1);
            assert(more =~= so_far.push(pos));
            assert forall|a: int, b: int| 0 <= a < b < more.len() implies !same_block(
                #[trigger] more[a],
                #[trigger] more[b],
            ) by {
                assert(more[a] == cells@[a] && more[b] == cells@[b]);
            }
            lemma_settable_of_push(entries, so_far, pos);
            let set = settable_of(entries, so_far);
            assert(set.push(pos).drop_last() =~= set);
        }
        let r = blocks.set_block(pos, state);
        proof {
            lemma_painted_step(before, mid, *blocks, so_far, pos, state, true);
        }
        match r {
            Ok(_) => {
                broadcast_block(out, pos, state);
                assert(sent(out@) =~= sent(old(out)@) + updates_of(
                    settable_of(entries, cells@.take(i + 1)),
                    state,
                ));
                done += 1;
            },
            Err(_) => {
                passed_over += 1;
            },
        }
        i += 1;
    }
    assert(cells@.take(cells@.len() as int) =~= cells@);
    (done, passed_over)
}

/// What one action comes to.
pub open spec fn acted(
    before: Blocks,
    after: Blocks,
    sent_before: Seq<Sent>,
    sent_after: Seq<Sent>,
    action: GameAction,
) -> bool {
    match action.kind {
        ActionKind::Say(text) => after == before && sent_after == sent_before.push(
            Sent::Chat { to: action.connection, text: "§b[AI]§r "@ + text@ },
        ),
        ActionKind::Status(text) => after == before && sent_after == sent_before.push(
            Sent::Chat { to: action.connection, text: "§7[AI] "@ + text@ },
        ),
        ActionKind::GetBlock { request_id, pos } => after == before && sent_after
            == sent_before.push(
            Sent::Answer { request_id, found: block_found(before.columns(), pos) },
        ),
        ActionKind::ScanRegion { request_id, min, max } => after == before && exists|found: Found|
         #[trigger]
            region_found(before.columns(), min, max, found) && sent_after == sent_before.push(
                Sent::Answer { request_id, found },
            ),
        ActionKind::PlaceBlock { pos, block } => placed(
            before,
            after,
            sent_before,
            sent_after,
            action.connection,
            pos,
            block@,
        ),
        ActionKind::Fill { min, max, block } => filled(
            before,
            after,
            sent_before,
            sent_after,
            action.connection,
            min,
            max,
            block@,
        ),
    }
}

/// Applies one action to the world.
pub fn apply_action(blocks: &mut Blocks, out: &mut Vec<Outgoing>, action: GameAction)
    requires
        old(blocks).wf(),
    ensures
        final(blocks).wf(),
        acted(*old(blocks), *final(blocks), sent(old(out)@), sent(final(out)@), action),
{
    match action.kind {
        ActionKind::Say(text) => {
            let mut line = "§b[AI]§r ".to_owned();
            line.append(text.as_str());
            send_chat(out, action.connection, line);
        },
        ActionKind::Status(text) => {
            let mut line = "§7[AI] ".to_owned();
            line.append(text.as_str());
            send_chat(out, action.connection, line);
        },
        ActionKind::GetBlock { request_id, pos } => {
            send_answer(out, request_id, read_block(blocks, pos));
        },
        ActionKind::ScanRegion { request_id, min, max } => {
            let result = read_region(blocks, min, max);
            let ghost found = result@;
            send_answer(out, request_id, result);
            assert(region_found(blocks.columns(), min, max, found));
        },
        ActionKind::PlaceBlock { pos, block } => {
            place_block(blocks, out, action.connection, pos, block.as_str());
        },
        ActionKind::Fill { min, max, block } => {
            fill_region(blocks, out, action.connection, min, max, block.as_str());
        },
    }
}

/// What a list of actions comes to: each is applied to what the ones before it
/// left.
pub open spec fn all_acted(
    before: Blocks,
    after: Blocks,
    sent_before: Seq<Sent>,
    sent_after: Seq<Sent>,
    actions: Seq<GameAction>,
) -> bool
    decreases actions.len(),
{
    if actions.len() == 0 {
        after == before && sent_after == sent_before
    } else {
        exists|mid: Blocks, sent_mid: Seq<Sent>|
            #![trigger acted(mid, after, sent_mid, sent_after, actions.last())]
            all_acted(before, mid, sent_before, sent_mid, actions.drop_last()) && acted(
                mid,
                after,
                sent_mid,
                sent_after,
                actions.last(),
            )
    }
}

/// Applies the actions that are waiting, in order, and returns what is to be sent.
pub fn drain_ai_actions(blocks: &mut Blocks, actions: Vec<GameAction>) -> (r: Vec<Outgoing>)
    requires
        old(blocks).wf(),
    ensures
        final(blocks).wf(),
        all_acted(*old(blocks), *final(blocks), Seq::empty(), sent(r@), actions@),
{
    let mut out: Vec<Outgoing> = Vec::new();
    let ghost before = *blocks;
    let ghost all = actions@;
    proof {
        assert(all.take(0) =~= Seq::empty());
        assert(sent(out@) =~= Seq::empty());
    }
    for action in it: actions.into_iter()
        invariant
            it.seq() == all,
            blocks.wf(),
            all_acted(before, *blocks, Seq::empty(), sent(out@), all.take(it.index())),
    {
        let ghost mid = *blocks;
        let ghost sent_mid = sent(out@);
        let ghost more = all.take(it.index() + 1);
        proof {
            assert(more.drop_last() =~= all.take(it.index()));
            assert(more.last() == action);
        }
        apply_action(blocks, &mut out, action);
        assert(acted(mid, *blocks, sent_mid, sent(out@), more.last()));
        assert(all_acted(before, *blocks, Seq::empty(), sent(out@), more));
    }
    assert(all.take(all.len() as int) =~= all);
    out
}

/// A fill never touches a block outside its cuboid, and sets every block inside it
/// that can be set; one that is too large touches none.
pub proof fn law_fill_stays_in_its_box(
    before: Blocks,
    after: Blocks,
    sent_before: Seq<Sent>,
    sent_after: Seq<Sent>,
    connection: ConnectionId,
    min: IVec3,
    max: IVec3,
    block: Seq<char>,
    state: BlockState,
    pos: IVec3,
)
    requires
        before.wf(),
        filled_with(before, after, sent_before, sent_after, connection, min, max, block, state),
    ensures
        (forall|q: IVec3| in_box(q, min, max) ==> !same_block(q, pos)) ==> block_at(
            after.columns(),
            pos,
        ) == block_at(before.columns(), pos),
        volume(min, max) > MAX_FILL_VOLUME ==> after == before,
        volume(min, max) <= MAX_FILL_VOLUME && in_box(pos, min, max) && settable(
            before.columns(),
            pos,
        ) ==> block_at(after.columns(), pos) == Some(state),
{
    let cells = box_cells(min, max);
    lemma_box_cells(min, max);
    if volume(min, max) <= MAX_FILL_VOLUME {
        if forall|q: IVec3| in_box(q, min, max) ==> !same_block(q, pos) {
            assert forall|j: int| 0 <= j < cells.len() implies !same_block(
                #[trigger] cells[j],
                pos,
            ) by {
                assert(cells.contains(cells[j]));
            }
            assert(!covered(before.columns(), cells, pos));
        }
        if in_box(pos, min, max) && settable(before.columns(), pos) {
            assert(cells.contains(pos));
            let j = choose|j: int| 0 <= j < cells.len() && cells[j] == pos;
            assert(settable(before.columns(), cells[j]));
            assert(covered(before.columns(), cells, pos));
        }
    }
}

/// A fill is kept: every block of the cuboid that can be set is saved in its new
/// state, whether that changed it or not.
pub proof fn law_fill_is_kept(
    before: Blocks,
    after: Blocks,
    sent_before: Seq<Sent>,
    sent_after: Seq<Sent>,
    connection: ConnectionId,
    min: IVec3,
    max: IVec3,
    block: Seq<char>,
    state: BlockState,
    pos: IVec3,
)
    requires
        before.wf(),
        before.edits is Some,
        volume(min, max) <= MAX_FILL_VOLUME,
        filled_with(before, after, sent_before, sent_after, connection, min, max, block, state),
        in_box(pos, min, max),
        settable(before.columns(), pos),
    ensures
        kept_edits(after.edits).contains_key(pos),
        kept_edits(after.edits)[pos] == state,
{
    let cells = box_cells(min, max);
    lemma_box_cells(min, max);
    assert(cells.contains(pos));
    assert(edits_at(before.columns(), cells, pos));
}

/// The news of a block names the block, its new state, and the chunk that holds it; only
/// blocks beyond what chunk coordinates can name have none.
pub proof fn law_news_goes_to_the_chunk_of_the_block(pos: IVec3, state: BlockState)
    ensures
        -0x8_0000 <= pos.x < 0x8_0000 && -0x8_0000 <= pos.z < 0x8_0000 ==> {
            &&& update_of(pos, state).len() == 1
            &&& update_of(pos, state)[0] matches Sent::BlockUpdate { chunk, pos: at, state: new }
            &&& at == pos
            &&& new == state
            &&& chunk.x * 16 <= pos.x < chunk.x * 16 + 16
            &&& chunk.y * 16 <= pos.z < chunk.y * 16 + 16
        },
        !(-0x8_0000 <= pos.x < 0x8_0000 && -0x8_0000 <= pos.z < 0x8_0000) ==> update_of(
            pos,
            state,
        ).len() == 0,
{
}

/// Of many changes each has its news, in order, and nothing else is told.
pub proof fn law_every_change_is_told(cells: Seq<IVec3>, state: BlockState)
    ensures
        updates_of(cells, state) == cells.map_values(|p: IVec3| update_of(p, state)).flatten(),
        (forall|i: int| 0 <= i < cells.len() ==> in_chunk_range(#[trigger] cells[i])) ==> {
            &&& updates_of(cells, state).len() == cells.len()
            &&& forall|i: int|
                0 <= i < cells.len() ==> #[trigger] updates_of(cells, state)[i]
                    == (Sent::BlockUpdate { chunk: chunk_at(cells[i]), pos: cells[i], state })
        },
    decreases cells.len(),
{
    let news = cells.map_values(|p: IVec3| update_of(p, state));
    if cells.len() > 0 {
        let front = cells.drop_last();
        law_every_change_is_told(front, state);
        let before = front.map_values(|p: IVec3| update_of(p, state));
        assert(news =~= before.push(update_of(cells.last(), state)));
        before.lemma_flatten_push(update_of(cells.last(), state));
        if forall|i: int| 0 <= i < cells.len() ==> in_chunk_range(#[trigger] cells[i]) {
            assert forall|i: int| 0 <= i < front.len() implies in_chunk_range(#[trigger] front[i]) by {
                assert(front[i] == cells[i]);
            }
            assert(in_chunk_range(cells[cells.len() - 1]));
            assert forall|i: int| 0 <= i < cells.len() implies #[trigger] updates_of(cells, state)[i]
                == (Sent::BlockUpdate { chunk: chunk_at(cells[i]), pos: cells[i], state }) by {
                if i < front.len() {
                    assert(updates_of(cells, state)[i] == updates_of(front, state)[i]);
                    assert(front[i] == cells[i]);
                }
            }
        }
    } else {
        assert(news =~= Seq::empty());
    }
}

/// A fill of at most 16384 blocks tells the players near every block that it set, and then
/// tells the player who asked how many those are, and how many of the cuboid were skipped:
/// together they are the whole cuboid. One that is larger only tells that it is.
pub proof fn law_fill_is_told(
    before: Blocks,
    after: Blocks,
    sent_before: Seq<Sent>,
    sent_after: Seq<Sent>,
    connection: ConnectionId,
    min: IVec3,
    max: IVec3,
    block: Seq<char>,
    state: BlockState,
)
    requires
        before.wf(),
        filled_with(before, after, sent_before, sent_after, connection, min, max, block, state),
        min.x <= max.x,
        min.y <= max.y,
        min.z <= max.z,
    ensures
        ({
            let size = (max.x - min.x + 1) * (max.y - min.y + 1) * (max.z - min.z + 1);
            &&& size > 16384 ==> after == before && sent_after == sent_before.push(
                too_large(connection, size),
            )
            &&& size <= 16384 ==> exists|set: Seq<IVec3>|
                {
                    &&& #[trigger] set.no_duplicates()
                    &&& forall|p: IVec3| #[trigger]
                        set.contains(p) <==> in_box(p, min, max) && set_result(
                            before.columns(),
                            p,
                        ) is Ok
                    &&& sent_after == (sent_before + set.map_values(
                        |p: IVec3| update_of(p, state),
                    ).flatten()).push(fill_report(connection, set.len() as int, size - set.len(), block))
                }
        }),
{
    let size = volume(min, max);
    let cells = box_cells(min, max);
    if size <= 16384 {
        let set = settable_of(before.columns(), cells);
        lemma_box_cells(min, max);
        lemma_box_volume(min, max);
        lemma_settable_of(before.columns(), cells);
        law_every_change_is_told(set, state);
        assert forall|p: IVec3| #[trigger] set.contains(p) <==> in_box(p, min, max) && set_result(
            before.columns(),
            p,
        ) is Ok by {
            law_settable_blocks_are_the_loaded_ones(before.columns(), p);
        }
        assert(sent_after == (sent_before + set.map_values(
            |p: IVec3| update_of(p, state),
        ).flatten()).push(fill_report(connection, set.len() as int, size - set.len(), block)));
    }
}

/// A block that is placed by its name is there in its default state, for good, and the
/// players near it are told; where it cannot be placed only the player who asked is told
/// something, and nothing changes.
pub proof fn law_placed_block_is_there(
    before: Blocks,
    after: Blocks,
    sent_before: Seq<Sent>,
    sent_after: Seq<Sent>,
    connection: ConnectionId,
    pos: IVec3,
    block: Seq<char>,
)
    requires
        before.wf(),
        placed(before, after, sent_before, sent_after, connection, pos, block),
    ensures
        match state_named(block) {
            Some(state) if set_result(before.columns(), pos) is Ok => {
                &&& block_at(after.columns(), pos) == Some(state)
                &&& before.edits is Some ==> kept_edits(after.edits) == kept_edits(
                    before.edits,
                ).insert(pos, state)
                &&& sent_after == sent_before + update_of(pos, state)
            },
            _ => {
                &&& after == before
                &&& sent_after.len() == sent_before.len() + 1
                &&& sent_after.drop_last() == sent_before
                &&& sent_after.last() matches Sent::Chat { to, .. } && to == connection
            },
        },
{
    if let Some(state) = state_named(block) {
        law_read_after_set(before, after, pos, state, true, pos);
        law_settable_blocks_are_the_loaded_ones(before.columns(), pos);
    }
    if !(state_named(block) is Some && set_result(before.columns(), pos) is Ok) {
        assert(sent_after.drop_last() =~= sent_before);
    }
}

/// What was sent before an action stays in front of what it sends.
proof fn lemma_sent_grows(
    before: Blocks,
    after: Blocks,
    sent_before: Seq<Sent>,
    sent_after: Seq<Sent>,
    action: GameAction,
)
    requires
        acted(before, after, sent_before, sent_after, action),
    ensures
        sent_before.is_prefix_of(sent_after),
{
    assert(sent_before =~= sent_after.take(sent_before.len() as int));
}

/// No action is passed over: whichever of the list it is, a message reaches its player and
/// a question gets its answer, and what was sent before stays in front.
pub proof fn law_every_action_is_carried_out(
    before: Blocks,
    after: Blocks,
    sent_before: Seq<Sent>,
    sent_after: Seq<Sent>,
    actions: Seq<GameAction>,
    i: int,
)
    requires
        all_acted(before, after, sent_before, sent_after, actions),
        0 <= i < actions.len(),
    ensures
        sent_before.is_prefix_of(sent_after),
        actions[i].kind matches ActionKind::Say(text) ==> sent_after.contains(
            Sent::Chat { to: actions[i].connection, text: "§b[AI]§r "@ + text@ },
        ),
        actions[i].kind matches ActionKind::Status(text) ==> sent_after.contains(
            Sent::Chat { to: actions[i].connection, text: "§7[AI] "@ + text@ },
        ),
        actions[i].kind matches ActionKind::GetBlock { request_id, .. } ==> exists|found: Found|
            sent_after.contains(#[trigger] answer_to(request_id, found)),
        actions[i].kind matches ActionKind::ScanRegion { request_id, .. } ==> exists|found: Found|
            sent_after.contains(#[trigger] answer_to(request_id, found)),
    decreases actions.len(),
{
    let fewer = actions.drop_last();
    let (mid, sent_mid) = choose|mid: Blocks, sent_mid: Seq<Sent>|
        #![trigger acted(mid, after, sent_mid, sent_after, actions.last())]
        all_acted(before, mid, sent_before, sent_mid, fewer) && acted(
            mid,
            after,
            sent_mid,
            sent_after,
            actions.last(),
        );
    lemma_sent_grows(mid, after, sent_mid, sent_after, actions.last());
    if fewer.len() > 0 {
        let k: int = if i < fewer.len() {
            i
        } else {
            0
        };
        law_every_action_is_carried_out(before, mid, sent_before, sent_mid, fewer, k);
        assert(sent_before =~= sent_after.take(sent_before.len() as int));
    }
    if i < fewer.len() {
        assert(actions[i] == fewer[i]);
        assert forall|o: Sent| sent_mid.contains(o) implies #[trigger] sent_after.contains(o) by {
            let k = choose|k: int| 0 <= k < sent_mid.len() && sent_mid[k] == o;
            assert(sent_after[k] == o);
        }
        match actions[i].kind {
            ActionKind::GetBlock { request_id, .. } => {
                let found = choose|found: Found|
                    sent_mid.contains(#[trigger] answer_to(request_id, found));
                assert(sent_after.contains(answer_to(request_id, found)));
            },
            ActionKind::ScanRegion { request_id, .. } => {
                let found = choose|found: Found|
                    sent_mid.contains(#[trigger] answer_to(request_id, found));
                assert(sent_after.contains(answer_to(request_id, found)));
            },
            _ => {},
        }
    } else {
        let last = sent_after.len() - 1;
        match actions[i].kind {
            ActionKind::Say(_) => {
                assert(sent_after[last] == sent_after.last());
            },
            ActionKind::Status(_) => {
                assert(sent_after[last] == sent_after.last());
            },
            ActionKind::GetBlock { request_id, pos } => {
                let found = block_found(mid.columns(), pos);
                assert(sent_after[last] == answer_to(request_id, found));
                assert(sent_after.contains(answer_to(request_id, found)));
            },
            ActionKind::ScanRegion { request_id, min, max } => {
                let found = choose|found: Found| #[trigger]
                    region_found(mid.columns(), min, max, found) && sent_after == sent_mid.push(
                        Sent::Answer { request_id, found },
                    );
                assert(sent_after[last] == answer_to(request_id, found));
                assert(sent_after.contains(answer_to(request_id, found)));
            },
            _ => {},
        }
    }
}

/// Each action of a list is applied, to just what those before it left, and those behind it
/// are applied to what it leaves.
pub proof fn law_actions_are_applied_in_turn(
    before: Blocks,
    after: Blocks,
    sent_before: Seq<Sent>,
    sent_after: Seq<Sent>,
    actions: Seq<GameAction>,
    i: int,
)
    requires
        all_acted(before, after, sent_before, sent_after, actions),
        0 <= i < actions.len(),
    ensures
        exists|left: Blocks, done: Blocks, sent_left: Seq<Sent>, sent_done: Seq<Sent>|
            #![trigger acted(left, done, sent_left, sent_done, actions[i])]
            all_acted(before, left, sent_before, sent_left, actions.take(i)) && acted(
                left,
                done,
                sent_left,
                sent_done,
                actions[i],
            ) && all_acted(done, after, sent_done, sent_after, actions.skip(i + 1)),
    decreases actions.len(),
{
    let fewer = actions.drop_last();
    let (mid, sent_mid) = choose|mid: Blocks, sent_mid: Seq<Sent>|
        #![trigger acted(mid, after, sent_mid, sent_after, actions.last())]
        all_acted(before, mid, sent_before, sent_mid, fewer) && acted(
            mid,
            after,
            sent_mid,
            sent_after,
            actions.last(),
        );
    if i < fewer.len() {
        law_actions_are_applied_in_turn(before, mid, sent_before, sent_mid, fewer, i);
        assert(fewer[i] == actions[i]);
        let (left, done, sent_left, sent_done) = choose|
            left: Blocks,
            done: Blocks,
            sent_left: Seq<Sent>,
            sent_done: Seq<Sent>,
        |
            #![trigger acted(left, done, sent_left, sent_done, fewer[i])]
            all_acted(before, left, sent_before, sent_left, fewer.take(i)) && acted(
                left,
                done,
                sent_left,
                sent_done,
                fewer[i],
            ) && all_acted(done, mid, sent_done, sent_mid, fewer.skip(i + 1));
        let rest = actions.skip(i + 1);
        assert(rest.drop_last() =~= fewer.skip(i + 1));
        assert(rest.last() == actions.last());
        assert(acted(mid, after, sent_mid, sent_after, rest.last()));
        assert(all_acted(done, after, sent_done, sent_after, rest));
        assert(fewer.take(i) =~= actions.take(i));
        assert(acted(left, done, sent_left, sent_done, actions[i]));
    } else {
        assert(actions.take(i) =~= fewer);
        assert(actions.skip(i + 1) =~= Seq::empty());
        assert(acted(mid, after, sent_mid, sent_after, actions[i]));
        assert(all_acted(after, after, sent_after, sent_after, actions.skip(i + 1)));
    }
}

/// The answer `found` to the question with the number `request_id`.
pub open spec fn answer_to(request_id: u64, found: Found) -> Sent {
    Sent::Answer { request_id, found }
}

/// What is sent is spoken of as it is, packet by packet and in order.
pub proof fn law_packets_are_spoken_of_as_they_are(out: Seq<Outgoing>, i: int)
    requires
        0 <= i < out.len(),
    ensures
        sent(out).len() == out.len(),
        out[i] matches Outgoing::Chat { to, text } ==> sent(out)[i] == (Sent::Chat {
            to,
            text: text@,
        }),
        out[i] matches Outgoing::BlockUpdate { chunk, pos, state } ==> sent(out)[i]
            == (Sent::BlockUpdate { chunk, pos, state }),
        out[i] matches Outgoing::Answer { request_id, result } ==> sent(out)[i] == (Sent::Answer {
            request_id,
            found: result@,
        }),
{
}

/// What the player who asked is told about a fill, or about a block that cannot be placed, is
/// for that player alone and names the numbers and the block as they are; blocks that were
/// skipped are only spoken of where there are any.
pub proof fn law_player_is_told_the_numbers(
    connection: ConnectionId,
    placed: int,
    skipped: int,
    block: Seq<char>,
    e: TrySetBlockDeltaError,
)
    ensures
        ({
            let told = "§7[AI] filled "@ + int_text(placed) + " × "@ + block;
            let rest = " ("@ + int_text(skipped) + " skipped — out of bounds or unloaded)"@;
            &&& skipped > 0 ==> fill_report(connection, placed, skipped, block) == (Sent::Chat {
                to: connection,
                text: told + rest,
            })
            &&& skipped <= 0 ==> fill_report(connection, placed, skipped, block) == (Sent::Chat {
                to: connection,
                text: told,
            })
        }),
        too_large(connection, placed) == (Sent::Chat {
            to: connection,
            text: "§c[AI] region too large ("@ + int_text(placed) + " blocks, max "@ + int_text(
                16384,
            ) + ")"@,
        }),
        not_placed(connection, block, e) == seq![
            Sent::Chat {
                to: connection,
                text: "§c[AI] couldn't place "@ + block + ": "@ + (if e
                    == TrySetBlockDeltaError::OutOfBounds {
                    "OutOfBounds"@
                } else {
                    "ChunkNotLoaded"@
                }),
            },
        ],
        unknown_block(connection, block, None) == seq![
            Sent::Chat { to: connection, text: "§c[AI] unknown block: "@ + block },
        ],
{
    let told = "§7[AI] filled "@ + int_text(placed) + " × "@ + block;
    let rest = " ("@ + int_text(skipped) + " skipped — out of bounds or unloaded)"@;
    if skipped > 0 {
        assert(told + rest =~= fill_report(connection, placed, skipped, block)->Chat_text);
    } else {
        assert(told =~= fill_report(connection, placed, skipped, block)->Chat_text);
    }
}

} // verus!
