//! Skyblock: one small island in the void.
//!
//! Whoever falls off is brought back, everybody starts with a few things, and a
//! block of cobblestone grows back a short while after it is mined.

use std::collections::HashSet;

use vstd::prelude::*;

use crate::actions::{broadcast_block, sent, update_of, Outgoing, Sent};
use crate::block::{BlockState, COBBLESTONE_STATE};
use crate::blocks::{block_at, kept_edits, set_block_outcome, set_result, Blocks};
use crate::paint::{
    law_settable_blocks_are_the_loaded_ones, lemma_keys_of_written, lemma_settable_stays, same_block,
    settable,
};
use crate::pos::IVec3;
use crate::replay::{keys_of, law_read_after_set};

verus! {

broadcast use vstd::std_specs::hash::group_hash_axioms;

/// Players below this height have fallen off the island.
pub const VOID_Y: i32 = -10;

/// Ticks until a mined generator block grows back (one and a half seconds).
pub const REGEN_TICKS: i64 = 30;

/// The block that grows back.
pub open spec fn gen_pos() -> IVec3 {
    IVec3 { x: 12, y: 64, z: 4 }
}

/// The chest with the bonus kit.
pub open spec fn chest_pos() -> IVec3 {
    IVec3 { x: 8, y: 64, z: 8 }
}

/// Whether a player whose height rounds down to `y` has fallen off the island, and
/// then what to tell them.
pub fn void_respawn(y: i32) -> (r: Option<&'static str>)
    ensures
        match r {
            Some(text) => y < VOID_Y && text@ == "§c你掉进了虚空,已送回小岛"@,
            None => y >= VOID_Y,
        },
{
    if y < VOID_Y {
        Some("§c你掉进了虚空,已送回小岛")
    } else {
        None
    }
}

/// Where players are brought back to, in half blocks: the middle of the island.
pub fn island_spawn() -> (r: (i32, i32, i32))
    ensures
        r == (17i32, 128i32, 17i32),
{
    (17, 128, 17)
}

/// The things that players are given.
#[derive(Clone, Copy, PartialEq, Eq, Structural, Debug)]
pub enum Item {
    WoodenPickaxe,
    WoodenAxe,
    OakSapling,
    Dirt,
    Bread,
    OakLog,
    IronIngot,
}

/// What every player starts with.
pub fn starter_kit() -> (r: Vec<(Item, u8)>)
    ensures
        r@ == seq![
            (Item::WoodenPickaxe, 1u8),
            (Item::WoodenAxe, 1u8),
            (Item::OakSapling, 4u8),
            (Item::Dirt, 16u8),
            (Item::Bread, 8u8),
        ],
{
    let r = vec![
        (Item::WoodenPickaxe, 1u8),
        (Item::WoodenAxe, 1u8),
        (Item::OakSapling, 4u8),
        (Item::Dirt, 16u8),
        (Item::Bread, 8u8),
    ];
    assert(r@ =~= seq![
        (Item::WoodenPickaxe, 1u8),
        (Item::WoodenAxe, 1u8),
        (Item::OakSapling, 4u8),
        (Item::Dirt, 16u8),
        (Item::Bread, 8u8),
    ]);
    r
}

/// What the chest holds for each player.
pub open spec fn bonus() -> Seq<(Item, u8)> {
    seq![
        (Item::OakLog, 16u8),
        (Item::Bread, 16u8),
        (Item::IronIngot, 3u8),
        (Item::OakSapling, 4u8),
    ]
}

/// What the chest holds for each player.
fn bonus_kit() -> (r: Vec<(Item, u8)>)
    ensures
        r@ == bonus(),
{
    let r = vec![
        (Item::OakLog, 16u8),
        (Item::Bread, 16u8),
        (Item::IronIngot, 3u8),
        (Item::OakSapling, 4u8),
    ];
    assert(r@ =~= bonus());
    r
}

/// What a player gets out of the chest.
#[derive(Clone, Debug, PartialEq, Eq)]
pub struct Bonus {
    pub items: Vec<(Item, u8)>,
    pub text: &'static str,
}

/// The players who have emptied the chest already.
pub struct ChestClaims {
    pub claimed: HashSet<u64>,
}

impl View for ChestClaims {
    type V = Set<u64>;

    open spec fn view(&self) -> Set<u64> {
        self.claimed@
    }
}

/// Whether a player who clicks on the block at `pos` gets the bonus: it is the
/// chest, the player can carry things, and has not had it yet.
pub open spec fn gets_bonus(claimed: Set<u64>, player: u64, can_carry: bool, pos: IVec3) -> bool {
    pos == chest_pos() && can_carry && !claimed.contains(player)
}

impl ChestClaims {
    pub fn new() -> (r: Self)
        ensures
            r@ == Set::<u64>::empty(),
    {
        ChestClaims { claimed: HashSet::new() }
    }

    /// What the player gets who clicks on the block at `pos`.
    pub fn open_starter_chest(&mut self, player: u64, can_carry: bool, pos: IVec3) -> (r: Option<
        Bonus,
    >)
        ensures
            match r {
                Some(b) => {
                    &&& gets_bonus(old(self)@, player, can_carry, pos)
                    &&& b.items@ == bonus()
                    &&& b.items@ == seq![
                        (Item::OakLog, 16u8),
                        (Item::Bread, 16u8),
                        (Item::IronIngot, 3u8),
                        (Item::OakSapling, 4u8),
                    ]
                    &&& b.text@ == "§a你打开了开局宝箱,获得额外物资!"@
                    &&& final(self)@ == old(self)@.insert(player)
                },
                None => !gets_bonus(old(self)@, player, can_carry, pos) && final(self)@
                    == old(self)@,
            },
    {
        if pos.x != 8 || pos.y != 64 || pos.z != 8 {
            return None;
        }
        if !can_carry || self.claimed.contains(&player) {
            return None;
        }
        self.claimed.insert(player);
        Some(Bonus { items: bonus_kit(), text: "§a你打开了开局宝箱,获得额外物资!" })
    }
}

/// The players who have had the bonus after clicks on blocks, in order.
pub open spec fn claimed_after(claimed: Set<u64>, clicks: Seq<(u64, bool, IVec3)>) -> Set<u64>
    decreases clicks.len(),
{
    if clicks.len() == 0 {
        claimed
    } else {
        let before = claimed_after(claimed, clicks.drop_last());
        let (player, can_carry, pos) = clicks.last();
        if gets_bonus(before, player, can_carry, pos) {
            before.insert(player)
        } else {
            before
        }
    }
}

/// How many times a player gets the bonus with these clicks.
pub open spec fn times_given(
    claimed: Set<u64>,
    clicks: Seq<(u64, bool, IVec3)>,
    player: u64,
) -> nat
    decreases clicks.len(),
{
    if clicks.len() == 0 {
        0
    } else {
        let before = claimed_after(claimed, clicks.drop_last());
        let (who, can_carry, pos) = clicks.last();
        times_given(claimed, clicks.drop_last(), player) + if who == player && gets_bonus(
            before,
            who,
            can_carry,
            pos,
        ) {
            1nat
        } else {
            0nat
        }
    }
}

/// However often, and however fast, a player clicks, the bonus is given once.
pub proof fn law_chest_gives_once(
    claimed: Set<u64>,
    clicks: Seq<(u64, bool, IVec3)>,
    player: u64,
)
    ensures
        times_given(claimed, clicks, player) <= 1,
        claimed.contains(player) ==> times_given(claimed, clicks, player) == 0,
        claimed_after(claimed, clicks).contains(player) <==> claimed.contains(player)
            || times_given(claimed, clicks, player) == 1,
    decreases clicks.len(),
{
    if clicks.len() > 0 {
        law_chest_gives_once(claimed, clicks.drop_last(), player);
    }
}

/// The generator blocks that will grow back, each with the tick it does so in.
#[derive(Clone, Debug, PartialEq, Eq)]
pub struct Regens {
    pub pending: Vec<(IVec3, i64)>,
}

/// Those of `pending` whose time has not come in the tick `tick`.
pub open spec fn not_due(pending: Seq<(IVec3, i64)>, tick: i64) -> Seq<(IVec3, i64)>
    decreases pending.len(),
{
    if pending.len() == 0 {
        Seq::empty()
    } else if tick < pending.last().1 {
        not_due(pending.drop_last(), tick).push(pending.last())
    } else {
        not_due(pending.drop_last(), tick)
    }
}

/// What the growth of one block comes to: it is set where that is possible, and
/// then the players near it are told.
pub open spec fn regrown(
    before: Blocks,
    after: Blocks,
    sent_before: Seq<Sent>,
    sent_after: Seq<Sent>,
    pos: IVec3,
) -> bool {
    let cobble = BlockState { raw: COBBLESTONE_STATE };
    &&& set_block_outcome(before, after, pos, cobble, true)
    &&& sent_after == sent_before + match set_result(before.columns(), pos) {
        Ok(_) => update_of(pos, cobble),
        Err(_) => Seq::empty(),
    }
}

/// What a tick does to the blocks of `pending`: those whose time has come grow, in
/// order.
pub open spec fn all_regrown(
    before: Blocks,
    after: Blocks,
    sent_before: Seq<Sent>,
    sent_after: Seq<Sent>,
    pending: Seq<(IVec3, i64)>,
    tick: i64,
) -> bool
    decreases pending.len(),
{
    if pending.len() == 0 {
        after == before && sent_after == sent_before
    } else if tick < pending.last().1 {
        all_regrown(before, after, sent_before, sent_after, pending.drop_last(), tick)
    } else {
        exists|mid: Blocks, sent_mid: Seq<Sent>|
            #![trigger regrown(mid, after, sent_mid, sent_after, pending.last().0)]
            all_regrown(before, mid, sent_before, sent_mid, pending.drop_last(), tick) && regrown(
                mid,
                after,
                sent_mid,
                sent_after,
                pending.last().0,
            )
    }
}

impl Regens {
    pub fn new() -> (r: Self)
        ensures
            r.pending@.len() == 0,
    {
        Regens { pending: Vec::new() }
    }

    /// Takes note that the block at `pos` was mined in the tick `tick`.
    pub fn on_block_destroyed(&mut self, tick: i64, pos: IVec3)
        requires
            tick <= i64::MAX - REGEN_TICKS,
        ensures
            final(self).pending@ == (if pos == gen_pos() {
                old(self).pending@.push((pos, (tick + REGEN_TICKS) as i64))
            } else {
                old(self).pending@
            }),
            final(self).pending@ == (if pos.x == 12 && pos.y == 64 && pos.z == 4 {
                old(self).pending@.push((pos, (tick + 30) as i64))
            } else {
                old(self).pending@
            }),
    {
        if pos.x == 12 && pos.y == 64 && pos.z == 4 {
            self.pending.push((pos, tick + REGEN_TICKS));
        }
    }

    /// Lets the blocks grow whose time has come.
    pub fn run_regens(&mut self, blocks: &mut Blocks, tick: i64) -> (r: Vec<Outgoing>)
        requires
            old(blocks).wf(),
        ensures
            final(blocks).wf(),
            final(self).pending@ == not_due(old(self).pending@, tick),
            all_regrown(
                *old(blocks),
                *final(blocks),
                Seq::empty(),
                sent(r@),
                old(self).pending@,
                tick,
            ),
    {
        let mut out: Vec<Outgoing> = Vec::new();
        let mut rest: Vec<(IVec3, i64)> = Vec::new();
        let ghost before = *blocks;
        let ghost all = self.pending@;
        let mut i: usize = 0;
        proof {
            assert(all.take(0) =~= Seq::empty());
            assert(sent(out@) =~= Seq::empty());
        }
        while i < self.pending.len()
            invariant
                all == self.pending@,
                i <= all.len(),
                blocks.wf(),
                rest@ == not_due(all.take(i as int), tick),
                all_regrown(before, *blocks, Seq::empty(), sent(out@), all.take(i as int), tick),
            decreases all.len() - i,
        {
            let (pos, due) = self.pending[i];
            let ghost mid = *blocks;
            let ghost sent_mid = sent(out@);
            proof {
                let more = all.take(i + 1);
                assert(more.drop_last() =~= all.take(i as int));
                assert(more.last() == (pos, due));
            }
            if tick < due {
                rest.push((pos, due));
            } else {
                let cobble = BlockState::cobblestone();
                let r = blocks.set_block(pos, cobble);
                if r.is_ok() {
                    broadcast_block(&mut out, pos, cobble);
                }
                assert(sent(out@) =~= sent_mid + match set_result(mid.columns(), pos) {
                    Ok(_) => update_of(pos, cobble),
                    Err(_) => Seq::empty(),
                });
                assert(regrown(
                    mid,
                    *blocks,
                    sent_mid,
                    sent(out@),
                    all.take(i + 1).last().0,
                ));
            }
            i += 1;
        }
        assert(all.take(all.len() as int) =~= all);
        self.pending = rest;
        out
    }
}

/// A mined generator block waits for its time, and no longer: what is pending stays
/// so in every tick before its own, and from that tick on it does not. For a block
/// mined in some tick that is the thirtieth tick after it.
pub proof fn law_generator_regrows_in_time(
    pending: Seq<(IVec3, i64)>,
    entry: (IVec3, i64),
    tick: i64,
)
    ensures
        not_due(pending, tick).contains(entry) <==> pending.contains(entry) && tick < entry.1,
    decreases pending.len(),
{
    if pending.len() > 0 {
        let front = pending.drop_last();
        law_generator_regrows_in_time(front, entry, tick);
        let rest = not_due(front, tick);
        if front.contains(entry) {
            let i = choose|i: int| 0 <= i < front.len() && front[i] == entry;
            assert(pending[i] == entry);
        }
        if pending.contains(entry) && entry != pending.last() {
            let i = choose|i: int| 0 <= i < pending.len() && pending[i] == entry;
            assert(front[i] == entry);
        }
        assert(pending[pending.len() - 1] == pending.last());
        if tick < pending.last().1 {
            let more = rest.push(pending.last());
            assert(more[rest.len() as int] == pending.last());
            if rest.contains(entry) {
                let i = choose|i: int| 0 <= i < rest.len() && rest[i] == entry;
                assert(more[i] == entry);
            }
            if more.contains(entry) {
                let i = choose|i: int| 0 <= i < more.len() && more[i] == entry;
                if i < rest.len() {
                    assert(rest[i] == entry);
                }
            }
        }
    }
}

/// What grew leaves the world well formed, with the same chunks loaded, and takes no
/// kept edit away.
proof fn lemma_all_regrown(
    before: Blocks,
    after: Blocks,
    sent_before: Seq<Sent>,
    sent_after: Seq<Sent>,
    pending: Seq<(IVec3, i64)>,
    tick: i64,
)
    requires
        before.wf(),
        all_regrown(before, after, sent_before, sent_after, pending, tick),
    ensures
        after.wf(),
        keys_of(after.columns()) == keys_of(before.columns()),
        before.edits is Some ==> after.edits is Some,
    decreases pending.len(),
{
    if pending.len() > 0 {
        let front = pending.drop_last();
        if tick < pending.last().1 {
            lemma_all_regrown(before, after, sent_before, sent_after, front, tick);
        } else {
            let pos = pending.last().0;
            let (mid, sent_mid) = choose|mid: Blocks, sent_mid: Seq<Sent>|
                #![trigger regrown(mid, after, sent_mid, sent_after, pending.last().0)]
                all_regrown(before, mid, sent_before, sent_mid, front, tick) && regrown(
                    mid,
                    after,
                    sent_mid,
                    sent_after,
                    pending.last().0,
                );
            lemma_all_regrown(before, mid, sent_before, sent_mid, front, tick);
            if set_result(mid.columns(), pos) is Ok {
                lemma_keys_of_written(
                    mid.columns(),
                    after.columns(),
                    pos,
                    BlockState { raw: COBBLESTONE_STATE },
                );
            }
        }
    }
}

/// Every block whose time has come, and that can be set, is cobblestone then, and that
/// is kept, whatever was there before.
pub proof fn law_grown_blocks_are_kept(
    before: Blocks,
    after: Blocks,
    sent_before: Seq<Sent>,
    sent_after: Seq<Sent>,
    pending: Seq<(IVec3, i64)>,
    tick: i64,
    i: int,
)
    requires
        before.wf(),
        all_regrown(before, after, sent_before, sent_after, pending, tick),
        0 <= i < pending.len(),
        pending[i].1 <= tick,
        settable(before.columns(), pending[i].0),
    ensures
        block_at(after.columns(), pending[i].0) == Some(BlockState { raw: COBBLESTONE_STATE }),
        before.edits is Some ==> kept_edits(after.edits).contains_key(pending[i].0) && kept_edits(
            after.edits,
        )[pending[i].0] == (BlockState { raw: COBBLESTONE_STATE }),
    decreases pending.len(),
{
    let cobble = BlockState { raw: COBBLESTONE_STATE };
    let front = pending.drop_last();
    let at = pending[i].0;
    if tick < pending.last().1 {
        assert(front[i] == pending[i]);
        law_grown_blocks_are_kept(before, after, sent_before, sent_after, front, tick, i);
    } else {
        let pos = pending.last().0;
        let (mid, sent_mid) = choose|mid: Blocks, sent_mid: Seq<Sent>|
            #![trigger regrown(mid, after, sent_mid, sent_after, pending.last().0)]
            all_regrown(before, mid, sent_before, sent_mid, front, tick) && regrown(
                mid,
                after,
                sent_mid,
                sent_after,
                pending.last().0,
            );
        lemma_all_regrown(before, mid, sent_before, sent_mid, front, tick);
        lemma_settable_stays(before, mid, at);
        law_read_after_set(mid, after, pos, cobble, true, at);
        if i < front.len() {
            assert(front[i] == pending[i]);
            law_grown_blocks_are_kept(before, mid, sent_before, sent_mid, front, tick, i);
        }
    }
}

/// What is still pending are those whose tick is to come, in the order they had.
pub proof fn law_pending_blocks_keep_their_order(pending: Seq<(IVec3, i64)>, tick: i64)
    ensures
        not_due(pending, tick) == pending.filter(|e: (IVec3, i64)| tick < e.1),
    decreases pending.len(),
{
    reveal(Seq::filter);
    if pending.len() > 0 {
        law_pending_blocks_keep_their_order(pending.drop_last(), tick);
    }
}

/// Nothing grows before its time or elsewhere: a block that none of the due ones stands for
/// is as it was.
pub proof fn law_only_due_blocks_grow(
    before: Blocks,
    after: Blocks,
    sent_before: Seq<Sent>,
    sent_after: Seq<Sent>,
    pending: Seq<(IVec3, i64)>,
    tick: i64,
    pos: IVec3,
)
    requires
        before.wf(),
        all_regrown(before, after, sent_before, sent_after, pending, tick),
        forall|i: int|
            0 <= i < pending.len() && (#[trigger] pending[i]).1 <= tick ==> !same_block(
                pending[i].0,
                pos,
            ),
    ensures
        block_at(after.columns(), pos) == block_at(before.columns(), pos),
    decreases pending.len(),
{
    if pending.len() > 0 {
        let front = pending.drop_last();
        assert forall|i: int|
            0 <= i < front.len() && (#[trigger] front[i]).1 <= tick implies !same_block(
            front[i].0,
            pos,
        ) by {
            assert(front[i] == pending[i]);
        }
        if tick < pending.last().1 {
            law_only_due_blocks_grow(before, after, sent_before, sent_after, front, tick, pos);
        } else {
            let (mid, sent_mid) = choose|mid: Blocks, sent_mid: Seq<Sent>|
                #![trigger regrown(mid, after, sent_mid, sent_after, pending.last().0)]
                all_regrown(before, mid, sent_before, sent_mid, front, tick) && regrown(
                    mid,
                    after,
                    sent_mid,
                    sent_after,
                    pending.last().0,
                );
            law_only_due_blocks_grow(before, mid, sent_before, sent_mid, front, tick, pos);
            lemma_all_regrown(before, mid, sent_before, sent_mid, front, tick);
            assert(pending[pending.len() - 1] == pending.last());
            law_read_after_set(
                mid,
                after,
                pending.last().0,
                BlockState { raw: COBBLESTONE_STATE },
                true,
                pos,
            );
        }
    }
}

/// The players near are told of every block that grows: what is sent is the news of just
/// those whose time has come and that can be set, one after the other.
pub proof fn law_growth_is_told(
    before: Blocks,
    after: Blocks,
    sent_before: Seq<Sent>,
    sent_after: Seq<Sent>,
    pending: Seq<(IVec3, i64)>,
    tick: i64,
)
    requires
        before.wf(),
        all_regrown(before, after, sent_before, sent_after, pending, tick),
    ensures
        sent_after == sent_before + pending.map_values(
            |e: (IVec3, i64)|
                if e.1 <= tick && set_result(before.columns(), e.0) is Ok {
                    update_of(e.0, BlockState { raw: COBBLESTONE_STATE })
                } else {
                    Seq::empty()
                },
        ).flatten(),
    decreases pending.len(),
{
    let cobble = BlockState { raw: COBBLESTONE_STATE };
    let news = |e: (IVec3, i64)|
        if e.1 <= tick && set_result(before.columns(), e.0) is Ok {
            update_of(e.0, cobble)
        } else {
            Seq::<Sent>::empty()
        };
    let all = pending.map_values(news);
    if pending.len() > 0 {
        let front = pending.drop_last();
        let fewer = front.map_values(news);
        assert(all =~= fewer.push(news(pending.last())));
        fewer.lemma_flatten_push(news(pending.last()));
        if tick < pending.last().1 {
            law_growth_is_told(before, after, sent_before, sent_after, front, tick);
            assert(all.flatten() =~= fewer.flatten());
        } else {
            let at = pending.last().0;
            let (mid, sent_mid) = choose|mid: Blocks, sent_mid: Seq<Sent>|
                #![trigger regrown(mid, after, sent_mid, sent_after, pending.last().0)]
                all_regrown(before, mid, sent_before, sent_mid, front, tick) && regrown(
                    mid,
                    after,
                    sent_mid,
                    sent_after,
                    pending.last().0,
                );
            law_growth_is_told(before, mid, sent_before, sent_mid, front, tick);
            lemma_all_regrown(before, mid, sent_before, sent_mid, front, tick);
            lemma_settable_stays(before, mid, at);
            law_settable_blocks_are_the_loaded_ones(before.columns(), at);
            law_settable_blocks_are_the_loaded_ones(mid.columns(), at);
            assert(sent_after =~= sent_before + all.flatten());
        }
    } else {
        assert(all =~= Seq::empty());
        assert(sent_after =~= sent_before + all.flatten());
    }
}

/// A player who can carry it and has not had it gets the bonus with the first click on the
/// chest, whoever clicked before.
pub proof fn law_first_click_on_the_chest_gives(
    claimed: Set<u64>,
    clicks: Seq<(u64, bool, IVec3)>,
    player: u64,
)
    requires
        !claimed.contains(player),
    ensures
        times_given(claimed, clicks, player) == 1 <==> exists|i: int|
            0 <= i < clicks.len() && #[trigger] clicks[i] == (player, true, IVec3 { x: 8, y: 64, z: 8 }),
    decreases clicks.len(),
{
    let click = (player, true, IVec3 { x: 8, y: 64, z: 8 });
    law_chest_gives_once(claimed, clicks, player);
    if clicks.len() > 0 {
        let front = clicks.drop_last();
        law_first_click_on_the_chest_gives(claimed, front, player);
        law_chest_gives_once(claimed, front, player);
        assert(clicks[clicks.len() - 1] == clicks.last());
        if exists|i: int| 0 <= i < front.len() && #[trigger] front[i] == click {
            let i = choose|i: int| 0 <= i < front.len() && #[trigger] front[i] == click;
            assert(clicks[i] == click);
        }
        if exists|i: int| 0 <= i < clicks.len() && #[trigger] clicks[i] == click {
            let i = choose|i: int| 0 <= i < clicks.len() && #[trigger] clicks[i] == click;
            if i < front.len() {
                assert(front[i] == click);
            }
        }
    }
}

} // verus!
