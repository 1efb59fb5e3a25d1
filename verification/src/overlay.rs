//! The overlay of block edits on top of the read-only base world, keyed by chunk
//! for fast replay.

use std::collections::HashMap;

use vstd::prelude::*;
use vstd::std_specs::iter::IteratorSpec;

use crate::block::{BlockState, MAX_STATE};
use crate::pos::{
    chunk_at, chunk_code, chunk_of, code_pos, lemma_chunk_code_injective, lemma_pos_code_round_trip,
    pack_chunk, pack_pos, pos_code, unpack_pos, I16Vec2, IVec3,
};

verus! {

broadcast use vstd::std_specs::hash::group_hash_axioms;

/// `recs` holds every edit of `edits` once, and nothing else.
pub open spec fn is_listing(edits: Map<IVec3, BlockState>, recs: Seq<(IVec3, BlockState)>) -> bool {
    &&& forall|i: int|
        0 <= i < recs.len() ==> edits.contains_key(#[trigger] recs[i].0) && edits[recs[i].0]
            == recs[i].1
    &&& forall|p: IVec3| #[trigger]
        edits.contains_key(p) ==> exists|i: int| 0 <= i < recs.len() && #[trigger] recs[i].0 == p
    &&& forall|i: int, j: int|
        0 <= i < j < recs.len() ==> #[trigger] recs[i].0 != #[trigger] recs[j].0
}

/// `edits` after the writes `recs`, in order: the latest write of a position wins.
pub open spec fn applied(edits: Map<IVec3, BlockState>, recs: Seq<(IVec3, BlockState)>) -> Map<
    IVec3,
    BlockState,
>
    decreases recs.len(),
{
    if recs.len() == 0 {
        edits
    } else {
        applied(edits, recs.drop_last()).insert(recs.last().0, recs.last().1)
    }
}

/// Writing distinct positions into an empty overlay leaves exactly those.
proof fn lemma_applied_distinct(recs: Seq<(IVec3, BlockState)>)
    requires
        forall|i: int, j: int|
            0 <= i < j < recs.len() ==> #[trigger] recs[i].0 != #[trigger] recs[j].0,
    ensures
        forall|i: int|
            0 <= i < recs.len() ==> applied(Map::empty(), recs).contains_key(#[trigger] recs[i].0)
                && applied(Map::empty(), recs)[recs[i].0] == recs[i].1,
        forall|p: IVec3| #[trigger]
            applied(Map::empty(), recs).contains_key(p) ==> exists|i: int|
                0 <= i < recs.len() && #[trigger] recs[i].0 == p,
    decreases recs.len(),
{
    if recs.len() > 0 {
        let front = recs.drop_last();
        lemma_applied_distinct(front);
        assert forall|i: int| 0 <= i < recs.len() implies applied(
            Map::empty(),
            recs,
        ).contains_key(#[trigger] recs[i].0) && applied(Map::empty(), recs)[recs[i].0]
            == recs[i].1 by {
            if i < front.len() {
                assert(front[i] == recs[i]);
            }
        }
        assert forall|p: IVec3| #[trigger]
            applied(Map::empty(), recs).contains_key(p) implies exists|i: int|
            0 <= i < recs.len() && #[trigger] recs[i].0 == p by {
            if p == recs.last().0 {
                assert(recs[recs.len() - 1].0 == p);
            } else {
                assert(applied(Map::empty(), front).contains_key(p));
                let i = choose|i: int| 0 <= i < front.len() && #[trigger] front[i].0 == p;
                assert(recs[i].0 == p);
            }
        }
    }
}

/// Writing a listing of `edits` into an empty overlay gives `edits` back.
pub proof fn lemma_listing_rebuilds(edits: Map<IVec3, BlockState>, recs: Seq<(IVec3, BlockState)>)
    requires
        is_listing(edits, recs),
    ensures
        applied(Map::empty(), recs) == edits,
{
    lemma_applied_distinct(recs);
    let rebuilt = applied(Map::empty(), recs);
    assert forall|p: IVec3| #[trigger] rebuilt.contains_key(p) implies edits.contains_key(p)
        && rebuilt[p] == edits[p] by {
        let i = choose|i: int| 0 <= i < recs.len() && #[trigger] recs[i].0 == p;
        assert(recs[i].0 == p);
    }
    assert forall|p: IVec3| #[trigger] edits.contains_key(p) implies rebuilt.contains_key(p) by {
        let i = choose|i: int| 0 <= i < recs.len() && #[trigger] recs[i].0 == p;
        assert(recs[i].0 == p);
    }
    assert(rebuilt =~= edits);
}

/// The edits of one chunk.
pub struct ChunkEdits {
    pub map: HashMap<u128, u16>,
}

impl View for ChunkEdits {
    type V = Map<IVec3, BlockState>;

    open spec fn view(&self) -> Map<IVec3, BlockState> {
        Map::new(
            |p: IVec3| self.map@.contains_key(pos_code(p)),
            |p: IVec3| BlockState { raw: self.map@[pos_code(p)] },
        )
    }
}

impl ChunkEdits {
    /// Every key stands for a position, and every value for a state of the table.
    pub open spec fn wf(&self) -> bool {
        forall|code: u128| #[trigger]
            self.map@.contains_key(code) ==> code < 0x1_0000_0000_0000_0000_0000_0000
                && self.map@[code] <= MAX_STATE
    }

    pub fn new() -> (r: Self)
        ensures
            r.wf(),
            r@ == Map::<IVec3, BlockState>::empty(),
    {
        let r = ChunkEdits { map: HashMap::new() };
        assert(r@ =~= Map::<IVec3, BlockState>::empty());
        r
    }

    /// Writes one edit over what was recorded for its position.
    pub fn insert(&mut self, pos: IVec3, state: BlockState)
        requires
            old(self).wf(),
            state.valid(),
        ensures
            final(self).wf(),
            final(self)@ == old(self)@.insert(pos, state),
    {
        self.map.insert(pack_pos(pos), state.raw);
        proof {
            lemma_pos_code_round_trip(pos);
            assert forall|p: IVec3| pos_code(p) == pos_code(pos) implies p == pos by {
                lemma_pos_code_round_trip(p);
            }
            assert(self@ =~= old(self)@.insert(pos, state));
        }
    }

    /// What was recorded for `pos`.
    pub fn get(&self, pos: IVec3) -> (r: Option<BlockState>)
        requires
            self.wf(),
        ensures
            r == (if self@.contains_key(pos) {
                Some(self@[pos])
            } else {
                None
            }),
    {
        let code: u128 = pack_pos(pos);
        match self.map.get(&code) {
            Some(raw) => Some(BlockState { raw: *raw }),
            None => None,
        }
    }

    pub fn is_empty(&self) -> (r: bool)
        requires
            self.wf(),
        ensures
            r == (self@ == Map::<IVec3, BlockState>::empty()),
    {
        let r = self.map.is_empty();
        proof {
            if r {
                assert(self@ =~= Map::<IVec3, BlockState>::empty());
            } else {
                let code = choose|code: u128| self.map@.contains_key(code);
                assert(self.map@.dom().contains(code)) by {
                    if forall|c: u128| !self.map@.dom().contains(c) {
                        assert(self.map@ =~= Map::<u128, u16>::empty());
                    }
                }
                lemma_code_round_trip(code);
                assert(self@.contains_key(code_pos(code)));
            }
        }
        r
    }

    /// The edits, each once, in whatever order the map hands them out.
    pub fn entries(&self) -> (r: Vec<(IVec3, BlockState)>)
        requires
            self.wf(),
        ensures
            is_listing(self@, r@),
    {
        let mut r: Vec<(IVec3, BlockState)> = Vec::new();
        let ghost all = self.map.iter().remaining();
        for (code, raw) in it: self.map.iter()
            invariant
                self.wf(),
                it.seq() == all,
                all.no_duplicates(),
                forall|i: int|
                    0 <= i < all.len() ==> self.map@.contains_key(*(#[trigger] all[i]).0)
                        && self.map@[*all[i].0] == *all[i].1,
                r@.len() == it.index(),
                forall|i: int|
                    0 <= i < r@.len() ==> (#[trigger] r@[i]).0 == code_pos(*all[i].0) && r@[i].1.raw
                        == *all[i].1,
        {
            assert(all[it.index()] == (code, raw));
            r.push((unpack_pos(*code), BlockState { raw: *raw }));
        }
        proof {
            lemma_entries(*self, all, r@);
        }
        r
    }
}

/// A number below 2^96 stands for exactly one position.
proof fn lemma_code_round_trip(code: u128)
    requires
        code < 0x1_0000_0000_0000_0000_0000_0000,
    ensures
        pos_code(code_pos(code)) == code,
{
}

/// What the map hands out, read as positions and states, lists its edits.
proof fn lemma_entries(edits: ChunkEdits, all: Seq<(&u128, &u16)>, recs: Seq<(IVec3, BlockState)>)
    requires
        edits.wf(),
        all.no_duplicates(),
        forall|i: int|
            0 <= i < all.len() ==> edits.map@.contains_key(*(#[trigger] all[i]).0)
                && edits.map@[*all[i].0] == *all[i].1,
        forall|k: u128| #[trigger] edits.map@.contains_key(k) ==> all.contains((&k, &edits.map@[k])),
        recs.len() == all.len(),
        forall|i: int|
            0 <= i < recs.len() ==> (#[trigger] recs[i]).0 == code_pos(*all[i].0) && recs[i].1.raw
                == *all[i].1,
    ensures
        is_listing(edits@, recs),
{
    assert forall|i: int| 0 <= i < recs.len() implies edits@.contains_key(#[trigger] recs[i].0)
        && edits@[recs[i].0] == recs[i].1 by {
        lemma_code_round_trip(*all[i].0);
    }
    assert forall|p: IVec3| #[trigger] edits@.contains_key(p) implies exists|i: int|
        0 <= i < recs.len() && #[trigger] recs[i].0 == p by {
        let k = pos_code(p);
        assert(edits.map@.contains_key(k));
        let i = choose|i: int| 0 <= i < all.len() && all[i] == (&k, &edits.map@[k]);
        lemma_pos_code_round_trip(p);
        assert(recs[i].0 == p);
    }
    assert forall|i: int, j: int| 0 <= i < j < recs.len() implies #[trigger] recs[i].0
        != #[trigger] recs[j].0 by {
        lemma_code_round_trip(*all[i].0);
        lemma_code_round_trip(*all[j].0);
        if recs[i].0 == recs[j].0 {
            assert(*all[i].0 == *all[j].0);
            assert(*all[i].1 == *all[j].1);
            assert(all[i] == all[j]);
        }
    }
}

/// Block edits, grouped by the chunk they lie in.
pub struct Overlay {
    pub by_chunk: HashMap<u32, ChunkEdits>,
}

impl View for Overlay {
    type V = Map<IVec3, BlockState>;

    open spec fn view(&self) -> Map<IVec3, BlockState> {
        Map::new(
            |p: IVec3| self.has(p),
            |p: IVec3| self.by_chunk@[chunk_code(chunk_at(p))]@[p],
        )
    }
}

impl Overlay {
    /// Whether an edit of the block at `p` is recorded.
    pub open spec fn has(&self, p: IVec3) -> bool {
        self.by_chunk@.contains_key(chunk_code(chunk_at(p))) && self.by_chunk@[chunk_code(
            chunk_at(p),
        )]@.contains_key(p)
    }

    /// The edits of each chunk are well formed and lie in that chunk.
    pub open spec fn wf(&self) -> bool {
        forall|k: u32| #[trigger]
            self.by_chunk@.contains_key(k) ==> self.by_chunk@[k].wf() && forall|p: IVec3| #[trigger]
                self.by_chunk@[k]@.contains_key(p) ==> chunk_code(chunk_at(p)) == k
    }

    pub fn new() -> (r: Self)
        ensures
            r.wf(),
            r@ == Map::<IVec3, BlockState>::empty(),
    {
        let r = Overlay { by_chunk: HashMap::new() };
        assert(r@ =~= Map::<IVec3, BlockState>::empty());
        r
    }

    /// Writes one edit over what was recorded for its position.
    pub fn insert(&mut self, pos: IVec3, state: BlockState)
        requires
            old(self).wf(),
            state.valid(),
        ensures
            final(self).wf(),
            final(self)@ == old(self)@.insert(pos, state),
    {
        let key: u32 = pack_chunk(chunk_of(pos));
        let edits = self.by_chunk.entry(key).or_insert(ChunkEdits::new());
        edits.insert(pos, state);
        assert(self@ =~= old(self)@.insert(pos, state));
    }

    /// The edits of the chunk `chunk`, if any were ever recorded there.
    pub fn for_chunk(&self, chunk: I16Vec2) -> (r: Option<&ChunkEdits>)
        requires
            self.wf(),
        ensures
            match r {
                Some(edits) => edits.wf() && edits@ == self@.restrict(
                    Set::new(|p: IVec3| chunk_at(p) == chunk),
                ),
                None => forall|p: IVec3| self@.contains_key(p) ==> #[trigger] chunk_at(p) != chunk,
            },
    {
        let key: u32 = pack_chunk(chunk);
        let r = self.by_chunk.get(&key);
        proof {
            assert forall|p: IVec3| #[trigger] chunk_code(chunk_at(p)) == key implies chunk_at(p)
                == chunk by {
                lemma_chunk_code_injective(chunk_at(p), chunk);
            }
            if let Some(edits) = r {
                assert(edits@ =~= self@.restrict(Set::new(|p: IVec3| chunk_at(p) == chunk)));
            }
        }
        r
    }

    /// All edits, each once, in whatever order the maps hand them out.
    pub fn entries(&self) -> (r: Vec<(IVec3, BlockState)>)
        requires
            self.wf(),
        ensures
            is_listing(self@, r@),
    {
        let mut r: Vec<(IVec3, BlockState)> = Vec::new();
        let ghost all = self.by_chunk.iter().remaining();
        for (key, edits) in it: self.by_chunk.iter()
            invariant
                self.wf(),
                it.seq() == all,
                all.no_duplicates(),
                forall|i: int|
                    0 <= i < all.len() ==> self.by_chunk@.contains_key(*(#[trigger] all[i]).0)
                        && self.by_chunk@[*all[i].0] == *all[i].1,
                lists_chunks(*self, all.take(it.index()), r@),
        {
            let ghost seen = all.take(it.index());
            let ghost before = r@;
            assert(all[it.index()] == (key, edits));
            let mut more = edits.entries();
            let ghost listed = more@;
            r.append(&mut more);
            proof {
                assert(all.take(it.index() + 1) =~= seen.push((key, edits)));
                assert forall|i: int| 0 <= i < seen.len() implies *(#[trigger] seen[i]).0 != *key by {
                    assert(seen[i] == all[i]);
                }
                lemma_one_more_chunk(*self, seen, key, edits, before, listed);
            }
        }
        proof {
            assert(all.take(all.len() as int) =~= all);
            lemma_all_chunks(*self, all, r@);
        }
        r
    }
}

/// `recs` lists the edits of the chunks in `seen`.
spec fn lists_chunks(
    overlay: Overlay,
    seen: Seq<(&u32, &ChunkEdits)>,
    recs: Seq<(IVec3, BlockState)>,
) -> bool {
    &&& forall|i: int|
        0 <= i < recs.len() ==> overlay@.contains_key(#[trigger] recs[i].0)
            && overlay@[recs[i].0] == recs[i].1 && exists|k: int|
            0 <= k < seen.len() && *(#[trigger] seen[k]).0 == chunk_code(chunk_at(recs[i].0))
    &&& forall|p: IVec3, k: int|
        overlay@.contains_key(p) && 0 <= k < seen.len() && *(#[trigger] seen[k]).0 == #[trigger] chunk_code(
            chunk_at(p),
        ) ==> exists|i: int| 0 <= i < recs.len() && #[trigger] recs[i].0 == p
    &&& forall|i: int, j: int|
        0 <= i < j < recs.len() ==> #[trigger] recs[i].0 != #[trigger] recs[j].0
}

/// Appending the listing of a chunk not seen so far lists one more chunk.
proof fn lemma_one_more_chunk(
    overlay: Overlay,
    seen: Seq<(&u32, &ChunkEdits)>,
    key: &u32,
    edits: &ChunkEdits,
    before: Seq<(IVec3, BlockState)>,
    more: Seq<(IVec3, BlockState)>,
)
    requires
        overlay.wf(),
        overlay.by_chunk@.contains_key(*key),
        overlay.by_chunk@[*key] == *edits,
        forall|i: int| 0 <= i < seen.len() ==> *(#[trigger] seen[i]).0 != *key,
        lists_chunks(overlay, seen, before),
        is_listing(edits@, more),
    ensures
        lists_chunks(overlay, seen.push((key, edits)), before + more),
{
    let after = seen.push((key, edits));
    let recs = before + more;
    assert(after[seen.len() as int] == (key, edits));
    assert forall|i: int| 0 <= i < recs.len() implies overlay@.contains_key(#[trigger] recs[i].0)
        && overlay@[recs[i].0] == recs[i].1 && exists|k: int|
        0 <= k < after.len() && *(#[trigger] after[k]).0 == chunk_code(chunk_at(recs[i].0)) by {
        if i < before.len() {
            assert(recs[i] == before[i]);
            let k = choose|k: int|
                0 <= k < seen.len() && *(#[trigger] seen[k]).0 == chunk_code(
                    chunk_at(before[i].0),
                );
            assert(after[k] == seen[k]);
        } else {
            let m = more[i - before.len()];
            assert(recs[i] == m);
            assert(edits@.contains_key(m.0));
            assert(*(after[seen.len() as int]).0 == chunk_code(chunk_at(m.0)));
        }
    }
    assert forall|p: IVec3, k: int|
        overlay@.contains_key(p) && 0 <= k < after.len() && *(#[trigger] after[k]).0
            == #[trigger] chunk_code(chunk_at(p)) implies exists|i: int|
        0 <= i < recs.len() && #[trigger] recs[i].0 == p by {
        if k < seen.len() {
            assert(after[k] == seen[k]);
            let i = choose|i: int| 0 <= i < before.len() && #[trigger] before[i].0 == p;
            assert(recs[i].0 == p);
        } else {
            assert(edits@.contains_key(p));
            let i = choose|i: int| 0 <= i < more.len() && #[trigger] more[i].0 == p;
            assert(recs[before.len() + i].0 == p);
        }
    }
    assert forall|i: int, j: int| 0 <= i < j < recs.len() implies #[trigger] recs[i].0
        != #[trigger] recs[j].0 by {
        if j < before.len() {
            assert(recs[i] == before[i] && recs[j] == before[j]);
        } else if i >= before.len() {
            assert(recs[i] == more[i - before.len()] && recs[j] == more[j - before.len()]);
        } else {
            assert(recs[i] == before[i]);
            let m = more[j - before.len()];
            assert(recs[j] == m);
            assert(edits@.contains_key(m.0));
            let k = choose|k: int|
                0 <= k < seen.len() && *(#[trigger] seen[k]).0 == chunk_code(
                    chunk_at(before[i].0),
                );
        }
    }
}

/// A listing of all chunks lists the whole overlay.
proof fn lemma_all_chunks(
    overlay: Overlay,
    all: Seq<(&u32, &ChunkEdits)>,
    recs: Seq<(IVec3, BlockState)>,
)
    requires
        lists_chunks(overlay, all, recs),
        forall|k: u32| #[trigger]
            overlay.by_chunk@.contains_key(k) ==> all.contains((&k, &overlay.by_chunk@[k])),
    ensures
        is_listing(overlay@, recs),
{
    assert forall|p: IVec3| #[trigger] overlay@.contains_key(p) implies exists|i: int|
        0 <= i < recs.len() && #[trigger] recs[i].0 == p by {
        let key = chunk_code(chunk_at(p));
        assert(overlay.by_chunk@.contains_key(key));
        let k = choose|k: int| 0 <= k < all.len() && all[k] == (&key, &overlay.by_chunk@[key]);
        assert(*all[k].0 == key);
    }
}

/// What the writes leave at a position is the last of them there, or what was there before
/// any of them.
pub proof fn law_last_write_of_a_position_stays(
    edits: Map<IVec3, BlockState>,
    recs: Seq<(IVec3, BlockState)>,
    p: IVec3,
)
    ensures
        (forall|i: int| 0 <= i < recs.len() ==> (#[trigger] recs[i]).0 != p) ==> (applied(
            edits,
            recs,
        ).contains_key(p) <==> edits.contains_key(p)) && applied(edits, recs)[p] == edits[p],
        forall|i: int|
            0 <= i < recs.len() && (#[trigger] recs[i]).0 == p && (forall|j: int|
                i < j < recs.len() ==> (#[trigger] recs[j]).0 != p) ==> applied(
                edits,
                recs,
            ).contains_key(p) && applied(edits, recs)[p] == recs[i].1,
    decreases recs.len(),
{
    if recs.len() > 0 {
        let front = recs.drop_last();
        law_last_write_of_a_position_stays(edits, front, p);
        assert(recs[recs.len() - 1] == recs.last());
        if forall|i: int| 0 <= i < recs.len() ==> (#[trigger] recs[i]).0 != p {
            assert forall|i: int| 0 <= i < front.len() implies (#[trigger] front[i]).0 != p by {
                assert(front[i] == recs[i]);
            }
        }
        assert forall|i: int|
            0 <= i < recs.len() && (#[trigger] recs[i]).0 == p && (forall|j: int|
                i < j < recs.len() ==> (#[trigger] recs[j]).0 != p) implies applied(
            edits,
            recs,
        ).contains_key(p) && applied(edits, recs)[p] == recs[i].1 by {
            if i < front.len() {
                assert(front[i] == recs[i]);
                assert forall|j: int| i < j < front.len() implies (#[trigger] front[j]).0 != p by {
                    assert(front[j] == recs[j]);
                }
            }
        }
    }
}

} // verus!
