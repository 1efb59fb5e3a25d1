//! Persistence of block edits as an overlay on the read-only base world.
//!
//! The base world is never modified. Every persistent block change made at run
//! time is recorded here, and from time to time the whole overlay is written out
//! as one snapshot:
//!
//! * the eight bytes `HYPEDIT1`,
//! * the number of records, as eight bytes,
//! * for each record `x`, `y` and `z`, as four bytes each, and the number of the
//!   block state, as two bytes.
//!
//! All numbers are little-endian. When the server starts, the snapshot is read
//! back, and its edits are replayed onto each chunk as it loads.

use vstd::prelude::*;

use crate::block::{BlockState, MAX_STATE};
use crate::le::{
    i32_at, lemma_u16_round_trip, lemma_u32_round_trip, lemma_u64_round_trip, push_i32, push_u16,
    push_u64, read_i32, read_u16, read_u64, u16_at, u16_bytes, u32_bytes, u64_at, u64_bytes,
};
use crate::overlay::{applied, is_listing, lemma_listing_rebuilds, ChunkEdits, Overlay};
use crate::pos::{chunk_at, I16Vec2, IVec3};

verus! {

/// How many bytes stand before the records: the magic and their number.
pub const HEADER: usize = 16;

/// How many bytes a record has.
pub const RECORD: usize = 14;

/// The bytes that every snapshot starts with, `HYPEDIT1`.
pub open spec fn magic() -> Seq<u8> {
    seq![0x48, 0x59, 0x50, 0x45, 0x44, 0x49, 0x54, 0x31]
}

/// Whether a snapshot starts as it should.
pub open spec fn has_header(buf: Seq<u8>) -> bool {
    buf.len() >= 16 && buf.take(8) == magic()
}

/// How many records a snapshot holds in full: as many as it says, unless it was
/// cut short.
pub open spec fn records_in(buf: Seq<u8>) -> int {
    let told = u64_at(buf, 8);
    let room = (buf.len() - 16) / 14;
    if told <= room {
        told
    } else {
        room
    }
}

/// The position that record `i` speaks of.
pub open spec fn record_pos(buf: Seq<u8>, i: int) -> IVec3 {
    IVec3 {
        x: i32_at(buf, 16 + 14 * i) as i32,
        y: i32_at(buf, 20 + 14 * i) as i32,
        z: i32_at(buf, 24 + 14 * i) as i32,
    }
}

/// The number of the block state that record `i` speaks of.
pub open spec fn record_raw(buf: Seq<u8>, i: int) -> u16 {
    u16_at(buf, 28 + 14 * i) as u16
}

/// The edits that the first `n` records stand for, leaving out those whose block
/// state does not exist.
pub open spec fn decoded_up_to(buf: Seq<u8>, n: int) -> Seq<(IVec3, BlockState)>
    decreases n,
{
    if n <= 0 {
        Seq::empty()
    } else if record_raw(buf, n - 1) <= MAX_STATE {
        decoded_up_to(buf, n - 1).push(
            (record_pos(buf, n - 1), BlockState { raw: record_raw(buf, n - 1) }),
        )
    } else {
        decoded_up_to(buf, n - 1)
    }
}

/// The edits that a snapshot holds, in order. One without a header holds none.
pub open spec fn decoded(buf: Seq<u8>) -> Seq<(IVec3, BlockState)> {
    if has_header(buf) {
        decoded_up_to(buf, records_in(buf))
    } else {
        Seq::empty()
    }
}

/// One edit as a record.
pub open spec fn record_bytes(rec: (IVec3, BlockState)) -> Seq<u8> {
    u32_bytes(rec.0.x as int) + u32_bytes(rec.0.y as int) + u32_bytes(rec.0.z as int) + u16_bytes(
        rec.1.raw as int,
    )
}

/// Edits as records, one after the other.
pub open spec fn records_bytes(recs: Seq<(IVec3, BlockState)>) -> Seq<u8>
    decreases recs.len(),
{
    if recs.len() == 0 {
        Seq::empty()
    } else {
        records_bytes(recs.drop_last()) + record_bytes(recs.last())
    }
}

/// Edits as a snapshot.
pub open spec fn encoded(recs: Seq<(IVec3, BlockState)>) -> Seq<u8> {
    magic() + u64_bytes(recs.len() as int) + records_bytes(recs)
}

/// `buf` is a snapshot of `edits`: it lists each of them once, in some order.
pub open spec fn snapshot_of(edits: Map<IVec3, BlockState>, buf: Seq<u8>) -> bool {
    exists|recs: Seq<(IVec3, BlockState)>| #[trigger]
        is_listing(edits, recs) && recs.len() <= u64::MAX && buf == encoded(recs)
}

proof fn lemma_records_len(recs: Seq<(IVec3, BlockState)>)
    ensures
        records_bytes(recs).len() == 14 * recs.len(),
    decreases recs.len(),
{
    if recs.len() > 0 {
        lemma_records_len(recs.drop_last());
    }
}

/// Record `i` stands fourteen bytes behind the one before it.
proof fn lemma_record_at(recs: Seq<(IVec3, BlockState)>, i: int)
    requires
        0 <= i < recs.len(),
    ensures
        records_bytes(recs).len() == 14 * recs.len(),
        records_bytes(recs).subrange(14 * i, 14 * i + 14) == record_bytes(recs[i]),
    decreases recs.len(),
{
    lemma_records_len(recs);
    let front = recs.drop_last();
    lemma_records_len(front);
    let whole = records_bytes(recs);
    if i == recs.len() - 1 {
        assert(whole.subrange(14 * i, 14 * i + 14) =~= record_bytes(recs[i]));
    } else {
        lemma_record_at(front, i);
        assert(front[i] == recs[i]);
        assert(whole.subrange(14 * i, 14 * i + 14) =~= records_bytes(front).subrange(
            14 * i,
            14 * i + 14,
        ));
    }
}

/// Where `buf` holds the record of an edit, reading it gives the edit back.
proof fn lemma_read_record(buf: Seq<u8>, at: int, rec: (IVec3, BlockState))
    requires
        0 <= at,
        at + 14 <= buf.len(),
        buf.subrange(at, at + 14) == record_bytes(rec),
    ensures
        i32_at(buf, at) == rec.0.x,
        i32_at(buf, at + 4) == rec.0.y,
        i32_at(buf, at + 8) == rec.0.z,
        u16_at(buf, at + 12) == rec.1.raw,
{
    let s = buf.subrange(at, at + 14);
    assert(buf.subrange(at, at + 4) =~= s.subrange(0, 4));
    assert(s.subrange(0, 4) =~= u32_bytes(rec.0.x as int));
    assert(buf.subrange(at + 4, at + 8) =~= s.subrange(4, 8));
    assert(s.subrange(4, 8) =~= u32_bytes(rec.0.y as int));
    assert(buf.subrange(at + 8, at + 12) =~= s.subrange(8, 12));
    assert(s.subrange(8, 12) =~= u32_bytes(rec.0.z as int));
    assert(buf.subrange(at + 12, at + 14) =~= s.subrange(12, 14));
    assert(s.subrange(12, 14) =~= u16_bytes(rec.1.raw as int));
    lemma_u32_round_trip(buf, at, rec.0.x as int);
    lemma_u32_round_trip(buf, at + 4, rec.0.y as int);
    lemma_u32_round_trip(buf, at + 8, rec.0.z as int);
    lemma_u16_round_trip(buf, at + 12, rec.1.raw as int);
}

/// Record `i` of a snapshot is that of the edit that was written there.
proof fn lemma_encoded_record(recs: Seq<(IVec3, BlockState)>, i: int)
    requires
        0 <= i < recs.len(),
    ensures
        record_pos(encoded(recs), i) == recs[i].0,
        record_raw(encoded(recs), i) == recs[i].1.raw,
{
    let header = magic() + u64_bytes(recs.len() as int);
    let body = records_bytes(recs);
    let at = 16 + 14 * i;
    lemma_record_at(recs, i);
    assert(header.len() == 16);
    lemma_behind_header(header, body, 14 * i);
    lemma_read_record(header + body, at, recs[i]);
}

proof fn lemma_behind_header(header: Seq<u8>, body: Seq<u8>, at: int)
    requires
        header.len() == 16,
        0 <= at,
        at + 14 <= body.len(),
    ensures
        (header + body).subrange(16 + at, 16 + at + 14) == body.subrange(at, at + 14),
{
    assert((header + body).subrange(16 + at, 16 + at + 14) =~= body.subrange(at, at + 14));
}

proof fn lemma_decoded_prefix(recs: Seq<(IVec3, BlockState)>, n: int)
    requires
        0 <= n <= recs.len(),
        forall|i: int| 0 <= i < recs.len() ==> (#[trigger] recs[i]).1.valid(),
    ensures
        decoded_up_to(encoded(recs), n) == recs.take(n),
    decreases n,
{
    if n > 0 {
        lemma_decoded_prefix(recs, n - 1);
        lemma_encoded_record(recs, n - 1);
        assert(recs[n - 1].1.valid());
        assert(recs.take(n) =~= recs.take(n - 1).push(recs[n - 1]));
    } else {
        assert(recs.take(0) =~= Seq::empty());
    }
}

/// A snapshot gives back the edits that were written into it, in order.
pub proof fn law_decoded_encoded(recs: Seq<(IVec3, BlockState)>)
    requires
        recs.len() <= u64::MAX,
        forall|i: int| 0 <= i < recs.len() ==> (#[trigger] recs[i]).1.valid(),
    ensures
        decoded(encoded(recs)) == recs,
{
    let buf = encoded(recs);
    lemma_records_len(recs);
    assert(buf.take(8) =~= magic());
    assert(buf.subrange(8, 16) =~= u64_bytes(recs.len() as int));
    lemma_u64_round_trip(buf, 8, recs.len() as int);
    lemma_decoded_prefix(recs, recs.len() as int);
    assert(recs.take(recs.len() as int) =~= recs);
}

/// A snapshot that lists the edits of an overlay gives that overlay back when it
/// is read into an empty one: edits survive a restart.
pub proof fn law_snapshot_restores(edits: Map<IVec3, BlockState>, snapshot: Seq<u8>)
    requires
        snapshot_of(edits, snapshot),
        forall|p: IVec3| #[trigger] edits.contains_key(p) ==> edits[p].valid(),
    ensures
        applied(Map::empty(), decoded(snapshot)) == edits,
{
    let recs = choose|recs: Seq<(IVec3, BlockState)>| #[trigger]
        is_listing(edits, recs) && recs.len() <= u64::MAX && snapshot == encoded(recs);
    assert forall|i: int| 0 <= i < recs.len() implies (#[trigger] recs[i]).1.valid() by {
        assert(edits.contains_key(recs[i].0));
    }
    law_decoded_encoded(recs);
    lemma_listing_rebuilds(edits, recs);
}

/// A snapshot that was cut short in the middle still gives back the edits whose
/// records it holds in full.
pub proof fn law_truncated_snapshot(recs: Seq<(IVec3, BlockState)>, len: int)
    requires
        recs.len() <= u64::MAX,
        forall|i: int| 0 <= i < recs.len() ==> (#[trigger] recs[i]).1.valid(),
        16 <= len <= encoded(recs).len(),
    ensures
        decoded(encoded(recs).take(len)) == recs.take((len - 16) / 14),
{
    let whole = encoded(recs);
    let buf = whole.take(len);
    lemma_records_len(recs);
    assert(buf.take(8) =~= magic());
    assert(buf.subrange(8, 16) =~= u64_bytes(recs.len() as int));
    lemma_u64_round_trip(buf, 8, recs.len() as int);
    let n = (len - 16) / 14;
    assert(records_in(buf) == n);
    lemma_decoded_prefix(recs, n);
    lemma_same_prefix(whole, buf, n);
}

proof fn lemma_same_prefix(whole: Seq<u8>, buf: Seq<u8>, n: int)
    requires
        0 <= n,
        16 + 14 * n <= buf.len(),
        buf.is_prefix_of(whole),
    ensures
        decoded_up_to(buf, n) == decoded_up_to(whole, n),
    decreases n,
{
    if n > 0 {
        lemma_same_prefix(whole, buf, n - 1);
        let at = 16 + 14 * (n - 1);
        assert forall|k: int| at <= k < at + 14 implies buf[k] == whole[k] by {
            assert(buf == whole.subrange(0, buf.len() as int));
        }
    }
}

/// Reads the records of a snapshot into `out` and returns how many it took.
pub(crate) fn decode_into(buf: &[u8], out: &mut Overlay) -> (r: usize)
    requires
        old(out).wf(),
    ensures
        final(out).wf(),
        final(out)@ == applied(old(out)@, decoded(buf@)),
        r == decoded(buf@).len(),
{
    assert(buf@.len() == buf.len());
    if buf.len() < HEADER || !starts_with_magic(buf) {
        return 0;
    }
    let count: u64 = read_u64(buf, 8);
    let mut off: usize = HEADER;
    let mut n: usize = 0;
    let mut i: u64 = 0;
    while i < count
        invariant
            has_header(buf@),
            buf@.len() == buf.len(),
            count == u64_at(buf@, 8),
            i <= count,
            off == 16 + 14 * i,
            off <= buf@.len(),
            out.wf(),
            out@ == applied(old(out)@, decoded_up_to(buf@, i as int)),
            n == decoded_up_to(buf@, i as int).len(),
            n <= i,
        ensures
            i == records_in(buf@),
        decreases count - i,
    {
        if buf.len() - off < RECORD {
            break;
        }
        let x: i32 = read_i32(buf, off);
        let y: i32 = read_i32(buf, off + 4);
        let z: i32 = read_i32(buf, off + 8);
        let raw: u16 = read_u16(buf, off + 12);
        off += RECORD;
        if let Some(state) = BlockState::from_raw(raw) {
            out.insert(IVec3::new(x, y, z), state);
            n += 1;
        }
        proof {
            let taken = decoded_up_to(buf@, i as int);
            assert(record_pos(buf@, i as int) == (IVec3 { x, y, z }));
            assert(record_raw(buf@, i as int) == raw);
            let more = decoded_up_to(buf@, i + 1);
            if raw <= MAX_STATE {
                assert(more.drop_last() =~= taken);
            }
        }
        i += 1;
    }
    n
}

/// Whether `buf` starts with the magic bytes.
fn starts_with_magic(buf: &[u8]) -> (r: bool)
    requires
        buf@.len() >= 8,
    ensures
        r == (buf@.take(8) == magic()),
{
    let r = buf[0] == 0x48 && buf[1] == 0x59 && buf[2] == 0x50 && buf[3] == 0x45 && buf[4] == 0x44
        && buf[5] == 0x49 && buf[6] == 0x54 && buf[7] == 0x31;
    proof {
        let s = buf@.take(8);
        if r {
            assert(s =~= magic());
        } else {
            assert(s[0] == buf@[0] && s[1] == buf@[1] && s[2] == buf@[2] && s[3] == buf@[3]);
            assert(s[4] == buf@[4] && s[5] == buf@[5] && s[6] == buf@[6] && s[7] == buf@[7]);
        }
    }
    r
}

/// Overlay of block edits, with the directory it is kept in.
pub struct EditStore {
    pub dir: String,
    pub overlay: Overlay,
    pub dirty: bool,
}

impl View for EditStore {
    type V = Map<IVec3, BlockState>;

    open spec fn view(&self) -> Map<IVec3, BlockState> {
        self.overlay@
    }
}

impl EditStore {
    pub open spec fn wf(&self) -> bool {
        self.overlay.wf()
    }

    /// Every recorded state is one of the table.
    pub proof fn lemma_states_valid(&self)
        requires
            self.wf(),
        ensures
            forall|p: IVec3| #[trigger] self@.contains_key(p) ==> self@[p].valid(),
    {
    }

    /// The overlay that is kept in `dir`: `file` is what its snapshot holds, or
    /// `None` where there is none yet. Beside the store, how many edits were taken
    /// from the snapshot.
    pub fn open(dir: String, file: Option<Vec<u8>>) -> (r: (Self, usize))
        ensures
            r.0.wf(),
            r.0.dir == dir,
            r.0.dirty == false,
            r.0@ == applied(
                Map::empty(),
                match file {
                    Some(buf) => decoded(buf@),
                    None => Seq::empty(),
                },
            ),
            r.1 == match file {
                Some(buf) => decoded(buf@).len(),
                None => 0,
            },
    {
        let mut overlay = Overlay::new();
        let loaded: usize = match file {
            Some(buf) => decode_into(buf.as_slice(), &mut overlay),
            None => 0,
        };
        (EditStore { dir, overlay, dirty: false }, loaded)
    }

    /// Records one edit; the latest write of a position wins.
    pub fn record(&mut self, pos: IVec3, state: BlockState)
        requires
            old(self).wf(),
            state.valid(),
        ensures
            final(self).wf(),
            final(self)@ == old(self)@.insert(pos, state),
            final(self).dirty,
            final(self).dir == old(self).dir,
    {
        self.overlay.insert(pos, state);
        self.dirty = true;
    }

    /// The edits of a chunk, to replay when it loads.
    pub fn for_chunk(&self, chunk: I16Vec2) -> (r: Option<&ChunkEdits>)
        requires
            self.wf(),
        ensures
            match r {
                Some(edits) => edits.wf() && edits@ == self@.restrict(
                    Set::new(|p: IVec3| chunk_at(p) == chunk),
                ),
                None => forall|p: IVec3| self@.contains_key(p) ==> #[trigger] chunk_at(p) != chunk,
            },
    {
        self.overlay.for_chunk(chunk)
    }

    /// Whether there are edits that no snapshot holds yet.
    pub fn is_dirty(&self) -> (r: bool)
        ensures
            r == self.dirty,
    {
        self.dirty
    }

    /// The directory that the overlay is kept in.
    pub fn dir(&self) -> (r: &str)
        ensures
            r@ == self.dir@,
    {
        self.dir.as_str()
    }

    /// Writes the whole overlay as a snapshot and clears the dirty flag. Where the
    /// snapshot then cannot be published, [`EditStore::save_failed`] sets it again.
    pub fn serialize_and_clear(&mut self) -> (r: Vec<u8>)
        requires
            old(self).wf(),
        ensures
            final(self).wf(),
            final(self)@ == old(self)@,
            final(self).dir == old(self).dir,
            !final(self).dirty,
            snapshot_of(old(self)@, r@),
    {
        let recs = self.overlay.entries();
        let mut buf: Vec<u8> = vec![0x48, 0x59, 0x50, 0x45, 0x44, 0x49, 0x54, 0x31];
        assert(buf@ =~= magic());
        push_u64(&mut buf, recs.len() as u64);
        let ghost header = buf@;
        let mut i: usize = 0;
        assert(recs@.take(0) =~= Seq::empty());
        assert(buf@ =~= header + records_bytes(recs@.take(0)));
        while i < recs.len()
            invariant
                i <= recs.len(),
                buf@ == header + records_bytes(recs@.take(i as int)),
            decreases recs.len() - i,
        {
            let (pos, state) = recs[i];
            let ghost before = buf@;
            push_i32(&mut buf, pos.x);
            push_i32(&mut buf, pos.y);
            push_i32(&mut buf, pos.z);
            push_u16(&mut buf, state.to_raw());
            proof {
                let longer = recs@.take(i + 1);
                assert(longer.drop_last() =~= recs@.take(i as int));
                assert(longer.last() == (pos, state));
                assert(buf@ =~= before + record_bytes((pos, state)));
                assert(buf@ =~= header + records_bytes(longer));
            }
            i += 1;
        }
        assert(recs@.take(recs@.len() as int) =~= recs@);
        self.dirty = false;
        assert(is_listing(old(self)@, recs@));
        buf
    }
}

impl EditStore {
    /// Takes note that the last snapshot could not be published: its edits count as
    /// unsaved again.
    pub fn save_failed(&mut self)
        requires
            old(self).wf(),
        ensures
            final(self).wf(),
            final(self)@ == old(self)@,
            final(self).dir == old(self).dir,
            final(self).dirty,
    {
        self.dirty = true;
    }
}

/// Whatever bytes a store hands out as its snapshot, a store opened on them holds
/// the same edits.
pub proof fn law_reopened_store_holds_the_edits(store: EditStore, snapshot: Seq<u8>)
    requires
        store.wf(),
        snapshot_of(store@, snapshot),
    ensures
        applied(Map::empty(), decoded(snapshot)) == store@,
{
    store.lemma_states_valid();
    law_snapshot_restores(store@, snapshot);
}

/// Of two edits of one position only the later one is kept, and edits of other
/// positions stay as they are.
pub proof fn law_latest_edit_wins(
    edits: Map<IVec3, BlockState>,
    recs: Seq<(IVec3, BlockState)>,
    pos: IVec3,
    state: BlockState,
)
    ensures
        applied(edits, recs.push((pos, state)))[pos] == state,
        forall|p: IVec3|
            p != pos ==> (#[trigger] applied(edits, recs.push((pos, state))).contains_key(p)
                == applied(edits, recs).contains_key(p)) && applied(
                edits,
                recs.push((pos, state)),
            )[p] == applied(edits, recs)[p],
{
    assert(recs.push((pos, state)).drop_last() =~= recs);
}

/// The layout of a snapshot, byte by byte: the letters `HYPEDIT1`, how many records follow,
/// and each record as x, y, z and the state, with the lowest byte of every number first and
/// negative numbers in two's complement.
pub proof fn law_snapshot_layout(recs: Seq<(IVec3, BlockState)>, i: int)
    requires
        0 <= i < recs.len() <= u64::MAX,
    ensures
        ({
            let b = encoded(recs);
            let at = 16 + 14 * i;
            let (pos, state) = recs[i];
            let wide = |v: i32|
                if v >= 0 {
                    v as int
                } else {
                    v + 0x1_0000_0000
                };
            &&& b.len() == 16 + 14 * recs.len()
            &&& b[0] == 'H' as int && b[1] == 'Y' as int && b[2] == 'P' as int && b[3] == 'E' as int
            &&& b[4] == 'D' as int && b[5] == 'I' as int && b[6] == 'T' as int && b[7] == '1' as int
            &&& b[8] + b[9] * 0x100 + b[10] * 0x1_0000 + b[11] * 0x100_0000 + b[12] * 0x1_0000_0000
                + b[13] * 0x100_0000_0000 + b[14] * 0x1_0000_0000_0000 + b[15]
                * 0x100_0000_0000_0000 == recs.len()
            &&& b[at] + b[at + 1] * 0x100 + b[at + 2] * 0x1_0000 + b[at + 3] * 0x100_0000 == wide(
                pos.x,
            )
            &&& b[at + 4] + b[at + 5] * 0x100 + b[at + 6] * 0x1_0000 + b[at + 7] * 0x100_0000
                == wide(pos.y)
            &&& b[at + 8] + b[at + 9] * 0x100 + b[at + 10] * 0x1_0000 + b[at + 11] * 0x100_0000
                == wide(pos.z)
            &&& b[at + 12] + b[at + 13] * 0x100 == state.raw
        }),
{
    let b = encoded(recs);
    let at = 16 + 14 * i;
    lemma_records_len(recs);
    assert(b.take(8) =~= magic());
    assert(b[0] == b.take(8)[0] && b[1] == b.take(8)[1] && b[2] == b.take(8)[2] && b[3] == b.take(
        8,
    )[3] && b[4] == b.take(8)[4] && b[5] == b.take(8)[5] && b[6] == b.take(8)[6] && b[7] == b.take(
        8,
    )[7]);
    assert(b.subrange(8, 16) =~= u64_bytes(recs.len() as int));
    lemma_u64_round_trip(b, 8, recs.len() as int);
    let header = magic() + u64_bytes(recs.len() as int);
    lemma_record_at(recs, i);
    lemma_behind_header(header, records_bytes(recs), 14 * i);
    lemma_read_record(b, at, recs[i]);
}

/// Reading a snapshot gives back every record that it holds in full and whose state exists,
/// in order, and nothing else: as many records as it says, or as fit into it. What does not
/// begin as a snapshot does holds none.
pub proof fn law_every_whole_record_is_read(buf: Seq<u8>, n: int)
    requires
        buf.len() >= 16,
        0 <= n <= u64_at(buf, 8),
        16 + 14 * n <= buf.len(),
        n == u64_at(buf, 8) || 16 + 14 * (n + 1) > buf.len(),
    ensures
        buf.take(8) == seq![0x48u8, 0x59, 0x50, 0x45, 0x44, 0x49, 0x54, 0x31] ==> decoded(buf)
            == Seq::new(
            n as nat,
            |i: int|
                (
                    IVec3 {
                        x: i32_at(buf, 16 + 14 * i) as i32,
                        y: i32_at(buf, 20 + 14 * i) as i32,
                        z: i32_at(buf, 24 + 14 * i) as i32,
                    },
                    BlockState { raw: u16_at(buf, 28 + 14 * i) as u16 },
                ),
        ).filter(|rec: (IVec3, BlockState)| rec.1.raw <= MAX_STATE),
        buf.take(8) != seq![0x48u8, 0x59, 0x50, 0x45, 0x44, 0x49, 0x54, 0x31] ==> decoded(buf).len()
            == 0,
{
    assert(records_in(buf) == n);
    lemma_read_in_order(buf, n);
}

proof fn lemma_read_in_order(buf: Seq<u8>, n: int)
    requires
        0 <= n,
    ensures
        decoded_up_to(buf, n) == Seq::new(
            n as nat,
            |i: int|
                (
                    IVec3 {
                        x: i32_at(buf, 16 + 14 * i) as i32,
                        y: i32_at(buf, 20 + 14 * i) as i32,
                        z: i32_at(buf, 24 + 14 * i) as i32,
                    },
                    BlockState { raw: u16_at(buf, 28 + 14 * i) as u16 },
                ),
        ).filter(|rec: (IVec3, BlockState)| rec.1.raw <= MAX_STATE),
    decreases n,
{
    reveal(Seq::filter);
    let record = |i: int|
        (
            IVec3 {
                x: i32_at(buf, 16 + 14 * i) as i32,
                y: i32_at(buf, 20 + 14 * i) as i32,
                z: i32_at(buf, 24 + 14 * i) as i32,
            },
            BlockState { raw: u16_at(buf, 28 + 14 * i) as u16 },
        );
    let all = Seq::new(n as nat, record);
    if n > 0 {
        lemma_read_in_order(buf, n - 1);
        assert(all.drop_last() =~= Seq::new((n - 1) as nat, record));
        assert(all.last() == record(n - 1));
        assert(record(n - 1) == (record_pos(buf, n - 1), BlockState { raw: record_raw(buf, n - 1) }));
    }
}

} // verus!
