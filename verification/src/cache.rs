//! The cache of loaded chunks and the set of chunks that changed.
//!
//! The cache is an `IndexMap`, so a chunk keeps its index while others are
//! added; the set of changed chunks is a `RoaringBitmap` of such indices.

use indexmap::IndexMap;
use roaring::RoaringBitmap;
use rustc_hash::FxBuildHasher;
use vstd::prelude::*;

use crate::chunk::Column;

verus! {

#[verifier::external_type_specification]
#[verifier::external_body]
#[verifier::reject_recursive_types(K)]
#[verifier::reject_recursive_types(V)]
#[verifier::reject_recursive_types(S)]
pub struct ExIndexMap<K, V, S>(IndexMap<K, V, S>);

#[verifier::external_type_specification]
#[verifier::external_body]
pub struct ExFxBuildHasher(FxBuildHasher);

#[verifier::external_type_specification]
#[verifier::external_body]
pub struct ExRoaringBitmap(RoaringBitmap);

/// The entries of the chunk cache, by index.
pub uninterp spec fn cached(m: IndexMap<(i16, i16), Column, FxBuildHasher>) -> Seq<
    ((i16, i16), Column),
>;

/// The numbers in the bitmap.
pub uninterp spec fn members(m: RoaringBitmap) -> Set<u32>;

/// No key stands in two entries.
pub open spec fn keys_distinct(entries: Seq<((i16, i16), Column)>) -> bool {
    forall|i: int, j: int|
        0 <= i < j < entries.len() ==> (#[trigger] entries[i]).0 != (#[trigger] entries[j]).0
}

/// Some entry has this key.
pub open spec fn has_key(entries: Seq<((i16, i16), Column)>, key: (i16, i16)) -> bool {
    exists|i: int| 0 <= i < entries.len() && (#[trigger] entries[i]).0 == key
}

/// The index of the entry with this key.
pub open spec fn slot(entries: Seq<((i16, i16), Column)>, key: (i16, i16)) -> int {
    choose|i: int| 0 <= i < entries.len() && (#[trigger] entries[i]).0 == key
}

/// `IndexMap::default`: a map without entries.
#[verifier::external_body]
pub(crate) fn cache_new() -> (r: IndexMap<(i16, i16), Column, FxBuildHasher>)
    ensures
        cached(r) == Seq::<((i16, i16), Column)>::empty(),
{
    IndexMap::default()
}

/// `IndexMap::len`: how many entries there are.
#[verifier::external_body]
pub(crate) fn cache_len(m: &IndexMap<(i16, i16), Column, FxBuildHasher>) -> (r: usize)
    ensures
        r == cached(*m).len(),
{
    m.len()
}

/// `IndexMap::get_index_of`: the index of the entry with this key, or `None` where
/// no entry has it.
#[verifier::external_body]
pub(crate) fn cache_index_of(
    m: &IndexMap<(i16, i16), Column, FxBuildHasher>,
    key: (i16, i16),
) -> (r: Option<usize>)
    ensures
        match r {
            Some(i) => i < cached(*m).len() && cached(*m)[i as int].0 == key,
            None => !has_key(cached(*m), key),
        },
{
    m.get_index_of(&key)
}

/// `IndexMap::get_index`: the entry with this index.
#[verifier::external_body]
pub(crate) fn cache_column(
    m: &IndexMap<(i16, i16), Column, FxBuildHasher>,
    i: usize,
) -> (r: &Column)
    requires
        i < cached(*m).len(),
    ensures
        *r == cached(*m)[i as int].1,
{
    m.get_index(i).unwrap().1
}

/// `IndexMap::get_index_mut`: lends the value of the entry with this index; what
/// is written there becomes that entry's value, and nothing else changes.
#[verifier::external_body]
pub(crate) fn cache_column_mut(
    m: &mut IndexMap<(i16, i16), Column, FxBuildHasher>,
    i: usize,
) -> (r: &mut Column)
    requires
        i < cached(*old(m)).len(),
    ensures
        *r == cached(*old(m))[i as int].1,
        cached(*final(m)) == cached(*old(m)).update(
            i as int,
            (cached(*old(m))[i as int].0, *final(r)),
        ),
{
    m.get_index_mut(i).unwrap().1
}

/// `IndexMap::insert`: replaces the value of the entry with this key, which keeps
/// its index, or appends a new entry where there was none.
#[verifier::external_body]
pub(crate) fn cache_insert(
    m: &mut IndexMap<(i16, i16), Column, FxBuildHasher>,
    key: (i16, i16),
    column: Column,
)
    requires
        keys_distinct(cached(*old(m))),
    ensures
        cached(*final(m)) == (if has_key(cached(*old(m)), key) {
            cached(*old(m)).update(slot(cached(*old(m)), key), (key, column))
        } else {
            cached(*old(m)).push((key, column))
        }),
{
    m.insert(key, column);
}

/// `RoaringBitmap::new`: an empty bitmap.
#[verifier::external_body]
pub(crate) fn bitmap_new() -> (r: RoaringBitmap)
    ensures
        members(r) == Set::<u32>::empty(),
{
    RoaringBitmap::new()
}

/// `RoaringBitmap::insert`: adds a number.
#[verifier::external_body]
pub(crate) fn bitmap_insert(m: &mut RoaringBitmap, v: u32)
    ensures
        members(*final(m)) == members(*old(m)).insert(v),
{
    m.insert(v);
}

/// `RoaringBitmap::clear`: takes all numbers out.
#[verifier::external_body]
pub(crate) fn bitmap_clear(m: &mut RoaringBitmap)
    ensures
        members(*final(m)) == Set::<u32>::empty(),
{
    m.clear();
}

/// `RoaringBitmap::iter`: the numbers, each once, in ascending order.
#[verifier::external_body]
pub(crate) fn bitmap_numbers(m: &RoaringBitmap) -> (r: Vec<u32>)
    ensures
        forall|v: u32| members(*m).contains(v) <==> #[trigger] r@.contains(v),
        forall|i: int, j: int| 0 <= i < j < r@.len() ==> r@[i] < r@[j],
{
    m.iter().collect()
}

/// The entry with a given key is the only one.
pub proof fn lemma_slot(entries: Seq<((i16, i16), Column)>, i: int)
    requires
        keys_distinct(entries),
        0 <= i < entries.len(),
    ensures
        has_key(entries, entries[i].0),
        slot(entries, entries[i].0) == i,
{
    let k = slot(entries, entries[i].0);
    assert(entries[i].0 == entries[i].0);
    assert(0 <= k < entries.len() && entries[k].0 == entries[i].0);
}

/// There are no more entries than keys, so every index fits 32 bits.
pub proof fn lemma_cache_size(entries: Seq<((i16, i16), Column)>)
    requires
        keys_distinct(entries),
    ensures
        entries.len() <= 0x1_0000_0000,
{
    let codes = entries.map_values(
        |e: ((i16, i16), Column)| (e.0.0 + 32768) * 65536 + (e.0.1 + 32768),
    );
    assert(codes.no_duplicates()) by {
        assert forall|i: int, j: int|
            0 <= i < codes.len() && 0 <= j < codes.len() && i != j implies codes[i] != codes[j] by {
            assert(entries[i].0 != entries[j].0);
        }
    }
    codes.unique_seq_to_set();
    let all = vstd::set_lib::set_int_range(0, 0x1_0000_0000);
    vstd::set_lib::lemma_int_range(0, 0x1_0000_0000);
    assert(codes.to_set().subset_of(all)) by {
        assert forall|v: int| codes.to_set().contains(v) implies all.contains(v) by {
            let i = choose|i: int| 0 <= i < codes.len() && codes[i] == v;
            assert(codes[i] == v);
        }
    }
    vstd::set_lib::lemma_len_subset(codes.to_set(), all);
}

} // verus!
