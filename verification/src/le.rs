//! Integers as little-endian bytes.

use vstd::prelude::*;

verus! {

/// The number that the bytes `b[at..at + 2]` hold, lowest byte first.
pub open spec fn u16_at(b: Seq<u8>, at: int) -> int {
    b[at] + b[at + 1] * 0x100
}

/// The number that the bytes `b[at..at + 4]` hold, lowest byte first.
pub open spec fn u32_at(b: Seq<u8>, at: int) -> int {
    u16_at(b, at) + u16_at(b, at + 2) * 0x1_0000
}

/// The number that the bytes `b[at..at + 8]` hold, lowest byte first.
pub open spec fn u64_at(b: Seq<u8>, at: int) -> int {
    u32_at(b, at) + u32_at(b, at + 4) * 0x1_0000_0000
}

/// The number that the bytes `b[at..at + 4]` hold in two's complement.
pub open spec fn i32_at(b: Seq<u8>, at: int) -> int {
    if u32_at(b, at) < 0x8000_0000 {
        u32_at(b, at)
    } else {
        u32_at(b, at) - 0x1_0000_0000
    }
}

/// `v` as two bytes, lowest first.
pub open spec fn u16_bytes(v: int) -> Seq<u8> {
    seq![(v % 0x100) as u8, (v / 0x100 % 0x100) as u8]
}

/// `v` as four bytes, lowest first; a negative `v` in two's complement.
pub open spec fn u32_bytes(v: int) -> Seq<u8> {
    u16_bytes(v % 0x1_0000) + u16_bytes(v / 0x1_0000 % 0x1_0000)
}

/// `v` as eight bytes, lowest first.
pub open spec fn u64_bytes(v: int) -> Seq<u8> {
    u32_bytes(v % 0x1_0000_0000) + u32_bytes(v / 0x1_0000_0000 % 0x1_0000_0000)
}

/// Where `b` holds the two bytes of `v`, reading them gives `v` back.
pub proof fn lemma_u16_round_trip(b: Seq<u8>, at: int, v: int)
    requires
        0 <= at,
        at + 2 <= b.len(),
        b.subrange(at, at + 2) == u16_bytes(v),
        0 <= v < 0x1_0000,
    ensures
        u16_at(b, at) == v,
{
    let s = b.subrange(at, at + 2);
    assert(s[0] == b[at] && s[1] == b[at + 1]);
}

/// Where `b` holds the four bytes of `v`, reading them gives `v` back.
pub proof fn lemma_u32_round_trip(b: Seq<u8>, at: int, v: int)
    requires
        0 <= at,
        at + 4 <= b.len(),
        b.subrange(at, at + 4) == u32_bytes(v),
    ensures
        0 <= v < 0x1_0000_0000 ==> u32_at(b, at) == v,
        -0x8000_0000 <= v < 0x8000_0000 ==> i32_at(b, at) == v,
{
    let s = b.subrange(at, at + 4);
    let low = u16_bytes(v % 0x1_0000);
    let high = u16_bytes(v / 0x1_0000 % 0x1_0000);
    assert(b.subrange(at, at + 2) =~= low) by {
        assert(s.subrange(0, 2) =~= low);
        assert(s.subrange(0, 2) =~= b.subrange(at, at + 2));
    }
    assert(b.subrange(at + 2, at + 4) =~= high) by {
        assert(s.subrange(2, 4) =~= high);
        assert(s.subrange(2, 4) =~= b.subrange(at + 2, at + 4));
    }
    lemma_u16_round_trip(b, at, v % 0x1_0000);
    lemma_u16_round_trip(b, at + 2, v / 0x1_0000 % 0x1_0000);
}

/// Where `b` holds the eight bytes of `v`, reading them gives `v` back.
pub proof fn lemma_u64_round_trip(b: Seq<u8>, at: int, v: int)
    requires
        0 <= at,
        at + 8 <= b.len(),
        b.subrange(at, at + 8) == u64_bytes(v),
        0 <= v <= u64::MAX,
    ensures
        u64_at(b, at) == v,
{
    let s = b.subrange(at, at + 8);
    let low = u32_bytes(v % 0x1_0000_0000);
    let high = u32_bytes(v / 0x1_0000_0000 % 0x1_0000_0000);
    assert(b.subrange(at, at + 4) =~= low) by {
        assert(s.subrange(0, 4) =~= low);
        assert(s.subrange(0, 4) =~= b.subrange(at, at + 4));
    }
    assert(b.subrange(at + 4, at + 8) =~= high) by {
        assert(s.subrange(4, 8) =~= high);
        assert(s.subrange(4, 8) =~= b.subrange(at + 4, at + 8));
    }
    lemma_u32_round_trip(b, at, v % 0x1_0000_0000);
    lemma_u32_round_trip(b, at + 4, v / 0x1_0000_0000 % 0x1_0000_0000);
}

/// Reads two bytes of `b`.
pub(crate) fn read_u16(b: &[u8], at: usize) -> (r: u16)
    requires
        at + 2 <= b@.len(),
    ensures
        r == u16_at(b@, at as int),
{
    assert(b@.len() == b.len());
    b[at] as u16 + b[at + 1] as u16 * 0x100
}

/// Reads four bytes of `b`.
pub(crate) fn read_u32(b: &[u8], at: usize) -> (r: u32)
    requires
        at + 4 <= b@.len(),
    ensures
        r == u32_at(b@, at as int),
{
    assert(b@.len() == b.len());
    read_u16(b, at) as u32 + read_u16(b, at + 2) as u32 * 0x1_0000
}

/// Reads eight bytes of `b`.
pub(crate) fn read_u64(b: &[u8], at: usize) -> (r: u64)
    requires
        at + 8 <= b@.len(),
    ensures
        r == u64_at(b@, at as int),
{
    assert(b@.len() == b.len());
    read_u32(b, at) as u64 + read_u32(b, at + 4) as u64 * 0x1_0000_0000
}

/// Reads four bytes of `b` as a signed number.
pub(crate) fn read_i32(b: &[u8], at: usize) -> (r: i32)
    requires
        at + 4 <= b@.len(),
    ensures
        r == i32_at(b@, at as int),
{
    let v: u32 = read_u32(b, at);
    if v < 0x8000_0000 {
        v as i32
    } else {
        (v as i64 - 0x1_0000_0000) as i32
    }
}

/// Appends the two bytes of `v`.
pub(crate) fn push_u16(out: &mut Vec<u8>, v: u16)
    ensures
        final(out)@ == old(out)@ + u16_bytes(v as int),
{
    out.push((v % 0x100) as u8);
    out.push((v / 0x100) as u8);
    assert(out@ =~= old(out)@ + u16_bytes(v as int));
}

/// Appends the four bytes of `v`.
pub(crate) fn push_u32(out: &mut Vec<u8>, v: u32)
    ensures
        final(out)@ == old(out)@ + u32_bytes(v as int),
{
    push_u16(out, (v % 0x1_0000) as u16);
    push_u16(out, (v / 0x1_0000) as u16);
    assert(out@ =~= old(out)@ + u32_bytes(v as int));
}

/// Appends the eight bytes of `v`.
pub(crate) fn push_u64(out: &mut Vec<u8>, v: u64)
    ensures
        final(out)@ == old(out)@ + u64_bytes(v as int),
{
    push_u32(out, (v % 0x1_0000_0000) as u32);
    push_u32(out, (v / 0x1_0000_0000) as u32);
    assert(out@ =~= old(out)@ + u64_bytes(v as int));
}

/// A number and its two's complement have the same four bytes.
proof fn lemma_two_complement(v: int)
    ensures
        u32_bytes(v + 0x1_0000_0000) == u32_bytes(v),
{
    let u = v + 0x1_0000_0000;
    assert(u % 0x1_0000 == v % 0x1_0000 && u / 0x1_0000 == v / 0x1_0000 + 0x1_0000) by {
        vstd::arithmetic::div_mod::lemma_fundamental_div_mod(v, 0x1_0000);
        vstd::arithmetic::div_mod::lemma_fundamental_div_mod_converse(
            u,
            0x1_0000,
            v / 0x1_0000 + 0x1_0000,
            v % 0x1_0000,
        );
    }
    vstd::arithmetic::div_mod::lemma_mod_add_multiples_vanish(v / 0x1_0000, 0x1_0000);
}

/// Appends the four bytes of a signed number.
pub(crate) fn push_i32(out: &mut Vec<u8>, v: i32)
    ensures
        final(out)@ == old(out)@ + u32_bytes(v as int),
{
    let u: u32 = if v < 0 {
        (v as i64 + 0x1_0000_0000) as u32
    } else {
        v as u32
    };
    push_u32(out, u);
    proof {
        lemma_two_complement(v as int);
    }
}

/// A number is read with its lowest byte first, and written so: byte number `k` counts two to
/// the power of eight times `k`.
pub proof fn law_lowest_byte_comes_first(b: Seq<u8>, at: int)
    ensures
        u16_at(b, at) == b[at] + b[at + 1] * 0x100,
        u32_at(b, at) == b[at] + b[at + 1] * 0x100 + b[at + 2] * 0x1_0000 + b[at + 3] * 0x100_0000,
        u64_at(b, at) == b[at] + b[at + 1] * 0x100 + b[at + 2] * 0x1_0000 + b[at + 3] * 0x100_0000
            + b[at + 4] * 0x1_0000_0000 + b[at + 5] * 0x100_0000_0000 + b[at + 6]
            * 0x1_0000_0000_0000 + b[at + 7] * 0x100_0000_0000_0000,
        i32_at(b, at) == u32_at(b, at) || i32_at(b, at) == u32_at(b, at) - 0x1_0000_0000,
        -0x8000_0000 <= i32_at(b, at) < 0x8000_0000,
{
}

} // verus!
