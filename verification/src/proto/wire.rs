//! Little-endian encoding of the integers that make up the wire format.
//!
//! Each width has a specification of its bytes (`le16`, `le32`, `le64`), a
//! specification of the value found at an offset (`u16_at`, `u32_at`,
//! `u64_at`), and an executable writer and reader.

use vstd::prelude::*;

verus! {

/// The two bytes of `x`, least significant first.
pub open spec fn le16(x: u16) -> Seq<u8> {
    seq![(x % 256) as u8, (x / 256) as u8]
}

/// The four bytes of `x`, least significant first.
pub open spec fn le32(x: u32) -> Seq<u8> {
    le16((x % 0x1_0000) as u16) + le16((x / 0x1_0000) as u16)
}

/// The eight bytes of `x`, least significant first.
pub open spec fn le64(x: u64) -> Seq<u8> {
    le32((x % 0x1_0000_0000) as u32) + le32((x / 0x1_0000_0000) as u32)
}

/// The 16-bit value stored at offset `i` of `s`.
pub open spec fn u16_at(s: Seq<u8>, i: int) -> u16 {
    (s[i] + 256 * s[i + 1]) as u16
}

/// The 32-bit value stored at offset `i` of `s`.
pub open spec fn u32_at(s: Seq<u8>, i: int) -> u32 {
    (u16_at(s, i) + 0x1_0000 * u16_at(s, i + 2)) as u32
}

/// The 64-bit value stored at offset `i` of `s`.
pub open spec fn u64_at(s: Seq<u8>, i: int) -> u64 {
    (u32_at(s, i) + 0x1_0000_0000 * u32_at(s, i + 4)) as u64
}

/// Two's complement image of a signed 16-bit value.
pub open spec fn i16_image(v: i16) -> u16 {
    if v >= 0 {
        v as u16
    } else {
        (v + 0x1_0000) as u16
    }
}

/// The signed 16-bit value whose two's complement image is `v`.
pub open spec fn i16_of_image(v: u16) -> i16 {
    if v < 0x8000 {
        v as i16
    } else {
        (v - 0x1_0000) as i16
    }
}

/// Reading back what `le16` wrote gives the value, wherever it stands.
pub proof fn lemma_u16_at(s: Seq<u8>, i: int, x: u16)
    requires
        0 <= i,
        i + 2 <= s.len(),
        s.subrange(i, i + 2) == le16(x),
    ensures
        u16_at(s, i) == x,
{
    assert(s[i] == s.subrange(i, i + 2)[0]);
    assert(s[i + 1] == s.subrange(i, i + 2)[1]);
}

/// Reading back what `le32` wrote gives the value, wherever it stands.
pub proof fn lemma_u32_at(s: Seq<u8>, i: int, x: u32)
    requires
        0 <= i,
        i + 4 <= s.len(),
        s.subrange(i, i + 4) == le32(x),
    ensures
        u32_at(s, i) == x,
{
    let lo = (x % 0x1_0000) as u16;
    let hi = (x / 0x1_0000) as u16;
    assert(s.subrange(i, i + 2) =~= le32(x).subrange(0, 2));
    assert(le32(x).subrange(0, 2) =~= le16(lo));
    assert(s.subrange(i + 2, i + 4) =~= le32(x).subrange(2, 4));
    assert(le32(x).subrange(2, 4) =~= le16(hi));
    lemma_u16_at(s, i, lo);
    lemma_u16_at(s, i + 2, hi);
}

/// Reading back what `le64` wrote gives the value, wherever it stands.
pub proof fn lemma_u64_at(s: Seq<u8>, i: int, x: u64)
    requires
        0 <= i,
        i + 8 <= s.len(),
        s.subrange(i, i + 8) == le64(x),
    ensures
        u64_at(s, i) == x,
{
    let lo = (x % 0x1_0000_0000) as u32;
    let hi = (x / 0x1_0000_0000) as u32;
    assert(s.subrange(i, i + 4) =~= le64(x).subrange(0, 4));
    assert(le64(x).subrange(0, 4) =~= le32(lo));
    assert(s.subrange(i + 4, i + 8) =~= le64(x).subrange(4, 8));
    assert(le64(x).subrange(4, 8) =~= le32(hi));
    lemma_u32_at(s, i, lo);
    lemma_u32_at(s, i + 4, hi);
}

/// Writing the value found at an offset gives back the bytes found there.
pub proof fn lemma_le16_of_u16_at(s: Seq<u8>, i: int)
    requires
        0 <= i,
        i + 2 <= s.len(),
    ensures
        le16(u16_at(s, i)) == s.subrange(i, i + 2),
{
    assert(le16(u16_at(s, i)) =~= s.subrange(i, i + 2));
}

/// Writing the value found at an offset gives back the bytes found there.
pub proof fn lemma_le32_of_u32_at(s: Seq<u8>, i: int)
    requires
        0 <= i,
        i + 4 <= s.len(),
    ensures
        le32(u32_at(s, i)) == s.subrange(i, i + 4),
{
    lemma_le16_of_u16_at(s, i);
    lemma_le16_of_u16_at(s, i + 2);
    assert(s.subrange(i, i + 4) =~= s.subrange(i, i + 2) + s.subrange(i + 2, i + 4));
}

/// Writing the value found at an offset gives back the bytes found there.
pub proof fn lemma_le64_of_u64_at(s: Seq<u8>, i: int)
    requires
        0 <= i,
        i + 8 <= s.len(),
    ensures
        le64(u64_at(s, i)) == s.subrange(i, i + 8),
{
    let x = u64_at(s, i);
    let lo = u32_at(s, i);
    let hi = u32_at(s, i + 4);
    assert(x == lo + 0x1_0000_0000 * hi);
    assert((x % 0x1_0000_0000) as u32 == lo);
    assert((x / 0x1_0000_0000) as u32 == hi);
    assert(le64(x) == le32(lo) + le32(hi));
    lemma_le32_of_u32_at(s, i);
    lemma_le32_of_u32_at(s, i + 4);
    assert(s.subrange(i, i + 8) =~= s.subrange(i, i + 4) + s.subrange(i + 4, i + 8));
}

/// Appends the two bytes of `x` to `out`.
pub fn put16(out: &mut Vec<u8>, x: u16)
    ensures
        final(out)@ == old(out)@ + le16(x),
{
    out.push((x % 256) as u8);
    out.push((x / 256) as u8);
}

/// Appends the four bytes of `x` to `out`.
pub fn put32(out: &mut Vec<u8>, x: u32)
    ensures
        final(out)@ == old(out)@ + le32(x),
{
    put16(out, (x % 0x1_0000) as u16);
    put16(out, (x / 0x1_0000) as u16);
}

/// Appends the eight bytes of `x` to `out`.
pub fn put64(out: &mut Vec<u8>, x: u64)
    ensures
        final(out)@ == old(out)@ + le64(x),
{
    put32(out, (x % 0x1_0000_0000) as u32);
    put32(out, (x / 0x1_0000_0000) as u32);
}

/// Reads the 16-bit value stored at offset `i`.
pub fn get16(s: &[u8], i: usize) -> (x: u16)
    requires
        i + 2 <= s.len(),
    ensures
        x == u16_at(s@, i as int),
{
    s[i] as u16 + 256 * s[i + 1] as u16
}

/// Reads the 32-bit value stored at offset `i`.
pub fn get32(s: &[u8], i: usize) -> (x: u32)
    requires
        i + 4 <= s.len(),
    ensures
        x == u32_at(s@, i as int),
{
    get16(s, i) as u32 + 0x1_0000 * get16(s, i + 2) as u32
}

/// Reads the 64-bit value stored at offset `i`.
pub fn get64(s: &[u8], i: usize) -> (x: u64)
    requires
        i + 8 <= s.len(),
    ensures
        x == u64_at(s@, i as int),
{
    get32(s, i) as u64 + 0x1_0000_0000 * get32(s, i + 4) as u64
}

/// Two's complement image of a signed 16-bit value.
pub fn image_of_i16(v: i16) -> (r: u16)
    ensures
        r == i16_image(v),
{
    if v >= 0 {
        v as u16
    } else {
        (v as i32 + 0x1_0000) as u16
    }
}

/// The signed 16-bit value whose two's complement image is `v`.
pub fn i16_from_image(v: u16) -> (r: i16)
    ensures
        r == i16_of_image(v),
{
    if v < 0x8000 {
        v as i16
    } else {
        (v as i32 - 0x1_0000) as i16
    }
}

} // verus!
