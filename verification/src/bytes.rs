//! Little-endian words: what they are as bytes, and how to move between the two.

use vstd::prelude::*;

verus! {

/// The two bytes of `v`, least significant first.
pub open spec fn le16(v: u16) -> Seq<u8> {
    seq![(v % 256) as u8, (v / 256) as u8]
}

/// The four bytes of `v`, least significant first.
pub open spec fn le32(v: u32) -> Seq<u8> {
    seq![
        (v % 256) as u8,
        (v / 0x100 % 256) as u8,
        (v / 0x1_0000 % 256) as u8,
        (v / 0x100_0000) as u8,
    ]
}

/// The eight bytes of `v`, least significant first.
pub open spec fn le64(v: u64) -> Seq<u8> {
    le32((v % 0x1_0000_0000) as u32) + le32((v / 0x1_0000_0000) as u32)
}

/// The 16-bit word whose bytes stand at `at` in `s`.
pub open spec fn word16(s: Seq<u8>, at: int) -> u16 {
    (s[at] + 0x100 * s[at + 1]) as u16
}

/// The 32-bit word whose bytes stand at `at` in `s`.
pub open spec fn word32(s: Seq<u8>, at: int) -> u32 {
    (s[at] + 0x100 * s[at + 1] + 0x1_0000 * s[at + 2] + 0x100_0000 * s[at + 3]) as u32
}

/// The 64-bit word whose bytes stand at `at` in `s`.
pub open spec fn word64(s: Seq<u8>, at: int) -> u64 {
    (word32(s, at) + 0x1_0000_0000 * word32(s, at + 4)) as u64
}

/// `s` padded with zero bytes to a length divisible by four.
pub open spec fn padded4(s: Seq<u8>) -> Seq<u8> {
    s + Seq::new(((4 - s.len() % 4) % 4) as nat, |i: int| 0u8)
}

/// `s` with the bytes of `piece` laid over it from `at` on.
pub open spec fn overlaid(s: Seq<u8>, at: int, piece: Seq<u8>) -> Seq<u8> {
    Seq::new(
        s.len(),
        |i: int| if at <= i < at + piece.len() { piece[i - at] } else { s[i] },
    )
}

pub broadcast proof fn lemma_le32_len(v: u32)
    ensures
        #[trigger] le32(v).len() == 4,
{
}

pub broadcast proof fn lemma_le64_len(v: u64)
    ensures
        #[trigger] le64(v).len() == 8,
{
}

pub broadcast proof fn lemma_le16_len(v: u16)
    ensures
        #[trigger] le16(v).len() == 2,
{
}

pub broadcast group group_lengths {
    lemma_le16_len,
    lemma_le32_len,
    lemma_le64_len,
}

/// The marker of a pointer or an array: one if present, zero if absent.
pub open spec fn present(b: bool) -> Seq<u8> {
    le64(if b { 1 } else { 0 })
}

pub fn le32_bytes(v: u32) -> (b: [u8; 4])
    ensures
        b@ == le32(v),
{
    let b: [u8; 4] = [
        (v % 256) as u8,
        (v / 0x100 % 256) as u8,
        (v / 0x1_0000 % 256) as u8,
        (v / 0x100_0000) as u8,
    ];
    assert(b@ =~= le32(v));
    b
}

pub fn le64_bytes(v: u64) -> (b: [u8; 8])
    ensures
        b@ == le64(v),
{
    let low: [u8; 4] = le32_bytes((v % 0x1_0000_0000) as u32);
    let high: [u8; 4] = le32_bytes((v / 0x1_0000_0000) as u32);
    let b: [u8; 8] = [low[0], low[1], low[2], low[3], high[0], high[1], high[2], high[3]];
    assert(b@ =~= le64(v));
    b
}

pub fn read16(s: &[u8], at: usize) -> (v: u16)
    requires
        at + 2 <= s.len(),
    ensures
        v == word16(s@, at as int),
{
    s[at] as u16 + 0x100 * (s[at + 1] as u16)
}

pub fn read32(s: &[u8], at: usize) -> (v: u32)
    requires
        at + 4 <= s.len(),
    ensures
        v == word32(s@, at as int),
{
    s[at] as u32 + 0x100 * (s[at + 1] as u32) + 0x1_0000 * (s[at + 2] as u32) + 0x100_0000 * (
    s[at + 3] as u32)
}

pub fn read64(s: &[u8], at: usize) -> (v: u64)
    requires
        at + 8 <= s.len(),
    ensures
        v == word64(s@, at as int),
{
    read32(s, at) as u64 + 0x1_0000_0000 * (read32(s, at + 4) as u64)
}

/// Lays `piece` over `s` from `at` on.
pub fn write_at(s: &mut [u8], at: usize, piece: &[u8])
    requires
        at + piece.len() <= old(s).len(),
    ensures
        final(s)@ == overlaid(old(s)@, at as int, piece@),
{
    let mut i: usize = 0;
    while i < piece.len()
        invariant
            i <= piece@.len(),
            at + piece.len() <= s.len(),
            s@ == overlaid(old(s)@, at as int, piece@.take(i as int)),
        decreases piece@.len() - i,
    {
        s[at + i] = piece[i];
        i = i + 1;
        assert(s@ =~= overlaid(old(s)@, at as int, piece@.take(i as int)));
    }
    assert(piece@.take(i as int) =~= piece@);
}

/// Reading a 32-bit word back from its bytes gives the word.
pub proof fn lemma_le32_round_trip(v: u32)
    ensures
        word32(le32(v), 0) == v,
{
}

/// Reading a 64-bit word back from its bytes gives the word.
pub proof fn lemma_le64_round_trip(v: u64)
    ensures
        word64(le64(v), 0) == v,
{
    let low = (v % 0x1_0000_0000) as u32;
    let high = (v / 0x1_0000_0000) as u32;
    lemma_le32_round_trip(low);
    lemma_le32_round_trip(high);
    assert(word32(le64(v), 0) == word32(le32(low), 0));
    assert(word32(le64(v), 4) == word32(le32(high), 0));
}

/// The bytes of the word read at `at` are the bytes that stand there.
pub proof fn lemma_word32_bytes(s: Seq<u8>, at: int)
    requires
        0 <= at,
        at + 4 <= s.len(),
    ensures
        le32(word32(s, at)) == s.subrange(at, at + 4),
{
    let v = word32(s, at);
    let (a, b, c, d) = (s[at], s[at + 1], s[at + 2], s[at + 3]);
    assert(v == a + 0x100 * (b + 0x100 * (c + 0x100 * d)));
    assert(v / 0x100 == b + 0x100 * (c + 0x100 * d));
    assert(v / 0x1_0000 == c + 0x100 * d);
    assert(v / 0x100_0000 == d);
    assert(le32(v) =~= seq![a, b, c, d]);
    assert(s.subrange(at, at + 4) =~= seq![a, b, c, d]);
}

pub fn le16_bytes(v: u16) -> (b: [u8; 2])
    ensures
        b@ == le16(v),
{
    let b: [u8; 2] = [(v % 0x100) as u8, (v / 0x100) as u8];
    assert(b@ =~= le16(v));
    b
}

/// A 16-bit word whose bytes stand at `at` is what is read there.
pub proof fn lemma_word16_at(s: Seq<u8>, at: int, v: u16)
    requires
        0 <= at,
        at + 2 <= s.len(),
        s.subrange(at, at + 2) == le16(v),
    ensures
        word16(s, at) == v,
{
    let p = s.subrange(at, at + 2);
    assert(s[at] == p[0] && s[at + 1] == p[1]);
}

/// A 32-bit word whose bytes stand at `at` is what is read there.
pub proof fn lemma_word32_at(s: Seq<u8>, at: int, v: u32)
    requires
        0 <= at,
        at + 4 <= s.len(),
        s.subrange(at, at + 4) == le32(v),
    ensures
        word32(s, at) == v,
{
    let p = s.subrange(at, at + 4);
    lemma_le32_round_trip(v);
    assert(s[at] == p[0] && s[at + 1] == p[1] && s[at + 2] == p[2] && s[at + 3] == p[3]);
}

/// A 64-bit word whose bytes stand at `at` is what is read there.
pub proof fn lemma_word64_at(s: Seq<u8>, at: int, v: u64)
    requires
        0 <= at,
        at + 8 <= s.len(),
        s.subrange(at, at + 8) == le64(v),
    ensures
        word64(s, at) == v,
{
    let p = s.subrange(at, at + 8);
    lemma_le64_round_trip(v);
    assert(s[at] == p[0] && s[at + 1] == p[1] && s[at + 2] == p[2] && s[at + 3] == p[3]);
    assert(s[at + 4] == p[4] && s[at + 5] == p[5] && s[at + 6] == p[6] && s[at + 7] == p[7]);
}

/// What is written behind a byte string leaves its words as they were.
pub broadcast proof fn lemma_word32_before(s: Seq<u8>, x: Seq<u8>, at: int)
    requires
        0 <= at,
        at + 4 <= s.len(),
    ensures
        #[trigger] word32(s + x, at) == word32(s, at),
{
}

pub broadcast proof fn lemma_word64_before(s: Seq<u8>, x: Seq<u8>, at: int)
    requires
        0 <= at,
        at + 8 <= s.len(),
    ensures
        #[trigger] word64(s + x, at) == word64(s, at),
{
}

/// A word is read back from where it was written.
pub broadcast proof fn lemma_word32_last(s: Seq<u8>, v: u32, at: int)
    requires
        at == s.len(),
    ensures
        #[trigger] word32(s + le32(v), at) == v,
{
    assert((s + le32(v)).subrange(at, at + 4) =~= le32(v));
    lemma_word32_at(s + le32(v), at, v);
}

pub broadcast proof fn lemma_word64_last(s: Seq<u8>, v: u64, at: int)
    requires
        at == s.len(),
    ensures
        #[trigger] word64(s + le64(v), at) == v,
{
    assert((s + le64(v)).subrange(at, at + 8) =~= le64(v));
    lemma_word64_at(s + le64(v), at, v);
}

pub broadcast group group_reading {
    lemma_word32_before,
    lemma_word64_before,
    lemma_word32_last,
    lemma_word64_last,
}

/// `m` begins with `s`.
pub open spec fn begins(m: Seq<u8>, s: Seq<u8>) -> bool {
    s.len() <= m.len() && forall|i: int| 0 <= i < s.len() ==> #[trigger] m[i] == s[i]
}

/// The words of a byte string are those of its beginning.
pub proof fn lemma_begins(m: Seq<u8>, s: Seq<u8>)
    requires
        begins(m, s),
    ensures
        forall|at: int|
            0 <= at && at + 4 <= s.len() ==> #[trigger] word32(m, at) == word32(s, at),
        forall|at: int|
            0 <= at && at + 8 <= s.len() ==> #[trigger] word64(m, at) == word64(s, at),
{
}

} // verus!
