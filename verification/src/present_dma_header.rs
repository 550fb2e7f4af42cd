//! The header by which a present packet is told from a render record that lives
//! at the same place.

use vstd::prelude::*;
use crate::bytes;

verus! {

/// `"HPDP"`, little-endian.
pub const PRESENT_DMA_HEADER_MAGIC: u32 = 0x5044_5048;
pub const PRESENT_DMA_HEADER_VERSION: u32 = 1;
pub const PRESENT_DMA_HEADER_BYTES: usize = 16;

#[derive(Clone, Copy, PartialEq, Eq, Debug, Structural)]
pub enum PresentDmaKind {
    /// A copy that was made before: the packet only orders.
    Blt,
    /// A flip: its record follows in the packet.
    Flip,
    /// A present of several planes.
    Mpo,
    /// Any other present that has a packet.
    Other,
}

/// The number of a kind.
pub open spec fn raw_kind(kind: PresentDmaKind) -> u32 {
    match kind {
        PresentDmaKind::Blt => 1,
        PresentDmaKind::Flip => 2,
        PresentDmaKind::Mpo => 3,
        PresentDmaKind::Other => 4,
    }
}

/// The kind of a number.
pub open spec fn kind_of(raw: u32) -> Option<PresentDmaKind> {
    match raw {
        1 => Some(PresentDmaKind::Blt),
        2 => Some(PresentDmaKind::Flip),
        3 => Some(PresentDmaKind::Mpo),
        4 => Some(PresentDmaKind::Other),
        _ => None,
    }
}

impl PresentDmaKind {
    pub fn from_raw(raw: u32) -> (r: Option<Self>)
        ensures
            r == kind_of(raw),
    {
        match raw {
            1 => Some(PresentDmaKind::Blt),
            2 => Some(PresentDmaKind::Flip),
            3 => Some(PresentDmaKind::Mpo),
            4 => Some(PresentDmaKind::Other),
            _ => None,
        }
    }

    pub fn to_raw(self) -> (raw: u32)
        ensures
            raw == raw_kind(self),
    {
        match self {
            PresentDmaKind::Blt => 1,
            PresentDmaKind::Flip => 2,
            PresentDmaKind::Mpo => 3,
            PresentDmaKind::Other => 4,
        }
    }
}

/// The bytes of a header: magic, version, kind, zero.
pub open spec fn header_bytes(kind: PresentDmaKind) -> Seq<u8> {
    bytes::le32(PRESENT_DMA_HEADER_MAGIC) + bytes::le32(PRESENT_DMA_HEADER_VERSION) + bytes::le32(
        raw_kind(kind),
    ) + bytes::le32(0)
}

/// The kind of present that these bytes begin with the header of, if they do.
pub open spec fn header_of(b: Seq<u8>) -> Option<PresentDmaKind> {
    if b.len() >= 16 && bytes::word32(b, 0) == PRESENT_DMA_HEADER_MAGIC && bytes::word32(b, 4)
        == PRESENT_DMA_HEADER_VERSION && bytes::word32(b, 12) == 0 {
        kind_of(bytes::word32(b, 8))
    } else {
        None
    }
}

pub fn encode(kind: PresentDmaKind) -> (out: [u8; PRESENT_DMA_HEADER_BYTES])
    ensures
        out@ == header_bytes(kind),
{
    let mut out: [u8; PRESENT_DMA_HEADER_BYTES] = [0u8;PRESENT_DMA_HEADER_BYTES];
    let magic: [u8; 4] = bytes::le32_bytes(PRESENT_DMA_HEADER_MAGIC);
    let version: [u8; 4] = bytes::le32_bytes(PRESENT_DMA_HEADER_VERSION);
    let raw: [u8; 4] = bytes::le32_bytes(kind.to_raw());
    let zero: [u8; 4] = bytes::le32_bytes(0);
    bytes::write_at(&mut out, 0, &magic);
    bytes::write_at(&mut out, 4, &version);
    bytes::write_at(&mut out, 8, &raw);
    bytes::write_at(&mut out, 12, &zero);
    assert(out@ =~= header_bytes(kind));
    out
}

/// The kind of a present packet; `None` for anything else. What follows the header
/// does not matter.
pub fn decode(b: &[u8]) -> (r: Option<PresentDmaKind>)
    ensures
        r == header_of(b@),
{
    if b.len() < PRESENT_DMA_HEADER_BYTES {
        return None;
    }
    if bytes::read32(b, 0) != PRESENT_DMA_HEADER_MAGIC || bytes::read32(b, 4)
        != PRESENT_DMA_HEADER_VERSION || bytes::read32(b, 12) != 0 {
        return None;
    }
    PresentDmaKind::from_raw(bytes::read32(b, 8))
}

/// Every kind is decoded from its header, whatever follows the header.
pub proof fn law_header_round_trip(kind: PresentDmaKind, tail: Seq<u8>)
    ensures
        header_of(header_bytes(kind) + tail) == Some(kind),
{
    let b = header_bytes(kind) + tail;
    bytes::lemma_le32_round_trip(PRESENT_DMA_HEADER_MAGIC);
    bytes::lemma_le32_round_trip(PRESENT_DMA_HEADER_VERSION);
    bytes::lemma_le32_round_trip(raw_kind(kind));
    bytes::lemma_le32_round_trip(0);
    bytes::lemma_word32_bytes(b, 0);
    bytes::lemma_word32_bytes(b, 4);
    bytes::lemma_word32_bytes(b, 8);
    bytes::lemma_word32_bytes(b, 12);
    assert(b.subrange(0, 4) =~= bytes::le32(PRESENT_DMA_HEADER_MAGIC));
    assert(b.subrange(4, 8) =~= bytes::le32(PRESENT_DMA_HEADER_VERSION));
    assert(b.subrange(8, 12) =~= bytes::le32(raw_kind(kind)));
    assert(b.subrange(12, 16) =~= bytes::le32(0));
}

/// Bytes are decoded to a kind only if they begin with its header.
pub proof fn law_only_headers_decode(b: Seq<u8>, kind: PresentDmaKind)
    requires
        header_of(b) == Some(kind),
    ensures
        b.len() >= 16,
        b.take(16) == header_bytes(kind),
{
    bytes::lemma_word32_bytes(b, 0);
    bytes::lemma_word32_bytes(b, 4);
    bytes::lemma_word32_bytes(b, 8);
    bytes::lemma_word32_bytes(b, 12);
    assert(b.take(16) =~= b.subrange(0, 4) + b.subrange(4, 8) + b.subrange(8, 12) + b.subrange(
        12,
        16,
    ));
}

/// The words of a header: its tag, its version, the number of its kind, and zero. The kinds
/// are numbered from one.
pub proof fn law_the_words_of_a_header(kind: PresentDmaKind, b: Seq<u8>)
    ensures
        header_bytes(kind).len() == 16,
        bytes::word32(header_bytes(kind), 0) == 0x5044_5048,
        bytes::word32(header_bytes(kind), 4) == 1,
        bytes::word32(header_bytes(kind), 8) == (match kind {
            PresentDmaKind::Blt => 1u32,
            PresentDmaKind::Flip => 2,
            PresentDmaKind::Mpo => 3,
            PresentDmaKind::Other => 4,
        }),
        bytes::word32(header_bytes(kind), 12) == 0,
        header_of(b) is Some <==> b.len() >= 16 && bytes::word32(b, 0) == 0x5044_5048
            && bytes::word32(b, 4) == 1 && 1 <= bytes::word32(b, 8) <= 4 && bytes::word32(b, 12)
            == 0,
{
    let b = header_bytes(kind);
    assert(b.subrange(0, 4) =~= bytes::le32(PRESENT_DMA_HEADER_MAGIC));
    bytes::lemma_word32_at(b, 0, PRESENT_DMA_HEADER_MAGIC);
    assert(b.subrange(4, 8) =~= bytes::le32(PRESENT_DMA_HEADER_VERSION));
    bytes::lemma_word32_at(b, 4, PRESENT_DMA_HEADER_VERSION);
    assert(b.subrange(8, 12) =~= bytes::le32(raw_kind(kind)));
    bytes::lemma_word32_at(b, 8, raw_kind(kind));
    assert(b.subrange(12, 16) =~= bytes::le32(0));
    bytes::lemma_word32_at(b, 12, 0);
}

} // verus!
