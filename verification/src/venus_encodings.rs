//! The byte strings that are one admitted Venus command, written down from the parts of
//! the command, and what is admitted of each.

use vstd::prelude::*;
use crate::bytes;
use crate::venus;
use crate::venus_executor::{VenusCommandClass, VenusOperand, VenusReject};
use crate::venus_grammar;
use crate::venus_grammar::{Outcome, Walk};

verus! {

/// The bytes `b` stand in `s` from `at` on.
#[verifier::opaque]
pub open spec fn stands(s: Seq<u8>, at: int, b: Seq<u8>) -> bool {
    0 <= at && at + b.len() <= s.len() && s.subrange(at, at + b.len()) == b
}

pub broadcast proof fn lemma_stands_both(s: Seq<u8>, at: int, a: Seq<u8>, b: Seq<u8>)
    ensures
        #[trigger] stands(s, at, a + b) == (stands(s, at, a) && stands(s, at + a.len(), b)),
{
    reveal(stands);
    if stands(s, at, a + b) {
        assert(s.subrange(at, at + a.len()) =~= a) by {
            assert forall|i: int| 0 <= i < a.len() implies s[at + i] == a[i] by {
                assert(s.subrange(at, at + (a + b).len())[i] == (a + b)[i]);
            }
        }
        assert(s.subrange(at + a.len(), at + a.len() + b.len()) =~= b) by {
            assert forall|i: int| 0 <= i < b.len() implies s[at + a.len() + i] == b[i] by {
                assert(s.subrange(at, at + (a + b).len())[a.len() + i] == (a + b)[a.len() + i]);
            }
        }
    }
    if stands(s, at, a) && stands(s, at + a.len(), b) {
        assert(s.subrange(at, at + (a + b).len()) =~= a + b) by {
            assert forall|i: int| 0 <= i < (a + b).len() implies s[at + i] == (a + b)[i] by {
                if i < a.len() {
                    assert(s.subrange(at, at + a.len())[i] == a[i]);
                } else {
                    assert(s.subrange(at + a.len(), at + a.len() + b.len())[i - a.len()] == b[i
                        - a.len()]);
                }
            }
        }
    }
}

pub broadcast proof fn lemma_stands_word32(s: Seq<u8>, at: int, v: u32)
    ensures
        #[trigger] stands(s, at, bytes::le32(v)) == (0 <= at && at + 4 <= s.len() && bytes::word32(
            s,
            at,
        ) == v),
{
    reveal(stands);
    if 0 <= at && at + 4 <= s.len() {
        bytes::lemma_word32_bytes(s, at);
        if stands(s, at, bytes::le32(v)) {
            bytes::lemma_word32_at(s, at, v);
        }
    }
}

pub broadcast proof fn lemma_stands_word64(s: Seq<u8>, at: int, v: u64)
    ensures
        #[trigger] stands(s, at, bytes::le64(v)) == (0 <= at && at + 8 <= s.len() && bytes::word64(
            s,
            at,
        ) == v),
{
    reveal(stands);
    let low = (v % 0x1_0000_0000) as u32;
    let high = (v / 0x1_0000_0000) as u32;
    lemma_stands_both(s, at, bytes::le32(low), bytes::le32(high));
    lemma_stands_word32(s, at, low);
    lemma_stands_word32(s, at + 4, high);
}

/// Any bytes of `s` stand where they are.
pub proof fn lemma_stands_here(s: Seq<u8>, at: int, n: int)
    requires
        0 <= at,
        0 <= n,
        at + n <= s.len(),
    ensures
        stands(s, at, s.subrange(at, at + n)),
        s.subrange(at, at + n).len() == n,
{
    reveal(stands);
}

pub proof fn lemma_stands_inside(s: Seq<u8>, at: int, b: Seq<u8>)
    requires
        stands(s, at, b),
    ensures
        0 <= at,
        at + b.len() <= s.len(),
{
    reveal(stands);
}

pub proof fn lemma_stands_whole(s: Seq<u8>)
    ensures
        stands(s, 0, s),
{
    reveal(stands);
    assert(s.subrange(0, s.len() as int) =~= s);
}

pub proof fn lemma_whole_stands(s: Seq<u8>, b: Seq<u8>)
    requires
        stands(s, 0, b),
        b.len() == s.len(),
    ensures
        s == b,
{
    reveal(stands);
    assert(s.subrange(0, s.len() as int) =~= s);
}

pub broadcast group group_stands {
    lemma_stands_both,
    lemma_stands_word32,
    lemma_stands_word64,
    bytes::lemma_le32_len,
    bytes::lemma_le64_len,
}

/// One link of the extension chain of a memory allocation.
pub enum MemoryLink {
    Export { handle_types: u32 },
    Flags { flags: u32, device_mask: u32 },
    Dedicated { image: u64, buffer: u64 },
    CaptureAddress { address: u64 },
    /// The import of a host resource, whose word is left zero.
    Import,
}

/// The structure tag of a link.
pub open spec fn memory_tag(l: MemoryLink) -> u32 {
    match l {
        MemoryLink::Export { .. } => 1_000_072_002,
        MemoryLink::Flags { .. } => 1_000_060_000,
        MemoryLink::Dedicated { .. } => 1_000_127_001,
        MemoryLink::CaptureAddress { .. } => 1_000_257_003,
        MemoryLink::Import => 1_000_384_002,
    }
}

/// The fields of a link.
pub open spec fn memory_fields(l: MemoryLink) -> Seq<u8> {
    match l {
        MemoryLink::Export { handle_types } => bytes::le32(handle_types),
        MemoryLink::Flags { flags, device_mask } => bytes::le32(flags) + bytes::le32(device_mask),
        MemoryLink::Dedicated { image, buffer } => bytes::le64(image) + bytes::le64(buffer),
        MemoryLink::CaptureAddress { address } => bytes::le64(address),
        MemoryLink::Import => bytes::le32(0),
    }
}

/// The bytes of a chain: each link is a marker and a tag, then the rest of the chain,
/// then its own fields. A null marker ends the chain.
pub open spec fn memory_chain(links: Seq<MemoryLink>) -> Seq<u8>
    decreases links.len(),
{
    if links.len() == 0 {
        bytes::le64(0)
    } else {
        bytes::le64(1) + bytes::le32(memory_tag(links[0])) + memory_chain(links.skip(1))
            + memory_fields(links[0])
    }
}

/// How many links import a resource.
pub open spec fn import_count(links: Seq<MemoryLink>) -> nat
    decreases links.len(),
{
    if links.len() == 0 {
        0
    } else {
        import_count(links.skip(1)) + if links[0] is Import {
            1nat
        } else {
            0
        }
    }
}

/// Where the resource word of the import stands in a chain that begins at `at`.
pub open spec fn import_place(links: Seq<MemoryLink>, at: int) -> int
    decreases links.len(),
{
    if links.len() == 0 {
        at
    } else if links[0] is Import {
        at + 12 + memory_chain(links.skip(1)).len()
    } else {
        import_place(links.skip(1), at + 12)
    }
}

/// The operand at this place.
pub open spec fn operand_at(place: int) -> VenusOperand {
    VenusOperand { payload_offset: place as u32, operand_kind: 1 }
}

proof fn lemma_memory_link(s: Seq<u8>, walk: Walk, l: MemoryLink, capacity: nat)
    requires
        stands(s, walk.at, memory_fields(l)),
        s.len() <= u32::MAX,
        l is Import ==> walk.imports == 0 && walk.out.len() < capacity,
    ensures
        venus_grammar::memory_link(s, walk, memory_tag(l), capacity) == venus_grammar::proceeds(
            Walk {
                at: walk.at + memory_fields(l).len(),
                out: if l is Import {
                    walk.out.push(operand_at(walk.at))
                } else {
                    walk.out
                },
                imports: if l is Import {
                    1
                } else {
                    walk.imports
                },
            },
        ),
{
    broadcast use group_stands;
    lemma_stands_inside(s, walk.at, memory_fields(l));
}

/// A chain of at most seven links, of which one imports at most, is read whole.
#[verifier::spinoff_prover]
proof fn lemma_memory_chain(
    s: Seq<u8>,
    walk: Walk,
    links: Seq<MemoryLink>,
    depth: nat,
    capacity: nat,
)
    requires
        stands(s, walk.at, memory_chain(links)),
        s.len() <= u32::MAX,
        depth + links.len() < 8,
        walk.imports == 0,
        import_count(links) <= 1,
        import_count(links) + walk.out.len() <= capacity,
    ensures
        venus_grammar::memory_pnext(s, walk, depth, capacity) == venus_grammar::proceeds(
            Walk {
                at: walk.at + memory_chain(links).len(),
                out: if import_count(links) == 1 {
                    walk.out.push(operand_at(import_place(links, walk.at)))
                } else {
                    walk.out
                },
                imports: import_count(links),
            },
        ),
    decreases links.len(),
{
    broadcast use group_stands;
    if links.len() > 0 {
        let rest = links.skip(1);
        let inner = Walk { at: walk.at + 12, ..walk };
        assert(stands(s, walk.at + 12, memory_chain(rest)));
        lemma_memory_chain(s, inner, rest, depth + 1, capacity);
        let after = venus_grammar::memory_pnext(s, inner, depth + 1, capacity).walk;
        assert(stands(s, after.at, memory_fields(links[0])));
        lemma_memory_link(s, after, links[0], capacity);
    }
}

/// The link that stands behind what was read of a chain.
proof fn lemma_link_read(s: Seq<u8>, walk: Walk, tag: u32, capacity: nat) -> (l: MemoryLink)
    requires
        0 <= walk.at,
        venus_grammar::memory_link(s, walk, tag, capacity).refusal is None,
    ensures
        ({
            let o = venus_grammar::memory_link(s, walk, tag, capacity).walk;
            &&& memory_tag(l) == tag
            &&& stands(s, walk.at, memory_fields(l))
            &&& o.at == walk.at + memory_fields(l).len()
            &&& l is Import ==> walk.imports == 0 && o.imports == 1 && o.out.len()
                == walk.out.len() + 1 <= capacity
            &&& !(l is Import) ==> o.imports == walk.imports && o.out == walk.out
        }),
{
    broadcast use group_stands;
    let at = walk.at;
    if tag == 1_000_072_002 {
        MemoryLink::Export { handle_types: bytes::word32(s, at) }
    } else if tag == 1_000_060_000 {
        MemoryLink::Flags {
            flags: bytes::word32(s, at),
            device_mask: bytes::word32(s, at + 4),
        }
    } else if tag == 1_000_127_001 {
        MemoryLink::Dedicated { image: bytes::word64(s, at), buffer: bytes::word64(s, at + 8) }
    } else if tag == 1_000_257_003 {
        MemoryLink::CaptureAddress { address: bytes::word64(s, at) }
    } else {
        MemoryLink::Import
    }
}

/// A chain that was read is the chain of some links.
#[verifier::spinoff_prover]
proof fn lemma_chain_read(s: Seq<u8>, walk: Walk, depth: nat, capacity: nat) -> (links: Seq<
    MemoryLink,
>)
    requires
        0 <= walk.at,
        walk.imports == 0,
        venus_grammar::memory_pnext(s, walk, depth, capacity).refusal is None,
    ensures
        ({
            let o = venus_grammar::memory_pnext(s, walk, depth, capacity).walk;
            &&& stands(s, walk.at, memory_chain(links))
            &&& depth + links.len() < 8
            &&& o.at == walk.at + memory_chain(links).len()
            &&& o.imports == import_count(links) <= 1
            &&& o.out.len() == walk.out.len() + import_count(links)
            &&& import_count(links) > 0 ==> o.out.len() <= capacity
        }),
    decreases 8 - depth,
{
    broadcast use group_stands;
    let (present, p) = venus_grammar::pointer(s, walk.at)->Ok_0;
    if !present {
        Seq::empty()
    } else {
        let (tag, q) = venus_grammar::u32_at(s, p)->Ok_0;
        let inner = Walk { at: q, ..walk };
        let rest = lemma_chain_read(s, inner, depth + 1, capacity);
        let after = venus_grammar::memory_pnext(s, inner, depth + 1, capacity).walk;
        let l = lemma_link_read(s, after, tag, capacity);
        let links = seq![l] + rest;
        assert(links.skip(1) =~= rest);
        links
    }
}

/// One memory allocation, and the reply stream before it.
pub struct AllocationParts {
    pub reply_offset: u64,
    pub reply_size: u64,
    pub device: u64,
    pub links: Seq<MemoryLink>,
    pub size: u64,
    pub memory_type_index: u32,
    pub memory: u64,
}

/// The reply stream that an allocation replies into: a marker, a zero word for the host
/// resource, and the range.
pub open spec fn reply_stream(offset: u64, size: u64) -> Seq<u8> {
    bytes::le32(178) + bytes::le32(0) + bytes::le64(1) + bytes::le32(0) + bytes::le64(offset)
        + bytes::le64(size)
}

/// What a memory allocation says before its chain.
pub open spec fn allocation_head(device: u64) -> Seq<u8> {
    bytes::le32(21) + bytes::le32(1) + bytes::le64(device) + bytes::le64(1) + bytes::le32(5)
}

/// What a memory allocation says behind its chain: no allocator, and the new object.
pub open spec fn allocation_tail(size: u64, memory_type_index: u32, memory: u64) -> Seq<u8> {
    bytes::le64(size) + bytes::le32(memory_type_index) + bytes::le64(0) + bytes::le64(1)
        + bytes::le64(memory)
}

/// The bytes of a memory allocation that replies.
pub open spec fn allocation_bytes(p: AllocationParts) -> Seq<u8> {
    reply_stream(p.reply_offset, p.reply_size) + allocation_head(p.device) + memory_chain(p.links)
        + allocation_tail(p.size, p.memory_type_index, p.memory)
}

/// The allocation asks for memory, replies somewhere, imports one resource, and chains
/// no more than seven links.
pub open spec fn is_allocation(p: AllocationParts) -> bool {
    p.reply_size > 0 && p.size > 0 && p.links.len() <= 7 && import_count(p.links) == 1
}

proof fn lemma_chain_len(links: Seq<MemoryLink>)
    ensures
        8 <= memory_chain(links).len() <= 8 + 28 * links.len(),
    decreases links.len(),
{
    broadcast use group_stands;
    if links.len() > 0 {
        lemma_chain_len(links.skip(1));
    }
}

proof fn lemma_import_place(links: Seq<MemoryLink>, at: int)
    requires
        import_count(links) == 1,
        0 <= at,
    ensures
        at + 20 <= import_place(links, at),
        import_place(links, at) + 4 <= at + memory_chain(links).len(),
    decreases links.len(),
{
    broadcast use group_stands;
    lemma_chain_len(links.skip(1));
    if !(links[0] is Import) {
        lemma_import_place(links.skip(1), at + 12);
    }
}

/// The stream is admitted as this allocation: with its reply range, its size and its
/// memory type, and with two operands, the word of the reply stream and the word of
/// the import where the chain puts it.
#[verifier::opaque]
pub open spec fn admits_allocation(s: Seq<u8>, capacity: nat, p: AllocationParts) -> bool {
    let (o, c) = venus_grammar::stream(s, capacity);
    &&& o.refusal is None
    &&& c.class is AllocateMemory
    &&& c.reply == (p.reply_offset, p.reply_size)
    &&& c.allocation.size == p.size
    &&& c.allocation.memory_type_index == p.memory_type_index
    &&& o.walk.out == seq![operand_at(16), operand_at(import_place(p.links, 64))]
}

/// Every memory allocation that replies and imports one resource is admitted, whatever
/// else its chain holds.
pub proof fn law_allocations_are_admitted(p: AllocationParts, capacity: nat)
    requires
        is_allocation(p),
        capacity >= 2,
    ensures
        admits_allocation(allocation_bytes(p), capacity, p),
{
    let s = allocation_bytes(p);
    lemma_stands_whole(s);
    lemma_allocation_parts(s, p);
    lemma_allocation_stands(s, capacity, p);
}

proof fn lemma_allocation_parts(s: Seq<u8>, p: AllocationParts)
    requires
        stands(s, 0, allocation_bytes(p)),
    ensures
        allocation_bytes(p).len() == 64 + memory_chain(p.links).len() + 36,
        stands(s, 0, reply_stream(p.reply_offset, p.reply_size) + allocation_head(p.device)),
        stands(s, 64, memory_chain(p.links)),
        stands(
            s,
            64 + memory_chain(p.links).len() as int,
            allocation_tail(p.size, p.memory_type_index, p.memory),
        ),
{
    broadcast use group_stands;
}

#[verifier::spinoff_prover]
proof fn lemma_allocation_stands(s: Seq<u8>, capacity: nat, p: AllocationParts)
    requires
        is_allocation(p),
        capacity >= 2,
        s.len() == 64 + memory_chain(p.links).len() + 36,
        stands(s, 0, reply_stream(p.reply_offset, p.reply_size) + allocation_head(p.device)),
        stands(s, 64, memory_chain(p.links)),
        stands(
            s,
            64 + memory_chain(p.links).len() as int,
            allocation_tail(p.size, p.memory_type_index, p.memory),
        ),
    ensures
        admits_allocation(s, capacity, p),
{
    lemma_chain_len(p.links);
    let replied = Walk { at: 64, out: seq![operand_at(16)], imports: 0 };
    let chained = Walk {
        at: 64 + memory_chain(p.links).len() as int,
        out: seq![operand_at(16), operand_at(import_place(p.links, 64))],
        imports: 1,
    };
    assert(seq![operand_at(16)].push(operand_at(import_place(p.links, 64))) =~= chained.out);
    lemma_memory_chain(s, replied, p.links, 0, capacity);
    lemma_tail(s, chained.at, p.size, p.memory_type_index, p.memory);
    lemma_head(s, capacity, p);
    lemma_body(s, capacity, p, chained);
    lemma_admits(s, capacity, p, chained);
}

proof fn lemma_admits(s: Seq<u8>, capacity: nat, p: AllocationParts, chained: Walk)
    requires
        venus_grammar::header(s, 0) == Ok::<((u32, u32), int), VenusReject>(((178, 0), 8)),
        chained.at + 36 == s.len(),
        chained.out == seq![operand_at(16), operand_at(import_place(p.links, 64))],
        venus_grammar::reply_then_allocate(s, 8, 0, capacity) == allocation_outcome(p, chained),
    ensures
        admits_allocation(s, capacity, p),
{
    reveal(admits_allocation);
    lemma_stream_of_reply(s, 0, capacity);
}

/// What comes of an allocation whose chain was read.
spec fn allocation_outcome(p: AllocationParts, chained: Walk) -> (Outcome, venus_grammar::Command) {
    (
        venus_grammar::proceeds(Walk { at: chained.at + 36, ..chained }),
        venus_grammar::Command {
            class: VenusCommandClass::AllocateMemory,
            reply: (p.reply_offset, p.reply_size),
            allocation: venus_grammar::Allocation {
                size: p.size,
                memory_type_index: p.memory_type_index,
            },
        },
    )
}

/// What is read of an allocation whose parts are known.
#[verifier::spinoff_prover]
proof fn lemma_body(s: Seq<u8>, capacity: nat, p: AllocationParts, chained: Walk)
    requires
        venus_grammar::pointer(s, 8) == Ok::<(bool, int), VenusReject>((true, 16)),
        venus_grammar::resource_operand(
            s,
            Walk { at: 16, out: Seq::empty(), imports: 0 },
            capacity,
        ) == venus_grammar::proceeds(Walk { at: 20, out: seq![operand_at(16)], imports: 0 }),
        venus_grammar::reply_range(s, 20) == Ok::<((u64, u64), int), VenusReject>(
            ((p.reply_offset, p.reply_size), 36),
        ),
        venus_grammar::header(s, 36) == Ok::<((u32, u32), int), VenusReject>(((21, 1), 44)),
        venus_grammar::allocate_head(s, 44) == Ok::<int, VenusReject>(64),
        venus_grammar::memory_pnext(
            s,
            Walk { at: 64, out: seq![operand_at(16)], imports: 0 },
            0,
            capacity,
        ) == venus_grammar::proceeds(chained),
        chained.imports == 1,
        venus_grammar::allocate_tail(s, chained.at, 1) == Ok::<
            (venus_grammar::Allocation, int),
            VenusReject,
        >(
            (
                venus_grammar::Allocation {
                    size: p.size,
                    memory_type_index: p.memory_type_index,
                },
                chained.at + 36,
            ),
        ),
    ensures
        venus_grammar::reply_then_allocate(s, 8, 0, capacity) == allocation_outcome(p, chained),
{
}

/// A stream that begins with a reply stream.
proof fn lemma_stream_of_reply(s: Seq<u8>, flags: u32, capacity: nat)
    requires
        venus_grammar::header(s, 0) == Ok::<((u32, u32), int), VenusReject>(((178, flags), 8)),
    ensures
        ({
            let (o, c) = venus_grammar::reply_then_allocate(s, 8, flags, capacity);
            venus_grammar::stream(s, capacity) == if o.refusal is None && o.walk.at != s.len() {
                (venus_grammar::refuses(o.walk, VenusReject::TrailingBytes), c)
            } else {
                (o, c)
            }
        }),
{
}

/// Only a reply stream leads to an admitted allocation.
pub proof fn lemma_class_of_stream(s: Seq<u8>, capacity: nat)
    requires
        venus_grammar::stream(s, capacity).0.refusal is None,
    ensures
        8 <= s.len(),
        venus_grammar::header(s, 0) == Ok::<((u32, u32), int), VenusReject>(
            ((bytes::word32(s, 0), bytes::word32(s, 4)), 8),
        ),
        match venus_grammar::stream(s, capacity).1.class {
            VenusCommandClass::AllocateMemory => bytes::word32(s, 0) == 178,
            VenusCommandClass::FreeMemory => bytes::word32(s, 0) == 22,
            VenusCommandClass::QueueSubmit => bytes::word32(s, 0) == 18,
            VenusCommandClass::QueueSubmit2 => bytes::word32(s, 0) == 206,
            VenusCommandClass::QueueBindSparse => bytes::word32(s, 0) == 34,
        },
        venus_grammar::stream(s, capacity).0.walk.at == s.len(),
{
}

proof fn lemma_tail(s: Seq<u8>, at: int, size: u64, memory_type_index: u32, memory: u64)
    requires
        stands(s, at, allocation_tail(size, memory_type_index, memory)),
        s.len() <= u32::MAX,
        size > 0,
    ensures
        venus_grammar::allocate_tail(s, at, 1) == Ok::<
            (venus_grammar::Allocation, int),
            VenusReject,
        >((venus_grammar::Allocation { size, memory_type_index }, at + 36)),
{
    broadcast use group_stands;
}

/// What is read before the chain.
proof fn lemma_head(s: Seq<u8>, capacity: nat, p: AllocationParts)
    requires
        stands(
            s,
            0,
            reply_stream(p.reply_offset, p.reply_size) + allocation_head(p.device),
        ),
        s.len() <= u32::MAX,
        p.reply_size > 0,
        capacity >= 1,
    ensures
        venus_grammar::header(s, 0) == Ok::<((u32, u32), int), VenusReject>(((178, 0), 8)),
        venus_grammar::pointer(s, 8) == Ok::<(bool, int), VenusReject>((true, 16)),
        venus_grammar::resource_operand(
            s,
            Walk { at: 16, out: Seq::empty(), imports: 0 },
            capacity,
        ) == venus_grammar::proceeds(Walk { at: 20, out: seq![operand_at(16)], imports: 0 }),
        venus_grammar::reply_range(s, 20) == Ok::<((u64, u64), int), VenusReject>(
            ((p.reply_offset, p.reply_size), 36),
        ),
        venus_grammar::header(s, 36) == Ok::<((u32, u32), int), VenusReject>(((21, 1), 44)),
        venus_grammar::allocate_head(s, 44) == Ok::<int, VenusReject>(64),
{
    broadcast use group_stands;
    assert(Seq::<VenusOperand>::empty().push(operand_at(16)) =~= seq![operand_at(16)]);
}

/// An admitted allocation is the encoding of its parts, and of nothing else.
#[verifier::spinoff_prover]
pub proof fn law_only_allocations_are_admitted(s: Seq<u8>, capacity: nat)
    requires
        venus_grammar::stream(s, capacity).0.refusal is None,
        venus_grammar::stream(s, capacity).1.class is AllocateMemory,
    ensures
        capacity >= 2,
        exists|p: AllocationParts| #[trigger] allocation_bytes(p) == s && is_allocation(p),
{
    let (o, c) = venus_grammar::stream(s, capacity);
    lemma_class_of_stream(s, capacity);
    lemma_stream_of_reply(s, bytes::word32(s, 4), capacity);
    lemma_head_read(s, bytes::word32(s, 4), capacity);
    let head = Walk { at: 64, out: seq![operand_at(16)], imports: 0 };
    let links = lemma_chain_read(s, head, 0, capacity);
    let chained = venus_grammar::memory_pnext(s, head, 0, capacity).walk;
    let at = chained.at;
    let p = AllocationParts {
        reply_offset: bytes::word64(s, 20),
        reply_size: bytes::word64(s, 28),
        device: bytes::word64(s, 44),
        links,
        size: bytes::word64(s, at),
        memory_type_index: bytes::word32(s, at + 8),
        memory: bytes::word64(s, at + 28),
    };
    lemma_tail_read(s, at, chained.imports);
    assert(stands(s, 0, allocation_bytes(p)) && allocation_bytes(p).len() == s.len()) by {
        broadcast use group_stands;

    }
    lemma_whole_stands(s, allocation_bytes(p));
}

/// What stood before the chain of an allocation that was read.
#[verifier::spinoff_prover]
proof fn lemma_head_read(s: Seq<u8>, flags: u32, capacity: nat)
    requires
        bytes::word32(s, 0) == 178,
        bytes::word32(s, 4) == flags,
        8 <= s.len(),
        venus_grammar::reply_then_allocate(s, 8, flags, capacity).0.refusal is None,
    ensures
        capacity >= 1,
        bytes::word64(s, 28) > 0,
        stands(
            s,
            0,
            reply_stream(bytes::word64(s, 20), bytes::word64(s, 28)) + allocation_head(
                bytes::word64(s, 44),
            ),
        ),
        ({
            let head = Walk { at: 64, out: seq![operand_at(16)], imports: 0 };
            let chain = venus_grammar::memory_pnext(s, head, 0, capacity);
            let o = venus_grammar::reply_then_allocate(s, 8, flags, capacity).0;
            &&& chain.refusal is None
            &&& venus_grammar::allocate_tail(s, chain.walk.at, chain.walk.imports) matches Ok(
                (_, at),
            ) && o.walk.at == at
        }),
{
    broadcast use group_stands;
    assert(Seq::<VenusOperand>::empty().push(operand_at(16)) =~= seq![operand_at(16)]);
    assert(venus_grammar::allocate_head(s, 44) is Ok);
}

proof fn lemma_tail_read(s: Seq<u8>, at: int, imports: nat)
    requires
        0 <= at,
        venus_grammar::allocate_tail(s, at, imports) is Ok,
    ensures
        imports == 1,
        bytes::word64(s, at) > 0,
        venus_grammar::allocate_tail(s, at, imports)->Ok_0.1 == at + 36,
        stands(
            s,
            at,
            allocation_tail(
                bytes::word64(s, at),
                bytes::word32(s, at + 8),
                bytes::word64(s, at + 28),
            ),
        ),
{
    broadcast use group_stands;
}

/// The bytes of a release of memory: device, memory, no allocator.
pub open spec fn release_bytes(device: u64, memory: u64) -> Seq<u8> {
    bytes::le32(22) + bytes::le32(0) + bytes::le64(device) + bytes::le64(memory) + bytes::le64(0)
}

/// Every release of memory without an allocator is admitted, without operands, and no
/// other stream is admitted as one.
pub proof fn law_releases_are_admitted(s: Seq<u8>, device: u64, memory: u64, capacity: nat)
    ensures
        ({
            let (o, c) = venus_grammar::stream(release_bytes(device, memory), capacity);
            o.refusal is None && c == venus_grammar::plain(VenusCommandClass::FreeMemory)
                && o.walk.out.len() == 0
        }),
        venus_grammar::stream(s, capacity).0.refusal is None && venus_grammar::stream(
            s,
            capacity,
        ).1.class is FreeMemory ==> s == release_bytes(
            bytes::word64(s, 8),
            bytes::word64(s, 16),
        ),
{
    let b = release_bytes(device, memory);
    lemma_stands_whole(b);
    assert(b.len() == 32 && venus_grammar::header(b, 0) == Ok::<((u32, u32), int), VenusReject>(
        ((22, 0), 8),
    ) && venus_grammar::pointer(b, 24) == Ok::<(bool, int), VenusReject>((false, 32))) by {
        broadcast use group_stands;

    }
    let (o, c) = venus_grammar::stream(s, capacity);
    if o.refusal is None && c.class is FreeMemory {
        lemma_class_of_stream(s, capacity);
        lemma_release_read(s, capacity);
    }
}

proof fn lemma_release_read(s: Seq<u8>, capacity: nat)
    requires
        venus_grammar::stream(s, capacity).0.refusal is None,
        venus_grammar::header(s, 0) == Ok::<((u32, u32), int), VenusReject>(
            ((22, bytes::word32(s, 4)), 8),
        ),
        bytes::word32(s, 0) == 22,
    ensures
        s == release_bytes(bytes::word64(s, 8), bytes::word64(s, 16)),
{
    let t = release_bytes(bytes::word64(s, 8), bytes::word64(s, 16));
    assert(venus_grammar::free_body(s, 8, bytes::word32(s, 4)) == Ok::<int, VenusReject>(
        s.len() as int,
    ));
    assert(stands(s, 0, t) && t.len() == s.len()) by {
        broadcast use group_stands;

    }
    lemma_whole_stands(s, t);
}

/// The chain of an allocation whose storage is the resource.
pub open spec fn import_chain(resource_id: u32, rest: Seq<u8>) -> Seq<u8> {
    bytes::le64(1) + bytes::le32(1_000_384_002) + rest + bytes::le32(resource_id)
}

/// What a memory-allocate command says: its head, its chain, and its tail. A plain one
/// has no chain; an export says its handle types, and what it is dedicated to; an
/// import says its resource, and what it is dedicated to.
pub proof fn law_the_bytes_of_a_memory_allocation(
    device: u64,
    memory: u64,
    spec: venus::MemoryAllocateSpec,
)
    ensures
        ({
            let m = venus::memory_allocate_message(device, memory, spec);
            let chain = match spec.pnext {
                venus::MemoryPNext::Plain => memory_chain(Seq::empty()),
                venus::MemoryPNext::Export { handle_type } => memory_chain(
                    seq![MemoryLink::Export { handle_types: handle_type }],
                ),
                venus::MemoryPNext::ExportDedicated { handle_type, image } => memory_chain(
                    seq![
                        MemoryLink::Export { handle_types: handle_type },
                        MemoryLink::Dedicated { image, buffer: 0 },
                    ],
                ),
                venus::MemoryPNext::ImportResource { resource_id } => import_chain(
                    resource_id,
                    memory_chain(Seq::empty()),
                ),
                venus::MemoryPNext::ImportResourceDedicated {
                    resource_id,
                    image,
                    buffer,
                } => import_chain(
                    resource_id,
                    memory_chain(seq![MemoryLink::Dedicated { image, buffer }]),
                ),
            };
            m == allocation_head(device) + chain + allocation_tail(
                spec.size,
                spec.memory_type_index,
                memory,
            )
        }),
{
    reveal_with_fuel(memory_chain, 3);
    let m = venus::memory_allocate_message(device, memory, spec);
    match spec.pnext {
        venus::MemoryPNext::Plain => {
            assert(m =~= allocation_head(device) + memory_chain(Seq::empty()) + allocation_tail(
                spec.size,
                spec.memory_type_index,
                memory,
            ));
        },
        venus::MemoryPNext::Export { handle_type } => {
            let links = seq![MemoryLink::Export { handle_types: handle_type }];
            assert(links.skip(1) =~= Seq::empty());
            assert(memory_chain(links) =~= venus::memory_chain(spec.pnext));
            assert(m =~= allocation_head(device) + memory_chain(links) + allocation_tail(
                spec.size,
                spec.memory_type_index,
                memory,
            ));
        },
        venus::MemoryPNext::ExportDedicated { handle_type, image } => {
            let inner = seq![MemoryLink::Dedicated { image, buffer: 0 }];
            let links = seq![
                MemoryLink::Export { handle_types: handle_type },
                MemoryLink::Dedicated { image, buffer: 0 },
            ];
            assert(links.skip(1) =~= inner);
            assert(inner.skip(1) =~= Seq::empty());
            assert(memory_chain(inner) =~= venus::dedicated_link(image, 0));
            assert(memory_chain(links) =~= venus::memory_chain(spec.pnext));
            assert(m =~= allocation_head(device) + memory_chain(links) + allocation_tail(
                spec.size,
                spec.memory_type_index,
                memory,
            ));
        },
        venus::MemoryPNext::ImportResource { resource_id } => {
            assert(import_chain(resource_id, memory_chain(Seq::empty())) =~= venus::memory_chain(
                spec.pnext,
            ));
            assert(m =~= allocation_head(device) + import_chain(
                resource_id,
                memory_chain(Seq::empty()),
            ) + allocation_tail(spec.size, spec.memory_type_index, memory));
        },
        venus::MemoryPNext::ImportResourceDedicated { resource_id, image, buffer } => {
            let inner = seq![MemoryLink::Dedicated { image, buffer }];
            assert(inner.skip(1) =~= Seq::empty());
            assert(memory_chain(inner) =~= venus::dedicated_link(image, buffer));
            assert(import_chain(resource_id, memory_chain(inner)) =~= venus::memory_chain(
                spec.pnext,
            ));
            assert(m =~= allocation_head(device) + import_chain(resource_id, memory_chain(inner))
                + allocation_tail(spec.size, spec.memory_type_index, memory));
        },
    }
}

/// Encoding and admission agree: behind a reply stream, an encoded allocation that
/// imports a resource, whose word is left zero, is admitted, with a dedicated object
/// or without. The import is reported where the encoding puts it.
pub proof fn law_encoded_imports_are_admitted(
    reply_offset: u64,
    reply_size: u64,
    device: u64,
    memory: u64,
    spec: venus::MemoryAllocateSpec,
    capacity: nat,
)
    requires
        reply_size > 0,
        spec.size > 0,
        capacity >= 2,
        match spec.pnext {
            venus::MemoryPNext::ImportResource { resource_id } => resource_id == 0,
            venus::MemoryPNext::ImportResourceDedicated { resource_id, .. } => resource_id == 0,
            _ => false,
        },
    ensures
        ({
            let s = reply_stream(reply_offset, reply_size) + venus::memory_allocate_message(
                device,
                memory,
                spec,
            );
            let links = match spec.pnext {
                venus::MemoryPNext::ImportResourceDedicated { image, buffer, .. } => seq![
                    MemoryLink::Import,
                    MemoryLink::Dedicated { image, buffer },
                ],
                _ => seq![MemoryLink::Import],
            };
            let p = AllocationParts {
                reply_offset,
                reply_size,
                device,
                links,
                size: spec.size,
                memory_type_index: spec.memory_type_index,
                memory,
            };
            &&& admits_allocation(s, capacity, p)
            &&& import_place(links, 64) == if spec.pnext is ImportResource {
                84
            } else {
                112int
            }
        }),
{
    law_the_bytes_of_a_memory_allocation(device, memory, spec);
    let s = reply_stream(reply_offset, reply_size) + venus::memory_allocate_message(
        device,
        memory,
        spec,
    );
    let links = match spec.pnext {
        venus::MemoryPNext::ImportResourceDedicated { image, buffer, .. } => seq![
            MemoryLink::Import,
            MemoryLink::Dedicated { image, buffer },
        ],
        _ => seq![MemoryLink::Import],
    };
    let p = AllocationParts {
        reply_offset,
        reply_size,
        device,
        links,
        size: spec.size,
        memory_type_index: spec.memory_type_index,
        memory,
    };
    lemma_import_links(spec.pnext, links);
    assert(allocation_bytes(p) =~= s);
    law_allocations_are_admitted(p, capacity);
}

proof fn lemma_import_links(pnext: venus::MemoryPNext, links: Seq<MemoryLink>)
    ensures
        pnext is ImportResource && links == seq![MemoryLink::Import] ==> import_count(links) == 1
            && import_place(links, 64) == 84 && memory_chain(links) == import_chain(
            0,
            memory_chain(Seq::empty()),
        ),
        (pnext matches venus::MemoryPNext::ImportResourceDedicated { image, buffer, .. } ==> (links
            == seq![MemoryLink::Import, MemoryLink::Dedicated { image, buffer }] ==> import_count(
            links,
        ) == 1 && import_place(links, 64) == 112 && memory_chain(links) == import_chain(
            0,
            memory_chain(seq![MemoryLink::Dedicated { image, buffer }]),
        ))),
{
    reveal_with_fuel(memory_chain, 3);
    reveal_with_fuel(import_count, 3);
    if pnext is ImportResource && links == seq![MemoryLink::Import] {
        assert(links.skip(1) =~= Seq::empty());
    }
    if let venus::MemoryPNext::ImportResourceDedicated { image, buffer, .. } = pnext {
        if links == seq![MemoryLink::Import, MemoryLink::Dedicated { image, buffer }] {
            let inner = seq![MemoryLink::Dedicated { image, buffer }];
            assert(links.skip(1) =~= inner);
            assert(inner.skip(1) =~= Seq::empty());
        }
    }
}

} // verus!
