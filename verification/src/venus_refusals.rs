//! Why a command stream is refused, by the words that stand in it.

use vstd::prelude::*;
use crate::bytes;
use crate::venus_executor::{VenusCommandClass, VenusOperand, VenusReject};
use crate::venus_grammar;
use crate::venus_grammar::Walk;

verus! {

/// A command is told by its header: two words, of which the first names one of five
/// commands and the second is zero.
pub proof fn law_a_command_is_told_by_its_header(s: Seq<u8>, capacity: nat)
    ensures
        ({
            let (o, c) = venus_grammar::stream(s, capacity);
            let opcode = bytes::word32(s, 0);
            let flags = bytes::word32(s, 4);
            let known = opcode == 18 || opcode == 22 || opcode == 34 || opcode == 178 || opcode
                == 206;
            &&& s.len() < 8 ==> o.refusal == Some(VenusReject::Truncated)
            &&& s.len() >= 8 && !known ==> o.refusal == Some(VenusReject::UnknownOpcode)
            &&& s.len() >= 8 && known && flags != 0 ==> o.refusal == Some(VenusReject::BadFlags)
            &&& o.refusal is None ==> s.len() >= 8 && known && flags == 0 && o.walk.at == s.len()
            &&& o.refusal is None ==> c.class == (if opcode == 18 {
                VenusCommandClass::QueueSubmit
            } else if opcode == 206 {
                VenusCommandClass::QueueSubmit2
            } else if opcode == 34 {
                VenusCommandClass::QueueBindSparse
            } else if opcode == 22 {
                VenusCommandClass::FreeMemory
            } else {
                VenusCommandClass::AllocateMemory
            })
        }),
{
}

/// A release is 32 bytes that end in a null allocator. A shorter one is truncated, one with
/// an allocator has a bad pointer, and a longer one has trailing bytes.
pub proof fn law_a_release_is_refused_by_its_words(s: Seq<u8>, capacity: nat)
    requires
        s.len() >= 8,
        bytes::word32(s, 0) == 22,
        bytes::word32(s, 4) == 0,
    ensures
        ({
            let o = venus_grammar::stream(s, capacity).0;
            &&& o.walk.out.len() == 0
            &&& o.refusal == (if s.len() < 32 {
                Some(VenusReject::Truncated)
            } else if bytes::word64(s, 24) != 0 {
                Some(VenusReject::BadPointer)
            } else if s.len() > 32 {
                Some(VenusReject::TrailingBytes)
            } else {
                None
            })
        }),
{
}

/// An allocation is refused at the first of its words, up to the chain of its memory, that
/// is missing or wrong: the reply stream, its resource, which is zero and needs an operand,
/// its size, the header of the allocation, and the memory's own link and tag.
pub proof fn law_an_allocation_is_refused_by_its_words(s: Seq<u8>, capacity: nat)
    requires
        s.len() >= 8,
        bytes::word32(s, 0) == 178,
        bytes::word32(s, 4) == 0,
    ensures
        ({
            let r = venus_grammar::stream(s, capacity).0.refusal;
            let n = s.len();
            if n < 16 {
                r == Some(VenusReject::Truncated)
            } else if bytes::word64(s, 8) > 1 {
                r == Some(VenusReject::BadPointer)
            } else if bytes::word64(s, 8) == 0 {
                r == Some(VenusReject::BadFlags)
            } else if n < 20 {
                r == Some(VenusReject::Truncated)
            } else if bytes::word32(s, 16) != 0 {
                r == Some(VenusReject::NonZeroResourceOperand)
            } else if capacity == 0 {
                r == Some(VenusReject::OperandCapacity)
            } else if n < 36 {
                r == Some(VenusReject::Truncated)
            } else if bytes::word64(s, 28) == 0 {
                r == Some(VenusReject::BadArrayCount)
            } else if n < 44 {
                r == Some(VenusReject::Truncated)
            } else if bytes::word32(s, 36) != 21 || bytes::word32(s, 40) != 1 {
                r == Some(VenusReject::BadFlags)
            } else if n < 60 {
                r == Some(VenusReject::Truncated)
            } else if bytes::word64(s, 52) != 1 {
                r == Some(VenusReject::BadPointer)
            } else if n < 64 {
                r == Some(VenusReject::Truncated)
            } else {
                bytes::word32(s, 60) != 5 ==> r == Some(VenusReject::BadStructureType)
            }
        }),
{
}

/// A link of a memory's chain has the fields of its tag, and no link has any other tag. An
/// import is the one link with a resource, and there is at most one.
pub proof fn law_a_memory_link_has_its_fields(s: Seq<u8>, w: Walk, tag: u32, capacity: nat)
    requires
        0 <= w.at <= s.len(),
        s.len() <= u32::MAX - 16,
    ensures
        ({
            let o = venus_grammar::memory_link(s, w, tag, capacity);
            let size = if tag == 1_000_072_002 {
                4int
            } else if tag == 1_000_060_000 || tag == 1_000_257_003 {
                8
            } else {
                16
            };
            let plain = tag == 1_000_072_002 || tag == 1_000_060_000 || tag == 1_000_257_003 || tag
                == 1_000_127_001;
            &&& plain && w.at + size <= s.len() ==> o.refusal is None && o.walk == (Walk {
                at: w.at + size,
                ..w
            })
            &&& plain && w.at + size > s.len() ==> o.refusal == Some(VenusReject::Truncated)
            &&& tag == 1_000_384_002 ==> o.refusal == (if w.imports != 0 {
                Some(VenusReject::DuplicateImport)
            } else if w.at + 4 > s.len() {
                Some(VenusReject::Truncated)
            } else if bytes::word32(s, w.at) != 0 {
                Some(VenusReject::NonZeroResourceOperand)
            } else if w.out.len() >= capacity {
                Some(VenusReject::OperandCapacity)
            } else {
                None
            })
            &&& tag == 1_000_384_002 && o.refusal is None ==> o.walk.imports == 1 && o.walk.at
                == w.at + 4 && o.walk.out == w.out.push(
                VenusOperand { payload_offset: w.at as u32, operand_kind: 1 },
            )
            &&& !plain && tag != 1_000_384_002 ==> o.refusal == Some(VenusReject::UnsupportedChain)
        }),
{
}

/// Behind its chain an allocation says a size that is not zero, a memory type, no allocator,
/// and the memory that it becomes, and it has imported exactly one resource. It is refused
/// at the first of these that is missing or wrong.
pub proof fn law_an_allocation_ends_in_its_memory(s: Seq<u8>, at: int, imports: nat)
    requires
        0 <= at <= s.len(),
        s.len() <= u32::MAX - 64,
    ensures
        match venus_grammar::allocate_tail(s, at, imports) {
            Ok((a, end)) => at + 36 <= s.len() && end == at + 36 && a.size == bytes::word64(s, at)
                && a.size > 0 && a.memory_type_index == bytes::word32(s, at + 8) && bytes::word64(
                s,
                at + 12,
            ) == 0 && bytes::word64(s, at + 20) == 1 && imports == 1,
            Err(e) => e == (if at + 12 > s.len() {
                VenusReject::Truncated
            } else if bytes::word64(s, at) == 0 {
                VenusReject::BadArrayCount
            } else if at + 20 > s.len() {
                VenusReject::Truncated
            } else if bytes::word64(s, at + 12) != 0 {
                VenusReject::BadPointer
            } else if at + 28 > s.len() {
                VenusReject::Truncated
            } else if bytes::word64(s, at + 20) != 1 {
                VenusReject::BadPointer
            } else if at + 36 > s.len() {
                VenusReject::Truncated
            } else {
                VenusReject::MissingImport
            }) && !(at + 36 <= s.len() && bytes::word64(s, at) > 0 && bytes::word64(s, at + 12) == 0
                && bytes::word64(s, at + 20) == 1 && imports == 1),
        },
{
}

/// A queue command is refused at the first of the words before its items that is missing
/// or wrong: its queue, a count that the rest could hold, and a marker that repeats it. Its
/// first item has the tag of the command.
pub proof fn law_a_queue_command_is_refused_by_its_words(s: Seq<u8>, capacity: nat)
    requires
        s.len() >= 8,
        bytes::word32(s, 0) == 18 || bytes::word32(s, 0) == 206 || bytes::word32(s, 0) == 34,
        bytes::word32(s, 4) == 0,
    ensures
        ({
            let r = venus_grammar::stream(s, capacity).0.refusal;
            let opcode = bytes::word32(s, 0);
            let count = bytes::word32(s, 16);
            let tag = if opcode == 18 {
                4u32
            } else if opcode == 206 {
                1_000_314_004
            } else {
                7
            };
            if s.len() < 20 {
                r == Some(VenusReject::Truncated)
            } else if count > (s.len() - 20) / 4 + 1 {
                r == Some(VenusReject::BadArrayCount)
            } else if s.len() < 28 {
                r == Some(VenusReject::Truncated)
            } else if bytes::word64(s, 20) != count {
                r == Some(VenusReject::BadArrayCount)
            } else if count == 0 {
                r == (if s.len() < 36 {
                    Some(VenusReject::Truncated)
                } else if s.len() > 36 {
                    Some(VenusReject::TrailingBytes)
                } else {
                    None
                })
            } else if s.len() < 32 {
                r == Some(VenusReject::Truncated)
            } else {
                bytes::word32(s, 28) != tag ==> r == Some(VenusReject::BadStructureType)
            }
        }),
{
}

/// How the words of a command are read: a pointer is zero or one, a count is one that the
/// rest could hold at four bytes each, a marker repeats its count, a tag is the one that is
/// due, and an empty chain is a null pointer. Each is refused for what is wrong with it.
pub proof fn law_words_are_read_one_way(s: Seq<u8>, at: int, n: u32)
    requires
        0 <= at <= s.len(),
        s.len() <= u32::MAX - 8,
    ensures
        venus_grammar::pointer(s, at) == (if at + 8 > s.len() {
            Err::<(bool, int), VenusReject>(VenusReject::Truncated)
        } else if bytes::word64(s, at) > 1 {
            Err(VenusReject::BadPointer)
        } else {
            Ok((bytes::word64(s, at) == 1, at + 8))
        }),
        venus_grammar::bounded_count(s, at) == (if at + 4 > s.len() {
            Err::<(u32, int), VenusReject>(VenusReject::Truncated)
        } else if bytes::word32(s, at) > (s.len() - at - 4) / 4 + 1 {
            Err(VenusReject::BadArrayCount)
        } else {
            Ok((bytes::word32(s, at), at + 4))
        }),
        venus_grammar::marker(s, at, n) == (if at + 8 > s.len() {
            Err::<int, VenusReject>(VenusReject::Truncated)
        } else if bytes::word64(s, at) != n {
            Err(VenusReject::BadArrayCount)
        } else {
            Ok(at + 8)
        }),
        venus_grammar::stype(s, at, n) == (if at + 4 > s.len() {
            Err::<int, VenusReject>(VenusReject::Truncated)
        } else if bytes::word32(s, at) != n {
            Err(VenusReject::BadStructureType)
        } else {
            Ok(at + 4)
        }),
        venus_grammar::leaf_pnext(s, at) == (if at + 8 > s.len() {
            Err::<int, VenusReject>(VenusReject::Truncated)
        } else if bytes::word64(s, at) > 1 {
            Err(VenusReject::BadPointer)
        } else if bytes::word64(s, at) == 1 {
            Err(VenusReject::UnsupportedChain)
        } else {
            Ok(at + 8)
        }),
{
}

/// Elements stand behind each other. Those that are narrower than a word are padded
/// together to whole words.
pub proof fn law_elements_are_padded_to_words(s: Seq<u8>, at: int, n: int, width: int)
    requires
        0 <= at <= s.len(),
        0 <= n <= 0x1000_0000,
        1 <= width <= 8,
        s.len() <= 0x4000_0000,
    ensures
        ({
            let size = n * width;
            let end = at + (if width < 4 {
                size + (4 - size % 4) % 4
            } else {
                size
            });
            venus_grammar::wide_elements(s, at, n, width) == (if end > s.len() {
                Err::<int, VenusReject>(VenusReject::Truncated)
            } else {
                Ok(end)
            })
        }),
{
    assert(0 <= n * width <= 8 * 0x1000_0000) by (nonlinear_arith)
        requires
            0 <= n <= 0x1000_0000,
            1 <= width <= 8,
    ;
    if width < 4 {
        assert(n * width <= 3 * 0x1000_0000) by (nonlinear_arith)
            requires
                0 <= n <= 0x1000_0000,
                1 <= width < 4,
        ;
    }
}

} // verus!
