//! The byte grammar of the admitted Venus commands: where each production ends
//! in a byte string, or why the string is refused.

use vstd::prelude::*;
use crate::bytes;
use crate::venus_executor;
use crate::venus_executor::{VenusCommandClass, VenusOperand, VenusReject};

verus! {

/// `n` bytes from `at` on.
pub open spec fn skip(s: Seq<u8>, at: int, n: int) -> Result<int, VenusReject> {
    if at + n > usize::MAX {
        Err(VenusReject::CountOverflow)
    } else if at + n > s.len() {
        Err(VenusReject::Truncated)
    } else {
        Ok(at + n)
    }
}

/// A 32-bit word.
pub open spec fn u32_at(s: Seq<u8>, at: int) -> Result<(u32, int), VenusReject> {
    match skip(s, at, 4) {
        Err(e) => Err(e),
        Ok(end) => Ok((bytes::word32(s, at), end)),
    }
}

/// A 64-bit word.
pub open spec fn u64_at(s: Seq<u8>, at: int) -> Result<(u64, int), VenusReject> {
    match skip(s, at, 8) {
        Err(e) => Err(e),
        Ok(end) => Ok((bytes::word64(s, at), end)),
    }
}

/// A pointer marker: zero for null, one for present.
pub open spec fn pointer(s: Seq<u8>, at: int) -> Result<(bool, int), VenusReject> {
    match u64_at(s, at) {
        Err(e) => Err(e),
        Ok((v, end)) => if v == 0 {
            Ok((false, end))
        } else if v == 1 {
            Ok((true, end))
        } else {
            Err(VenusReject::BadPointer)
        },
    }
}

/// An element count that the rest of the string could hold at four bytes each.
pub open spec fn bounded_count(s: Seq<u8>, at: int) -> Result<(u32, int), VenusReject> {
    match u32_at(s, at) {
        Err(e) => Err(e),
        Ok((n, end)) => if n > (s.len() - end) / 4 + 1 {
            Err(VenusReject::BadArrayCount)
        } else {
            Ok((n, end))
        },
    }
}

/// An array marker that repeats the element count `n`.
pub open spec fn marker(s: Seq<u8>, at: int, n: u32) -> Result<int, VenusReject> {
    match u64_at(s, at) {
        Err(e) => Err(e),
        Ok((m, end)) => if m == n {
            Ok(end)
        } else {
            Err(VenusReject::BadArrayCount)
        },
    }
}

/// An array of `n` elements of `stride` bytes, behind its marker.
pub open spec fn elements(s: Seq<u8>, at: int, n: u32, stride: int) -> Result<int, VenusReject> {
    match marker(s, at, n) {
        Err(e) => Err(e),
        Ok(p) => skip(s, p, n * stride),
    }
}

/// A count, its marker, and that many elements of `stride` bytes.
pub open spec fn counted(s: Seq<u8>, at: int, stride: int) -> Result<int, VenusReject> {
    match bounded_count(s, at) {
        Err(e) => Err(e),
        Ok((n, p)) => elements(s, p, n, stride),
    }
}

/// `n` rounded up to whole words.
pub open spec fn padded(n: int) -> int {
    (n + 3) / 4 * 4
}

/// `n` bytes, padded to a word.
pub open spec fn padded_bytes(s: Seq<u8>, at: int, n: int) -> Result<int, VenusReject> {
    if n + 3 > usize::MAX {
        Err(VenusReject::CountOverflow)
    } else {
        skip(s, at, padded(n))
    }
}

/// `n` elements of `width` bytes; elements narrower than a word are padded together.
pub open spec fn wide_elements(s: Seq<u8>, at: int, n: int, width: int) -> Result<int, VenusReject> {
    if n > usize::MAX {
        Err(VenusReject::CountOverflow)
    } else if width < 4 {
        padded_bytes(s, at, n * width)
    } else {
        skip(s, at, n * width)
    }
}

/// A structure tag equal to `expected`.
pub open spec fn stype(s: Seq<u8>, at: int, expected: u32) -> Result<int, VenusReject> {
    match u32_at(s, at) {
        Err(e) => Err(e),
        Ok((v, end)) => if v == expected {
            Ok(end)
        } else {
            Err(VenusReject::BadStructureType)
        },
    }
}

/// An extension chain that must be empty.
pub open spec fn leaf_pnext(s: Seq<u8>, at: int) -> Result<int, VenusReject> {
    match pointer(s, at) {
        Err(e) => Err(e),
        Ok((present, end)) => if present {
            Err(VenusReject::UnsupportedChain)
        } else {
            Ok(end)
        },
    }
}

/// `n` productions of `item`, one after the other.
pub open spec fn repeated(
    s: Seq<u8>,
    at: int,
    n: nat,
    item: spec_fn(Seq<u8>, int) -> Result<int, VenusReject>,
) -> Result<int, VenusReject>
    decreases n,
{
    if n == 0 {
        Ok(at)
    } else {
        match item(s, at) {
            Err(e) => Err(e),
            Ok(p) => repeated(s, p, (n - 1) as nat, item),
        }
    }
}

/// A count, its marker, and that many productions of `item`.
pub open spec fn counted_items(
    s: Seq<u8>,
    at: int,
    item: spec_fn(Seq<u8>, int) -> Result<int, VenusReject>,
) -> Result<int, VenusReject> {
    match bounded_count(s, at) {
        Err(e) => Err(e),
        Ok((n, p)) => match marker(s, p, n) {
            Err(e) => Err(e),
            Ok(q) => repeated(s, q, n as nat, item),
        },
    }
}

/// Wait values, then signal values.
pub open spec fn timeline_body(s: Seq<u8>, at: int) -> Result<int, VenusReject> {
    match counted(s, at, 8) {
        Err(e) => Err(e),
        Ok(p) => counted(s, p, 8),
    }
}

/// Three counted arrays of 32-bit words.
pub open spec fn device_group_body(s: Seq<u8>, at: int) -> Result<int, VenusReject> {
    match counted(s, at, 4) {
        Err(e) => Err(e),
        Ok(p) => match counted(s, p, 4) {
            Err(e) => Err(e),
            Ok(q) => counted(s, q, 4),
        },
    }
}

/// The extension chain of a queue submission; the chain of a link precedes the
/// link's own fields.
pub open spec fn submit_pnext(s: Seq<u8>, at: int, depth: nat) -> Result<int, VenusReject>
    decreases venus_executor::MAX_NESTING - depth,
{
    if depth >= venus_executor::MAX_NESTING {
        Err(VenusReject::UnsupportedChain)
    } else {
        match pointer(s, at) {
            Err(e) => Err(e),
            Ok((false, end)) => Ok(end),
            Ok((true, p)) => match u32_at(s, p) {
                Err(e) => Err(e),
                Ok((tag, q)) => if tag == venus_executor::ST_DEVICE_GROUP_SUBMIT_INFO {
                    match submit_pnext(s, q, depth + 1) {
                        Err(e) => Err(e),
                        Ok(r) => device_group_body(s, r),
                    }
                } else if tag == venus_executor::ST_PROTECTED_SUBMIT_INFO {
                    match submit_pnext(s, q, depth + 1) {
                        Err(e) => Err(e),
                        Ok(r) => skip(s, r, 4),
                    }
                } else if tag == venus_executor::ST_TIMELINE_SEMAPHORE_SUBMIT_INFO {
                    match submit_pnext(s, q, depth + 1) {
                        Err(e) => Err(e),
                        Ok(r) => timeline_body(s, r),
                    }
                } else {
                    Err(VenusReject::UnsupportedChain)
                },
            },
        }
    }
}

/// One submission: waits with their stages, command buffers, signals.
pub open spec fn submit_info(s: Seq<u8>, at: int) -> Result<int, VenusReject> {
    match stype(s, at, venus_executor::ST_SUBMIT_INFO) {
        Err(e) => Err(e),
        Ok(p) => match submit_pnext(s, p, 0) {
            Err(e) => Err(e),
            Ok(q) => match bounded_count(s, q) {
                Err(e) => Err(e),
                Ok((waits, r)) => match elements(s, r, waits, 8) {
                    Err(e) => Err(e),
                    Ok(t) => match elements(s, t, waits, 4) {
                        Err(e) => Err(e),
                        Ok(u) => match counted(s, u, 8) {
                            Err(e) => Err(e),
                            Ok(v) => counted(s, v, 8),
                        },
                    },
                },
            },
        },
    }
}

pub open spec fn semaphore_submit_info(s: Seq<u8>, at: int) -> Result<int, VenusReject> {
    match stype(s, at, venus_executor::ST_SEMAPHORE_SUBMIT_INFO) {
        Err(e) => Err(e),
        Ok(p) => match leaf_pnext(s, p) {
            Err(e) => Err(e),
            Ok(q) => skip(s, q, 28),
        },
    }
}

pub open spec fn command_buffer_submit_info(s: Seq<u8>, at: int) -> Result<int, VenusReject> {
    match stype(s, at, venus_executor::ST_COMMAND_BUFFER_SUBMIT_INFO) {
        Err(e) => Err(e),
        Ok(p) => match leaf_pnext(s, p) {
            Err(e) => Err(e),
            Ok(q) => skip(s, q, 12),
        },
    }
}

pub open spec fn semaphore_item() -> spec_fn(Seq<u8>, int) -> Result<int, VenusReject> {
    |s: Seq<u8>, at: int| semaphore_submit_info(s, at)
}

pub open spec fn command_buffer_item() -> spec_fn(Seq<u8>, int) -> Result<int, VenusReject> {
    |s: Seq<u8>, at: int| command_buffer_submit_info(s, at)
}

/// One second-form submission: flags, waits, command buffers, signals.
pub open spec fn submit_info2(s: Seq<u8>, at: int) -> Result<int, VenusReject> {
    match stype(s, at, venus_executor::ST_SUBMIT_INFO2) {
        Err(e) => Err(e),
        Ok(p) => match leaf_pnext(s, p) {
            Err(e) => Err(e),
            Ok(q) => match skip(s, q, 4) {
                Err(e) => Err(e),
                Ok(r) => match counted_items(s, r, semaphore_item()) {
                    Err(e) => Err(e),
                    Ok(t) => match counted_items(
                        s,
                        t,
                        command_buffer_item(),
                    ) {
                        Err(e) => Err(e),
                        Ok(u) => counted_items(
                            s,
                            u,
                            semaphore_item(),
                        ),
                    },
                },
            },
        },
    }
}

/// The extension chain of a sparse binding.
pub open spec fn bind_pnext(s: Seq<u8>, at: int, depth: nat) -> Result<int, VenusReject>
    decreases venus_executor::MAX_NESTING - depth,
{
    if depth >= venus_executor::MAX_NESTING {
        Err(VenusReject::UnsupportedChain)
    } else {
        match pointer(s, at) {
            Err(e) => Err(e),
            Ok((false, end)) => Ok(end),
            Ok((true, p)) => match u32_at(s, p) {
                Err(e) => Err(e),
                Ok((tag, q)) => if tag == venus_executor::ST_DEVICE_GROUP_BIND_SPARSE_INFO {
                    match bind_pnext(s, q, depth + 1) {
                        Err(e) => Err(e),
                        Ok(r) => skip(s, r, 8),
                    }
                } else if tag == venus_executor::ST_TIMELINE_SEMAPHORE_SUBMIT_INFO {
                    match bind_pnext(s, q, depth + 1) {
                        Err(e) => Err(e),
                        Ok(r) => timeline_body(s, r),
                    }
                } else {
                    Err(VenusReject::UnsupportedChain)
                },
            },
        }
    }
}

/// One bound object: its handle, then its counted bind records of `stride` bytes.
pub open spec fn sparse_object(s: Seq<u8>, at: int, stride: int) -> Result<int, VenusReject> {
    match skip(s, at, 8) {
        Err(e) => Err(e),
        Ok(p) => counted(s, p, stride),
    }
}

pub open spec fn sparse_item(stride: int) -> spec_fn(Seq<u8>, int) -> Result<int, VenusReject> {
    |s: Seq<u8>, at: int| sparse_object(s, at, stride)
}

/// One sparse binding: waits, buffers, opaque images, images, signals.
pub open spec fn bind_sparse_info(s: Seq<u8>, at: int) -> Result<int, VenusReject> {
    match stype(s, at, venus_executor::ST_BIND_SPARSE_INFO) {
        Err(e) => Err(e),
        Ok(p) => match bind_pnext(s, p, 0) {
            Err(e) => Err(e),
            Ok(q) => match counted(s, q, 8) {
                Err(e) => Err(e),
                Ok(r) => match counted_items(s, r, sparse_item(36)) {
                    Err(e) => Err(e),
                    Ok(t) => match counted_items(
                        s,
                        t,
                        sparse_item(36),
                    ) {
                        Err(e) => Err(e),
                        Ok(u) => match counted_items(
                            s,
                            u,
                            sparse_item(56),
                        ) {
                            Err(e) => Err(e),
                            Ok(v) => counted(s, v, 8),
                        },
                    },
                },
            },
        },
    }
}

/// One element of the array that a queue command carries.
pub open spec fn queue_item(s: Seq<u8>, at: int, opcode: u32) -> Result<int, VenusReject> {
    if opcode == venus_executor::OP_QUEUE_SUBMIT {
        submit_info(s, at)
    } else if opcode == venus_executor::OP_QUEUE_SUBMIT2 {
        submit_info2(s, at)
    } else {
        bind_sparse_info(s, at)
    }
}

pub open spec fn queue_items(opcode: u32) -> spec_fn(Seq<u8>, int) -> Result<int, VenusReject> {
    |s: Seq<u8>, at: int| queue_item(s, at, opcode)
}

/// The body of a queue command: queue handle, counted items, fence handle.
pub open spec fn queue_body(s: Seq<u8>, at: int, opcode: u32) -> Result<int, VenusReject> {
    match skip(s, at, 8) {
        Err(e) => Err(e),
        Ok(p) => match counted_items(s, p, queue_items(opcode)) {
            Err(e) => Err(e),
            Ok(q) => skip(s, q, 8),
        },
    }
}

/// Reading with the operands reported and the imports seen so far.
pub struct Walk {
    pub at: int,
    pub out: Seq<VenusOperand>,
    pub imports: nat,
}

/// Where a walk ended, and the refusal that ended it, if any.
pub struct Outcome {
    pub walk: Walk,
    pub refusal: Option<VenusReject>,
}

pub open spec fn proceeds(walk: Walk) -> Outcome {
    Outcome { walk, refusal: None }
}

pub open spec fn refuses(walk: Walk, e: VenusReject) -> Outcome {
    Outcome { walk, refusal: Some(e) }
}

/// Continues a walk at the place that a plain production leads to.
pub open spec fn moved(walk: Walk, r: Result<int, VenusReject>) -> Outcome {
    match r {
        Ok(at) => proceeds(Walk { at, ..walk }),
        Err(e) => refuses(walk, e),
    }
}

/// A zero host-resource word, reported as an operand if one more can be held.
pub open spec fn resource_operand(s: Seq<u8>, walk: Walk, capacity: nat) -> Outcome {
    if walk.at > u32::MAX {
        refuses(walk, VenusReject::CountOverflow)
    } else {
        match u32_at(s, walk.at) {
            Err(e) => refuses(walk, e),
            Ok((v, end)) => if v != 0 {
                refuses(walk, VenusReject::NonZeroResourceOperand)
            } else if walk.out.len() >= capacity {
                refuses(walk, VenusReject::OperandCapacity)
            } else {
                proceeds(
                    Walk {
                        at: end,
                        out: walk.out.push(
                            VenusOperand {
                                payload_offset: walk.at as u32,
                                operand_kind: venus_executor::OPERAND_KIND_HOST_RESOURCE_ID32,
                            },
                        ),
                        ..walk
                    },
                )
            },
        }
    }
}

/// The own fields of one link of a memory allocation's extension chain.
pub open spec fn memory_link(s: Seq<u8>, walk: Walk, tag: u32, capacity: nat) -> Outcome {
    if tag == venus_executor::ST_EXPORT_MEMORY_ALLOCATE_INFO {
        moved(walk, skip(s, walk.at, 4))
    } else if tag == venus_executor::ST_MEMORY_ALLOCATE_FLAGS_INFO {
        moved(walk, skip(s, walk.at, 8))
    } else if tag == venus_executor::ST_MEMORY_DEDICATED_ALLOCATE_INFO {
        moved(walk, skip(s, walk.at, 16))
    } else if tag == venus_executor::ST_MEMORY_OPAQUE_CAPTURE_ADDRESS_ALLOCATE_INFO {
        moved(walk, skip(s, walk.at, 8))
    } else if tag == venus_executor::ST_IMPORT_MEMORY_RESOURCE_INFO_MESA {
        if walk.imports != 0 {
            refuses(walk, VenusReject::DuplicateImport)
        } else {
            resource_operand(s, Walk { imports: 1, ..walk }, capacity)
        }
    } else {
        refuses(walk, VenusReject::UnsupportedChain)
    }
}

/// A memory allocation's extension chain; the chain of a link precedes the
/// link's own fields.
pub open spec fn memory_pnext(s: Seq<u8>, walk: Walk, depth: nat, capacity: nat) -> Outcome
    decreases venus_executor::MAX_NESTING - depth,
{
    if depth >= venus_executor::MAX_NESTING {
        refuses(walk, VenusReject::UnsupportedChain)
    } else {
        match pointer(s, walk.at) {
            Err(e) => refuses(walk, e),
            Ok((false, end)) => proceeds(Walk { at: end, ..walk }),
            Ok((true, p)) => match u32_at(s, p) {
                Err(e) => refuses(walk, e),
                Ok((tag, q)) => {
                    let inner = memory_pnext(s, Walk { at: q, ..walk }, depth + 1, capacity);
                    match inner.refusal {
                        Some(_) => inner,
                        None => memory_link(s, inner.walk, tag, capacity),
                    }
                },
            },
        }
    }
}

/// What a memory allocation asks for.
pub struct Allocation {
    pub size: u64,
    pub memory_type_index: u32,
}

/// The fields of a memory allocation behind its extension chain.
pub open spec fn allocate_tail(s: Seq<u8>, at: int, imports: nat) -> Result<
    (Allocation, int),
    VenusReject,
> {
    match u64_at(s, at) {
        Err(e) => Err(e),
        Ok((size, p)) => match u32_at(s, p) {
            Err(e) => Err(e),
            Ok((memory_type_index, q)) => if size == 0 {
                Err(VenusReject::BadArrayCount)
            } else {
                match pointer(s, q) {
                    Err(e) => Err(e),
                    Ok((true, _)) => Err(VenusReject::BadPointer),
                    Ok((false, r)) => match pointer(s, r) {
                        Err(e) => Err(e),
                        Ok((false, _)) => Err(VenusReject::BadPointer),
                        Ok((true, t)) => match skip(s, t, 8) {
                            Err(e) => Err(e),
                            Ok(end) => if imports != 1 {
                                Err(VenusReject::MissingImport)
                            } else {
                                Ok((Allocation { size, memory_type_index }, end))
                            },
                        },
                    },
                }
            },
        },
    }
}

/// The fields of a memory allocation before its extension chain.
pub open spec fn allocate_head(s: Seq<u8>, at: int) -> Result<int, VenusReject> {
    match skip(s, at, 8) {
        Err(e) => Err(e),
        Ok(p) => match pointer(s, p) {
            Err(e) => Err(e),
            Ok((false, _)) => Err(VenusReject::BadPointer),
            Ok((true, q)) => stype(s, q, venus_executor::ST_MEMORY_ALLOCATE_INFO),
        },
    }
}

/// The body of a memory allocation: where it ends and what it asks for.
pub open spec fn allocate_body(s: Seq<u8>, walk: Walk, capacity: nat) -> (
    Outcome,
    Allocation,
) {
    let none = Allocation { size: 0, memory_type_index: 0 };
    let head = moved(Walk { imports: 0, ..walk }, allocate_head(s, walk.at));
    if head.refusal is Some {
        (head, none)
    } else {
        let chain = memory_pnext(s, head.walk, 0, capacity);
        if chain.refusal is Some {
            (chain, none)
        } else {
            match allocate_tail(s, chain.walk.at, chain.walk.imports) {
                Err(e) => (refuses(chain.walk, e), none),
                Ok((a, at)) => (proceeds(Walk { at, ..chain.walk }), a),
            }
        }
    }
}

/// A command header: opcode, then flags.
pub open spec fn header(s: Seq<u8>, at: int) -> Result<((u32, u32), int), VenusReject> {
    match u32_at(s, at) {
        Err(e) => Err(e),
        Ok((opcode, p)) => match u32_at(s, p) {
            Err(e) => Err(e),
            Ok((flags, q)) => Ok(((opcode, flags), q)),
        },
    }
}

/// A reply range: its offset and nonzero size.
pub open spec fn reply_range(s: Seq<u8>, at: int) -> Result<((u64, u64), int), VenusReject> {
    match u64_at(s, at) {
        Err(e) => Err(e),
        Ok((offset, p)) => match u64_at(s, p) {
            Err(e) => Err(e),
            Ok((size, q)) => if size == 0 {
                Err(VenusReject::BadArrayCount)
            } else {
                Ok(((offset, size), q))
            },
        },
    }
}

/// What one admitted command asks for.
pub struct Command {
    pub class: VenusCommandClass,
    pub reply: (u64, u64),
    pub allocation: Allocation,
}

pub open spec fn plain(class: VenusCommandClass) -> Command {
    Command {
        class,
        reply: (0, 0),
        allocation: Allocation { size: 0, memory_type_index: 0 },
    }
}

/// A reply stream followed by the allocation that replies into it.
pub open spec fn reply_then_allocate(s: Seq<u8>, at: int, flags: u32, capacity: nat) -> (
    Outcome,
    Command,
) {
    let start = Walk { at, out: Seq::empty(), imports: 0 };
    let none = plain(VenusCommandClass::AllocateMemory);
    if flags != 0 {
        (refuses(start, VenusReject::BadFlags), none)
    } else {
        match pointer(s, at) {
            Err(e) => (refuses(start, e), none),
            Ok((false, _)) => (refuses(start, VenusReject::BadFlags), none),
            Ok((true, p)) => {
                let reply = resource_operand(s, Walk { at: p, ..start }, capacity);
                if reply.refusal is Some {
                    (reply, none)
                } else {
                    match reply_range(s, reply.walk.at) {
                        Err(e) => (refuses(reply.walk, e), none),
                        Ok((range, q)) => match header(s, q) {
                            Err(e) => (refuses(reply.walk, e), none),
                            Ok(((opcode, next_flags), r)) => if opcode
                                != venus_executor::OP_ALLOCATE_MEMORY || next_flags
                                != venus_executor::COMMAND_GENERATE_REPLY {
                                (refuses(reply.walk, VenusReject::BadFlags), none)
                            } else {
                                let (body, allocation) = allocate_body(
                                    s,
                                    Walk { at: r, ..reply.walk },
                                    capacity,
                                );
                                (
                                    body,
                                    Command {
                                        class: VenusCommandClass::AllocateMemory,
                                        reply: range,
                                        allocation,
                                    },
                                )
                            },
                        },
                    }
                }
            },
        }
    }
}

/// A memory release: device, memory, and no allocator.
pub open spec fn free_body(s: Seq<u8>, at: int, flags: u32) -> Result<int, VenusReject> {
    if flags != 0 {
        Err(VenusReject::BadFlags)
    } else {
        match skip(s, at, 16) {
            Err(e) => Err(e),
            Ok(p) => match pointer(s, p) {
                Err(e) => Err(e),
                Ok((true, _)) => Err(VenusReject::BadPointer),
                Ok((false, q)) => Ok(q),
            },
        }
    }
}

/// Whether `opcode` is one of the queue commands.
pub open spec fn is_queue(opcode: u32) -> bool {
    opcode == venus_executor::OP_QUEUE_SUBMIT || opcode == venus_executor::OP_QUEUE_SUBMIT2
        || opcode == venus_executor::OP_QUEUE_BIND_SPARSE
}

pub open spec fn queue_class(opcode: u32) -> VenusCommandClass {
    if opcode == venus_executor::OP_QUEUE_SUBMIT {
        VenusCommandClass::QueueSubmit
    } else if opcode == venus_executor::OP_QUEUE_SUBMIT2 {
        VenusCommandClass::QueueSubmit2
    } else {
        VenusCommandClass::QueueBindSparse
    }
}

/// The one command of a stream, up to where it ends.
pub open spec fn command(s: Seq<u8>, capacity: nat) -> (Outcome, Command) {
    let start = Walk { at: 0, out: Seq::empty(), imports: 0 };
    let none = plain(VenusCommandClass::FreeMemory);
    match header(s, 0) {
        Err(e) => (refuses(start, e), none),
        Ok(((opcode, flags), p)) => {
            let body = Walk { at: p, ..start };
            if opcode == venus_executor::OP_SET_REPLY {
                reply_then_allocate(s, p, flags, capacity)
            } else if opcode == venus_executor::OP_FREE_MEMORY {
                (moved(body, free_body(s, p, flags)), plain(VenusCommandClass::FreeMemory))
            } else if is_queue(opcode) {
                if flags != 0 {
                    (refuses(body, VenusReject::BadFlags), none)
                } else {
                    (moved(body, queue_body(s, p, opcode)), plain(queue_class(opcode)))
                }
            } else {
                (refuses(body, VenusReject::UnknownOpcode), none)
            }
        },
    }
}

/// A whole stream: one command and nothing behind it.
pub open spec fn stream(s: Seq<u8>, capacity: nat) -> (Outcome, Command) {
    let (outcome, c) = command(s, capacity);
    if outcome.refusal is None && outcome.walk.at != s.len() {
        (refuses(outcome.walk, VenusReject::TrailingBytes), c)
    } else {
        (outcome, c)
    }
}

/// Operand storage after `out` was written to its front.
pub open spec fn stored(storage: Seq<VenusOperand>, out: Seq<VenusOperand>) -> Seq<VenusOperand> {
    Seq::new(storage.len(), |i: int| if i < out.len() { out[i] } else { storage[i] })
}

/// A chain only adds operands behind those it was given.
pub proof fn lemma_memory_pnext_extends(s: Seq<u8>, walk: Walk, depth: nat, capacity: nat)
    ensures
        memory_pnext(s, walk, depth, capacity).walk.out.len() >= walk.out.len(),
    decreases venus_executor::MAX_NESTING - depth,
{
    if depth < venus_executor::MAX_NESTING {
        if let Ok((true, p)) = pointer(s, walk.at) {
            if let Ok((_, q)) = u32_at(s, p) {
                lemma_memory_pnext_extends(s, Walk { at: q, ..walk }, depth + 1, capacity);
            }
        }
    }
}

/// Writing a longer list of operands over a shorter one leaves only the longer.
pub proof fn lemma_stored_twice(
    storage: Seq<VenusOperand>,
    first: Seq<VenusOperand>,
    second: Seq<VenusOperand>,
)
    requires
        first.len() <= second.len(),
    ensures
        stored(stored(storage, first), second) == stored(storage, second),
{
    assert(stored(stored(storage, first), second) =~= stored(storage, second));
}

/// Every reported operand is a zero word that was already read, in payload order
/// and without overlap.
pub open spec fn reports(s: Seq<u8>, walk: Walk) -> bool {
    &&& 0 <= walk.at
    &&& forall|i: int|
        0 <= i < walk.out.len() ==> is_zero_operand(s, #[trigger] walk.out[i])
            && walk.out[i].payload_offset + 4 <= walk.at
    &&& forall|i: int, j: int|
        0 <= i < j < walk.out.len() ==> #[trigger] walk.out[i].payload_offset + 4
            <= #[trigger] walk.out[j].payload_offset
}

/// The operand is a 32-bit host resource id whose word in the payload is zero.
pub open spec fn is_zero_operand(s: Seq<u8>, o: VenusOperand) -> bool {
    o.operand_kind == venus_executor::OPERAND_KIND_HOST_RESOURCE_ID32 && o.payload_offset + 4
        <= s.len() && bytes::word32(s, o.payload_offset as int) == 0
}

proof fn lemma_operand_reports(s: Seq<u8>, walk: Walk, capacity: nat)
    requires
        reports(s, walk),
    ensures
        reports(s, resource_operand(s, walk, capacity).walk),
{
}

/// A chain reports as many operands as it has imports, at most one.
proof fn lemma_chain_reports(s: Seq<u8>, walk: Walk, depth: nat, capacity: nat)
    requires
        reports(s, walk),
        walk.imports <= 1,
    ensures
        ({
            let o = memory_pnext(s, walk, depth, capacity);
            &&& reports(s, o.walk)
            &&& o.walk.imports <= 1
            &&& o.refusal is None ==> o.walk.out.len() - o.walk.imports == walk.out.len()
                - walk.imports
        }),
    decreases venus_executor::MAX_NESTING - depth,
{
    if depth < venus_executor::MAX_NESTING {
        if let Ok((true, p)) = pointer(s, walk.at) {
            if let Ok((tag, q)) = u32_at(s, p) {
                let next = Walk { at: q, ..walk };
                assert(reports(s, next));
                lemma_chain_reports(s, next, depth + 1, capacity);
                let inner = memory_pnext(s, next, depth + 1, capacity);
                let marked = Walk { imports: 1, ..inner.walk };
                assert(reports(s, marked));
                lemma_operand_reports(s, marked, capacity);
            }
        }
    }
}

proof fn lemma_body_reports(s: Seq<u8>, walk: Walk, capacity: nat)
    requires
        reports(s, walk),
    ensures
        reports(s, allocate_body(s, walk, capacity).0.walk),
        allocate_body(s, walk, capacity).0.refusal is None ==> allocate_body(
            s,
            walk,
            capacity,
        ).0.walk.out.len() == walk.out.len() + 1,
{
    let head = moved(Walk { imports: 0, ..walk }, allocate_head(s, walk.at));
    assert(reports(s, head.walk));
    lemma_chain_reports(s, head.walk, 0, capacity);
}

/// Every operand that a stream reports, admitted or not, is a zero word of the
/// payload; operands come in payload order and do not overlap. An admitted
/// allocation reports two, its reply stream and its import; every other admitted
/// command reports none.
pub proof fn law_reported_operands_are_zero_words(s: Seq<u8>, capacity: nat)
    ensures
        ({
            let (o, c) = stream(s, capacity);
            &&& forall|i: int|
                0 <= i < o.walk.out.len() ==> is_zero_operand(s, #[trigger] o.walk.out[i])
            &&& forall|i: int, j: int|
                0 <= i < j < o.walk.out.len() ==> #[trigger] o.walk.out[i].payload_offset + 4
                    <= #[trigger] o.walk.out[j].payload_offset
            &&& o.refusal is None ==> o.walk.out.len() == (if c.class
                is AllocateMemory {
                2nat
            } else {
                0
            })
        }),
{
    if let Ok(((_, flags), at)) = header(s, 0) {
        let start = Walk { at, out: Seq::empty(), imports: 0 };
        assert(reports(s, start));
        if let Ok((_, p)) = pointer(s, at) {
            let opened = Walk { at: p, ..start };
            assert(reports(s, opened));
            lemma_operand_reports(s, opened, capacity);
            let reply = resource_operand(s, opened, capacity);
            if let Ok((_, q)) = reply_range(s, reply.walk.at) {
                if let Ok((_, r)) = header(s, q) {
                    let body = Walk { at: r, ..reply.walk };
                    assert(reports(s, body));
                    lemma_body_reports(s, body, capacity);
                }
            }
        }
    }
}

} // verus!
