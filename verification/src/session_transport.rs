//! The transport of one session: where a reply may go, and the commands that
//! create and destroy the host instance.

use vstd::prelude::*;
use crate::bytes;
use crate::scanout_lease;
use crate::stream::Writer;
use crate::venus::CMD_FLAG_GENERATE_REPLY;

verus! {

pub const CMD_CREATE_INSTANCE: u32 = 0;
pub const CMD_DESTROY_INSTANCE: u32 = 1;
pub const CMD_SET_REPLY_COMMAND_STREAM_MESA: u32 = 178;
pub const ST_APPLICATION_INFO: i32 = 0;
pub const ST_INSTANCE_CREATE_INFO: i32 = 1;
/// The bytes of the host's reply to an instance creation.
pub const HOST_CREATE_INSTANCE_REPLY_BYTES: u64 = 24;
/// Version 1.4 of the interface: the major number from bit 22, the minor from 12.
pub const API_VERSION_1_4: u32 = 0x0040_4000;

/// Who drives the control ring: nobody, or one owner.
#[derive(Debug, Clone, Copy, PartialEq, Eq, Structural)]
pub struct RingZeroControlState {
    occupied: bool,
}

#[derive(Debug, Clone, Copy, PartialEq, Eq, Structural)]
pub enum RingZeroControlRefusal {
    Occupied,
}

impl RingZeroControlState {
    pub closed spec fn is_occupied(self) -> bool {
        self.occupied
    }

    pub fn new() -> (s: Self)
        ensures
            !s.is_occupied(),
    {
        RingZeroControlState { occupied: false }
    }

    /// Takes the ring, if nobody has it.
    pub fn try_acquire(&mut self) -> (r: Result<(), RingZeroControlRefusal>)
        ensures
            final(self).is_occupied(),
            r is Ok <==> !old(self).is_occupied(),
            r is Err ==> r->Err_0 == RingZeroControlRefusal::Occupied,
    {
        if self.occupied {
            return Err(RingZeroControlRefusal::Occupied);
        }
        self.occupied = true;
        Ok(())
    }

    /// Gives the ring back. False if nobody had it.
    pub fn release(&mut self) -> (b: bool)
        ensures
            b == old(self).is_occupied(),
            !final(self).is_occupied(),
    {
        if !self.occupied {
            return false;
        }
        self.occupied = false;
        true
    }
}

/// Where the payload of a reply begins, and where the reply ends.
#[derive(Debug, Clone, Copy, PartialEq, Eq, Structural)]
pub struct ReplyRange {
    pub payload_offset: u64,
    pub final_end: u64,
}

#[derive(Debug, Clone, Copy, PartialEq, Eq, Structural)]
pub enum ReplyRangeRefusal {
    ZeroCapacity,
    SlotMisaligned,
    CapacityExceedsSlot,
    ArithmeticOverflow,
    RangeExceedsPool,
    FinalReplyExceedsRange,
}

/// Why a reply range is refused, if it is.
pub open spec fn reply_range_refusal(
    pool_bytes: u64,
    slot_bytes: u64,
    reply_offset: u64,
    reply_capacity: u64,
    header_bytes: u64,
    payload_bytes: u64,
) -> Option<ReplyRangeRefusal> {
    let end = reply_offset + reply_capacity;
    let last = reply_offset + header_bytes + payload_bytes;
    if reply_capacity == 0 {
        Some(ReplyRangeRefusal::ZeroCapacity)
    } else if slot_bytes == 0 || reply_offset % slot_bytes != 0 {
        Some(ReplyRangeRefusal::SlotMisaligned)
    } else if reply_capacity > slot_bytes {
        Some(ReplyRangeRefusal::CapacityExceedsSlot)
    } else if end > u64::MAX {
        Some(ReplyRangeRefusal::ArithmeticOverflow)
    } else if end > pool_bytes {
        Some(ReplyRangeRefusal::RangeExceedsPool)
    } else if last > u64::MAX {
        Some(ReplyRangeRefusal::ArithmeticOverflow)
    } else if last > end {
        Some(ReplyRangeRefusal::FinalReplyExceedsRange)
    } else {
        None
    }
}

/// Admits a reply that begins at a slot, fits in it, and has room for its header
/// and its payload.
pub fn admit_reply_range(
    pool_bytes: u64,
    slot_bytes: u64,
    reply_offset: u64,
    reply_capacity: u64,
    hvr1_header_bytes: u64,
    final_payload_bytes: u64,
) -> (r: Result<ReplyRange, ReplyRangeRefusal>)
    ensures
        match reply_range_refusal(
            pool_bytes,
            slot_bytes,
            reply_offset,
            reply_capacity,
            hvr1_header_bytes,
            final_payload_bytes,
        ) {
            Some(e) => r == Err::<ReplyRange, ReplyRangeRefusal>(e),
            None => r == Ok::<ReplyRange, ReplyRangeRefusal>(
                ReplyRange {
                    payload_offset: (reply_offset + hvr1_header_bytes) as u64,
                    final_end: (reply_offset + hvr1_header_bytes + final_payload_bytes) as u64,
                },
            ),
        },
{
    if reply_capacity == 0 {
        return Err(ReplyRangeRefusal::ZeroCapacity);
    }
    if slot_bytes == 0 || reply_offset % slot_bytes != 0 {
        return Err(ReplyRangeRefusal::SlotMisaligned);
    }
    if reply_capacity > slot_bytes {
        return Err(ReplyRangeRefusal::CapacityExceedsSlot);
    }
    let reply_end: u64 = match reply_offset.checked_add(reply_capacity) {
        Some(v) => v,
        None => {
            return Err(ReplyRangeRefusal::ArithmeticOverflow);
        },
    };
    if reply_end > pool_bytes {
        return Err(ReplyRangeRefusal::RangeExceedsPool);
    }
    let payload_offset: u64 = match reply_offset.checked_add(hvr1_header_bytes) {
        Some(v) => v,
        None => {
            return Err(ReplyRangeRefusal::ArithmeticOverflow);
        },
    };
    let final_end: u64 = match payload_offset.checked_add(final_payload_bytes) {
        Some(v) => v,
        None => {
            return Err(ReplyRangeRefusal::ArithmeticOverflow);
        },
    };
    if final_end > reply_end {
        return Err(ReplyRangeRefusal::FinalReplyExceedsRange);
    }
    Ok(ReplyRange { payload_offset, final_end })
}

/// An admitted reply stays inside its own slot, so replies in different slots
/// never meet, and inside the pool.
pub proof fn law_replies_stay_in_their_slot(
    pool_bytes: u64,
    slot_bytes: u64,
    reply_offset: u64,
    reply_capacity: u64,
    header_bytes: u64,
    payload_bytes: u64,
)
    requires
        reply_range_refusal(
            pool_bytes,
            slot_bytes,
            reply_offset,
            reply_capacity,
            header_bytes,
            payload_bytes,
        ) is None,
    ensures
        reply_offset % slot_bytes == 0,
        reply_offset + header_bytes + payload_bytes <= reply_offset + slot_bytes,
        reply_offset + header_bytes + payload_bytes <= pool_bytes,
{
}

/// The command that directs replies to a range of a resource.
pub open spec fn set_reply_message(
    reply_resource_id: u32,
    reply_offset: u64,
    reply_bytes: u64,
) -> Seq<u8> {
    Seq::<u8>::empty() + bytes::le32(CMD_SET_REPLY_COMMAND_STREAM_MESA) + bytes::le32(0)
        + bytes::present(true) + bytes::le32(reply_resource_id) + bytes::le64(reply_offset)
        + bytes::le64(reply_bytes)
}

pub fn encode_set_reply_command_stream(
    reply_resource_id: u32,
    reply_offset: u64,
    reply_bytes: u64,
) -> (w: Writer)
    ensures
        w.wf(),
        w@.len() == 36,
        w@ == set_reply_message(reply_resource_id, reply_offset, reply_bytes),
{
    broadcast use bytes::group_lengths;
    let mut w = Writer::new();
    w.header(CMD_SET_REPLY_COMMAND_STREAM_MESA, 0);
    w.count(true);
    w.u32(reply_resource_id);
    w.u64(reply_offset);
    w.u64(reply_bytes);
    w
}

#[derive(Debug, Clone, Copy, PartialEq, Eq, Structural)]
pub enum ReplyOperandRefusal {
    ResourceIdZero,
    OffsetOutsidePayload,
    OperandNotPlaceholder,
}

/// Why the operand cannot be patched, if it cannot.
pub open spec fn reply_operand_refusal(
    payload: Seq<u8>,
    operand_offset: u32,
    private_resource_id: u32,
) -> Option<ReplyOperandRefusal> {
    if private_resource_id == 0 {
        Some(ReplyOperandRefusal::ResourceIdZero)
    } else if operand_offset + 4 > payload.len() {
        Some(ReplyOperandRefusal::OffsetOutsidePayload)
    } else if bytes::word32(payload, operand_offset as int) != 0 {
        Some(ReplyOperandRefusal::OperandNotPlaceholder)
    } else {
        None
    }
}

/// Puts the private resource in place of a zero operand. Nothing else of the
/// payload changes, and nothing at all if the operand is refused.
pub fn patch_private_reply_resource(
    payload: &mut [u8],
    operand_offset: u32,
    private_resource_id: u32,
) -> (r: Result<(), ReplyOperandRefusal>)
    ensures
        match reply_operand_refusal(old(payload)@, operand_offset, private_resource_id) {
            Some(e) => r is Err && r->Err_0 == e && final(payload)@ == old(payload)@,
            None => r is Ok && final(payload)@ == bytes::overlaid(
                old(payload)@,
                operand_offset as int,
                bytes::le32(private_resource_id),
            ),
        },
{
    if private_resource_id == 0 {
        return Err(ReplyOperandRefusal::ResourceIdZero);
    }
    let start: usize = operand_offset as usize;
    if payload.len() < 4 || start > payload.len() - 4 {
        return Err(ReplyOperandRefusal::OffsetOutsidePayload);
    }
    if bytes::read32(payload, start) != 0 {
        return Err(ReplyOperandRefusal::OperandNotPlaceholder);
    }
    let id: [u8; 4] = bytes::le32_bytes(private_resource_id);
    bytes::write_at(payload, start, &id);
    Ok(())
}

/// A patched operand names the private resource, and is no placeholder any more:
/// the same operand is never patched twice.
pub proof fn law_operand_is_patched_once(
    payload: Seq<u8>,
    operand_offset: u32,
    private_resource_id: u32,
    another: u32,
)
    requires
        reply_operand_refusal(payload, operand_offset, private_resource_id) is None,
        another != 0,
    ensures
        ({
            let patched = bytes::overlaid(
                payload,
                operand_offset as int,
                bytes::le32(private_resource_id),
            );
            bytes::word32(patched, operand_offset as int) == private_resource_id
                && reply_operand_refusal(patched, operand_offset, another) == Some(
                ReplyOperandRefusal::OperandNotPlaceholder,
            )
        }),
{
    let at = operand_offset as int;
    let patched = bytes::overlaid(payload, at, bytes::le32(private_resource_id));
    bytes::lemma_le32_round_trip(private_resource_id);
    assert(patched[at] == bytes::le32(private_resource_id)[0]);
    assert(patched[at + 1] == bytes::le32(private_resource_id)[1]);
    assert(patched[at + 2] == bytes::le32(private_resource_id)[2]);
    assert(patched[at + 3] == bytes::le32(private_resource_id)[3]);
}

/// The command that creates the host instance: no layers, no extensions, and an
/// application record that asks for version 1.4.
pub open spec fn create_instance_message(instance_handle: u64) -> Seq<u8> {
    Seq::<u8>::empty() + bytes::le32(CMD_CREATE_INSTANCE) + bytes::le32(CMD_FLAG_GENERATE_REPLY)
        + bytes::present(true) + bytes::le32(ST_INSTANCE_CREATE_INFO as u32) + bytes::le64(0)
        + bytes::le32(0) + bytes::present(true) + bytes::le32(ST_APPLICATION_INFO as u32)
        + bytes::le64(0) + bytes::present(false) + bytes::le32(0) + bytes::present(false)
        + bytes::le32(0) + bytes::le32(API_VERSION_1_4) + bytes::le32(0) + bytes::present(false)
        + bytes::le32(0) + bytes::present(false) + bytes::present(false) + bytes::present(true)
        + bytes::le64(instance_handle)
}

pub fn encode_create_instance(instance_handle: u64) -> (w: Writer)
    ensures
        w.wf(),
        w@.len() == 128,
        w@ == create_instance_message(instance_handle),
{
    broadcast use bytes::group_lengths;
    let mut w = Writer::new();
    w.header(CMD_CREATE_INSTANCE, CMD_FLAG_GENERATE_REPLY);
    w.count(true);
    w.i32(ST_INSTANCE_CREATE_INFO);
    w.u64(0);  // link
    w.u32(0);  // flags
    w.count(true);  // application record
    w.i32(ST_APPLICATION_INFO);
    w.u64(0);  // link
    w.count(false);  // application name
    w.u32(0);
    w.count(false);  // engine name
    w.u32(0);
    w.u32(API_VERSION_1_4);
    w.u32(0);  // layers
    w.count(false);
    w.u32(0);  // extensions
    w.count(false);
    w.count(false);  // allocator
    w.count(true);  // instance
    w.u64(instance_handle);
    w
}

/// The command that destroys the host instance.
pub open spec fn destroy_instance_message(instance_handle: u64) -> Seq<u8> {
    Seq::<u8>::empty() + bytes::le32(CMD_DESTROY_INSTANCE) + bytes::le32(0) + bytes::le64(
        instance_handle,
    ) + bytes::present(false)
}

pub fn encode_destroy_instance(instance_handle: u64) -> (w: Writer)
    ensures
        w.wf(),
        w@.len() == 24,
        w@ == destroy_instance_message(instance_handle),
{
    broadcast use bytes::group_lengths;
    let mut w = Writer::new();
    w.header(CMD_DESTROY_INSTANCE, 0);
    w.u64(instance_handle);
    w.count(false);  // allocator
    w
}

/// What the host answered to the creation of its instance.
#[derive(Debug, Clone, Copy, PartialEq, Eq, Structural)]
pub struct HostInitEvidence {
    pub opcode: u32,
    pub status: i32,
}

#[allow(inconsistent_fields)]
#[derive(Debug, Clone, Copy, PartialEq, Eq, Structural)]
pub enum HostReplyRefusal {
    Opcode { found: u32 },
    Status { found: i32 },
    PointerCount { found: u64 },
    Instance { found: u64 },
}

/// The last fence that the host completed on one context.
#[derive(Debug, Clone, Copy, PartialEq, Eq, Structural)]
pub struct HostSubmissionState {
    observed: bool,
    last_fence: u32,
}

#[derive(Debug, Clone, Copy, PartialEq, Eq, Structural)]
pub enum HostSubmissionRefusal {
    Duplicate { fence: u32 },
    WentBackward { last: u32, found: u32 },
}

impl View for HostSubmissionState {
    type V = Option<u32>;

    /// The last completed fence, if there was one.
    closed spec fn view(&self) -> Option<u32> {
        if self.observed {
            Some(self.last_fence)
        } else {
            None
        }
    }
}

/// Why a completion is refused, if it is.
pub open spec fn completion_refusal(
    last: Option<u32>,
    fence: u32,
    resubmission: bool,
) -> Option<HostSubmissionRefusal> {
    match last {
        None => None,
        Some(last) => if fence == last {
            if resubmission {
                None
            } else {
                Some(HostSubmissionRefusal::Duplicate { fence })
            }
        } else if !scanout_lease::forward(last, fence) {
            Some(HostSubmissionRefusal::WentBackward { last, found: fence })
        } else {
            None
        },
    }
}

impl HostSubmissionState {
    pub fn new() -> (s: Self)
        ensures
            s@ == None::<u32>,
    {
        HostSubmissionState { observed: false, last_fence: 0 }
    }

    pub fn last_fence(&self) -> (r: Option<u32>)
        ensures
            r == self@,
    {
        if self.observed {
            Some(self.last_fence)
        } else {
            None
        }
    }

    /// Records a completion. Fences only go forward; the last one comes again only
    /// as a resubmission.
    pub fn admit_host_completion(
        &mut self,
        fence: u32,
        resubmission: bool,
    ) -> (r: Result<(), HostSubmissionRefusal>)
        ensures
            match completion_refusal(old(self)@, fence, resubmission) {
                Some(e) => r is Err && r->Err_0 == e && final(self)@ == old(self)@,
                None => r is Ok && final(self)@ == Some(fence),
            },
    {
        if !self.observed {
            self.observed = true;
            self.last_fence = fence;
            return Ok(());
        }
        if fence == self.last_fence {
            return if resubmission {
                Ok(())
            } else {
                Err(HostSubmissionRefusal::Duplicate { fence })
            };
        }
        if !scanout_lease::fence_is_forward(self.last_fence, fence) {
            return Err(HostSubmissionRefusal::WentBackward { last: self.last_fence, found: fence });
        }
        self.last_fence = fence;
        Ok(())
    }
}

/// Once a fence was completed, the watermark never goes back: a completion leaves
/// it where it is or moves it forward.
pub proof fn law_watermark_never_goes_back(last: u32, fence: u32, resubmission: bool)
    requires
        completion_refusal(Some(last), fence, resubmission) is None,
    ensures
        fence == last || scanout_lease::forward(last, fence),
{
}

/// What is wrong with the host's reply to an instance creation, if anything.
pub open spec fn instance_reply_refusal(raw: Seq<u8>, expected_instance: u64) -> Option<
    HostReplyRefusal,
> {
    if bytes::word32(raw, 0) != CMD_CREATE_INSTANCE {
        Some(HostReplyRefusal::Opcode { found: bytes::word32(raw, 0) })
    } else if bytes::word32(raw, 4) as i32 != 0 {
        Some(HostReplyRefusal::Status { found: bytes::word32(raw, 4) as i32 })
    } else if bytes::word64(raw, 8) != 1 {
        Some(HostReplyRefusal::PointerCount { found: bytes::word64(raw, 8) })
    } else if bytes::word64(raw, 16) != expected_instance {
        Some(HostReplyRefusal::Instance { found: bytes::word64(raw, 16) })
    } else {
        None
    }
}

/// Only the exact reply to an instance creation is evidence of one.
pub fn validate_create_instance_reply(
    raw: &[u8; 24],
    expected_instance: u64,
) -> (r: Result<HostInitEvidence, HostReplyRefusal>)
    ensures
        match instance_reply_refusal(raw@, expected_instance) {
            Some(e) => r == Err::<HostInitEvidence, HostReplyRefusal>(e),
            None => r == Ok::<HostInitEvidence, HostReplyRefusal>(
                HostInitEvidence { opcode: CMD_CREATE_INSTANCE, status: 0 },
            ),
        },
{
    let opcode: u32 = bytes::read32(raw, 0);
    if opcode != CMD_CREATE_INSTANCE {
        return Err(HostReplyRefusal::Opcode { found: opcode });
    }
    let status: i32 = bytes::read32(raw, 4) as i32;
    if status != 0 {
        return Err(HostReplyRefusal::Status { found: status });
    }
    let pointer_count: u64 = bytes::read64(raw, 8);
    if pointer_count != 1 {
        return Err(HostReplyRefusal::PointerCount { found: pointer_count });
    }
    let instance: u64 = bytes::read64(raw, 16);
    if instance != expected_instance {
        return Err(HostReplyRefusal::Instance { found: instance });
    }
    Ok(HostInitEvidence { opcode, status })
}

} // verus!
