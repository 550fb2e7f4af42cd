//! What the session transport says on the wire and admits from it, read word by word.

use vstd::prelude::*;
use crate::bytes;
use crate::session_transport;
use crate::session_transport::{
    HostReplyRefusal, HostSubmissionRefusal, ReplyOperandRefusal, ReplyRangeRefusal,
};
use crate::venus_encodings;

verus! {

/// A reply is admitted exactly if it has room, begins at a slot, stays in that slot and
/// in the pool, and holds its header and its payload. A refusal names a bound that is
/// broken.
pub proof fn law_a_reply_is_admitted_if_it_fits_its_slot(
    pool_bytes: u64,
    slot_bytes: u64,
    offset: u64,
    capacity: u64,
    header_bytes: u64,
    payload_bytes: u64,
)
    ensures
        ({
            let r = session_transport::reply_range_refusal(
                pool_bytes,
                slot_bytes,
                offset,
                capacity,
                header_bytes,
                payload_bytes,
            );
            &&& r is None <==> 0 < capacity <= slot_bytes && offset % slot_bytes == 0 && offset
                + capacity <= pool_bytes && header_bytes + payload_bytes <= capacity
            &&& r matches Some(e) ==> match e {
                ReplyRangeRefusal::ZeroCapacity => capacity == 0,
                ReplyRangeRefusal::SlotMisaligned => slot_bytes == 0 || offset % slot_bytes != 0,
                ReplyRangeRefusal::CapacityExceedsSlot => capacity > slot_bytes,
                ReplyRangeRefusal::ArithmeticOverflow => offset + capacity > u64::MAX || offset
                    + header_bytes + payload_bytes > u64::MAX,
                ReplyRangeRefusal::RangeExceedsPool => offset + capacity > pool_bytes,
                ReplyRangeRefusal::FinalReplyExceedsRange => header_bytes + payload_bytes
                    > capacity,
            }
        }),
{
}

/// An operand is patched exactly if the resource is one, and the operand is a zero word
/// of the payload. Patching writes that word and no other byte.
pub proof fn law_patching_writes_one_word(payload: Seq<u8>, offset: u32, resource: u32, i: int)
    ensures
        ({
            let r = session_transport::reply_operand_refusal(payload, offset, resource);
            &&& r is None <==> resource != 0 && offset + 4 <= payload.len() && bytes::word32(
                payload,
                offset as int,
            ) == 0
            &&& r matches Some(e) ==> match e {
                ReplyOperandRefusal::ResourceIdZero => resource == 0,
                ReplyOperandRefusal::OffsetOutsidePayload => offset + 4 > payload.len(),
                ReplyOperandRefusal::OperandNotPlaceholder => bytes::word32(
                    payload,
                    offset as int,
                ) != 0,
            }
            &&& r is None ==> ({
                let patched = bytes::overlaid(payload, offset as int, bytes::le32(resource));
                &&& patched.len() == payload.len()
                &&& 0 <= i < payload.len() && !(offset <= i < offset + 4) ==> patched[i]
                    == payload[i]
                &&& bytes::word32(patched, offset as int) == resource
            })
        }),
{
    if session_transport::reply_operand_refusal(payload, offset, resource) is None {
        session_transport::law_operand_is_patched_once(payload, offset, resource, 1);
    }
}

/// The words of the command that directs replies.
pub proof fn law_the_words_of_a_reply_stream(resource: u32, offset: u64, size: u64)
    ensures
        ({
            let m = session_transport::set_reply_message(resource, offset, size);
            &&& m.len() == 36
            &&& bytes::word32(m, 0) == 178
            &&& bytes::word32(m, 4) == 0
            &&& bytes::word64(m, 8) == 1
            &&& bytes::word32(m, 16) == resource
            &&& bytes::word64(m, 20) == offset
            &&& bytes::word64(m, 28) == size
        }),
{
    broadcast use {bytes::group_lengths, bytes::group_reading};
}

/// The words of the command that creates the host instance.
#[verifier::spinoff_prover]
pub proof fn law_the_words_of_an_instance_creation(handle: u64)
    ensures
        ({
            let m = session_transport::create_instance_message(handle);
            &&& m.len() == 128
            &&& bytes::word32(m, 0) == 0
            &&& bytes::word32(m, 4) == 1
            &&& bytes::word64(m, 8) == 1
            &&& bytes::word32(m, 16) == 1
            &&& bytes::word64(m, 20) == 0
            &&& bytes::word32(m, 28) == 0
            &&& bytes::word64(m, 32) == 1
            &&& bytes::word32(m, 40) == 0
            &&& bytes::word64(m, 44) == 0
            &&& bytes::word64(m, 52) == 0
            &&& bytes::word32(m, 60) == 0
            &&& bytes::word64(m, 64) == 0
            &&& bytes::word32(m, 72) == 0
            &&& bytes::word32(m, 76) == 0x40_4000
            &&& bytes::word32(m, 80) == 0
            &&& bytes::word64(m, 84) == 0
            &&& bytes::word32(m, 92) == 0
            &&& bytes::word64(m, 96) == 0
            &&& bytes::word64(m, 104) == 0
            &&& bytes::word64(m, 112) == 1
            &&& bytes::word64(m, 120) == handle
        }),
{
    broadcast use venus_encodings::group_stands;
    venus_encodings::lemma_stands_whole(session_transport::create_instance_message(handle));
}

/// The words of the command that destroys the host instance.
pub proof fn law_the_words_of_an_instance_destruction(handle: u64)
    ensures
        ({
            let m = session_transport::destroy_instance_message(handle);
            &&& m.len() == 24
            &&& bytes::word32(m, 0) == 1
            &&& bytes::word32(m, 4) == 0
            &&& bytes::word64(m, 8) == handle
            &&& bytes::word64(m, 16) == 0
        }),
{
    broadcast use {bytes::group_lengths, bytes::group_reading};
}

/// A reply is evidence of a created instance exactly if it answers a creation, with
/// success, and names the one instance that was asked for.
pub proof fn law_only_the_exact_reply_is_evidence(raw: Seq<u8>, instance: u64)
    ensures
        ({
            let r = session_transport::instance_reply_refusal(raw, instance);
            &&& r is None <==> bytes::word32(raw, 0) == 0 && bytes::word32(raw, 4) == 0
                && bytes::word64(raw, 8) == 1 && bytes::word64(raw, 16) == instance
            &&& r matches Some(e) ==> match e {
                HostReplyRefusal::Opcode { found } => found == bytes::word32(raw, 0) && found != 0,
                HostReplyRefusal::Status { found } => found == bytes::word32(raw, 4) as i32
                    && found != 0,
                HostReplyRefusal::PointerCount { found } => found == bytes::word64(raw, 8) && found
                    != 1,
                HostReplyRefusal::Instance { found } => found == bytes::word64(raw, 16) && found
                    != instance,
            }
        }),
{
    let w = bytes::word32(raw, 4);
    assert(w as i32 == 0 <==> w == 0) by (bit_vector);
}

/// The first completion is admitted, and after it every one that lies ahead by less
/// than half of the sequence. The last one comes again only as a resubmission.
pub proof fn law_completions_go_forward(last: u32, fence: u32, resubmission: bool)
    ensures
        session_transport::completion_refusal(None, fence, resubmission) is None,
        ({
            let r = session_transport::completion_refusal(Some(last), fence, resubmission);
            let ahead = (fence - last) % 0x1_0000_0000;
            &&& r is None <==> 0 < ahead < 0x8000_0000 || ahead == 0 && resubmission
            &&& ahead == 0 && !resubmission ==> r == Some(
                HostSubmissionRefusal::Duplicate { fence },
            )
            &&& ahead >= 0x8000_0000 ==> r == Some(
                HostSubmissionRefusal::WentBackward { last, found: fence },
            )
        }),
{
}

} // verus!
