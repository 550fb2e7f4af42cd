use kmd_logic::session_transport::{
    admit_reply_range, encode_create_instance, encode_destroy_instance,
    encode_set_reply_command_stream, patch_private_reply_resource,
    validate_create_instance_reply, HostInitEvidence, HostReplyRefusal, HostSubmissionRefusal,
    HostSubmissionState, ReplyOperandRefusal, ReplyRangeRefusal, RingZeroControlRefusal,
    RingZeroControlState, API_VERSION_1_4, HOST_CREATE_INSTANCE_REPLY_BYTES,
};

const POOL: u64 = 4 * 1024 * 1024;
const SLOT: u64 = 1024 * 1024;
const HVR1: u64 = 80;

#[test]
fn reply_target_and_create_are_two_bounded_direct_streams() {
    let target = encode_set_reply_command_stream(
        0x1122_3344,
        0x0102_0304_0506_0708,
        HOST_CREATE_INSTANCE_REPLY_BYTES,
    );
    let bytes = target.finished().unwrap();
    assert_eq!(bytes.len(), 36);
    assert_eq!(&bytes[0..8], &[178, 0, 0, 0, 0, 0, 0, 0]);
    assert_eq!(&bytes[8..16], &1u64.to_le_bytes());
    assert_eq!(&bytes[16..20], &0x1122_3344u32.to_le_bytes());
    assert_eq!(&bytes[20..28], &0x0102_0304_0506_0708u64.to_le_bytes());
    assert_eq!(&bytes[28..36], &24u64.to_le_bytes());

    let stream = encode_create_instance(0x8877_6655_4433_2211);
    let bytes = stream.finished().unwrap();
    assert_eq!(bytes.len(), 128);
    assert_eq!(&bytes[0..8], &[0, 0, 0, 0, 1, 0, 0, 0]);
    assert_eq!(&bytes[76..80], &API_VERSION_1_4.to_le_bytes());
    assert_eq!(&bytes[120..128], &0x8877_6655_4433_2211u64.to_le_bytes());
}

#[test]
fn ring_zero_control_admits_one_owner_at_a_time() {
    let mut state = RingZeroControlState::new();
    assert_eq!(state.try_acquire(), Ok(()));
    assert_eq!(state.try_acquire(), Err(RingZeroControlRefusal::Occupied));
    assert!(state.release());
    assert!(!state.release());
    assert_eq!(state.try_acquire(), Ok(()));
}

#[test]
fn generated_reply_uses_only_the_private_context_resource() {
    let mut payload = [0xAA; 24];
    payload[12..16].fill(0);
    patch_private_reply_resource(&mut payload, 12, 0x1122_3344).expect("private patch");
    assert_eq!(&payload[12..16], &0x1122_3344u32.to_le_bytes());

    assert_eq!(
        patch_private_reply_resource(&mut payload, 12, 0x5566_7788),
        Err(ReplyOperandRefusal::OperandNotPlaceholder)
    );
    assert_eq!(
        patch_private_reply_resource(&mut payload, 24, 1),
        Err(ReplyOperandRefusal::OffsetOutsidePayload)
    );
    assert_eq!(
        patch_private_reply_resource(&mut [0; 4], 0, 0),
        Err(ReplyOperandRefusal::ResourceIdZero)
    );
}

#[test]
fn destroy_stream_is_exact_and_replyless() {
    let stream = encode_destroy_instance(0x8877_6655_4433_2211);
    let bytes = stream.finished().unwrap();
    assert_eq!(bytes.len(), 24);
    assert_eq!(&bytes[0..8], &[1, 0, 0, 0, 0, 0, 0, 0]);
    assert_eq!(&bytes[8..16], &0x8877_6655_4433_2211u64.to_le_bytes());
    assert_eq!(&bytes[16..24], &0u64.to_le_bytes());
}

#[test]
fn all_four_physical_slots_admit_the_exact_finite_reply() {
    for slot in 0..4u64 {
        let offset = slot * SLOT;
        let range = admit_reply_range(POOL, SLOT, offset, HVR1 + 4096, HVR1, 56)
            .expect("one exact slot");
        assert_eq!(range.payload_offset, offset + HVR1);
        assert_eq!(range.final_end, offset + HVR1 + 56);
    }
}

#[test]
fn range_refuses_zero_unaligned_oversize_overflow_and_short_capacity() {
    assert_eq!(
        admit_reply_range(POOL, SLOT, 0, 0, HVR1, 56),
        Err(ReplyRangeRefusal::ZeroCapacity)
    );
    assert_eq!(
        admit_reply_range(POOL, SLOT, 1, HVR1 + 56, HVR1, 56),
        Err(ReplyRangeRefusal::SlotMisaligned)
    );
    assert_eq!(
        admit_reply_range(POOL, SLOT, 0, SLOT + 1, HVR1, 56),
        Err(ReplyRangeRefusal::CapacityExceedsSlot)
    );
    assert_eq!(
        admit_reply_range(POOL, SLOT, u64::MAX - SLOT + 1, SLOT, HVR1, 56),
        Err(ReplyRangeRefusal::ArithmeticOverflow)
    );
    assert_eq!(
        admit_reply_range(POOL, SLOT, POOL, HVR1 + 56, HVR1, 56),
        Err(ReplyRangeRefusal::RangeExceedsPool)
    );
    assert_eq!(
        admit_reply_range(POOL, SLOT, 0, HVR1 + 24, HVR1, 56),
        Err(ReplyRangeRefusal::FinalReplyExceedsRange)
    );
}

fn reply(opcode: u32, status: i32, pointer_count: u64, instance: u64) -> [u8; 24] {
    let mut raw = [0u8; 24];
    raw[0..4].copy_from_slice(&opcode.to_le_bytes());
    raw[4..8].copy_from_slice(&status.to_le_bytes());
    raw[8..16].copy_from_slice(&pointer_count.to_le_bytes());
    raw[16..24].copy_from_slice(&instance.to_le_bytes());
    raw
}

#[test]
fn only_the_exact_host_create_reply_is_evidence() {
    let expected = 0x51;
    assert_eq!(
        validate_create_instance_reply(&reply(0, 0, 1, expected), expected),
        Ok(HostInitEvidence {
            opcode: 0,
            status: 0
        })
    );
    assert!(matches!(
        validate_create_instance_reply(&reply(2, 0, 1, expected), expected),
        Err(HostReplyRefusal::Opcode { .. })
    ));
    assert!(matches!(
        validate_create_instance_reply(&reply(0, -4, 1, expected), expected),
        Err(HostReplyRefusal::Status { .. })
    ));
    assert!(matches!(
        validate_create_instance_reply(&reply(0, 0, 0, expected), expected),
        Err(HostReplyRefusal::PointerCount { .. })
    ));
    assert!(matches!(
        validate_create_instance_reply(&reply(0, 0, 1, expected + 1), expected),
        Err(HostReplyRefusal::Instance { .. })
    ));
}

#[test]
fn host_submission_state_is_one_context_local_forward_watermark() {
    let mut state = HostSubmissionState::new();
    assert_eq!(state.last_fence(), None);
    assert_eq!(state.admit_host_completion(0, false), Ok(()));
    assert_eq!(state.last_fence(), Some(0));
    assert_eq!(
        state.admit_host_completion(0, false),
        Err(HostSubmissionRefusal::Duplicate { fence: 0 })
    );
    assert_eq!(state.admit_host_completion(0, true), Ok(()));
    assert_eq!(state.admit_host_completion(7, false), Ok(()));
    assert_eq!(
        state.admit_host_completion(6, true),
        Err(HostSubmissionRefusal::WentBackward { last: 7, found: 6 })
    );
}

#[test]
fn host_submission_state_accepts_wrap_without_a_zero_sentinel() {
    let mut state = HostSubmissionState::new();
    assert_eq!(state.admit_host_completion(u32::MAX, false), Ok(()));
    assert_eq!(state.admit_host_completion(0, false), Ok(()));
    assert_eq!(state.last_fence(), Some(0));
}
