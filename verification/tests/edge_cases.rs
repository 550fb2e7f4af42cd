use kmd_logic::allocation_identity::{
    hvm1_written_flags_match, Hvm1Placement, IdentityRefusal, PlacementField,
    WrittenAllocationFlags,
};
use kmd_logic::bytes::{le16_bytes, le32_bytes, le64_bytes, read16, read32, read64, write_at};
use kmd_logic::native_fence_lifecycle::{
    close_local, destroy_global, epoch_is_current, native_type_is_documented, open_local,
    FenceState, GlobalFence, Refusal, NATIVE_FENCE_TYPE_DEFAULT, NATIVE_FENCE_TYPE_INTRA_GPU,
};
use kmd_logic::native_render::{
    admit_render_fragment, outer_submit_code, HeliosNativeRenderV2, Hnr2FragmentClass,
    RenderContext,
};
use kmd_logic::ordered_engine::{
    AdmissionRefusal, CompletionDisposition, FailureDisposition, OrderedEngine,
    RetirementRefusal,
};
use kmd_logic::present_copy::{
    dxgi_to_vk_format, dxgi_view_formats, CopyGeometry, CopyRect, CopyRegion, GeometryRefusal,
    MAX_REGIONS,
};
use kmd_logic::present_dma_header::PresentDmaKind;
use kmd_logic::producer_completion::{Table, CANCELLED, FAILED};
use kmd_logic::protocol::{HeliosOuterSubmitRejection, Hvm1Role, HELIOS_HVM1_REPLY_POOL_BYTES};
use kmd_logic::ring_index::wrap_index;
use kmd_logic::translation_session::{
    engine_class_of, AttachRefusal, AttachShape, ControlRenderRequest, EndpointRefusal,
    HeliosEngineClass, HeliosOuterContextKind, HeliosQueueAttachV1, HeliosSessionCapability,
    HeliosTranslationEndpointV1, HeliosTranslationSessionInitV1, InitRefusal, SessionRefusal,
    SlotState, TranslationSession,
};
use kmd_logic::venus_executor::{push_operand, push_resource, Cursor, VenusOperand, VenusReject};
use kmd_logic::{
    cross_adapter_pitch, gate_active, gate_pack, gate_seq, round_up_page, ScanoutFormat,
    StreamWriter,
};

#[test]
fn each_difference_of_placement_is_named() {
    let placement = Hvm1Placement {
        cpu_visible: true,
        cached: true,
        accessed_physically: true,
        explicit_residency_notification: true,
        disable_partial_residency: true,
        restricted_to_single_segment: true,
        preferred_segment: 2,
        cache_policy: 1,
    };
    let faithful = WrittenAllocationFlags {
        cpu_visible: true,
        cached: true,
        accessed_physically: true,
        explicit_residency_notification: true,
        disable_partial_residency: true,
        restricted_to_single_segment: true,
        preferred_segment: 2,
        cache_policy: 1,
    };
    assert_eq!(hvm1_written_flags_match(&placement, &faithful), Ok(()));
    let cases = [
        (
            WrittenAllocationFlags {
                cached: false,
                ..faithful
            },
            PlacementField::Cached,
        ),
        (
            WrittenAllocationFlags {
                accessed_physically: false,
                ..faithful
            },
            PlacementField::AccessedPhysically,
        ),
        (
            WrittenAllocationFlags {
                explicit_residency_notification: false,
                ..faithful
            },
            PlacementField::ExplicitResidencyNotification,
        ),
        (
            WrittenAllocationFlags {
                cache_policy: 2,
                ..faithful
            },
            PlacementField::CachePolicy,
        ),
    ];
    for (written, field) in cases {
        assert_eq!(
            hvm1_written_flags_match(&placement, &written),
            Err(IdentityRefusal::PlacementMismatch { field })
        );
    }
}

#[test]
fn words_are_written_and_read_low_byte_first() {
    assert_eq!(le16_bytes(0x0102), [0x02, 0x01]);
    assert_eq!(le32_bytes(0x0102_0304), [4, 3, 2, 1]);
    assert_eq!(le64_bytes(0x0102_0304_0506_0708), [8, 7, 6, 5, 4, 3, 2, 1]);

    let mut s = [0xFFu8; 12];
    write_at(&mut s, 2, &le64_bytes(0x0102_0304_0506_0708));
    assert_eq!(s, [0xFF, 0xFF, 8, 7, 6, 5, 4, 3, 2, 1, 0xFF, 0xFF]);
    assert_eq!(read16(&s, 2), 0x0708);
    assert_eq!(read32(&s, 2), 0x0506_0708);
    assert_eq!(read64(&s, 2), 0x0102_0304_0506_0708);
    assert_eq!(read16(&s, 10), 0xFFFF);
}

#[test]
fn one_fence_type_and_one_epoch_are_valid() {
    assert!(native_type_is_documented(NATIVE_FENCE_TYPE_DEFAULT));
    assert!(!native_type_is_documented(NATIVE_FENCE_TYPE_INTRA_GPU));
    assert!(!native_type_is_documented(u32::MAX));
    assert!(epoch_is_current(3, 3));
    assert!(!epoch_is_current(3, 4));

    let fence = GlobalFence::new(3, 1);
    assert_eq!(fence.state, FenceState::Live);
    let opened = open_local(fence, 3).unwrap();
    assert_eq!(opened.state, FenceState::Live);
    assert_eq!(
        destroy_global(opened),
        Err(Refusal::LocalReferencesOutstanding)
    );
    let draining = GlobalFence {
        state: FenceState::Draining,
        ..opened
    };
    assert_eq!(close_local(draining).unwrap().state, FenceState::Dead);
    assert_eq!(destroy_global(fence).unwrap().state, FenceState::Dead);
}

#[test]
fn fragments_are_classed_by_their_place() {
    let mut context = RenderContext::new();
    let fragment = HeliosNativeRenderV2 {
        package_generation: 1,
        batch_token: 4,
        total_payload_bytes: 96,
        fragment_payload_offset: 0,
        fragment_payload_bytes: 32,
        fragment_index: 0,
        fragment_count: 3,
        begins: true,
        commits: false,
    };
    let first = admit_render_fragment(&mut context, &fragment, Ok(())).unwrap();
    assert_eq!(first.class, Hnr2FragmentClass::Begin);
    assert!(first.class.is_begin() && !first.class.is_commit());

    let second = HeliosNativeRenderV2 {
        fragment_payload_offset: 32,
        fragment_index: 1,
        begins: false,
        ..fragment
    };
    let second = admit_render_fragment(&mut context, &second, Ok(())).unwrap();
    assert_eq!(second.class, Hnr2FragmentClass::Continue);
    assert!(!second.class.is_begin() && !second.class.is_commit());

    let third = HeliosNativeRenderV2 {
        fragment_payload_offset: 64,
        fragment_index: 2,
        begins: false,
        commits: true,
        ..fragment
    };
    let third = admit_render_fragment(&mut context, &third, Ok(())).unwrap();
    assert_eq!(third.class, Hnr2FragmentClass::Commit);
    assert!(!third.class.is_begin() && third.class.is_commit());
    assert!(Hnr2FragmentClass::Complete.is_begin() && Hnr2FragmentClass::Complete.is_commit());
}

#[test]
fn the_staging_of_a_context_is_changed_in_place() {
    let mut context = RenderContext::new();
    assert_eq!(context.staging().outstanding(), 0);
    context.staging_mut().checkout(64).unwrap();
    assert_eq!(context.staging().outstanding(), 1);
    assert_eq!(context.staging().staged_bytes(), 64);
    context.staging_mut().retire(64).unwrap();
    assert_eq!(context.staging().outstanding(), 0);
    assert_eq!(context.open_batch(), None);
}

#[test]
fn a_rejected_submission_has_its_own_number() {
    assert_eq!(
        outer_submit_code(HeliosOuterSubmitRejection::BatchIdZero),
        0x090A
    );
    assert_eq!(
        outer_submit_code(HeliosOuterSubmitRejection::Hob1BytesZero),
        0x090C
    );
}

#[test]
fn a_poisoned_engine_does_nothing_more_until_it_is_invalidated() {
    let mut engine: OrderedEngine<2> = OrderedEngine::new();
    assert!(engine.reopen(0));
    let first = engine.admit_fence(1).unwrap();
    let second = engine.admit_fence(2).unwrap();
    engine.mark_host_completed(first);
    let ready = engine.peek_ready().unwrap();
    assert_eq!(engine.fail_submission(second), FailureDisposition::Poisoned);
    assert!(engine.is_poisoned());

    assert_eq!(engine.admit_fence(3), Err(AdmissionRefusal::Poisoned));
    assert_eq!(
        engine.mark_host_completed(second),
        CompletionDisposition::Poisoned
    );
    assert_eq!(
        engine.fail_submission(second),
        FailureDisposition::AlreadyPoisoned
    );
    assert_eq!(engine.retire_ready(ready), Err(RetirementRefusal::Poisoned));
    assert!(!engine.reopen(2));

    assert!(engine.invalidate().epoch_advanced);
    assert!(engine.reopen(2));
    assert_eq!(
        engine.fail_submission(second),
        FailureDisposition::StaleEpoch
    );
}

#[test]
fn tickets_are_live_until_they_retire() {
    let mut engine: OrderedEngine<2> = OrderedEngine::new();
    assert!(engine.reopen(0));
    let first = engine.admit_fence(1).unwrap();
    assert!(engine.ticket_is_live(first));
    assert!(matches!(
        engine.mark_host_completed(first),
        CompletionDisposition::Marked {
            retained_early: false
        }
    ));
    assert_eq!(
        engine.mark_host_completed(first),
        CompletionDisposition::AlreadyCompleted
    );
    let ready = engine.peek_ready().unwrap();
    assert_eq!(engine.retire_ready(ready), Ok(1));
    assert!(!engine.ticket_is_live(first));
    assert_eq!(engine.retire_ready(ready), Err(RetirementRefusal::NotReady));
    assert_eq!(
        engine.mark_host_completed(first),
        CompletionDisposition::StaleTicket
    );
    assert_eq!(
        engine.fail_submission(first),
        FailureDisposition::StaleTicket
    );

    let second = engine.admit_fence(2).unwrap();
    engine.mark_host_completed(second);
    assert_eq!(
        engine.retire_ready(ready),
        Err(RetirementRefusal::WrongHead)
    );
}

#[test]
fn extents_and_shifts_beyond_the_coordinates_are_out_of_range() {
    let unit = CopyRect::new(0, 0, 1, 1);
    let empty = CopyRegion {
        src_x: 0,
        src_y: 0,
        dst_x: 0,
        dst_y: 0,
        width: 0,
        height: 0,
    };
    let mut out = [empty; MAX_REGIONS];
    let wide = CopyGeometry {
        src_extent: (0x8000_0000, 1),
        dst_extent: (1, 1),
        src_rect: unit,
        dst_rect: unit,
        sub_rects: &[],
    };
    assert_eq!(wide.regions(&mut out), Err(GeometryRefusal::OutOfRange));

    let far = CopyGeometry {
        src_extent: (1, 1),
        dst_extent: (1, 1),
        src_rect: CopyRect::new(i32::MAX - 1, 0, i32::MAX, 1),
        dst_rect: CopyRect::new(-2, 0, -1, 1),
        sub_rects: &[],
    };
    assert_eq!(far.regions(&mut out), Err(GeometryRefusal::OutOfRange));
    assert_eq!(out, [empty; MAX_REGIONS]);
}

#[test]
fn formats_have_their_counterparts() {
    assert_eq!(dxgi_to_vk_format(87), Some(44));
    assert_eq!(dxgi_to_vk_format(88), Some(50));
    assert_eq!(dxgi_to_vk_format(28), Some(37));
    assert_eq!(dxgi_to_vk_format(29), Some(43));
    assert_eq!(dxgi_to_vk_format(0), None);
    assert_eq!(dxgi_view_formats(87), Some([44, 50]));
    assert_eq!(dxgi_view_formats(28), Some([37, 43]));
    assert_eq!(dxgi_view_formats(1), None);

    assert_eq!(ScanoutFormat::from_dxgi(28), Some(ScanoutFormat::Rgba8));
    for format in [
        ScanoutFormat::Bgrx8,
        ScanoutFormat::Bgra8,
        ScanoutFormat::Rgba8,
    ] {
        assert_eq!(ScanoutFormat::from_dxgi(format.dxgi()), Some(format));
    }
    assert_eq!(ScanoutFormat::Rgba8.virtio(), 67);
}

#[test]
fn packet_kinds_are_numbered_from_one() {
    let kinds = [
        PresentDmaKind::Blt,
        PresentDmaKind::Flip,
        PresentDmaKind::Mpo,
        PresentDmaKind::Other,
    ];
    for (i, kind) in kinds.iter().enumerate() {
        assert_eq!(kind.to_raw(), i as u32 + 1);
        assert_eq!(PresentDmaKind::from_raw(i as u32 + 1), Some(*kind));
    }
    assert_eq!(PresentDmaKind::from_raw(0), None);
    assert_eq!(PresentDmaKind::from_raw(5), None);
}

#[test]
fn a_first_end_of_an_allocation_stands() {
    let mut table = Table::new(2, 4, 4).unwrap();
    assert_eq!(table.slot_snapshot(2), None);
    let key = table.register(11).unwrap();
    let slot = key.slot as usize;
    table.publish(key, 101, 1, false).unwrap();
    table.terminal(key, 0);
    assert_eq!(table.slot_snapshot(slot).unwrap().status, 0);
    table.terminal(key, FAILED);
    assert_eq!(table.slot_snapshot(slot).unwrap().status, FAILED);
    assert_eq!(table.slot_snapshot(slot).unwrap().completed, 0);
    table.terminal(key, CANCELLED);
    assert_eq!(table.slot_snapshot(slot).unwrap().status, FAILED);
}

#[test]
fn places_go_round_the_circle() {
    assert_eq!(wrap_index(3, 0, 4), 3);
    assert_eq!(wrap_index(3, 1, 4), 0);
    assert_eq!(wrap_index(1, 2, 4), 3);
    assert_eq!(wrap_index(2, 4, 4), 2);
    assert_eq!(wrap_index(0, usize::MAX, usize::MAX), 0);
}

struct Handle(u64);

impl From<Handle> for u64 {
    fn from(h: Handle) -> u64 {
        h.0
    }
}

#[test]
fn a_handle_is_its_wide_word() {
    let mut w: StreamWriter<8> = StreamWriter::new();
    w.handle(Handle(0x0102_0304_0506_0708));
    assert_eq!(w.finished(), Some(&[8u8, 7, 6, 5, 4, 3, 2, 1][..]));
    w.handle(Handle(1));
    assert_eq!(w.finished(), None);
}

const CAPABILITY: HeliosSessionCapability = HeliosSessionCapability { low: 5, high: 6 };

fn started(capacity: u32) -> TranslationSession {
    let mut s = TranslationSession::new_provisional(3, 4);
    s.bind_reply_pool(Hvm1Role::ReplyPool, HELIOS_HVM1_REPLY_POOL_BYTES, 9)
        .unwrap();
    let request = HeliosTranslationSessionInitV1 {
        package_generation: 3,
        capset: 4,
        endpoint_capacity: capacity,
    };
    let requested = s.admit_init(&request, Ok(())).unwrap();
    s.complete_init(requested, capacity, 7, CAPABILITY, Ok(()))
        .unwrap();
    s
}

#[test]
fn an_endpoint_outside_its_session_or_of_no_class_is_refused() {
    let endpoint = HeliosTranslationEndpointV1 {
        endpoint_id: 2,
        engine_class: 77,
        queue_family: 0,
        queue_index: 0,
    };
    assert_eq!(
        engine_class_of(&endpoint, 1, Some(HeliosEngineClass::Copy)),
        Err(SessionRefusal::Attach(AttachRefusal::Endpoint(
            EndpointRefusal::OutOfRange {
                found: 2,
                capacity: 1
            }
        )))
    );
    assert_eq!(
        engine_class_of(&endpoint, 2, None),
        Err(SessionRefusal::Attach(AttachRefusal::Endpoint(
            EndpointRefusal::EngineClassUnknown { found: 77 }
        )))
    );
    assert_eq!(
        engine_class_of(&endpoint, 2, Some(HeliosEngineClass::Copy)),
        Ok(HeliosEngineClass::Copy)
    );
}

#[test]
fn a_grant_beyond_the_protocol_is_refused() {
    let mut s = TranslationSession::new_provisional(3, 4);
    s.bind_reply_pool(Hvm1Role::ReplyPool, HELIOS_HVM1_REPLY_POOL_BYTES, 9)
        .unwrap();
    let request = HeliosTranslationSessionInitV1 {
        package_generation: 3,
        capset: 4,
        endpoint_capacity: 65,
    };
    assert_eq!(
        s.admit_init(&request, Err(InitRefusal::Record { code: 12 })),
        Err(SessionRefusal::Init(InitRefusal::Record { code: 12 }))
    );
    assert_eq!(
        s.complete_init(65, 65, 7, CAPABILITY, Ok(())),
        Err(SessionRefusal::Init(
            InitRefusal::EndpointCapacityOutOfRange { found: 65 }
        ))
    );
    assert_eq!(s.session_generation(), 0);
}

#[test]
fn an_attached_family_cannot_change() {
    let mut s = started(2);
    let packet = HeliosQueueAttachV1 {
        package_generation: 3,
        session_generation: 7,
        capability_low: CAPABILITY.low,
        capability_high: CAPABILITY.high,
        endpoint_id: 1,
        engine_class: 1,
        queue_family: 0,
        queue_index: 0,
        context_generation: 1,
    };
    let shape = AttachShape {
        kind: HeliosOuterContextKind::D3d11PhysicalRender,
        engine_class: Some(HeliosEngineClass::Graphics),
    };
    s.attach(&packet, Ok(shape)).unwrap();
    let moved = HeliosQueueAttachV1 {
        queue_family: 1,
        context_generation: 2,
        ..packet
    };
    assert_eq!(
        s.attach(&moved, Ok(shape)),
        Err(SessionRefusal::Attach(AttachRefusal::QueueFamilyMismatch {
            found: 1,
            expected: 0
        }))
    );
    assert_eq!(
        s.attach(&moved, Err(AttachRefusal::Record { code: 3 })),
        Err(SessionRefusal::Attach(AttachRefusal::Record { code: 3 }))
    );
    assert_eq!(s.attached_contexts(), 1);
}

#[test]
fn a_published_slot_is_busy_until_it_is_retired() {
    let mut s = started(1);
    assert!(HeliosSessionCapability::invalid().is_invalid());
    assert!(!CAPABILITY.is_invalid());
    assert!(s.capability_matches(CAPABILITY));
    assert!(!s.capability_matches(HeliosSessionCapability::from_halves(5, 7)));
    assert_eq!(s.reply_pool_generation(), Some(9));

    let request = ControlRenderRequest {
        on_control_context: true,
        has_reply: true,
        allocation_count: 1,
        names_reply_pool: true,
        expected_allocation_generation: 9,
        access_flags: 2,
        reply_offset: 0,
        reply_capacity_bytes: 80 + 4096,
        reply_slot_generation: 1,
        batch_token: 1,
        owner_context_generation: 0,
    };
    let admitted = s.admit_control_render(&request, 2).unwrap();
    let slot = admitted.slot_index.unwrap();
    assert_eq!(s.pool().unwrap().slots[slot].state, SlotState::InFlight);
    s.publish_slot(slot, 1, 40).unwrap();
    assert_eq!(s.pool().unwrap().slots[slot].state, SlotState::Published);
    assert_eq!(s.pool().unwrap().slots[slot].c51_value, 40);
    let again = ControlRenderRequest {
        reply_slot_generation: 2,
        ..request
    };
    assert_eq!(
        s.admit_control_render(&again, 2),
        Err(SessionRefusal::ControlRenderSlotBusy { in_flight: 1 })
    );
    s.retire_slot(slot, 1).unwrap();
    assert_eq!(s.pool().unwrap().slots[slot].state, SlotState::Idle);
    s.admit_control_render(&again, 2).unwrap();

    s.begin_draining();
    assert!(!s.capability_matches(CAPABILITY));
}

#[test]
fn a_count_beyond_the_string_is_refused() {
    let mut bytes = [0u8; 12];
    bytes[0] = 3;
    let mut c = Cursor::new(&bytes);
    assert_eq!(c.bounded_count(), Ok(3));
    assert_eq!(c.offset, 4);
    bytes[0] = 4;
    let mut c = Cursor::new(&bytes);
    assert_eq!(c.bounded_count(), Err(VenusReject::BadArrayCount));
    let mut c = Cursor::new(&bytes);
    assert_eq!(c.array_count(), Ok(4));
    assert_eq!(c.offset, 8);
    assert_eq!(c.array_count(), Err(VenusReject::Truncated));
}

#[test]
fn operands_fill_their_table_and_no_more() {
    let mut out = [VenusOperand::default(); 2];
    assert_eq!(push_operand(&mut out, 0, 16, 5), Ok(1));
    assert_eq!(
        out[0],
        VenusOperand {
            payload_offset: 16,
            operand_kind: 5
        }
    );
    assert_eq!(push_resource(&mut out, 1, 20, 4), Ok(2));
    assert_eq!(out[1].payload_offset, 20);
    let full = out;
    assert_eq!(
        push_operand(&mut out, 2, 24, 5),
        Err(VenusReject::OperandCapacity)
    );
    assert_eq!(
        push_resource(&mut out, 0, 24, 8),
        Err(VenusReject::OperandCapacity)
    );
    assert_eq!(out, full);
}

#[test]
fn a_gate_word_holds_its_interval_exactly() {
    for seq in [0u32, 1, 0x8000_0000, u32::MAX] {
        for active in [false, true] {
            let word = gate_pack(seq, active);
            assert_eq!(gate_seq(word), seq);
            assert_eq!(gate_active(word), active);
        }
    }
    assert_eq!(gate_pack(2, true), 0x2_0000_0001);
    assert_ne!(gate_pack(2, true), gate_pack(3, true));
}

#[test]
fn a_pitch_holds_its_row() {
    for width in [1u32, 63, 64, 65, 1920, 0x3FFF_FFC0] {
        let pitch = cross_adapter_pitch(width);
        assert!(pitch as u64 >= width as u64 * 4);
        assert_eq!(pitch % 256, 0);
    }
    assert_eq!(cross_adapter_pitch(65), 512);
    assert_eq!(cross_adapter_pitch(u32::MAX), 0xFFFF_FF00);
    assert_eq!(round_up_page(u64::MAX), 0xFFFF_FFFF_FFFF_F000);
}
