use kmd_logic::protocol::{
    Hnr2CapacityLimit, Hnr2CapacityRefusal, Hvm1Role, HELIOS_HVM1_REPLY_POOL_BYTES,
};
use kmd_logic::translation_session::{
    capacity_limit_code, check_session_generation, engine_class_of, AttachRefusal, AttachShape,
    CapabilityRefusal, ControlRenderAdmission, ControlRenderRequest, EndpointRefusal,
    ExecutionReplyRequest, GenerationField, GenerationRefusal, HeliosAttachAdmission,
    HeliosCapacityLimit, HeliosCapacityRefusal, HeliosEngineClass, HeliosOuterContextKind,
    HeliosQueueAttachV1, HeliosSessionCapability, HeliosTranslationEndpointV1,
    HeliosTranslationSessionInitV1, InitRefusal, ProcessSessionLedger, SessionGenerationSource,
    SessionPhase, SessionRefusal, SlotState, TranslationSession,
    HELIOS_HTS1_MAX_HOST_DISPATCH_FIFO_DEPTH, HELIOS_HTS1_MAX_SESSIONS_PER_PROCESS,
    HELIOS_HVM1_REPLY_SLOT_BYTES, REPLY_SLOTS,
};

const PKG: u64 = 0x2026_0810_0000_0001;
const CAPSET: u32 = 4;
const ENGINE_CLASS_GRAPHICS: u32 = 1;
const ENGINE_CLASS_COMPUTE: u32 = 2;
const ENGINE_CLASS_COPY: u32 = 3;
const ACCESS_READ: u32 = 0x1;
const ACCESS_WRITE: u32 = 0x2;
const MAX_SNAPSHOT_BYTES: u64 = 0x10_0000;
const POOL_GEN: u64 = 0x5EED_0001;
const CAP: HeliosSessionCapability = HeliosSessionCapability {
    low: 0x0123_4567_89AB_CDEF,
    high: 0xFEDC_BA98_7654_3210,
};

fn endpoint(id: u32) -> HeliosTranslationEndpointV1 {
    HeliosTranslationEndpointV1 {
        endpoint_id: id,
        engine_class: ENGINE_CLASS_GRAPHICS,
        queue_family: 0,
        queue_index: 0,
    }
}

fn live_session(endpoint_capacity: u32) -> TranslationSession {
    let mut s = TranslationSession::new_provisional(PKG, CAPSET);
    s.bind_reply_pool(Hvm1Role::ReplyPool, HELIOS_HVM1_REPLY_POOL_BYTES, POOL_GEN)
        .expect("pool binds");
    let request = init_request(PKG, CAPSET, endpoint_capacity);
    let requested = s.admit_init(&request, Ok(())).expect("INIT admitted");
    s.complete_init(requested, endpoint_capacity, 7, CAP, Ok(()))
        .expect("INIT completes");
    s
}

fn attach_packet(endpoint_id: u32, context_generation: u64) -> HeliosQueueAttachV1 {
    HeliosQueueAttachV1 {
        package_generation: PKG,
        session_generation: 7,
        capability_low: CAP.low,
        capability_high: CAP.high,
        endpoint_id,
        engine_class: ENGINE_CLASS_GRAPHICS,
        queue_family: 0,
        queue_index: 0,
        context_generation,
    }
}

fn init_request(
    package_generation: u64,
    capset: u32,
    endpoint_capacity: u32,
) -> HeliosTranslationSessionInitV1 {
    HeliosTranslationSessionInitV1 {
        package_generation,
        capset,
        endpoint_capacity,
    }
}

fn class_of(number: u32) -> Option<HeliosEngineClass> {
    match number {
        ENGINE_CLASS_GRAPHICS => Some(HeliosEngineClass::Graphics),
        ENGINE_CLASS_COMPUTE => Some(HeliosEngineClass::Compute),
        ENGINE_CLASS_COPY => Some(HeliosEngineClass::Copy),
        _ => None,
    }
}

/// Attaches a well-formed packet of a context with physical submission.
fn attach(
    s: &mut TranslationSession,
    packet: &HeliosQueueAttachV1,
) -> Result<HeliosAttachAdmission, SessionRefusal> {
    let shape = AttachShape {
        kind: HeliosOuterContextKind::D3d11PhysicalRender,
        engine_class: class_of(packet.engine_class),
    };
    s.attach(packet, Ok(shape))
}

fn control_render(
    s: &mut TranslationSession,
    request: &ControlRenderRequest,
) -> Result<ControlRenderAdmission, SessionRefusal> {
    s.admit_control_render(request, ACCESS_WRITE)
}

fn execution_reply(
    s: &mut TranslationSession,
    request: &ExecutionReplyRequest,
) -> Result<ControlRenderAdmission, SessionRefusal> {
    s.admit_execution_reply(request, ACCESS_WRITE)
}

fn snapshot(s: &mut TranslationSession, bytes: u64) -> Result<(), SessionRefusal> {
    let byte_rules = if bytes > MAX_SNAPSHOT_BYTES {
        Err(Hnr2CapacityRefusal {
            limit: Hnr2CapacityLimit::SnapshotBytes,
        })
    } else {
        Ok(())
    };
    s.admit_snapshot_bytes(bytes, byte_rules)
}

fn reply_request(slot: usize, slot_generation: u64) -> ControlRenderRequest {
    ControlRenderRequest {
        on_control_context: true,
        has_reply: true,
        allocation_count: 1,
        names_reply_pool: true,
        expected_allocation_generation: POOL_GEN,
        access_flags: ACCESS_WRITE,
        reply_offset: slot as u64 * HELIOS_HVM1_REPLY_SLOT_BYTES,
        reply_capacity_bytes: 80 + 4096,
        reply_slot_generation: slot_generation,
        batch_token: 1,
        owner_context_generation: 0,
    }
}

fn execution_reply_request(slot: usize, slot_generation: u64) -> ExecutionReplyRequest {
    ExecutionReplyRequest {
        names_reply_pool: true,
        expected_allocation_generation: POOL_GEN,
        access_flags: ACCESS_WRITE,
        reply_offset: slot as u64 * HELIOS_HVM1_REPLY_SLOT_BYTES,
        reply_capacity_bytes: 80 + 24,
        reply_slot_generation: slot_generation,
        batch_token: 9,
        owner_context_generation: 0xA11,
    }
}

#[test]
fn the_session_ledger_admits_exactly_the_protocol_cap() {
    let mut ledger = ProcessSessionLedger::new();
    for _ in 0..HELIOS_HTS1_MAX_SESSIONS_PER_PROCESS {
        ledger.admit_session().expect("under the cap");
    }
    assert_eq!(ledger.live(), HELIOS_HTS1_MAX_SESSIONS_PER_PROCESS);
    assert!(matches!(
        ledger.admit_session(),
        Err(SessionRefusal::Capacity(HeliosCapacityRefusal {
            limit: HeliosCapacityLimit::SessionsPerProcess,
            ..
        }))
    ));
    assert_eq!(ledger.live(), HELIOS_HTS1_MAX_SESSIONS_PER_PROCESS);
    ledger.release().expect("one goes away");
    ledger.admit_session().expect("and the slot is reusable");
}

#[test]
fn releasing_a_session_that_was_never_admitted_is_a_refusal_not_a_wrap() {
    let mut ledger = ProcessSessionLedger::new();
    assert_eq!(
        ledger.release(),
        Err(SessionRefusal::SessionLedgerUnderflow)
    );
    assert_eq!(ledger.live(), 0);
}

#[test]
fn session_generations_are_nonzero_and_strictly_increasing() {
    let mut src = SessionGenerationSource::new();
    let a = src.mint().expect("first");
    let b = src.mint().expect("second");
    assert_ne!(a, 0);
    assert!(b > a);
}

#[test]
fn session_generation_exhaustion_refuses_rather_than_saturating() {
    let mut src = SessionGenerationSource::new();
    for _ in 0..2 {
        src.mint().expect("warm up");
    }
    src = SessionGenerationSource::resume_at(u64::MAX);
    assert_eq!(src.mint(), Ok(u64::MAX));
    assert_eq!(
        src.mint(),
        Err(SessionRefusal::SessionGenerationSpaceExhausted)
    );
    assert_eq!(
        src.mint(),
        Err(SessionRefusal::SessionGenerationSpaceExhausted)
    );
}

#[test]
fn the_reply_pool_binds_once_and_only_as_role_one() {
    let mut s = TranslationSession::new_provisional(PKG, CAPSET);
    assert_eq!(
        s.bind_reply_pool(
            Hvm1Role::VulkanHostVisible,
            HELIOS_HVM1_REPLY_POOL_BYTES,
            POOL_GEN
        ),
        Err(SessionRefusal::ReplyPoolRoleMismatch {
            found: Hvm1Role::VulkanHostVisible.to_u32()
        })
    );
    assert_eq!(
        s.bind_reply_pool(
            Hvm1Role::ReplyPool,
            HELIOS_HVM1_REPLY_POOL_BYTES / 2,
            POOL_GEN
        ),
        Err(SessionRefusal::ReplyPoolSizeMismatch {
            found: HELIOS_HVM1_REPLY_POOL_BYTES / 2
        })
    );
    assert_eq!(
        s.bind_reply_pool(Hvm1Role::ReplyPool, HELIOS_HVM1_REPLY_POOL_BYTES, 0),
        Err(SessionRefusal::ReplyPoolGenerationZero)
    );
    assert!(s.pool().is_none());

    s.bind_reply_pool(Hvm1Role::ReplyPool, HELIOS_HVM1_REPLY_POOL_BYTES, POOL_GEN)
        .expect("binds");
    assert_eq!(
        s.bind_reply_pool(Hvm1Role::ReplyPool, HELIOS_HVM1_REPLY_POOL_BYTES, POOL_GEN),
        Err(SessionRefusal::ReplyPoolAlreadyBound)
    );
}

#[test]
fn init_refuses_before_the_pool_is_bound() {
    let s = TranslationSession::new_provisional(PKG, CAPSET);
    let request = init_request(PKG, CAPSET, 4);
    assert_eq!(
        s.admit_init(&request, Ok(())),
        Err(SessionRefusal::ReplyPoolNotBound)
    );
}

#[test]
fn init_refuses_a_foreign_package_or_capset() {
    let mut s = TranslationSession::new_provisional(PKG, CAPSET);
    s.bind_reply_pool(Hvm1Role::ReplyPool, HELIOS_HVM1_REPLY_POOL_BYTES, POOL_GEN)
        .unwrap();
    assert!(matches!(
        s.admit_init(&init_request(PKG + 1, CAPSET, 4), Ok(())),
        Err(SessionRefusal::Init(InitRefusal::Generation {
            field: GenerationField::Package,
            ..
        }))
    ));
    assert!(matches!(
        s.admit_init(&init_request(PKG, CAPSET + 1, 4), Ok(())),
        Err(SessionRefusal::Init(InitRefusal::CapsetMismatch { .. }))
    ));
}

#[test]
fn init_runs_exactly_once_per_session() {
    let mut s = live_session(4);
    assert_eq!(s.phase(), SessionPhase::Live);
    let request = init_request(PKG, CAPSET, 4);
    assert_eq!(
        s.admit_init(&request, Ok(())),
        Err(SessionRefusal::SessionAlreadyInitialised)
    );
    assert_eq!(
        s.complete_init(4, 4, 9, CAP, Ok(())),
        Err(SessionRefusal::SessionAlreadyInitialised)
    );
    assert_eq!(s.session_generation(), 7);
}

#[test]
fn init_may_grant_fewer_endpoints_than_requested_but_never_more() {
    let mut s = TranslationSession::new_provisional(PKG, CAPSET);
    s.bind_reply_pool(Hvm1Role::ReplyPool, HELIOS_HVM1_REPLY_POOL_BYTES, POOL_GEN)
        .unwrap();
    assert!(matches!(
        s.complete_init(4, 5, 7, CAP, Ok(())),
        Err(SessionRefusal::Init(
            InitRefusal::EndpointCapacityExceedsRequest { .. }
        ))
    ));
    assert_eq!(s.phase(), SessionPhase::Provisional);
    s.complete_init(4, 2, 7, CAP, Ok(())).expect("fewer is fine");
    assert_eq!(s.endpoint_capacity(), 2);
}

#[test]
fn init_refuses_the_all_zero_capability_and_a_zero_generation() {
    let mut s = TranslationSession::new_provisional(PKG, CAPSET);
    s.bind_reply_pool(Hvm1Role::ReplyPool, HELIOS_HVM1_REPLY_POOL_BYTES, POOL_GEN)
        .unwrap();
    assert_eq!(
        s.complete_init(4, 4, 7, HeliosSessionCapability::invalid(), Ok(())),
        Err(SessionRefusal::CapabilityIsInvalidSentinel)
    );
    assert!(matches!(
        s.complete_init(4, 4, 0, CAP, Ok(())),
        Err(SessionRefusal::Init(InitRefusal::Generation {
            field: GenerationField::Session,
            reason: GenerationRefusal::Zero,
        }))
    ));
    assert_eq!(s.phase(), SessionPhase::Provisional);
}

#[test]
fn a_capability_with_one_zero_half_is_still_a_live_capability() {
    let mut s = TranslationSession::new_provisional(PKG, CAPSET);
    s.bind_reply_pool(Hvm1Role::ReplyPool, HELIOS_HVM1_REPLY_POOL_BYTES, POOL_GEN)
        .unwrap();
    let half = HeliosSessionCapability::from_halves(0, 0xDEAD_BEEF);
    s.complete_init(4, 4, 7, half, Ok(())).expect("admitted");
    let mut packet = attach_packet(1, 1);
    packet.capability_low = 0;
    packet.capability_high = 0xDEAD_BEEF;
    attach(&mut s, &packet).expect("attaches");
}

#[test]
fn attach_refuses_before_init() {
    let mut s = TranslationSession::new_provisional(PKG, CAPSET);
    assert_eq!(
        attach(&mut s, &attach_packet(1, 1)),
        Err(SessionRefusal::SessionProvisional)
    );
}

#[test]
fn attach_admits_then_refuses_a_repeated_context_generation() {
    let mut s = live_session(4);
    let admission = attach(&mut s, &attach_packet(1, 10)).expect("first attach");
    assert_eq!(admission.context_generation, 10);
    assert_eq!(admission.endpoint_id, 1);
    assert_eq!(admission.engine_class, HeliosEngineClass::Graphics);
    assert_eq!(admission.kind, HeliosOuterContextKind::D3d11PhysicalRender);
    assert_eq!(s.attached_contexts(), 1);

    for repeat in [10u64, 9, 1] {
        assert!(matches!(
            attach(&mut s, &attach_packet(1, repeat)),
            Err(SessionRefusal::Attach(AttachRefusal::Generation {
                field: GenerationField::Context,
                reason: GenerationRefusal::NotMonotonic { .. },
            }))
        ));
    }
    assert_eq!(s.attached_contexts(), 1);
    attach(&mut s, &attach_packet(1, 11)).expect("strictly greater");
    assert_eq!(s.attached_contexts(), 2);
}

#[test]
fn a_dead_contexts_generation_stays_spent() {
    let mut s = live_session(4);
    attach(&mut s, &attach_packet(1, 10)).unwrap();
    s.detach(10).expect("context goes away");
    assert_eq!(s.attached_contexts(), 0);
    assert!(matches!(
        attach(&mut s, &attach_packet(1, 10)),
        Err(SessionRefusal::Attach(AttachRefusal::Generation { .. }))
    ));
    assert_eq!(s.highest_context_generation(), 10);
}

#[test]
fn detach_refuses_a_generation_the_session_never_admitted() {
    let mut s = live_session(4);
    attach(&mut s, &attach_packet(1, 10)).unwrap();
    assert_eq!(
        s.detach(0),
        Err(SessionRefusal::DetachUnknownContext {
            context_generation: 0
        })
    );
    assert_eq!(
        s.detach(11),
        Err(SessionRefusal::DetachUnknownContext {
            context_generation: 11
        })
    );
    assert_eq!(s.attached_contexts(), 1);
}

#[test]
fn attach_refuses_a_foreign_capability_a_stale_session_and_a_bad_package() {
    let mut s = live_session(4);
    let mut wrong_cap = attach_packet(1, 10);
    wrong_cap.capability_low ^= 1;
    assert_eq!(
        attach(&mut s, &wrong_cap),
        Err(SessionRefusal::Attach(AttachRefusal::Capability(
            CapabilityRefusal::Mismatch
        )))
    );

    let mut wrong_session = attach_packet(1, 10);
    wrong_session.session_generation = 8;
    assert!(matches!(
        attach(&mut s, &wrong_session),
        Err(SessionRefusal::Attach(AttachRefusal::Generation {
            field: GenerationField::Session,
            ..
        }))
    ));

    let mut wrong_pkg = attach_packet(1, 10);
    wrong_pkg.package_generation = PKG + 1;
    assert!(matches!(
        attach(&mut s, &wrong_pkg),
        Err(SessionRefusal::Attach(AttachRefusal::Generation {
            field: GenerationField::Package,
            ..
        }))
    ));

    assert_eq!(s.highest_context_generation(), 0);
    assert_eq!(s.attached_contexts(), 0);
}

#[test]
fn attach_refuses_a_malformed_packet_shape() {
    let mut s = live_session(4);
    for code in 1..=7u32 {
        let packet = attach_packet(1, 10);
        assert!(
            matches!(
                s.attach(&packet, Err(AttachRefusal::Record { code })),
                Err(SessionRefusal::Attach(_))
            ),
            "a malformed packet must be refused"
        );
    }
    assert_eq!(s.highest_context_generation(), 0);
}

#[test]
fn an_endpoint_ordinal_outside_the_granted_capacity_is_refused() {
    let mut s = live_session(2);
    assert_eq!(
        attach(&mut s, &attach_packet(0, 10)),
        Err(SessionRefusal::EndpointOutOfRange {
            found: 0,
            capacity: 2
        })
    );
    assert_eq!(
        attach(&mut s, &attach_packet(3, 10)),
        Err(SessionRefusal::EndpointOutOfRange {
            found: 3,
            capacity: 2
        })
    );
    attach(&mut s, &attach_packet(2, 10)).expect("the last ordinal");
}

#[test]
fn the_first_attach_declares_an_endpoint_and_later_ones_are_cross_checked() {
    let mut s = live_session(4);
    attach(&mut s, &attach_packet(1, 10))
        .expect("declares endpoint 1");
    assert_eq!(s.endpoint(1).unwrap().descriptor, endpoint(1));

    let mut other_class = attach_packet(1, 11);
    other_class.engine_class = ENGINE_CLASS_COMPUTE;
    assert_eq!(
        attach(&mut s, &other_class),
        Err(SessionRefusal::Attach(AttachRefusal::EngineClassMismatch {
            found: ENGINE_CLASS_COMPUTE,
            expected: ENGINE_CLASS_GRAPHICS,
        }))
    );

    let mut other_index = attach_packet(1, 11);
    other_index.queue_index = 3;
    assert_eq!(
        attach(&mut s, &other_index),
        Err(SessionRefusal::Attach(AttachRefusal::QueueIndexMismatch {
            found: 3,
            expected: 0,
        }))
    );

    let mut second = attach_packet(2, 11);
    second.engine_class = ENGINE_CLASS_COMPUTE;
    second.queue_family = 1;
    attach(&mut s, &second)
        .expect("endpoint 2 is its own declaration");
    assert_eq!(
        s.endpoint(2).unwrap().descriptor.engine_class,
        ENGINE_CLASS_COMPUTE
    );
    assert_eq!(s.endpoint(1).unwrap().descriptor, endpoint(1));
}

#[test]
fn an_endpoint_may_never_carry_the_hvc1_control_sentinel() {
    let mut s = live_session(4);
    let mut packet = attach_packet(1, 10);
    packet.queue_family = u32::MAX;
    packet.queue_index = u32::MAX;
    assert_eq!(
        attach(&mut s, &packet),
        Err(SessionRefusal::Attach(AttachRefusal::Endpoint(
            EndpointRefusal::ControlSentinelEndpoint
        )))
    );
}

#[test]
fn declare_endpoint_is_idempotent_and_refuses_a_conflict() {
    let mut s = live_session(4);
    s.declare_endpoint(endpoint(1)).expect("declares");
    s.declare_endpoint(endpoint(1))
        .expect("re-declares identically");
    let conflicting = HeliosTranslationEndpointV1 {
        engine_class: ENGINE_CLASS_COPY,
        ..endpoint(1)
    };
    assert_eq!(
        s.declare_endpoint(conflicting),
        Err(SessionRefusal::EndpointDescriptorConflict { endpoint_id: 1 })
    );
}

#[test]
fn no_refusal_arm_moves_the_session_out_of_its_phase() {
    let mut s = live_session(4);
    let mut foreign = reply_request(0, 1);
    foreign.names_reply_pool = false;
    assert!(control_render(&mut s, &foreign).is_err());
    assert_eq!(s.phase(), SessionPhase::Live);

    let mut bad_access = reply_request(0, 1);
    bad_access.access_flags = ACCESS_READ;
    assert!(control_render(&mut s, &bad_access).is_err());
    assert_eq!(s.phase(), SessionPhase::Live);

    assert!(attach(&mut s, &attach_packet(1, 0)).is_err());
    assert_eq!(s.phase(), SessionPhase::Live);
    assert_eq!(s.highest_context_generation(), 0);

    control_render(&mut s, &reply_request(0, 1))
        .expect("a refused predecessor left nothing behind");
    attach(&mut s, &attach_packet(1, 1))
        .expect("still admits a good packet");
}

#[test]
fn the_release_paths_deliberately_do_not_gate_on_draining() {
    let mut s = live_session(4);
    attach(&mut s, &attach_packet(1, 10)).unwrap();
    s.enqueue_host_dispatch(1).unwrap();
    snapshot(&mut s, 64).unwrap();

    s.begin_draining();
    s.detach(10).expect("an attached context still detaches");
    s.retire_host_dispatch(1)
        .expect("an enqueued DMA still retires");
    s.release_snapshot_bytes(64)
        .expect("a live snapshot still releases");
    assert_eq!(s.attached_contexts(), 0);
    assert_eq!(s.live_snapshots(), 0);
}

#[test]
fn draining_invalidates_the_capability_before_anything_else() {
    let mut s = live_session(4);
    attach(&mut s, &attach_packet(1, 10)).unwrap();
    s.begin_draining();
    assert_eq!(s.phase(), SessionPhase::Draining);
    assert_eq!(
        attach(&mut s, &attach_packet(1, 11)),
        Err(SessionRefusal::Attach(AttachRefusal::Capability(
            CapabilityRefusal::SessionInvalidated
        )))
    );
    assert_eq!(
        s.bind_reply_pool(Hvm1Role::ReplyPool, HELIOS_HVM1_REPLY_POOL_BYTES, POOL_GEN),
        Err(SessionRefusal::SessionDraining)
    );
    assert_eq!(
        control_render(&mut s, &reply_request(0, 1)),
        Err(SessionRefusal::SessionDraining)
    );
}

#[test]
fn draining_never_marks_a_reply_complete_but_exact_abort_still_releases_ownership() {
    let mut s = live_session(4);
    let admitted = control_render(&mut s, &reply_request(0, 1)).unwrap();
    s.begin_draining();
    let slot = s.pool().unwrap().slots[admitted.slot_index.unwrap()];
    assert_eq!(slot.state, SlotState::InFlight);
    assert_eq!(slot.retired_generation, 0);
    assert_eq!(
        s.publish_slot(0, 1, 5),
        Err(SessionRefusal::SessionDraining)
    );
    s.abort_slot(0, 1)
        .expect("draining cancels the exact in-flight slot");
    let slot = s.pool().unwrap().slots[admitted.slot_index.unwrap()];
    assert_eq!(slot.state, SlotState::Idle);
    assert_eq!(slot.retired_generation, 1);
    assert_eq!(slot.c51_value, 0);
}

#[test]
fn a_nonzero_endpoint_allocation_reply_uses_the_same_exact_slot_lifetime() {
    let mut s = live_session(4);
    let admitted = execution_reply(&mut s, &execution_reply_request(2, 7))
        .unwrap();
    assert_eq!(admitted.slot_index, Some(2));
    assert_eq!(admitted.slot_generation, 7);
    assert_eq!(admitted.batch_token, 9);
    assert_eq!(s.pool().unwrap().slots[2].owner_context_generation, 0xA11);

    assert_eq!(
        execution_reply(&mut s, &execution_reply_request(2, 8)),
        Err(SessionRefusal::ControlRenderSlotBusy { in_flight: 7 })
    );
    s.publish_slot(2, 7, 0).unwrap();
    s.retire_slot(2, 7).unwrap();
    execution_reply(&mut s, &execution_reply_request(2, 8))
        .expect("a later executor reply reuses the retired slot");
}

#[test]
fn an_execution_reply_requires_the_exact_pool_role_generation_and_context() {
    let mut s = live_session(4);
    let mut request = execution_reply_request(0, 1);
    request.names_reply_pool = false;
    assert_eq!(
        execution_reply(&mut s, &request),
        Err(SessionRefusal::ControlRenderForeignAllocation)
    );

    let mut request = execution_reply_request(0, 1);
    request.expected_allocation_generation -= 1;
    assert_eq!(
        execution_reply(&mut s, &request),
        Err(SessionRefusal::ControlRenderPoolGenerationStale {
            found: POOL_GEN - 1,
            expected: POOL_GEN,
        })
    );

    for access in [0, ACCESS_READ] {
        let mut request = execution_reply_request(0, 1);
        request.access_flags = access;
        assert_eq!(
            execution_reply(&mut s, &request),
            Err(SessionRefusal::ControlRenderAccessNotWrite { found: access })
        );
    }

    let mut request = execution_reply_request(0, 1);
    request.owner_context_generation = 0;
    assert!(execution_reply(&mut s, &request).is_err());
}

#[test]
fn provisional_and_draining_sessions_never_admit_an_execution_reply() {
    let mut provisional = TranslationSession::new_provisional(PKG, CAPSET);
    assert_eq!(
        execution_reply(&mut provisional, &execution_reply_request(0, 1)),
        Err(SessionRefusal::SessionProvisional)
    );

    let mut draining = live_session(4);
    draining.begin_draining();
    assert_eq!(
        execution_reply(&mut draining, &execution_reply_request(0, 1)),
        Err(SessionRefusal::SessionDraining)
    );
}

#[test]
fn a_control_render_must_arrive_on_the_control_context() {
    let mut s = live_session(4);
    let mut request = reply_request(0, 1);
    request.on_control_context = false;
    assert_eq!(
        control_render(&mut s, &request),
        Err(SessionRefusal::ControlRenderNotOnControlContext)
    );
}

#[test]
fn the_reply_slot_is_the_only_allocation_this_carrier_ever_lists() {
    let mut s = live_session(4);

    let mut foreign = reply_request(0, 1);
    foreign.names_reply_pool = false;
    assert_eq!(
        control_render(&mut s, &foreign),
        Err(SessionRefusal::ControlRenderForeignAllocation)
    );

    let mut two = reply_request(0, 1);
    two.allocation_count = 2;
    assert_eq!(
        control_render(&mut s, &two),
        Err(SessionRefusal::ControlRenderAllocationCountNotOne { found: 2 })
    );

    let mut none = reply_request(0, 1);
    none.allocation_count = 0;
    assert_eq!(
        control_render(&mut s, &none),
        Err(SessionRefusal::ControlRenderAllocationCountNotOne { found: 0 })
    );

    let mut no_reply = reply_request(0, 1);
    no_reply.has_reply = false;
    no_reply.allocation_count = 1;
    assert_eq!(
        control_render(&mut s, &no_reply),
        Err(SessionRefusal::ControlRenderAllocationWithoutReply { found: 1 })
    );

    let mut bare = reply_request(0, 1);
    bare.has_reply = false;
    bare.allocation_count = 0;
    assert_eq!(
        control_render(&mut s, &bare),
        Ok(ControlRenderAdmission {
            slot_index: None,
            slot_generation: 0,
            reply_offset: 0,
            reply_capacity_bytes: 0,
            batch_token: 1,
        })
    );
}

#[test]
fn a_control_render_must_name_the_pools_current_generation_and_write_access() {
    let mut s = live_session(4);

    let mut stale = reply_request(0, 1);
    stale.expected_allocation_generation = POOL_GEN - 1;
    assert_eq!(
        control_render(&mut s, &stale),
        Err(SessionRefusal::ControlRenderPoolGenerationStale {
            found: POOL_GEN - 1,
            expected: POOL_GEN,
        })
    );

    for access in [
        0,
        ACCESS_READ,
        ACCESS_READ | ACCESS_WRITE,
    ] {
        let mut wrong = reply_request(0, 1);
        wrong.access_flags = access;
        assert_eq!(
            control_render(&mut s, &wrong),
            Err(SessionRefusal::ControlRenderAccessNotWrite { found: access })
        );
    }
}

#[test]
fn one_checkout_one_render_and_a_slot_is_reusable_only_after_retire() {
    let mut s = live_session(4);
    let admitted = control_render(&mut s, &reply_request(0, 1)).unwrap();
    assert_eq!(admitted.slot_index, Some(0));

    assert_eq!(
        control_render(&mut s, &reply_request(0, 2)),
        Err(SessionRefusal::ControlRenderSlotBusy { in_flight: 1 })
    );

    s.publish_slot(0, 1, 42).expect("host published");
    assert_eq!(
        control_render(&mut s, &reply_request(0, 2)),
        Err(SessionRefusal::ControlRenderSlotBusy { in_flight: 1 })
    );
    assert_eq!(s.pool().unwrap().slots[0].c51_value, 42);

    s.retire_slot(0, 1).expect("CPU consumed it");
    assert_eq!(s.pool().unwrap().slots[0].state, SlotState::Idle);
    assert_eq!(s.pool().unwrap().slots[0].retired_generation, 1);
    control_render(&mut s, &reply_request(0, 2))
        .expect("the slot is reusable now");
}

#[test]
fn a_retired_slot_generation_can_never_come_back() {
    let mut s = live_session(4);
    control_render(&mut s, &reply_request(0, 5)).unwrap();
    s.publish_slot(0, 5, 1).unwrap();
    s.retire_slot(0, 5).unwrap();
    for replay in [1u64, 5] {
        assert_eq!(
            control_render(&mut s, &reply_request(0, replay)),
            Err(SessionRefusal::ControlRenderSlotGenerationStale {
                found: replay,
                watermark: 5,
            })
        );
    }
    control_render(&mut s, &reply_request(0, 6))
        .expect("strictly greater");
}

#[test]
fn an_aborted_reply_retires_without_a_published_completion() {
    let mut s = live_session(4);
    control_render(&mut s, &reply_request(0, 5)).unwrap();
    s.abort_slot(0, 5).expect("exact refusal releases its slot");
    let slot = s.pool().unwrap().slots[0];
    assert_eq!(slot.state, SlotState::Idle);
    assert_eq!(slot.generation, 0);
    assert_eq!(slot.retired_generation, 5);
    assert_eq!(slot.c51_value, 0);
    assert_eq!(
        control_render(&mut s, &reply_request(0, 5)),
        Err(SessionRefusal::ControlRenderSlotGenerationStale {
            found: 5,
            watermark: 5,
        })
    );
    control_render(&mut s, &reply_request(0, 6))
        .expect("a later generation remains usable");
}

#[test]
fn retiring_out_of_order_or_with_the_wrong_generation_is_refused() {
    let mut s = live_session(4);
    control_render(&mut s, &reply_request(0, 1)).unwrap();
    assert_eq!(
        s.publish_slot(0, 2, 7),
        Err(SessionRefusal::ControlRenderSlotGenerationUnknown { found: 2 })
    );
    assert_eq!(
        s.retire_slot(0, 1),
        Err(SessionRefusal::ControlRenderSlotBusy { in_flight: 1 })
    );
    assert_eq!(
        s.publish_slot(1, 1, 7),
        Err(SessionRefusal::ControlRenderSlotGenerationUnknown { found: 1 })
    );
    assert_eq!(
        s.retire_slot(REPLY_SLOTS, 1),
        Err(SessionRefusal::ControlRenderSlotIndexOutOfRange { found: REPLY_SLOTS })
    );
}

#[test]
fn all_four_slots_are_independent() {
    let mut s = live_session(4);
    for slot in 0..REPLY_SLOTS {
        let admitted = control_render(&mut s, &reply_request(slot, 1)).unwrap();
        assert_eq!(admitted.slot_index, Some(slot));
    }
    for slot in 0..REPLY_SLOTS {
        assert_eq!(
            s.pool().unwrap().slots[slot].state,
            SlotState::InFlight,
            "slot {slot}"
        );
        assert_eq!(
            control_render(&mut s, &reply_request(slot, 2)),
            Err(SessionRefusal::ControlRenderSlotBusy { in_flight: 1 })
        );
    }
}

#[test]
fn a_reply_offset_past_the_pool_cannot_index_a_slot() {
    let mut s = live_session(4);
    let mut past = reply_request(0, 1);
    past.reply_offset = HELIOS_HVM1_REPLY_POOL_BYTES;
    assert_eq!(
        control_render(&mut s, &past),
        Err(SessionRefusal::ControlRenderSlotIndexOutOfRange { found: REPLY_SLOTS })
    );
}

#[test]
fn a_control_render_before_the_pool_is_bound_is_refused() {
    let mut s = TranslationSession::new_provisional(PKG, CAPSET);
    assert_eq!(
        control_render(&mut s, &reply_request(0, 1)),
        Err(SessionRefusal::ReplyPoolNotBound)
    );
}

#[test]
fn the_init_render_itself_runs_on_a_provisional_session() {
    let mut s = TranslationSession::new_provisional(PKG, CAPSET);
    s.bind_reply_pool(Hvm1Role::ReplyPool, HELIOS_HVM1_REPLY_POOL_BYTES, POOL_GEN)
        .unwrap();
    let admitted = control_render(&mut s, &reply_request(0, 1)).unwrap();
    assert_eq!(admitted.slot_index, Some(0));
    assert_eq!(s.phase(), SessionPhase::Provisional);
}

#[test]
fn the_emitted_init_reply_is_exactly_what_the_icd_validates() {
    let mut s = TranslationSession::new_provisional(PKG, CAPSET);
    s.bind_reply_pool(Hvm1Role::ReplyPool, HELIOS_HVM1_REPLY_POOL_BYTES, POOL_GEN)
        .unwrap();
    let reply = s.complete_init(8, 3, 7, CAP, Ok(())).expect("completes");
    assert_eq!(reply.package_generation, PKG);
    assert_eq!(reply.session_generation, 7);
    assert_eq!(reply.capability, CAP);
    assert_eq!(reply.endpoint_capacity, 3);
    assert_eq!(reply.capset, CAPSET);
}

#[test]
fn the_attach_packet_the_umd_builds_from_our_reply_round_trips() {
    let mut s = TranslationSession::new_provisional(PKG, CAPSET);
    s.bind_reply_pool(Hvm1Role::ReplyPool, HELIOS_HVM1_REPLY_POOL_BYTES, POOL_GEN)
        .unwrap();
    let reply = s.complete_init(4, 4, 7, CAP, Ok(())).unwrap();
    let packet = HeliosQueueAttachV1 {
        package_generation: reply.package_generation,
        session_generation: reply.session_generation,
        capability_low: reply.capability.low,
        capability_high: reply.capability.high,
        context_generation: 1,
        ..attach_packet(1, 1)
    };
    let shape = AttachShape {
        kind: HeliosOuterContextKind::D3d12VirtualSubmit,
        engine_class: Some(HeliosEngineClass::Graphics),
    };
    let admission = s.attach(&packet, Ok(shape)).expect("attaches");
    assert_eq!(admission.kind, HeliosOuterContextKind::D3d12VirtualSubmit);
}

#[test]
fn engine_class_of_decodes_a_declared_endpoint() {
    let mut s = live_session(4);
    attach(&mut s, &attach_packet(1, 10)).unwrap();
    let ep = s.endpoint(1).unwrap().descriptor;
    assert_eq!(
        engine_class_of(&ep, s.endpoint_capacity(), class_of(ep.engine_class)),
        Ok(HeliosEngineClass::Graphics)
    );
}

#[test]
fn check_session_generation_refuses_zero_and_a_foreign_value() {
    let s = live_session(4);
    assert_eq!(check_session_generation(7, &s), Ok(()));
    assert!(matches!(
        check_session_generation(0, &s),
        Err(SessionRefusal::Init(InitRefusal::Generation {
            reason: GenerationRefusal::Zero,
            ..
        }))
    ));
    assert!(matches!(
        check_session_generation(8, &s),
        Err(SessionRefusal::Init(InitRefusal::Generation {
            reason: GenerationRefusal::Mismatch { .. },
            ..
        }))
    ));
    let provisional = TranslationSession::new_provisional(PKG, CAPSET);
    assert!(check_session_generation(7, &provisional).is_err());
}

#[test]
fn init_reserves_one_private_ring_for_every_granted_endpoint() {
    let s = live_session(4);
    for id in 1..=4u32 {
        assert_eq!(s.ring_index(id), Ok(id));
    }
}

#[test]
fn two_sessions_have_distinct_namespaces_even_when_ring_ordinals_match() {
    let a = live_session(4);
    let b = live_session(2);
    assert_eq!(a.ring_index(1), Ok(1));
    assert_eq!(b.ring_index(1), Ok(1));
    assert_eq!(a.endpoint_capacity(), 4);
    assert_eq!(b.endpoint_capacity(), 2);
}

#[test]
fn a_provisional_session_has_no_rings_and_no_endpoints() {
    let mut s = TranslationSession::new_provisional(PKG, CAPSET);
    s.bind_reply_pool(Hvm1Role::ReplyPool, HELIOS_HVM1_REPLY_POOL_BYTES, POOL_GEN)
        .unwrap();
    assert_eq!(
        s.ring_index(1),
        Err(SessionRefusal::EndpointOutOfRange {
            found: 1,
            capacity: 0
        })
    );
}

#[test]
fn only_the_granted_endpoints_own_a_ring() {
    let mut s = TranslationSession::new_provisional(PKG, CAPSET);
    s.bind_reply_pool(Hvm1Role::ReplyPool, HELIOS_HVM1_REPLY_POOL_BYTES, POOL_GEN)
        .unwrap();
    s.complete_init(8, 2, 7, CAP, Ok(())).unwrap();
    assert_eq!(s.ring_index(1), Ok(1));
    assert_eq!(s.ring_index(2), Ok(2));
    assert_eq!(
        s.ring_index(3),
        Err(SessionRefusal::EndpointOutOfRange {
            found: 3,
            capacity: 2
        })
    );
}

#[test]
fn host_dispatch_serials_are_arrival_order_and_per_endpoint() {
    let mut s = live_session(4);
    let a1 = s.enqueue_host_dispatch(1).unwrap();
    let a2 = s.enqueue_host_dispatch(1).unwrap();
    let b1 = s.enqueue_host_dispatch(2).unwrap();
    assert!(a2 > a1, "same endpoint must be strictly increasing");
    assert_eq!(b1, a1, "a second endpoint starts its own sequence");
}

#[test]
fn the_host_dispatch_fifo_refuses_at_its_bound_and_never_waits() {
    let mut s = live_session(4);
    let depth = HELIOS_HTS1_MAX_HOST_DISPATCH_FIFO_DEPTH;
    for _ in 0..depth {
        s.enqueue_host_dispatch(1).expect("under the bound");
    }
    assert!(matches!(
        s.enqueue_host_dispatch(1),
        Err(SessionRefusal::Capacity(HeliosCapacityRefusal {
            limit: HeliosCapacityLimit::HostDispatchFifoDepth,
            ..
        }))
    ));
    s.retire_host_dispatch(1).expect("one retires");
    s.enqueue_host_dispatch(1)
        .expect("and the slot is reusable");
    s.enqueue_host_dispatch(2).expect("independent FIFO");
}

#[test]
fn host_dispatch_refuses_an_ungranted_endpoint() {
    let mut s = live_session(1);
    assert_eq!(
        s.enqueue_host_dispatch(2),
        Err(SessionRefusal::EndpointOutOfRange {
            found: 2,
            capacity: 1
        })
    );
}

#[test]
fn retiring_an_empty_fifo_is_a_refusal_not_a_wrap() {
    let mut s = live_session(4);
    assert_eq!(
        s.retire_host_dispatch(1),
        Err(SessionRefusal::HostDispatchFifoUnderflow { endpoint_id: 1 })
    );
}

#[test]
fn a_draining_session_enqueues_nothing() {
    let mut s = live_session(4);
    s.begin_draining();
    assert_eq!(
        s.enqueue_host_dispatch(1),
        Err(SessionRefusal::SessionDraining)
    );
}

#[test]
fn a_session_holds_at_most_four_live_snapshots() {
    let mut s = live_session(4);
    for _ in 0..4 {
        snapshot(&mut s, 1024).expect("under the bound");
    }
    assert!(matches!(
        snapshot(&mut s, 1024),
        Err(SessionRefusal::Hnr2Capacity(_))
    ));
    assert_eq!(s.live_snapshots(), 4);
    assert_eq!(s.live_snapshot_bytes(), 4096);
    s.release_snapshot_bytes(1024).expect("one is consumed");
    snapshot(&mut s, 1024).expect("and the slot returns");
}

#[test]
fn one_snapshot_may_not_exceed_the_per_result_cap() {
    let mut s = live_session(4);
    assert!(matches!(
        snapshot(&mut s, MAX_SNAPSHOT_BYTES + 1),
        Err(SessionRefusal::Hnr2Capacity(_))
    ));
    assert_eq!(s.live_snapshots(), 0);
}

#[test]
fn releasing_more_snapshot_bytes_than_are_live_is_refused() {
    let mut s = live_session(4);
    assert_eq!(
        s.release_snapshot_bytes(1),
        Err(SessionRefusal::SnapshotAccountingUnderflow)
    );
    snapshot(&mut s, 16).unwrap();
    assert_eq!(
        s.release_snapshot_bytes(32),
        Err(SessionRefusal::SnapshotAccountingUnderflow)
    );
    assert_eq!(s.live_snapshots(), 1);
    assert_eq!(s.live_snapshot_bytes(), 16);
}

#[test]
fn a_draining_session_admits_no_new_snapshot() {
    let mut s = live_session(4);
    s.begin_draining();
    assert_eq!(
        snapshot(&mut s, 16),
        Err(SessionRefusal::SessionDraining)
    );
}

#[test]
fn every_capacity_limit_has_a_distinct_counter_code() {
    let codes = [
        capacity_limit_code(HeliosCapacityLimit::SessionsPerProcess),
        capacity_limit_code(HeliosCapacityLimit::RingIndex),
        capacity_limit_code(HeliosCapacityLimit::OutstandingContextBatches),
        capacity_limit_code(HeliosCapacityLimit::ContextBatchBytes),
        capacity_limit_code(HeliosCapacityLimit::HostDispatchFifoDepth),
    ];
    for (i, a) in codes.iter().enumerate() {
        assert_ne!(*a, 0);
        for b in &codes[i + 1..] {
            assert_ne!(a, b);
        }
    }
}
