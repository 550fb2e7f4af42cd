//! What a translation session admits, exactly when, and what each admission changes.

use vstd::prelude::*;
use crate::protocol::{Hnr2CapacityRefusal, Hvm1Role};
use crate::translation_session;
use crate::translation_session::{
    AttachRefusal, AttachShape, CapabilityRefusal, ControlRenderRequest, EndpointRefusal,
    ExecutionReplyRequest, GenerationRefusal, HeliosCapacityLimit, HeliosQueueAttachV1,
    HeliosSessionCapability, HeliosTranslationEndpointV1, HeliosTranslationSessionInitV1,
    InitRefusal, ReplySlot, Session, SessionRefusal,
};

verus! {

/// A reply pool is bound exactly if the session is not draining, has none, and the
/// object is a reply pool of four megabytes with a generation. It then has four idle
/// slots, of which nothing was retired.
pub proof fn law_a_reply_pool_is_bound_once(
    v: Session,
    role: Hvm1Role,
    byte_size: u64,
    generation: u64,
)
    ensures
        ({
            let r = translation_session::bind_refusal(v, role, byte_size, generation);
            &&& r is None <==> !(v.phase is Draining) && v.pool is None && role is ReplyPool
                && byte_size == 0x40_0000 && generation > 0
            &&& r matches Some(e) ==> match e {
                SessionRefusal::SessionDraining => v.phase is Draining,
                SessionRefusal::ReplyPoolAlreadyBound => v.pool is Some,
                SessionRefusal::ReplyPoolRoleMismatch { found } => !(role is ReplyPool) && found
                    == role.number(),
                SessionRefusal::ReplyPoolSizeMismatch { found } => found == byte_size && found
                    != 0x40_0000,
                SessionRefusal::ReplyPoolGenerationZero => generation == 0,
                _ => false,
            }
            &&& r is None ==> ({
                let w = translation_session::pool_bound(v, generation);
                &&& w == (Session { pool: w.pool, ..v })
                &&& w.pool->0.generation == generation
                &&& w.pool->0.slots.len() == 4
                &&& forall|i: int|
                    0 <= i < 4 ==> (#[trigger] w.pool->0.slots[i]).state is Idle
                        && w.pool->0.slots[i].generation == 0
                        && w.pool->0.slots[i].retired_generation == 0
            })
        }),
{
}

/// A session can be started: it has a reply pool, and was neither started nor drained.
pub open spec fn can_start(v: Session) -> bool {
    v.phase is Provisional && v.pool is Some
}

/// Why a session cannot be started.
pub open spec fn start_fault(v: Session, e: SessionRefusal) -> bool {
    match e {
        SessionRefusal::SessionDraining => v.phase is Draining,
        SessionRefusal::SessionAlreadyInitialised => v.phase is Live,
        SessionRefusal::ReplyPoolNotBound => v.phase is Provisional && v.pool is None,
        _ => false,
    }
}

/// A start is requested with success exactly if the session can be started and the
/// request, whose record stands, is of its package and its capability set.
pub proof fn law_a_start_is_admitted_if_it_fits(
    v: Session,
    request: HeliosTranslationSessionInitV1,
    record: Result<(), InitRefusal>,
)
    ensures
        ({
            let r = translation_session::init_refusal(v, request, record);
            &&& r is None <==> can_start(v) && record is Ok && request.package_generation > 0
                && request.package_generation == v.package_generation && request.capset == v.capset
            &&& r matches Some(e) ==> if !can_start(v) {
                start_fault(v, e)
            } else if record is Err {
                e == SessionRefusal::Init(record->Err_0)
            } else {
                match e {
                    SessionRefusal::Init(InitRefusal::Generation { field, reason }) => field
                        is Package && (reason == GenerationRefusal::Zero
                        && request.package_generation == 0 || reason
                        == GenerationRefusal::Mismatch {
                        found: request.package_generation,
                        expected: v.package_generation,
                    } && request.package_generation != v.package_generation),
                    SessionRefusal::Init(InitRefusal::CapsetMismatch { found, expected }) => found
                        == request.capset && expected == v.capset && found != expected,
                    _ => false,
                }
            }
        }),
{
}

/// A start is completed exactly if the session can be started, the capability and the
/// generation are issued, the reply's record stands, and no more endpoints are granted
/// than were requested, and no more than 64.
pub proof fn law_a_start_is_completed_if_it_is_granted(
    v: Session,
    requested: u32,
    granted: u32,
    generation: u64,
    capability: HeliosSessionCapability,
    record: Result<(), InitRefusal>,
)
    ensures
        ({
            let r = translation_session::complete_refusal(
                v,
                requested,
                granted,
                generation,
                capability,
                record,
            );
            &&& r is None <==> can_start(v) && (capability.low != 0 || capability.high != 0)
                && generation > 0 && record is Ok && granted <= requested && granted <= 64
            &&& r matches Some(e) ==> if !can_start(v) {
                start_fault(v, e)
            } else {
                match e {
                    SessionRefusal::CapabilityIsInvalidSentinel => capability.low == 0
                        && capability.high == 0,
                    SessionRefusal::Init(InitRefusal::Generation { field, reason }) => record
                        == Err::<(), InitRefusal>(InitRefusal::Generation { field, reason })
                        || field is Session && reason is Zero && generation == 0,
                    SessionRefusal::Init(
                        InitRefusal::EndpointCapacityExceedsRequest { found, requested: asked },
                    ) => record == Err::<(), InitRefusal>(
                        InitRefusal::EndpointCapacityExceedsRequest { found, requested: asked },
                    ) || found == granted && asked == requested && granted > requested,
                    SessionRefusal::Init(InitRefusal::EndpointCapacityOutOfRange { found }) =>
                    record == Err::<(), InitRefusal>(
                        InitRefusal::EndpointCapacityOutOfRange { found },
                    ) || found == granted && granted > 64,
                    SessionRefusal::Init(e) => record == Err::<(), InitRefusal>(e),
                    _ => false,
                }
            }
        }),
{
}

/// A started session is live under its generation and its capability, and its granted
/// endpoints have the rings from one on, one each, with nothing queued; the others have
/// no ring. Nothing else of it changes.
pub proof fn law_a_started_session_has_one_ring_each(
    v: Session,
    granted: u32,
    generation: u64,
    capability: HeliosSessionCapability,
    i: int,
)
    requires
        0 <= i < 64,
        granted <= 64,
    ensures
        ({
            let w = translation_session::started(v, granted, generation, capability);
            let e = w.endpoints[i];
            &&& w.phase is Live
            &&& w.generation == generation
            &&& w.capability == capability
            &&& w.capacity == granted
            &&& w.endpoints.len() == 64
            &&& e.ring_index == (if i < granted {
                i + 1
            } else {
                0
            })
            &&& e.fifo_depth == 0
            &&& e.next_serial == 1
            &&& e.descriptor.endpoint_id == 0
            &&& w == (Session {
                phase: w.phase,
                generation,
                capability,
                capacity: granted,
                endpoints: w.endpoints,
                ..v
            })
        }),
{
}

/// The endpoint is one that the session was granted.
pub open spec fn is_granted(v: Session, endpoint_id: u32) -> bool {
    1 <= endpoint_id <= v.capacity
}

/// An entry is queued exactly if the session is live, the endpoint is granted, and it
/// has room and a serial left. It takes the next serial and one place of the queue,
/// and touches no other endpoint.
pub proof fn law_dispatches_are_queued_in_order(v: Session, endpoint_id: u32, other: int)
    requires
        v.endpoints.len() == 64,
        v.capacity <= 64,
    ensures
        ({
            let r = translation_session::enqueue_refusal(v, endpoint_id);
            let e = v.endpoints[endpoint_id - 1];
            &&& r is None <==> v.phase is Live && is_granted(v, endpoint_id) && e.fifo_depth < 256
                && e.next_serial < u64::MAX
            &&& r matches Some(x) ==> match x {
                SessionRefusal::SessionDraining => v.phase is Draining,
                SessionRefusal::SessionProvisional => v.phase is Provisional,
                SessionRefusal::EndpointOutOfRange { found, capacity } => !is_granted(
                    v,
                    endpoint_id,
                ) && found == endpoint_id && capacity == v.capacity,
                SessionRefusal::Capacity(c) => c.limit is HostDispatchFifoDepth && e.fifo_depth
                    >= 256,
                SessionRefusal::HostDispatchSerialExhausted { endpoint_id: id } => id
                    == endpoint_id && e.next_serial == u64::MAX,
                _ => false,
            }
            &&& r is None ==> ({
                let w = translation_session::enqueued(v, endpoint_id);
                let f = w.endpoints[endpoint_id - 1];
                &&& f.fifo_depth == e.fifo_depth + 1
                &&& f.next_serial == e.next_serial + 1
                &&& f.ring_index == e.ring_index && f.descriptor == e.descriptor
                &&& w.endpoints.len() == 64
                &&& 0 <= other < 64 && other != endpoint_id - 1 ==> w.endpoints[other]
                    == v.endpoints[other]
                &&& w == (Session { endpoints: w.endpoints, ..v })
            })
        }),
{
}

/// An entry retires exactly if the endpoint is granted and has one queued. It gives one
/// place of the queue back, and spends no serial.
pub proof fn law_dispatches_retire_one_at_a_time(v: Session, endpoint_id: u32, other: int)
    requires
        v.endpoints.len() == 64,
        v.capacity <= 64,
    ensures
        ({
            let r = translation_session::dequeue_refusal(v, endpoint_id);
            let e = v.endpoints[endpoint_id - 1];
            &&& r is None <==> is_granted(v, endpoint_id) && e.fifo_depth > 0
            &&& !is_granted(v, endpoint_id) ==> r == Some(
                SessionRefusal::EndpointOutOfRange { found: endpoint_id, capacity: v.capacity },
            )
            &&& is_granted(v, endpoint_id) && e.fifo_depth == 0 ==> r == Some(
                SessionRefusal::HostDispatchFifoUnderflow { endpoint_id },
            )
            &&& r is None ==> ({
                let w = translation_session::dequeued(v, endpoint_id);
                let f = w.endpoints[endpoint_id - 1];
                &&& f.fifo_depth == e.fifo_depth - 1
                &&& f.next_serial == e.next_serial
                &&& f.ring_index == e.ring_index && f.descriptor == e.descriptor
                &&& 0 <= other < 64 && other != endpoint_id - 1 ==> w.endpoints[other]
                    == v.endpoints[other]
                &&& w == (Session { endpoints: w.endpoints, ..v })
            })
        }),
{
}

/// A snapshot is admitted exactly if the session is not draining, holds fewer than four,
/// and its bytes keep their rules.
pub proof fn law_four_snapshots_are_held(v: Session, byte_rules: Result<(), Hnr2CapacityRefusal>)
    ensures
        ({
            let r = translation_session::snapshot_refusal(v, byte_rules);
            &&& r is None <==> !(v.phase is Draining) && v.snapshots < 4 && byte_rules is Ok
            &&& v.phase is Draining <==> r == Some(SessionRefusal::SessionDraining)
            &&& !(v.phase is Draining) && v.snapshots >= 4 ==> (r matches Some(
                SessionRefusal::Hnr2Capacity(c),
            ) && c.limit is LiveSnapshots)
            &&& !(v.phase is Draining) && v.snapshots < 4 && byte_rules is Err ==> r == Some(
                SessionRefusal::Hnr2Capacity(byte_rules->Err_0),
            )
        }),
{
}

/// An endpoint is declared exactly if it is granted and was not declared otherwise
/// before. Only its own declaration changes.
pub proof fn law_an_endpoint_is_declared_one_way(
    v: Session,
    d: HeliosTranslationEndpointV1,
    other: int,
)
    requires
        v.endpoints.len() == 64,
        v.capacity <= 64,
    ensures
        ({
            let r = translation_session::declare_refusal(v, d);
            let e = v.endpoints[d.endpoint_id - 1];
            &&& r is None <==> is_granted(v, d.endpoint_id) && (e.descriptor.endpoint_id == 0
                || e.descriptor == d)
            &&& !is_granted(v, d.endpoint_id) ==> r == Some(
                SessionRefusal::EndpointOutOfRange { found: d.endpoint_id, capacity: v.capacity },
            )
            &&& is_granted(v, d.endpoint_id) && r is Some ==> r == Some(
                SessionRefusal::EndpointDescriptorConflict { endpoint_id: d.endpoint_id },
            )
            &&& r is None ==> ({
                let w = translation_session::declared(v, d);
                let f = w.endpoints[d.endpoint_id - 1];
                &&& f.descriptor == d
                &&& f.ring_index == e.ring_index && f.fifo_depth == e.fifo_depth
                &&& f.next_serial == e.next_serial
                &&& 0 <= other < 64 && other != d.endpoint_id - 1 ==> w.endpoints[other]
                    == v.endpoints[other]
                &&& w == (Session { endpoints: w.endpoints, ..v })
            })
        }),
{
}

/// The packet names the endpoint as it was declared, if it was declared before.
pub open spec fn agrees(v: Session, p: HeliosQueueAttachV1) -> bool {
    let known = v.endpoints[p.endpoint_id - 1].descriptor;
    known.endpoint_id == 0 || known.engine_class == p.engine_class && known.queue_family
        == p.queue_family && known.queue_index == p.queue_index
}

/// The packet proves that it belongs to the session: package, session and capability.
pub open spec fn belongs(v: Session, p: HeliosQueueAttachV1) -> bool {
    &&& p.package_generation > 0 && p.package_generation == v.package_generation
    &&& p.session_generation > 0 && p.session_generation == v.generation
    &&& p.capability_low == v.capability.low
    &&& p.capability_high == v.capability.high
}

/// A context is attached exactly if the session is live and can count it, the packet
/// keeps its own rules and belongs to the session, it names a granted endpoint as it
/// was declared, on a queue and an engine that there is, and its generation is above
/// every earlier one.
pub proof fn law_a_context_is_attached_if_it_belongs(
    v: Session,
    p: HeliosQueueAttachV1,
    shape: Result<AttachShape, AttachRefusal>,
)
    requires
        translation_session::session_wf(v),
    ensures
        translation_session::attach_refusal(v, p, shape) is None <==> v.phase is Live && v.contexts
            < u32::MAX && is_granted(v, p.endpoint_id) && (shape matches Ok(s) && s.engine_class
            is Some) && belongs(v, p) && agrees(v, p) && !(p.queue_family == u32::MAX
            && p.queue_index == u32::MAX) && p.context_generation > v.highest_context,
{
    if is_granted(v, p.endpoint_id) {
        assert(translation_session::endpoint_ok(v, p.endpoint_id - 1));
    }
}

/// A context that is not attached is refused for a fault that it has.
pub proof fn law_a_refused_context_has_its_fault(
    v: Session,
    p: HeliosQueueAttachV1,
    shape: Result<AttachShape, AttachRefusal>,
)
    requires
        translation_session::session_wf(v),
    ensures
        ({
            let r = translation_session::attach_refusal(v, p, shape);
            let known = v.endpoints[p.endpoint_id - 1].descriptor;
            &&& v.phase is Draining ==> r == Some(
                SessionRefusal::Attach(
                    AttachRefusal::Capability(CapabilityRefusal::SessionInvalidated),
                ),
            )
            &&& v.phase is Provisional <==> r == Some(SessionRefusal::SessionProvisional)
            &&& v.phase is Live && v.contexts == u32::MAX ==> r == Some(
                SessionRefusal::AttachedContextOverflow,
            )
            &&& v.phase is Live && v.contexts < u32::MAX && !is_granted(v, p.endpoint_id) ==> r
                == Some(
                SessionRefusal::EndpointOutOfRange { found: p.endpoint_id, capacity: v.capacity },
            )
            &&& v.phase is Live && v.contexts < u32::MAX && is_granted(v, p.endpoint_id) ==> (
            match shape {
                Err(e) => r == Some(SessionRefusal::Attach(e)),
                Ok(s) => match r {
                    None => true,
                    Some(SessionRefusal::Attach(e)) => attach_fault(v, p, s, known, e),
                    Some(_) => false,
                },
            })
        }),
{
    if is_granted(v, p.endpoint_id) {
        assert(translation_session::endpoint_ok(v, p.endpoint_id - 1));
    }
}

/// What a packet that keeps its own rules has wrong, if it is refused with `e`.
pub open spec fn attach_fault(
    v: Session,
    p: HeliosQueueAttachV1,
    s: AttachShape,
    known: HeliosTranslationEndpointV1,
    e: AttachRefusal,
) -> bool {
    match e {
        AttachRefusal::Generation { field, reason } => {
            let (found, expected) = if field is Package {
                (p.package_generation, v.package_generation)
            } else if field is Session {
                (p.session_generation, v.generation)
            } else {
                (p.context_generation, v.highest_context)
            };
            match reason {
                GenerationRefusal::Zero => found == 0,
                GenerationRefusal::Mismatch { found: f, expected: x } => f == found && x
                    == expected && f != x && !(field is Context),
                GenerationRefusal::NotMonotonic { found: f, highest } => field is Context && f
                    == found && highest == v.highest_context && f <= highest,
            }
        },
        AttachRefusal::Capability(c) => c is Mismatch && (p.capability_low != v.capability.low
            || p.capability_high != v.capability.high),
        AttachRefusal::EngineClassMismatch { found, expected } => known.endpoint_id != 0 && found
            == p.engine_class && expected == known.engine_class && found != expected,
        AttachRefusal::QueueFamilyMismatch { found, expected } => known.endpoint_id != 0 && found
            == p.queue_family && expected == known.queue_family && found != expected,
        AttachRefusal::QueueIndexMismatch { found, expected } => known.endpoint_id != 0 && found
            == p.queue_index && expected == known.queue_index && found != expected,
        AttachRefusal::Endpoint(x) => match x {
            EndpointRefusal::ControlSentinelEndpoint => p.queue_family == u32::MAX && p.queue_index
                == u32::MAX,
            EndpointRefusal::EngineClassUnknown { found } => s.engine_class is None && found
                == p.engine_class,
            _ => false,
        },
        _ => false,
    }
}

/// An attached context declares its endpoint, is counted, and spends its generation.
/// Nothing else of the session changes.
pub proof fn law_an_attached_context_is_counted(
    v: Session,
    p: HeliosQueueAttachV1,
    shape: Result<AttachShape, AttachRefusal>,
    other: int,
)
    requires
        translation_session::session_wf(v),
        translation_session::attach_refusal(v, p, shape) is None,
    ensures
        ({
            let w = translation_session::attached(v, p);
            let e = v.endpoints[p.endpoint_id - 1];
            let f = w.endpoints[p.endpoint_id - 1];
            &&& w.highest_context == p.context_generation
            &&& w.contexts == v.contexts + 1
            &&& f.descriptor == (HeliosTranslationEndpointV1 {
                endpoint_id: p.endpoint_id,
                engine_class: p.engine_class,
                queue_family: p.queue_family,
                queue_index: p.queue_index,
            })
            &&& f.ring_index == e.ring_index && f.fifo_depth == e.fifo_depth
            &&& f.next_serial == e.next_serial
            &&& 0 <= other < 64 && other != p.endpoint_id - 1 ==> w.endpoints[other]
                == v.endpoints[other]
            &&& w == (Session {
                highest_context: w.highest_context,
                contexts: w.contexts,
                endpoints: w.endpoints,
                ..v
            })
        }),
{
    assert(translation_session::endpoint_ok(v, p.endpoint_id - 1));
}

/// A context is detached exactly if one is attached and its generation was given out.
pub proof fn law_a_known_context_is_detached(v: Session, context_generation: u64)
    ensures
        translation_session::detach_refusal(v, context_generation) is None <==> 0
            < context_generation <= v.highest_context && v.contexts > 0,
        translation_session::detach_refusal(v, context_generation) matches Some(e) ==> e
            == (SessionRefusal::DetachUnknownContext { context_generation }),
{
}

/// The slot that the offset falls in is free for this generation.
pub open spec fn slot_is_free(v: Session, offset: u64, generation: u64) -> bool {
    let slot = v.pool->0.slots[offset as int / 0x10_0000];
    offset < 0x40_0000 && slot.state is Idle && generation > slot.retired_generation
}

/// Why the slot is not free.
pub open spec fn slot_fault(v: Session, offset: u64, generation: u64, e: SessionRefusal) -> bool {
    let slot = v.pool->0.slots[offset as int / 0x10_0000];
    match e {
        SessionRefusal::ControlRenderSlotIndexOutOfRange { found } => offset >= 0x40_0000 && found
            == (offset as int / 0x10_0000) as usize,
        SessionRefusal::ControlRenderSlotBusy { in_flight } => !(slot.state is Idle) && in_flight
            == slot.generation,
        SessionRefusal::ControlRenderSlotGenerationStale { found, watermark } => found
            == generation && watermark == slot.retired_generation && found <= watermark,
        _ => false,
    }
}

/// A control render is admitted exactly if it is on the control context of a session that
/// is not draining, and either asks for no reply and lists nothing, or lists the
/// session's own reply pool alone, as it is now and for writing, and its slot is free.
pub proof fn law_a_control_render_takes_a_free_slot(
    v: Session,
    r: ControlRenderRequest,
    write_access: u32,
)
    ensures
        ({
            let refusal = translation_session::control_refusal(v, r, write_access);
            &&& refusal is None <==> !(v.phase is Draining) && r.on_control_context && (
            if r.has_reply {
                v.pool is Some && r.allocation_count == 1 && r.names_reply_pool
                    && r.expected_allocation_generation == v.pool->0.generation && r.access_flags
                    == write_access && slot_is_free(v, r.reply_offset, r.reply_slot_generation)
            } else {
                r.allocation_count == 0
            })
            &&& refusal matches Some(e) ==> match e {
                SessionRefusal::SessionDraining => v.phase is Draining,
                SessionRefusal::ControlRenderNotOnControlContext => !r.on_control_context,
                SessionRefusal::ControlRenderAllocationWithoutReply { found } => !r.has_reply
                    && found == r.allocation_count && found != 0,
                SessionRefusal::ReplyPoolNotBound => r.has_reply && v.pool is None,
                SessionRefusal::ControlRenderAllocationCountNotOne { found } => r.has_reply
                    && found == r.allocation_count && found != 1,
                SessionRefusal::ControlRenderForeignAllocation => r.has_reply
                    && !r.names_reply_pool,
                SessionRefusal::ControlRenderPoolGenerationStale { found, expected } => r.has_reply
                    && found == r.expected_allocation_generation && expected
                    == v.pool->0.generation && found != expected,
                SessionRefusal::ControlRenderAccessNotWrite { found } => r.has_reply && found
                    == r.access_flags && found != write_access,
                _ => r.has_reply && slot_fault(v, r.reply_offset, r.reply_slot_generation, e),
            }
        }),
{
}

/// An execution's reply is admitted exactly if the session is live, the request names the
/// session's own reply pool as it is now and for writing, it has an owner, and its slot
/// is free.
pub proof fn law_an_execution_takes_a_free_slot(
    v: Session,
    r: ExecutionReplyRequest,
    write_access: u32,
)
    ensures
        ({
            let refusal = translation_session::execution_refusal(v, r, write_access);
            &&& refusal is None <==> v.phase is Live && v.pool is Some && r.names_reply_pool
                && r.expected_allocation_generation == v.pool->0.generation && r.access_flags
                == write_access && r.owner_context_generation > 0 && slot_is_free(
                v,
                r.reply_offset,
                r.reply_slot_generation,
            )
            &&& refusal matches Some(e) ==> match e {
                SessionRefusal::SessionProvisional => v.phase is Provisional,
                SessionRefusal::SessionDraining => v.phase is Draining,
                SessionRefusal::ReplyPoolNotBound => v.pool is None,
                SessionRefusal::ControlRenderForeignAllocation => !r.names_reply_pool,
                SessionRefusal::ControlRenderPoolGenerationStale { found, expected } => found
                    == r.expected_allocation_generation && expected == v.pool->0.generation
                    && found != expected,
                SessionRefusal::ControlRenderAccessNotWrite { found } => found == r.access_flags
                    && found != write_access,
                SessionRefusal::ControlRenderSlotGenerationUnknown { found } => found == 0
                    && r.owner_context_generation == 0,
                _ => slot_fault(v, r.reply_offset, r.reply_slot_generation, e),
            }
        }),
{
}

/// A slot that is taken is in flight with what was asked for, and keeps what was retired
/// in it. No other slot changes, and the answer names the slot.
pub proof fn law_a_taken_slot_is_in_flight(
    v: Session,
    offset: u64,
    capacity: u64,
    generation: u64,
    batch_token: u64,
    owner: u64,
    other: int,
)
    requires
        v.pool is Some,
        v.pool->0.slots.len() == 4,
        offset < 0x40_0000,
    ensures
        ({
            let w = translation_session::checked_out(
                v,
                offset,
                capacity,
                generation,
                batch_token,
                owner,
            );
            let i = offset as int / 0x10_0000;
            let s = w.pool->0.slots[i];
            let a = translation_session::slot_admission(offset, capacity, generation, batch_token);
            &&& w.pool is Some
            &&& s.state is InFlight
            &&& s.generation == generation && s.owner_context_generation == owner
            &&& s.batch_token == batch_token && s.reply_offset == offset
            &&& s.reply_capacity_bytes == capacity && s.c51_value == 0
            &&& s.retired_generation == v.pool->0.slots[i].retired_generation
            &&& 0 <= other < 4 && other != i ==> w.pool->0.slots[other] == v.pool->0.slots[other]
            &&& w.pool->0.generation == v.pool->0.generation && w.pool->0.slots.len() == 4
            &&& w == (Session { pool: w.pool, ..v })
            &&& a.slot_index == Some(i as usize) && a.slot_generation == generation
            &&& a.reply_offset == offset && a.reply_capacity_bytes == capacity
            &&& a.batch_token == batch_token
        }),
{
}

/// A slot is published while it is in use under its own generation in a session that is
/// not draining; it is retired once it is published; and it can be given back while it
/// is in flight, even by a session that drains.
pub proof fn law_slots_are_used_under_their_generation(v: Session, index: usize, generation: u64)
    ensures
        ({
            let slot = v.pool->0.slots[index as int];
            let used = translation_session::in_use_refusal(v, index, generation);
            let retired = translation_session::retire_refusal(v, index, generation);
            let aborted = translation_session::abort_refusal(v, index, generation);
            let there = v.pool is Some && index < 4 && slot.generation == generation;
            &&& used is None <==> !(v.phase is Draining) && there && !(slot.state is Idle)
            &&& retired is None <==> !(v.phase is Draining) && there && slot.state is Published
            &&& aborted is None <==> there && slot.state is InFlight
            &&& used matches Some(e) ==> slot_use_fault(v, index, generation, e, true)
            &&& aborted matches Some(e) ==> slot_use_fault(v, index, generation, e, false)
            &&& retired matches Some(e) ==> slot_use_fault(v, index, generation, e, true) || e
                == (SessionRefusal::ControlRenderSlotBusy { in_flight: slot.generation })
                && slot.state is InFlight
        }),
{
}

/// Why a slot cannot be used under a generation.
pub open spec fn slot_use_fault(
    v: Session,
    index: usize,
    generation: u64,
    e: SessionRefusal,
    may_drain: bool,
) -> bool {
    let slot = v.pool->0.slots[index as int];
    match e {
        SessionRefusal::SessionDraining => may_drain && v.phase is Draining,
        SessionRefusal::ReplyPoolNotBound => v.pool is None,
        SessionRefusal::ControlRenderSlotIndexOutOfRange { found } => found == index && found >= 4,
        SessionRefusal::ControlRenderSlotGenerationUnknown { found } => found == generation && (
        slot.state is Idle || slot.generation != generation || !may_drain
            && !(slot.state is InFlight)),
        _ => false,
    }
}

/// Publishing a slot records the host's value; freeing it leaves an idle slot in which
/// the generation is retired. No other slot changes.
pub proof fn law_a_freed_slot_remembers_its_generation(
    v: Session,
    index: int,
    generation: u64,
    c51_value: u64,
    other: int,
)
    requires
        v.pool is Some,
        v.pool->0.slots.len() == 4,
        0 <= index < 4,
    ensures
        ({
            let p = translation_session::slot_published(v, index, c51_value);
            let f = translation_session::slot_freed(v, index, generation);
            let before = v.pool->0.slots[index];
            let a = p.pool->0.slots[index];
            let b = f.pool->0.slots[index];
            &&& a == (ReplySlot { state: a.state, c51_value, ..before }) && a.state is Published
            &&& b.state is Idle && b.generation == 0 && b.retired_generation == generation
            &&& b.owner_context_generation == 0 && b.batch_token == 0 && b.reply_offset == 0
            &&& b.reply_capacity_bytes == 0 && b.c51_value == 0
            &&& 0 <= other < 4 && other != index ==> p.pool->0.slots[other]
                == v.pool->0.slots[other] && f.pool->0.slots[other] == v.pool->0.slots[other]
            &&& p == (Session { pool: p.pool, ..v }) && f == (Session { pool: f.pool, ..v })
            &&& p.pool->0.generation == v.pool->0.generation && f.pool->0.generation
                == v.pool->0.generation
        }),
{
}

/// A session that begins to drain forgets its capability and nothing else.
pub proof fn law_draining_forgets_the_capability(v: Session)
    ensures
        ({
            let w = translation_session::draining(v);
            &&& w.phase is Draining
            &&& w.capability.low == 0 && w.capability.high == 0
            &&& w == (Session { phase: w.phase, capability: w.capability, ..v })
        }),
{
}

/// A session begins under its package and its capset and with nothing else: without a
/// generation, a capability, rings, contexts, replies or snapshots.
pub proof fn law_a_session_begins_empty(package_generation: u64, capset: u32, i: int)
    requires
        0 <= i < 64,
    ensures
        ({
            let v = translation_session::provisional(package_generation, capset);
            &&& v.phase is Provisional && v.package_generation == package_generation && v.capset
                == capset
            &&& v.generation == 0 && v.capability.low == 0 && v.capability.high == 0
            &&& v.capacity == 0 && v.highest_context == 0 && v.contexts == 0 && v.pool is None
            &&& v.snapshots == 0 && v.snapshot_bytes == 0
            &&& v.endpoints.len() == 64 && v.endpoints[i].ring_index == 0
            &&& v.endpoints[i].fifo_depth == 0 && v.endpoints[i].next_serial == 1
            &&& v.endpoints[i].descriptor.endpoint_id == 0
        }),
{
}

/// The numbers under which the limits of a session are counted.
pub proof fn law_limits_have_their_numbers(limit: HeliosCapacityLimit)
    ensures
        translation_session::limit_code(limit) == (match limit {
            HeliosCapacityLimit::SessionsPerProcess => 1u32,
            HeliosCapacityLimit::RingIndex => 2,
            HeliosCapacityLimit::OutstandingContextBatches => 3,
            HeliosCapacityLimit::ContextBatchBytes => 4,
            HeliosCapacityLimit::HostDispatchFifoDepth => 5,
        }),
{
}

} // verus!
