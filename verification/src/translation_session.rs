//! Translation sessions: their life, their endpoints, the contexts attached to
//! them, and the slots of their reply pool.
//!
//! A refused request leaves a session exactly as it was. What a record says of
//! itself alone (its tags, sizes and reserved fields) is judged elsewhere; that
//! outcome comes in as an argument, and what depends on the session is judged
//! here.

use vstd::prelude::*;
use crate::protocol::Hnr2CapacityLimit;
use crate::protocol::Hnr2CapacityRefusal;
use crate::protocol::Hvm1Role;
use crate::protocol::HELIOS_HVM1_REPLY_POOL_BYTES;

verus! {

pub const HELIOS_HTS1_MAX_SESSIONS_PER_PROCESS: u32 = 16;
pub const HELIOS_HTS1_MAX_ENDPOINTS_PER_SESSION: u32 = 64;
pub const HELIOS_HTS1_MAX_HOST_DISPATCH_FIFO_DEPTH: u32 = 256;
pub const HELIOS_HVM1_REPLY_SLOT_BYTES: u64 = 0x10_0000;
/// The most reply snapshots that a session holds.
pub const MAX_LIVE_SNAPSHOTS: u32 = 4;

/// The endpoints that a session can have.
pub const ENDPOINT_SLOTS: usize = 64;
/// The slots of a reply pool.
pub const REPLY_SLOTS: usize = 4;

/// The secret by which a context proves that it belongs to a session.
#[derive(Debug, Clone, Copy, PartialEq, Eq, Structural)]
pub struct HeliosSessionCapability {
    pub low: u64,
    pub high: u64,
}

impl HeliosSessionCapability {
    /// The one pair that is never issued, and that nothing matches.
    pub open spec fn is_void(self) -> bool {
        self.low == 0 && self.high == 0
    }

    pub fn invalid() -> (c: Self)
        ensures
            c == (HeliosSessionCapability { low: 0, high: 0 }),
    {
        HeliosSessionCapability { low: 0, high: 0 }
    }

    pub fn from_halves(low: u64, high: u64) -> (c: Self)
        ensures
            c == (HeliosSessionCapability { low, high }),
    {
        HeliosSessionCapability { low, high }
    }

    pub fn is_invalid(self) -> (b: bool)
        ensures
            b == self.is_void(),
    {
        self.low == 0 && self.high == 0
    }
}

#[derive(Debug, Clone, Copy, PartialEq, Eq, Structural)]
pub enum CapabilityRefusal {
    SessionInvalidated,
    Mismatch,
}

#[derive(Debug, Clone, Copy, PartialEq, Eq, Structural)]
pub enum GenerationField {
    Package,
    Session,
    Context,
}

#[derive(Debug, Clone, Copy, PartialEq, Eq, Structural)]
pub enum GenerationRefusal {
    Zero,
    Mismatch { found: u64, expected: u64 },
    NotMonotonic { found: u64, highest: u64 },
}

#[derive(Debug, Clone, Copy, PartialEq, Eq, Structural)]
pub enum HeliosEngineClass {
    Graphics,
    Compute,
    Copy,
}

#[derive(Debug, Clone, Copy, PartialEq, Eq, Structural)]
pub enum HeliosOuterContextKind {
    D3d11PhysicalRender,
    D3d12VirtualSubmit,
}

#[derive(Debug, Clone, Copy, PartialEq, Eq, Structural)]
pub enum EndpointRefusal {
    /// The ordinal is not one of the session's.
    OutOfRange { found: u32, capacity: u32 },
    /// The queue is the one that only the control context has.
    ControlSentinelEndpoint,
    /// The number is that of no engine class.
    EngineClassUnknown { found: u32 },
}

#[derive(Debug, Clone, Copy, PartialEq, Eq, Structural)]
pub enum InitRefusal {
    Generation { field: GenerationField, reason: GenerationRefusal },
    CapsetMismatch { found: u32, expected: u32 },
    EndpointCapacityExceedsRequest { found: u32, requested: u32 },
    EndpointCapacityOutOfRange { found: u32 },
    /// The record breaks a rule of its own, under this number.
    Record { code: u32 },
}

#[derive(Debug, Clone, Copy, PartialEq, Eq, Structural)]
pub enum AttachRefusal {
    Generation { field: GenerationField, reason: GenerationRefusal },
    Capability(CapabilityRefusal),
    Endpoint(EndpointRefusal),
    EngineClassMismatch { found: u32, expected: u32 },
    QueueFamilyMismatch { found: u32, expected: u32 },
    QueueIndexMismatch { found: u32, expected: u32 },
    /// The packet breaks a rule of its own, under this number.
    Record { code: u32 },
}

#[derive(Debug, Clone, Copy, PartialEq, Eq, Structural)]
pub enum HeliosCapacityLimit {
    SessionsPerProcess,
    RingIndex,
    OutstandingContextBatches,
    ContextBatchBytes,
    HostDispatchFifoDepth,
}

#[derive(Debug, Clone, Copy, PartialEq, Eq, Structural)]
pub struct HeliosCapacityRefusal {
    pub limit: HeliosCapacityLimit,
}

/// The queue of an endpoint, as the guest declares it.
#[derive(Debug, Clone, Copy, PartialEq, Eq, Structural)]
pub struct HeliosTranslationEndpointV1 {
    pub endpoint_id: u32,
    pub engine_class: u32,
    pub queue_family: u32,
    pub queue_index: u32,
}

/// A request to start a session.
#[derive(Debug, Clone, Copy, PartialEq, Eq, Structural)]
pub struct HeliosTranslationSessionInitV1 {
    pub package_generation: u64,
    pub capset: u32,
    pub endpoint_capacity: u32,
}

/// The answer to a request to start a session.
#[derive(Debug, Clone, Copy, PartialEq, Eq, Structural)]
pub struct HeliosTranslationSessionReplyV1 {
    pub package_generation: u64,
    pub session_generation: u64,
    pub capability: HeliosSessionCapability,
    pub capset: u32,
    pub endpoint_capacity: u32,
}

/// A request to attach a context to a session.
#[derive(Debug, Clone, Copy, PartialEq, Eq, Structural)]
pub struct HeliosQueueAttachV1 {
    pub package_generation: u64,
    pub session_generation: u64,
    pub capability_low: u64,
    pub capability_high: u64,
    pub endpoint_id: u32,
    pub engine_class: u32,
    pub queue_family: u32,
    pub queue_index: u32,
    pub context_generation: u64,
}

/// What a packet that keeps its own rules says: the kind of context, and the class
/// that its engine number stands for, if it stands for one.
#[derive(Debug, Clone, Copy, PartialEq, Eq, Structural)]
pub struct AttachShape {
    pub kind: HeliosOuterContextKind,
    pub engine_class: Option<HeliosEngineClass>,
}

/// An attached context.
#[derive(Debug, Clone, Copy, PartialEq, Eq, Structural)]
pub struct HeliosAttachAdmission {
    pub context_generation: u64,
    pub endpoint_id: u32,
    pub engine_class: HeliosEngineClass,
    pub kind: HeliosOuterContextKind,
}

/// Why an operation on a session is refused.
#[allow(inconsistent_fields)]
#[derive(Debug, Clone, Copy, PartialEq, Eq, Structural)]
pub enum SessionRefusal {
    Init(InitRefusal),
    Attach(AttachRefusal),
    Capacity(HeliosCapacityRefusal),
    /// The caller waits for the oldest owner.
    Hnr2Capacity(Hnr2CapacityRefusal),
    SessionProvisional,
    SessionAlreadyInitialised,
    SessionDraining,
    SessionLedgerUnderflow,
    SessionGenerationSpaceExhausted,
    CapabilityIsInvalidSentinel,
    ReplyPoolAlreadyBound,
    ReplyPoolNotBound,
    ReplyPoolRoleMismatch { found: u32 },
    ReplyPoolSizeMismatch { found: u64 },
    ReplyPoolGenerationZero,
    EndpointOutOfRange { found: u32, capacity: u32 },
    EndpointRingUnassigned { endpoint_id: u32 },
    HostDispatchFifoUnderflow { endpoint_id: u32 },
    HostDispatchSerialExhausted { endpoint_id: u32 },
    SnapshotAccountingUnderflow,
    EndpointDescriptorConflict { endpoint_id: u32 },
    AttachedContextOverflow,
    DetachUnknownContext { context_generation: u64 },
    ControlRenderNotOnControlContext,
    ControlRenderAllocationCountNotOne { found: u32 },
    ControlRenderAllocationWithoutReply { found: u32 },
    ControlRenderForeignAllocation,
    ControlRenderPoolGenerationStale { found: u64, expected: u64 },
    ControlRenderAccessNotWrite { found: u32 },
    ControlRenderSlotGenerationStale { found: u64, watermark: u64 },
    ControlRenderSlotBusy { in_flight: u64 },
    ControlRenderSlotGenerationUnknown { found: u64 },
    ControlRenderSlotIndexOutOfRange { found: usize },
}

/// How many sessions a process has.
#[derive(Debug, Clone, Copy, PartialEq, Eq, Structural)]
pub struct ProcessSessionLedger {
    live: u32,
}

impl Default for ProcessSessionLedger {
    fn default() -> (l: Self)
        ensures
            l.wf(),
            l@ == 0,
    {
        Self::new()
    }
}

impl View for ProcessSessionLedger {
    type V = u32;

    closed spec fn view(&self) -> u32 {
        self.live
    }
}

impl ProcessSessionLedger {
    pub open spec fn wf(&self) -> bool {
        self@ <= HELIOS_HTS1_MAX_SESSIONS_PER_PROCESS
    }

    pub fn new() -> (l: Self)
        ensures
            l.wf(),
            l@ == 0,
    {
        ProcessSessionLedger { live: 0 }
    }

    pub fn live(&self) -> (n: u32)
        ensures
            n == self@,
    {
        self.live
    }

    /// Counts one more session, up to the cap.
    pub fn admit_session(&mut self) -> (r: Result<(), SessionRefusal>)
        requires
            old(self).wf(),
        ensures
            final(self).wf(),
            if old(self)@ >= HELIOS_HTS1_MAX_SESSIONS_PER_PROCESS {
                r is Err && r->Err_0 == SessionRefusal::Capacity(
                    HeliosCapacityRefusal { limit: HeliosCapacityLimit::SessionsPerProcess },
                ) && final(self)@ == old(self)@
            } else {
                r is Ok && final(self)@ == old(self)@ + 1
            },
    {
        if self.live >= HELIOS_HTS1_MAX_SESSIONS_PER_PROCESS {
            return Err(
                SessionRefusal::Capacity(
                    HeliosCapacityRefusal { limit: HeliosCapacityLimit::SessionsPerProcess },
                ),
            );
        }
        self.live = self.live + 1;
        Ok(())
    }

    /// Uncounts a session.
    pub fn release(&mut self) -> (r: Result<(), SessionRefusal>)
        requires
            old(self).wf(),
        ensures
            final(self).wf(),
            if old(self)@ == 0 {
                r is Err && r->Err_0 == SessionRefusal::SessionLedgerUnderflow && final(self)@
                    == old(self)@
            } else {
                r is Ok && final(self)@ == old(self)@ - 1
            },
    {
        if self.live == 0 {
            return Err(SessionRefusal::SessionLedgerUnderflow);
        }
        self.live = self.live - 1;
        Ok(())
    }
}

/// The source of session generations. Its view is the next one, or zero once all
/// have been given out.
#[derive(Debug, Clone, Copy, PartialEq, Eq, Structural)]
pub struct SessionGenerationSource {
    next: u64,
}

impl Default for SessionGenerationSource {
    fn default() -> (s: Self)
        ensures
            s@ == 1,
    {
        Self::new()
    }
}

impl View for SessionGenerationSource {
    type V = u64;

    closed spec fn view(&self) -> u64 {
        self.next
    }
}

impl SessionGenerationSource {
    pub fn new() -> (s: Self)
        ensures
            s@ == 1,
    {
        SessionGenerationSource { next: 1 }
    }

    /// A source that goes on from `next`.
    pub fn resume_at(next: u64) -> (s: Self)
        ensures
            s@ == next,
    {
        SessionGenerationSource { next }
    }

    /// The next generation. It is never zero and never given out twice.
    pub fn mint(&mut self) -> (r: Result<u64, SessionRefusal>)
        ensures
            if old(self)@ == 0 {
                r == Err::<u64, SessionRefusal>(SessionRefusal::SessionGenerationSpaceExhausted)
                    && final(self)@ == 0
            } else {
                r == Ok::<u64, SessionRefusal>(old(self)@) && final(self)@ == (if old(self)@
                    == u64::MAX {
                    0
                } else {
                    old(self)@ + 1
                })
            },
    {
        let value: u64 = self.next;
        if value == 0 {
            return Err(SessionRefusal::SessionGenerationSpaceExhausted);
        }
        self.next = if value == u64::MAX {
            0
        } else {
            value + 1
        };
        Ok(value)
    }
}

#[derive(Debug, Clone, Copy, PartialEq, Eq, Structural)]
pub enum SessionPhase {
    /// Before the session was started.
    Provisional,
    Live,
    /// The end: nothing is taken on any more.
    Draining,
}

/// One endpoint of a session.
#[derive(Debug, Clone, Copy, PartialEq, Eq, Structural)]
pub struct SessionEndpoint {
    /// Its ordinal is zero until it is declared.
    pub descriptor: HeliosTranslationEndpointV1,
    /// The host ring; zero until the session was started.
    pub ring_index: u32,
    /// How much is queued for the host.
    pub fifo_depth: u32,
    /// The next serial in order of arrival.
    pub next_serial: u64,
}

#[derive(Debug, Clone, Copy, PartialEq, Eq, Structural)]
pub enum SlotState {
    Idle,
    InFlight,
    /// The host has answered; the answer is not consumed yet.
    Published,
}

/// One slot of a reply pool.
#[derive(Debug, Clone, Copy, PartialEq, Eq, Structural)]
pub struct ReplySlot {
    pub state: SlotState,
    pub generation: u64,
    /// The highest generation that was retired here.
    pub retired_generation: u64,
    pub owner_context_generation: u64,
    pub batch_token: u64,
    pub reply_offset: u64,
    pub reply_capacity_bytes: u64,
    pub c51_value: u64,
}

/// The reply pool of a session.
#[derive(Debug, Clone, Copy, PartialEq, Eq)]
pub struct ReplyPool {
    pub allocation_generation: u64,
    pub slots: [ReplySlot; REPLY_SLOTS],
}

/// What a control render asks of its session.
#[derive(Debug, Clone, Copy, PartialEq, Eq, Structural)]
pub struct ControlRenderRequest {
    pub on_control_context: bool,
    pub has_reply: bool,
    pub allocation_count: u32,
    /// The one listed allocation is the session's own pool.
    pub names_reply_pool: bool,
    pub expected_allocation_generation: u64,
    pub access_flags: u32,
    pub reply_offset: u64,
    pub reply_capacity_bytes: u64,
    pub reply_slot_generation: u64,
    pub batch_token: u64,
    /// Zero for the control context, which has none.
    pub owner_context_generation: u64,
}

/// An admitted render: the slot it took, if any, and the range it owns.
#[derive(Debug, Clone, Copy, PartialEq, Eq, Structural)]
pub struct ControlRenderAdmission {
    pub slot_index: Option<usize>,
    pub slot_generation: u64,
    pub reply_offset: u64,
    pub reply_capacity_bytes: u64,
    pub batch_token: u64,
}

/// What an execution asks of its session for its reply.
#[derive(Debug, Clone, Copy, PartialEq, Eq, Structural)]
pub struct ExecutionReplyRequest {
    pub names_reply_pool: bool,
    pub expected_allocation_generation: u64,
    pub access_flags: u32,
    pub reply_offset: u64,
    pub reply_capacity_bytes: u64,
    pub reply_slot_generation: u64,
    pub batch_token: u64,
    pub owner_context_generation: u64,
}

/// A session.
#[derive(Debug, Clone, Copy)]
pub struct TranslationSession {
    phase: SessionPhase,
    package_generation: u64,
    capset: u32,
    session_generation: u64,
    capability: HeliosSessionCapability,
    endpoint_capacity: u32,
    endpoints: [SessionEndpoint; ENDPOINT_SLOTS],
    highest_context_generation: u64,
    attached_contexts: u32,
    pool: Option<ReplyPool>,
    live_snapshots: u32,
    live_snapshot_bytes: u64,
}

/// What a reply pool holds.
#[verifier::ext_equal]
pub struct Pool {
    pub generation: u64,
    pub slots: Seq<ReplySlot>,
}

/// What a session holds.
#[verifier::ext_equal]
pub struct Session {
    pub phase: SessionPhase,
    pub package_generation: u64,
    pub capset: u32,
    pub generation: u64,
    pub capability: HeliosSessionCapability,
    pub capacity: u32,
    pub endpoints: Seq<SessionEndpoint>,
    pub highest_context: u64,
    pub contexts: u32,
    pub pool: Option<Pool>,
    pub snapshots: u32,
    pub snapshot_bytes: u64,
}

impl View for TranslationSession {
    type V = Session;

    closed spec fn view(&self) -> Session {
        Session {
            phase: self.phase,
            package_generation: self.package_generation,
            capset: self.capset,
            generation: self.session_generation,
            capability: self.capability,
            capacity: self.endpoint_capacity,
            endpoints: self.endpoints@,
            highest_context: self.highest_context_generation,
            contexts: self.attached_contexts,
            pool: match self.pool {
                Some(p) => Some(pool_view(p)),
                None => None,
            },
            snapshots: self.live_snapshots,
            snapshot_bytes: self.live_snapshot_bytes,
        }
    }
}

pub open spec fn pool_view(p: ReplyPool) -> Pool {
    Pool { generation: p.allocation_generation, slots: p.slots@ }
}

pub open spec fn undeclared() -> HeliosTranslationEndpointV1 {
    HeliosTranslationEndpointV1 { endpoint_id: 0, engine_class: 0, queue_family: 0, queue_index: 0 }
}

/// An endpoint that owns the ring `ring`, or none if it is zero.
pub open spec fn fresh_endpoint(ring: u32) -> SessionEndpoint {
    SessionEndpoint { descriptor: undeclared(), ring_index: ring, fifo_depth: 0, next_serial: 1 }
}

/// A slot in which `retired` is the highest generation that was retired.
pub open spec fn idle_slot(retired: u64) -> ReplySlot {
    ReplySlot {
        state: SlotState::Idle,
        generation: 0,
        retired_generation: retired,
        owner_context_generation: 0,
        batch_token: 0,
        reply_offset: 0,
        reply_capacity_bytes: 0,
        c51_value: 0,
    }
}

/// The endpoint at `i` has its own ring if it was granted, and a declaration under
/// its own ordinal if it has one.
pub open spec fn endpoint_ok(v: Session, i: int) -> bool {
    let e = v.endpoints[i];
    &&& e.ring_index == (if i < v.capacity {
        i + 1
    } else {
        0
    })
    &&& e.fifo_depth <= HELIOS_HTS1_MAX_HOST_DISPATCH_FIFO_DEPTH
    &&& e.next_serial > 0
    &&& e.descriptor.endpoint_id == 0 || e.descriptor.endpoint_id == i + 1
}

/// A slot in use has a generation above every one that was retired in it.
pub open spec fn slot_ok(s: ReplySlot) -> bool {
    if s.state == SlotState::Idle {
        s.generation == 0
    } else {
        s.generation > s.retired_generation
    }
}

pub open spec fn session_wf(v: Session) -> bool {
    &&& v.endpoints.len() == ENDPOINT_SLOTS
    &&& v.capacity <= ENDPOINT_SLOTS
    &&& v.snapshots <= MAX_LIVE_SNAPSHOTS
    &&& v.phase == SessionPhase::Provisional ==> v.generation == 0 && v.capacity == 0
        && v.capability.is_void()
    &&& v.phase == SessionPhase::Live ==> v.generation != 0 && !v.capability.is_void() && v.pool
        is Some
    &&& v.phase == SessionPhase::Draining ==> v.capability.is_void()
    &&& forall|i: int| 0 <= i < ENDPOINT_SLOTS ==> #[trigger] endpoint_ok(v, i)
    &&& v.pool matches Some(p) ==> p.slots.len() == REPLY_SLOTS && p.generation != 0
        && forall|i: int| 0 <= i < REPLY_SLOTS ==> #[trigger] slot_ok(p.slots[i])
}

/// A session that has not been started.
pub open spec fn provisional(package_generation: u64, capset: u32) -> Session {
    Session {
        phase: SessionPhase::Provisional,
        package_generation,
        capset,
        generation: 0,
        capability: HeliosSessionCapability { low: 0, high: 0 },
        capacity: 0,
        endpoints: Seq::new(64, |i: int| fresh_endpoint(0)),
        highest_context: 0,
        contexts: 0,
        pool: None,
        snapshots: 0,
        snapshot_bytes: 0,
    }
}

/// What makes `found` a wrong generation where `expected` is due, if anything.
pub open spec fn generation_refusal(found: u64, expected: u64) -> Option<GenerationRefusal> {
    if found == 0 {
        Some(GenerationRefusal::Zero)
    } else if found != expected {
        Some(GenerationRefusal::Mismatch { found, expected })
    } else {
        None
    }
}

fn check_generation(found: u64, expected: u64) -> (r: Option<GenerationRefusal>)
    ensures
        r == generation_refusal(found, expected),
{
    if found == 0 {
        return Some(GenerationRefusal::Zero);
    }
    if found != expected {
        return Some(GenerationRefusal::Mismatch { found, expected });
    }
    None
}

pub open spec fn draining(v: Session) -> Session {
    Session {
        capability: HeliosSessionCapability { low: 0, high: 0 },
        phase: SessionPhase::Draining,
        ..v
    }
}

pub open spec fn bind_refusal(
    v: Session,
    role: Hvm1Role,
    byte_size: u64,
    object_generation: u64,
) -> Option<SessionRefusal> {
    if v.phase == SessionPhase::Draining {
        Some(SessionRefusal::SessionDraining)
    } else if v.pool is Some {
        Some(SessionRefusal::ReplyPoolAlreadyBound)
    } else if role != Hvm1Role::ReplyPool {
        Some(SessionRefusal::ReplyPoolRoleMismatch { found: role.number() })
    } else if byte_size != HELIOS_HVM1_REPLY_POOL_BYTES {
        Some(SessionRefusal::ReplyPoolSizeMismatch { found: byte_size })
    } else if object_generation == 0 {
        Some(SessionRefusal::ReplyPoolGenerationZero)
    } else {
        None
    }
}

pub open spec fn pool_bound(v: Session, object_generation: u64) -> Session {
    Session {
        pool: Some(
            Pool { generation: object_generation, slots: Seq::new(4, |i: int| idle_slot(0)) },
        ),
        ..v
    }
}

/// Why a session cannot be started now, if it cannot.
pub open spec fn start_refusal(v: Session) -> Option<SessionRefusal> {
    if v.phase == SessionPhase::Draining {
        Some(SessionRefusal::SessionDraining)
    } else if v.phase == SessionPhase::Live {
        Some(SessionRefusal::SessionAlreadyInitialised)
    } else if v.pool is None {
        Some(SessionRefusal::ReplyPoolNotBound)
    } else {
        None
    }
}

/// Why a start request is refused, if it is.
pub open spec fn init_refusal(
    v: Session,
    request: HeliosTranslationSessionInitV1,
    record: Result<(), InitRefusal>,
) -> Option<SessionRefusal> {
    let package = generation_refusal(request.package_generation, v.package_generation);
    if start_refusal(v) is Some {
        start_refusal(v)
    } else if record is Err {
        Some(SessionRefusal::Init(record->Err_0))
    } else if package is Some {
        Some(
            SessionRefusal::Init(
                InitRefusal::Generation { field: GenerationField::Package, reason: package->0 },
            ),
        )
    } else if request.capset != v.capset {
        Some(
            SessionRefusal::Init(
                InitRefusal::CapsetMismatch { found: request.capset, expected: v.capset },
            ),
        )
    } else {
        None
    }
}

/// Why a start cannot be completed, if it cannot.
pub open spec fn complete_refusal(
    v: Session,
    requested: u32,
    granted: u32,
    generation: u64,
    capability: HeliosSessionCapability,
    record: Result<(), InitRefusal>,
) -> Option<SessionRefusal> {
    if start_refusal(v) is Some {
        start_refusal(v)
    } else if capability.is_void() {
        Some(SessionRefusal::CapabilityIsInvalidSentinel)
    } else if generation == 0 {
        Some(
            SessionRefusal::Init(
                InitRefusal::Generation {
                    field: GenerationField::Session,
                    reason: GenerationRefusal::Zero,
                },
            ),
        )
    } else if record is Err {
        Some(SessionRefusal::Init(record->Err_0))
    } else if granted > requested {
        Some(
            SessionRefusal::Init(
                InitRefusal::EndpointCapacityExceedsRequest { found: granted, requested },
            ),
        )
    } else if granted > HELIOS_HTS1_MAX_ENDPOINTS_PER_SESSION {
        Some(SessionRefusal::Init(InitRefusal::EndpointCapacityOutOfRange { found: granted }))
    } else {
        None
    }
}

/// A session that was started: every granted endpoint has its own ring.
pub open spec fn started(
    v: Session,
    granted: u32,
    generation: u64,
    capability: HeliosSessionCapability,
) -> Session {
    Session {
        phase: SessionPhase::Live,
        generation,
        capability,
        capacity: granted,
        endpoints: Seq::new(
            64,
            |i: int|
                fresh_endpoint(
                    if i < granted {
                        (i + 1) as u32
                    } else {
                        0
                    },
                ),
        ),
        ..v
    }
}

pub open spec fn in_range(v: Session, endpoint_id: u32) -> bool {
    0 < endpoint_id <= v.capacity
}

pub open spec fn out_of_range(v: Session, endpoint_id: u32) -> SessionRefusal {
    SessionRefusal::EndpointOutOfRange { found: endpoint_id, capacity: v.capacity }
}

pub open spec fn with_endpoint(v: Session, endpoint_id: u32, e: SessionEndpoint) -> Session {
    Session { endpoints: v.endpoints.update(endpoint_id - 1, e), ..v }
}

pub open spec fn enqueue_refusal(v: Session, endpoint_id: u32) -> Option<SessionRefusal> {
    let e = v.endpoints[endpoint_id - 1];
    if v.phase == SessionPhase::Draining {
        Some(SessionRefusal::SessionDraining)
    } else if v.phase == SessionPhase::Provisional {
        Some(SessionRefusal::SessionProvisional)
    } else if !in_range(v, endpoint_id) {
        Some(out_of_range(v, endpoint_id))
    } else if e.fifo_depth >= HELIOS_HTS1_MAX_HOST_DISPATCH_FIFO_DEPTH {
        Some(
            SessionRefusal::Capacity(
                HeliosCapacityRefusal { limit: HeliosCapacityLimit::HostDispatchFifoDepth },
            ),
        )
    } else if e.next_serial == u64::MAX {
        Some(SessionRefusal::HostDispatchSerialExhausted { endpoint_id })
    } else {
        None
    }
}

/// One more entry is queued on the endpoint.
pub open spec fn enqueued(v: Session, endpoint_id: u32) -> Session {
    let e = v.endpoints[endpoint_id - 1];
    with_endpoint(
        v,
        endpoint_id,
        SessionEndpoint {
            fifo_depth: (e.fifo_depth + 1) as u32,
            next_serial: (e.next_serial + 1) as u64,
            ..e
        },
    )
}

pub open spec fn dequeue_refusal(v: Session, endpoint_id: u32) -> Option<SessionRefusal> {
    if !in_range(v, endpoint_id) {
        Some(out_of_range(v, endpoint_id))
    } else if v.endpoints[endpoint_id - 1].fifo_depth == 0 {
        Some(SessionRefusal::HostDispatchFifoUnderflow { endpoint_id })
    } else {
        None
    }
}

/// One entry of the endpoint has retired.
pub open spec fn dequeued(v: Session, endpoint_id: u32) -> Session {
    let e = v.endpoints[endpoint_id - 1];
    with_endpoint(
        v,
        endpoint_id,
        SessionEndpoint { fifo_depth: (e.fifo_depth - 1) as u32, ..e },
    )
}

pub open spec fn snapshot_refusal(
    v: Session,
    byte_rules: Result<(), Hnr2CapacityRefusal>,
) -> Option<SessionRefusal> {
    if v.phase == SessionPhase::Draining {
        Some(SessionRefusal::SessionDraining)
    } else if v.snapshots >= MAX_LIVE_SNAPSHOTS {
        Some(SessionRefusal::Hnr2Capacity(
                Hnr2CapacityRefusal { limit: Hnr2CapacityLimit::LiveSnapshots },
            ))
    } else if byte_rules is Err {
        Some(SessionRefusal::Hnr2Capacity(byte_rules->Err_0))
    } else {
        None
    }
}

pub open spec fn declare_refusal(v: Session, e: HeliosTranslationEndpointV1) -> Option<
    SessionRefusal,
> {
    let known = v.endpoints[e.endpoint_id - 1].descriptor;
    if !in_range(v, e.endpoint_id) {
        Some(out_of_range(v, e.endpoint_id))
    } else if known.endpoint_id != 0 && known != e {
        Some(SessionRefusal::EndpointDescriptorConflict { endpoint_id: e.endpoint_id })
    } else {
        None
    }
}

/// The endpoint is declared.
pub open spec fn declared(v: Session, e: HeliosTranslationEndpointV1) -> Session {
    with_endpoint(
        v,
        e.endpoint_id,
        SessionEndpoint { descriptor: e, ..v.endpoints[e.endpoint_id - 1] },
    )
}

/// What is wrong with an endpoint, if anything.
pub open spec fn endpoint_refusal(
    e: HeliosTranslationEndpointV1,
    capacity: u32,
    class: Option<HeliosEngineClass>,
) -> Option<EndpointRefusal> {
    if e.endpoint_id == 0 || e.endpoint_id > capacity {
        Some(EndpointRefusal::OutOfRange { found: e.endpoint_id, capacity })
    } else if e.queue_family == u32::MAX && e.queue_index == u32::MAX {
        Some(EndpointRefusal::ControlSentinelEndpoint)
    } else if class is None {
        Some(EndpointRefusal::EngineClassUnknown { found: e.engine_class })
    } else {
        None
    }
}

pub open spec fn packet_endpoint(p: HeliosQueueAttachV1) -> HeliosTranslationEndpointV1 {
    HeliosTranslationEndpointV1 {
        endpoint_id: p.endpoint_id,
        engine_class: p.engine_class,
        queue_family: p.queue_family,
        queue_index: p.queue_index,
    }
}

/// What the packet's endpoint is compared with: what is declared under its
/// ordinal, or else the packet's own word.
pub open spec fn expected_endpoint(
    v: Session,
    p: HeliosQueueAttachV1,
) -> HeliosTranslationEndpointV1 {
    let known = v.endpoints[p.endpoint_id - 1].descriptor;
    if known.endpoint_id == 0 {
        packet_endpoint(p)
    } else {
        known
    }
}

/// What is wrong with a packet that keeps its own rules, if anything.
pub open spec fn packet_refusal(
    v: Session,
    p: HeliosQueueAttachV1,
    shape: AttachShape,
) -> Option<AttachRefusal> {
    let expected = expected_endpoint(v, p);
    let package = generation_refusal(p.package_generation, v.package_generation);
    let session = generation_refusal(p.session_generation, v.generation);
    let endpoint = endpoint_refusal(expected, v.capacity, shape.engine_class);
    if package is Some {
        Some(AttachRefusal::Generation { field: GenerationField::Package, reason: package->0 })
    } else if session is Some {
        Some(AttachRefusal::Generation { field: GenerationField::Session, reason: session->0 })
    } else if p.capability_low != v.capability.low || p.capability_high != v.capability.high {
        Some(AttachRefusal::Capability(CapabilityRefusal::Mismatch))
    } else if p.engine_class != expected.engine_class {
        Some(
            AttachRefusal::EngineClassMismatch {
                found: p.engine_class,
                expected: expected.engine_class,
            },
        )
    } else if p.queue_family != expected.queue_family {
        Some(
            AttachRefusal::QueueFamilyMismatch {
                found: p.queue_family,
                expected: expected.queue_family,
            },
        )
    } else if p.queue_index != expected.queue_index {
        Some(
            AttachRefusal::QueueIndexMismatch {
                found: p.queue_index,
                expected: expected.queue_index,
            },
        )
    } else if endpoint is Some {
        Some(AttachRefusal::Endpoint(endpoint->0))
    } else if p.context_generation == 0 {
        Some(
            AttachRefusal::Generation {
                field: GenerationField::Context,
                reason: GenerationRefusal::Zero,
            },
        )
    } else if p.context_generation <= v.highest_context {
        Some(
            AttachRefusal::Generation {
                field: GenerationField::Context,
                reason: GenerationRefusal::NotMonotonic {
                    found: p.context_generation,
                    highest: v.highest_context,
                },
            },
        )
    } else {
        None
    }
}

/// Why a context is not attached, if it is not.
pub open spec fn attach_refusal(
    v: Session,
    p: HeliosQueueAttachV1,
    shape: Result<AttachShape, AttachRefusal>,
) -> Option<SessionRefusal> {
    if v.phase == SessionPhase::Draining {
        Some(
            SessionRefusal::Attach(AttachRefusal::Capability(CapabilityRefusal::SessionInvalidated)),
        )
    } else if v.phase == SessionPhase::Provisional {
        Some(SessionRefusal::SessionProvisional)
    } else if v.contexts == u32::MAX {
        Some(SessionRefusal::AttachedContextOverflow)
    } else if !in_range(v, p.endpoint_id) {
        Some(out_of_range(v, p.endpoint_id))
    } else {
        match shape {
            Err(e) => Some(SessionRefusal::Attach(e)),
            Ok(s) => match packet_refusal(v, p, s) {
                Some(e) => Some(SessionRefusal::Attach(e)),
                None => None,
            },
        }
    }
}

/// A context is attached: its endpoint is declared and its generation is spent.
pub open spec fn attached(v: Session, p: HeliosQueueAttachV1) -> Session {
    Session {
        highest_context: p.context_generation,
        contexts: (v.contexts + 1) as u32,
        ..declared(v, expected_endpoint(v, p))
    }
}

pub open spec fn detach_refusal(v: Session, context_generation: u64) -> Option<SessionRefusal> {
    if context_generation == 0 || context_generation > v.highest_context || v.contexts == 0 {
        Some(SessionRefusal::DetachUnknownContext { context_generation })
    } else {
        None
    }
}

/// The slot that a reply offset selects.
pub open spec fn slot_of(reply_offset: u64) -> int {
    (reply_offset / HELIOS_HVM1_REPLY_SLOT_BYTES) as int
}

pub open spec fn with_slot(v: Session, index: int, s: ReplySlot) -> Session {
    Session {
        pool: Some(Pool { slots: v.pool->0.slots.update(index, s), ..v.pool->0 }),
        ..v
    }
}

/// Why the slot cannot be taken, if it cannot.
pub open spec fn checkout_refusal(v: Session, reply_offset: u64, generation: u64) -> Option<
    SessionRefusal,
> {
    let index = slot_of(reply_offset);
    let slot = v.pool->0.slots[index];
    if index >= REPLY_SLOTS {
        Some(SessionRefusal::ControlRenderSlotIndexOutOfRange { found: index as usize })
    } else if slot.state != SlotState::Idle {
        Some(SessionRefusal::ControlRenderSlotBusy { in_flight: slot.generation })
    } else if generation <= slot.retired_generation {
        Some(
            SessionRefusal::ControlRenderSlotGenerationStale {
                found: generation,
                watermark: slot.retired_generation,
            },
        )
    } else {
        None
    }
}

/// The slot is taken.
pub open spec fn checked_out(
    v: Session,
    reply_offset: u64,
    capacity: u64,
    generation: u64,
    batch_token: u64,
    owner: u64,
) -> Session {
    let index = slot_of(reply_offset);
    with_slot(
        v,
        index,
        ReplySlot {
            state: SlotState::InFlight,
            generation,
            retired_generation: v.pool->0.slots[index].retired_generation,
            owner_context_generation: owner,
            batch_token,
            reply_offset,
            reply_capacity_bytes: capacity,
            c51_value: 0,
        },
    )
}

/// What a render that took a slot is answered.
pub open spec fn slot_admission(
    reply_offset: u64,
    capacity: u64,
    generation: u64,
    batch_token: u64,
) -> ControlRenderAdmission {
    ControlRenderAdmission {
        slot_index: Some(slot_of(reply_offset) as usize),
        slot_generation: generation,
        reply_offset,
        reply_capacity_bytes: capacity,
        batch_token,
    }
}

/// Why a control render is refused, if it is.
pub open spec fn control_refusal(
    v: Session,
    request: ControlRenderRequest,
    write_access: u32,
) -> Option<SessionRefusal> {
    if v.phase == SessionPhase::Draining {
        Some(SessionRefusal::SessionDraining)
    } else if !request.on_control_context {
        Some(SessionRefusal::ControlRenderNotOnControlContext)
    } else if !request.has_reply {
        if request.allocation_count != 0 {
            Some(
                SessionRefusal::ControlRenderAllocationWithoutReply {
                    found: request.allocation_count,
                },
            )
        } else {
            None
        }
    } else if v.pool is None {
        Some(SessionRefusal::ReplyPoolNotBound)
    } else if request.allocation_count != 1 {
        Some(
            SessionRefusal::ControlRenderAllocationCountNotOne { found: request.allocation_count },
        )
    } else if !request.names_reply_pool {
        Some(SessionRefusal::ControlRenderForeignAllocation)
    } else if request.expected_allocation_generation != v.pool->0.generation {
        Some(
            SessionRefusal::ControlRenderPoolGenerationStale {
                found: request.expected_allocation_generation,
                expected: v.pool->0.generation,
            },
        )
    } else if request.access_flags != write_access {
        Some(SessionRefusal::ControlRenderAccessNotWrite { found: request.access_flags })
    } else {
        checkout_refusal(v, request.reply_offset, request.reply_slot_generation)
    }
}

/// Why the reply of an execution is refused, if it is.
pub open spec fn execution_refusal(
    v: Session,
    request: ExecutionReplyRequest,
    write_access: u32,
) -> Option<SessionRefusal> {
    if v.phase == SessionPhase::Provisional {
        Some(SessionRefusal::SessionProvisional)
    } else if v.phase == SessionPhase::Draining {
        Some(SessionRefusal::SessionDraining)
    } else if v.pool is None {
        Some(SessionRefusal::ReplyPoolNotBound)
    } else if !request.names_reply_pool {
        Some(SessionRefusal::ControlRenderForeignAllocation)
    } else if request.expected_allocation_generation != v.pool->0.generation {
        Some(
            SessionRefusal::ControlRenderPoolGenerationStale {
                found: request.expected_allocation_generation,
                expected: v.pool->0.generation,
            },
        )
    } else if request.access_flags != write_access {
        Some(SessionRefusal::ControlRenderAccessNotWrite { found: request.access_flags })
    } else if request.owner_context_generation == 0 {
        Some(SessionRefusal::ControlRenderSlotGenerationUnknown { found: 0 })
    } else {
        checkout_refusal(v, request.reply_offset, request.reply_slot_generation)
    }
}

/// Why the slot is not one in use under this generation, if it is not.
pub open spec fn in_use_refusal(v: Session, index: usize, generation: u64) -> Option<
    SessionRefusal,
> {
    let slot = v.pool->0.slots[index as int];
    if v.phase == SessionPhase::Draining {
        Some(SessionRefusal::SessionDraining)
    } else if v.pool is None {
        Some(SessionRefusal::ReplyPoolNotBound)
    } else if index >= REPLY_SLOTS {
        Some(SessionRefusal::ControlRenderSlotIndexOutOfRange { found: index })
    } else if slot.state == SlotState::Idle || slot.generation != generation {
        Some(SessionRefusal::ControlRenderSlotGenerationUnknown { found: generation })
    } else {
        None
    }
}

pub open spec fn retire_refusal(v: Session, index: usize, generation: u64) -> Option<
    SessionRefusal,
> {
    let slot = v.pool->0.slots[index as int];
    if in_use_refusal(v, index, generation) is Some {
        in_use_refusal(v, index, generation)
    } else if slot.state != SlotState::Published {
        Some(SessionRefusal::ControlRenderSlotBusy { in_flight: slot.generation })
    } else {
        None
    }
}

/// A slot in flight can be given back even while the session drains.
pub open spec fn abort_refusal(v: Session, index: usize, generation: u64) -> Option<
    SessionRefusal,
> {
    let slot = v.pool->0.slots[index as int];
    if v.pool is None {
        Some(SessionRefusal::ReplyPoolNotBound)
    } else if index >= REPLY_SLOTS {
        Some(SessionRefusal::ControlRenderSlotIndexOutOfRange { found: index })
    } else if slot.state != SlotState::InFlight || slot.generation != generation {
        Some(SessionRefusal::ControlRenderSlotGenerationUnknown { found: generation })
    } else {
        None
    }
}

/// The host has answered in the slot.
pub open spec fn slot_published(v: Session, index: int, c51_value: u64) -> Session {
    with_slot(
        v,
        index,
        ReplySlot { state: SlotState::Published, c51_value, ..v.pool->0.slots[index] },
    )
}

/// The slot is free again, and the generation is spent.
pub open spec fn slot_freed(v: Session, index: int, generation: u64) -> Session {
    with_slot(v, index, idle_slot(generation))
}

impl TranslationSession {
    pub open spec fn wf(&self) -> bool {
        session_wf(self@)
    }

    /// The session that a control context creates. It has no generation and no
    /// capability before it is started.
    pub fn new_provisional(package_generation: u64, capset: u32) -> (s: Self)
        ensures
            s.wf(),
            s@ == provisional(package_generation, capset),
    {
        let s = TranslationSession {
            phase: SessionPhase::Provisional,
            package_generation,
            capset,
            session_generation: 0,
            capability: HeliosSessionCapability::invalid(),
            endpoint_capacity: 0,
            endpoints: [unassigned();ENDPOINT_SLOTS],
            highest_context_generation: 0,
            attached_contexts: 0,
            pool: None,
            live_snapshots: 0,
            live_snapshot_bytes: 0,
        };
        assert(s@ =~= provisional(package_generation, capset));
        assert forall|i: int| 0 <= i < ENDPOINT_SLOTS implies #[trigger] endpoint_ok(s@, i) by {}
        s
    }

    pub fn phase(&self) -> (p: SessionPhase)
        ensures
            p == self@.phase,
    {
        self.phase
    }

    pub fn session_generation(&self) -> (g: u64)
        ensures
            g == self@.generation,
    {
        self.session_generation
    }

    pub fn endpoint_capacity(&self) -> (n: u32)
        ensures
            n == self@.capacity,
    {
        self.endpoint_capacity
    }

    pub fn attached_contexts(&self) -> (n: u32)
        ensures
            n == self@.contexts,
    {
        self.attached_contexts
    }

    pub fn highest_context_generation(&self) -> (g: u64)
        ensures
            g == self@.highest_context,
    {
        self.highest_context_generation
    }

    pub fn pool(&self) -> (p: Option<ReplyPool>)
        ensures
            match p {
                Some(p) => self@.pool == Some(pool_view(p)),
                None => self@.pool is None,
            },
    {
        self.pool
    }

    pub fn live_snapshots(&self) -> (n: u32)
        ensures
            n == self@.snapshots,
    {
        self.live_snapshots
    }

    pub fn live_snapshot_bytes(&self) -> (n: u64)
        ensures
            n == self@.snapshot_bytes,
    {
        self.live_snapshot_bytes
    }

    /// Whether `presented` is this session's capability. Nothing matches that of a
    /// session that drains or was not started.
    pub fn capability_matches(&self, presented: HeliosSessionCapability) -> (b: bool)
        ensures
            b == (!self@.capability.is_void() && presented == self@.capability),
    {
        !self.capability.is_invalid() && presented == self.capability
    }

    /// Ends the session. The capability goes first, and no reply is marked complete.
    pub fn begin_draining(&mut self)
        requires
            old(self).wf(),
        ensures
            final(self).wf(),
            final(self)@ == draining(old(self)@),
    {
        let ghost before = self@;
        self.capability = HeliosSessionCapability::invalid();
        self.phase = SessionPhase::Draining;
        assert forall|i: int| 0 <= i < ENDPOINT_SLOTS implies #[trigger] endpoint_ok(self@, i) by {
            assert(endpoint_ok(before, i));
        }
    }

    /// Binds the one reply pool of the session.
    pub fn bind_reply_pool(
        &mut self,
        role: Hvm1Role,
        byte_size: u64,
        object_generation: u64,
    ) -> (r: Result<(), SessionRefusal>)
        requires
            old(self).wf(),
        ensures
            final(self).wf(),
            match bind_refusal(old(self)@, role, byte_size, object_generation) {
                Some(e) => r is Err && r->Err_0 == e && final(self)@ == old(self)@,
                None => r is Ok && final(self)@ == pool_bound(old(self)@, object_generation),
            },
    {
        if self.phase == SessionPhase::Draining {
            return Err(SessionRefusal::SessionDraining);
        }
        if self.pool.is_some() {
            return Err(SessionRefusal::ReplyPoolAlreadyBound);
        }
        if role != Hvm1Role::ReplyPool {
            return Err(SessionRefusal::ReplyPoolRoleMismatch { found: role.to_u32() });
        }
        if byte_size != HELIOS_HVM1_REPLY_POOL_BYTES {
            return Err(SessionRefusal::ReplyPoolSizeMismatch { found: byte_size });
        }
        if object_generation == 0 {
            return Err(SessionRefusal::ReplyPoolGenerationZero);
        }
        let ghost before = self@;
        let pool = ReplyPool {
            allocation_generation: object_generation,
            slots: [idle(0);REPLY_SLOTS],
        };
        self.pool = Some(pool);
        proof {
            assert(self@.pool->0.slots =~= Seq::new(4, |i: int| idle_slot(0)));
            assert forall|i: int| 0 <= i < ENDPOINT_SLOTS implies #[trigger] endpoint_ok(
                self@,
                i,
            ) by {
                assert(endpoint_ok(before, i));
            }
        }
        Ok(())
    }

    /// Judges a start request and says how many endpoints it asks for. `record` is
    /// what the request says of itself. Nothing changes: the host part of the
    /// start may still fail.
    pub fn admit_init(
        &self,
        request: &HeliosTranslationSessionInitV1,
        record: Result<(), InitRefusal>,
    ) -> (r: Result<u32, SessionRefusal>)
        requires
            self.wf(),
        ensures
            r == (match init_refusal(self@, *request, record) {
                Some(e) => Err::<u32, SessionRefusal>(e),
                None => Ok(request.endpoint_capacity),
            }),
    {
        self.check_start()?;
        if let Err(e) = record {
            return Err(SessionRefusal::Init(e));
        }
        if let Some(reason) = check_generation(
            request.package_generation,
            self.package_generation,
        ) {
            return Err(
                SessionRefusal::Init(
                    InitRefusal::Generation { field: GenerationField::Package, reason },
                ),
            );
        }
        if request.capset != self.capset {
            return Err(
                SessionRefusal::Init(
                    InitRefusal::CapsetMismatch { found: request.capset, expected: self.capset },
                ),
            );
        }
        Ok(request.endpoint_capacity)
    }

    fn check_start(&self) -> (r: Result<(), SessionRefusal>)
        ensures
            match start_refusal(self@) {
                Some(e) => r is Err && r->Err_0 == e,
                None => r is Ok,
            },
    {
        match self.phase {
            SessionPhase::Draining => {
                return Err(SessionRefusal::SessionDraining);
            },
            SessionPhase::Live => {
                return Err(SessionRefusal::SessionAlreadyInitialised);
            },
            SessionPhase::Provisional => {},
        }
        if self.pool.is_none() {
            return Err(SessionRefusal::ReplyPoolNotBound);
        }
        Ok(())
    }

    /// Starts the session and returns the answer to send. Fewer endpoints may be
    /// granted than were asked for, never more. `record` is what the answer says of
    /// itself.
    pub fn complete_init(
        &mut self,
        requested_endpoint_capacity: u32,
        granted_endpoint_capacity: u32,
        session_generation: u64,
        capability: HeliosSessionCapability,
        record: Result<(), InitRefusal>,
    ) -> (r: Result<HeliosTranslationSessionReplyV1, SessionRefusal>)
        requires
            old(self).wf(),
        ensures
            final(self).wf(),
            match complete_refusal(
                old(self)@,
                requested_endpoint_capacity,
                granted_endpoint_capacity,
                session_generation,
                capability,
                record,
            ) {
                Some(e) => r == Err::<HeliosTranslationSessionReplyV1, SessionRefusal>(e) && final(
                    self
                )@ == old(self)@,
                None => r == Ok::<HeliosTranslationSessionReplyV1, SessionRefusal>(
                    HeliosTranslationSessionReplyV1 {
                        package_generation: old(self)@.package_generation,
                        session_generation,
                        capability,
                        capset: old(self)@.capset,
                        endpoint_capacity: granted_endpoint_capacity,
                    },
                ) && final(self)@ == started(
                    old(self)@,
                    granted_endpoint_capacity,
                    session_generation,
                    capability,
                ),
            },
    {
        self.check_start()?;
        if capability.is_invalid() {
            return Err(SessionRefusal::CapabilityIsInvalidSentinel);
        }
        if session_generation == 0 {
            return Err(
                SessionRefusal::Init(
                    InitRefusal::Generation {
                        field: GenerationField::Session,
                        reason: GenerationRefusal::Zero,
                    },
                ),
            );
        }
        if let Err(e) = record {
            return Err(SessionRefusal::Init(e));
        }
        if granted_endpoint_capacity > requested_endpoint_capacity {
            return Err(
                SessionRefusal::Init(
                    InitRefusal::EndpointCapacityExceedsRequest {
                        found: granted_endpoint_capacity,
                        requested: requested_endpoint_capacity,
                    },
                ),
            );
        }
        if granted_endpoint_capacity > HELIOS_HTS1_MAX_ENDPOINTS_PER_SESSION {
            return Err(
                SessionRefusal::Init(
                    InitRefusal::EndpointCapacityOutOfRange { found: granted_endpoint_capacity },
                ),
            );
        }
        let ghost before = self@;
        let mut endpoints: [SessionEndpoint; ENDPOINT_SLOTS] = [unassigned();ENDPOINT_SLOTS];
        let mut i: usize = 0;
        while i < granted_endpoint_capacity as usize
            invariant
                i <= granted_endpoint_capacity <= 64,
                forall|j: int|
                    0 <= j < 64 ==> #[trigger] endpoints@[j] == fresh_endpoint(
                        if j < i {
                            (j + 1) as u32
                        } else {
                            0
                        },
                    ),
            decreases granted_endpoint_capacity - i,
        {
            let mut e = endpoints[i];
            e.ring_index = i as u32 + 1;
            endpoints[i] = e;
            i = i + 1;
        }
        self.session_generation = session_generation;
        self.capability = capability;
        self.endpoint_capacity = granted_endpoint_capacity;
        self.endpoints = endpoints;
        self.phase = SessionPhase::Live;
        proof {
            assert(self@ =~= started(
                before,
                granted_endpoint_capacity,
                session_generation,
                capability,
            ));
            assert forall|i: int| 0 <= i < ENDPOINT_SLOTS implies #[trigger] endpoint_ok(
                self@,
                i,
            ) by {}
        }
        Ok(
            HeliosTranslationSessionReplyV1 {
                package_generation: self.package_generation,
                session_generation,
                capability,
                capset: self.capset,
                endpoint_capacity: granted_endpoint_capacity,
            },
        )
    }

    /// The endpoint under an ordinal.
    pub fn endpoint(&self, endpoint_id: u32) -> (r: Result<SessionEndpoint, SessionRefusal>)
        requires
            self.wf(),
        ensures
            r == (if in_range(self@, endpoint_id) {
                Ok::<SessionEndpoint, SessionRefusal>(self@.endpoints[endpoint_id - 1])
            } else {
                Err(out_of_range(self@, endpoint_id))
            }),
    {
        if endpoint_id == 0 || endpoint_id > self.endpoint_capacity {
            return Err(
                SessionRefusal::EndpointOutOfRange {
                    found: endpoint_id,
                    capacity: self.endpoint_capacity,
                },
            );
        }
        Ok(self.endpoints[(endpoint_id - 1) as usize])
    }

    /// The host ring of an endpoint: nonzero, and no other endpoint's.
    pub fn ring_index(&self, endpoint_id: u32) -> (r: Result<u32, SessionRefusal>)
        requires
            self.wf(),
        ensures
            r == (if in_range(self@, endpoint_id) {
                Ok::<u32, SessionRefusal>(endpoint_id)
            } else {
                Err(out_of_range(self@, endpoint_id))
            }),
    {
        let e = self.endpoint(endpoint_id)?;
        assert(endpoint_ok(self@, endpoint_id - 1));
        Ok(e.ring_index)
    }

    fn set_endpoint(&mut self, endpoint_id: u32, e: SessionEndpoint)
        requires
            old(self).wf(),
            in_range(old(self)@, endpoint_id),
            e.ring_index == old(self)@.endpoints[endpoint_id - 1].ring_index,
            e.fifo_depth <= HELIOS_HTS1_MAX_HOST_DISPATCH_FIFO_DEPTH,
            e.next_serial > 0,
            e.descriptor.endpoint_id == 0 || e.descriptor.endpoint_id == endpoint_id,
        ensures
            final(self).wf(),
            final(self)@ == with_endpoint(old(self)@, endpoint_id, e),
    {
        let ghost before = self@;
        self.endpoints[(endpoint_id - 1) as usize] = e;
        proof {
            assert(self@ =~= with_endpoint(before, endpoint_id, e));
            assert forall|i: int| 0 <= i < ENDPOINT_SLOTS implies #[trigger] endpoint_ok(
                self@,
                i,
            ) by {
                assert(endpoint_ok(before, i));
            }
        }
    }

    /// Queues one entry for the host and returns its serial, in order of arrival.
    pub fn enqueue_host_dispatch(&mut self, endpoint_id: u32) -> (r: Result<u64, SessionRefusal>)
        requires
            old(self).wf(),
        ensures
            final(self).wf(),
            match enqueue_refusal(old(self)@, endpoint_id) {
                Some(e) => r == Err::<u64, SessionRefusal>(e) && final(self)@ == old(self)@,
                None => r == Ok::<u64, SessionRefusal>(
                    old(self)@.endpoints[endpoint_id - 1].next_serial,
                ) && final(self)@ == enqueued(old(self)@, endpoint_id),
            },
    {
        match self.phase {
            SessionPhase::Draining => {
                return Err(SessionRefusal::SessionDraining);
            },
            SessionPhase::Provisional => {
                return Err(SessionRefusal::SessionProvisional);
            },
            SessionPhase::Live => {},
        }
        let mut e = self.endpoint(endpoint_id)?;
        assert(endpoint_ok(self@, endpoint_id - 1));
        if e.fifo_depth >= HELIOS_HTS1_MAX_HOST_DISPATCH_FIFO_DEPTH {
            return Err(
                SessionRefusal::Capacity(
                    HeliosCapacityRefusal { limit: HeliosCapacityLimit::HostDispatchFifoDepth },
                ),
            );
        }
        if e.next_serial == u64::MAX {
            return Err(SessionRefusal::HostDispatchSerialExhausted { endpoint_id });
        }
        let serial: u64 = e.next_serial;
        e.next_serial = serial + 1;
        e.fifo_depth = e.fifo_depth + 1;
        self.set_endpoint(endpoint_id, e);
        Ok(serial)
    }

    /// One entry for the host has retired. This works in every phase.
    pub fn retire_host_dispatch(&mut self, endpoint_id: u32) -> (r: Result<(), SessionRefusal>)
        requires
            old(self).wf(),
        ensures
            final(self).wf(),
            match dequeue_refusal(old(self)@, endpoint_id) {
                Some(e) => r is Err && r->Err_0 == e && final(self)@ == old(self)@,
                None => r is Ok && final(self)@ == dequeued(old(self)@, endpoint_id),
            },
    {
        let mut e = self.endpoint(endpoint_id)?;
        assert(endpoint_ok(self@, endpoint_id - 1));
        if e.fifo_depth == 0 {
            return Err(SessionRefusal::HostDispatchFifoUnderflow { endpoint_id });
        }
        e.fifo_depth = e.fifo_depth - 1;
        self.set_endpoint(endpoint_id, e);
        Ok(())
    }

    /// Counts one more reply snapshot. `byte_rules` says whether its bytes are
    /// within the bounds on one snapshot and on all.
    pub fn admit_snapshot_bytes(
        &mut self,
        bytes: u64,
        byte_rules: Result<(), Hnr2CapacityRefusal>,
    ) -> (r: Result<(), SessionRefusal>)
        requires
            old(self).wf(),
        ensures
            final(self).wf(),
            match snapshot_refusal(old(self)@, byte_rules) {
                Some(e) => r is Err && r->Err_0 == e && final(self)@ == old(self)@,
                None => r is Ok && final(self)@ == (Session {
                    snapshots: (old(self)@.snapshots + 1) as u32,
                    snapshot_bytes: if old(self)@.snapshot_bytes + bytes <= u64::MAX {
                        (old(self)@.snapshot_bytes + bytes) as u64
                    } else {
                        u64::MAX
                    },
                    ..old(self)@
                }),
            },
    {
        if self.phase == SessionPhase::Draining {
            return Err(SessionRefusal::SessionDraining);
        }
        if self.live_snapshots >= MAX_LIVE_SNAPSHOTS {
            return Err(SessionRefusal::Hnr2Capacity(
                Hnr2CapacityRefusal { limit: Hnr2CapacityLimit::LiveSnapshots },
            ));
        }
        if let Err(e) = byte_rules {
            return Err(SessionRefusal::Hnr2Capacity(e));
        }
        let ghost before = self@;
        self.live_snapshots = self.live_snapshots + 1;
        self.live_snapshot_bytes = self.live_snapshot_bytes.saturating_add(bytes);
        assert forall|i: int| 0 <= i < ENDPOINT_SLOTS implies #[trigger] endpoint_ok(self@, i) by {
            assert(endpoint_ok(before, i));
        }
        Ok(())
    }

    /// Uncounts a snapshot. This works in every phase.
    pub fn release_snapshot_bytes(&mut self, bytes: u64) -> (r: Result<(), SessionRefusal>)
        requires
            old(self).wf(),
        ensures
            final(self).wf(),
            if old(self)@.snapshots == 0 || bytes > old(self)@.snapshot_bytes {
                r is Err && r->Err_0 == SessionRefusal::SnapshotAccountingUnderflow && final(self)@
                    == old(self)@
            } else {
                r is Ok && final(self)@ == (Session {
                    snapshots: (old(self)@.snapshots - 1) as u32,
                    snapshot_bytes: (old(self)@.snapshot_bytes - bytes) as u64,
                    ..old(self)@
                })
            },
    {
        if self.live_snapshots == 0 || bytes > self.live_snapshot_bytes {
            return Err(SessionRefusal::SnapshotAccountingUnderflow);
        }
        let ghost before = self@;
        self.live_snapshots = self.live_snapshots - 1;
        self.live_snapshot_bytes = self.live_snapshot_bytes - bytes;
        assert forall|i: int| 0 <= i < ENDPOINT_SLOTS implies #[trigger] endpoint_ok(self@, i) by {
            assert(endpoint_ok(before, i));
        }
        Ok(())
    }

    /// Declares an endpoint, or declares it again with the same words.
    pub fn declare_endpoint(&mut self, endpoint: HeliosTranslationEndpointV1) -> (r: Result<
        (),
        SessionRefusal,
    >)
        requires
            old(self).wf(),
        ensures
            final(self).wf(),
            match declare_refusal(old(self)@, endpoint) {
                Some(e) => r is Err && r->Err_0 == e && final(self)@ == old(self)@,
                None => r is Ok && final(self)@ == declared(old(self)@, endpoint),
            },
    {
        let mut e = self.endpoint(endpoint.endpoint_id)?;
        assert(endpoint_ok(self@, endpoint.endpoint_id - 1));
        if e.descriptor.endpoint_id != 0 {
            if e.descriptor != endpoint {
                return Err(
                    SessionRefusal::EndpointDescriptorConflict {
                        endpoint_id: endpoint.endpoint_id,
                    },
                );
            }
            assert(self@.endpoints =~= declared(self@, endpoint).endpoints);
            return Ok(());
        }
        e.descriptor = endpoint;
        self.set_endpoint(endpoint.endpoint_id, e);
        Ok(())
    }

    /// Attaches a context. The first context of an endpoint declares it; every later
    /// one is compared with that declaration. `shape` is what the packet says of
    /// itself.
    pub fn attach(
        &mut self,
        packet: &HeliosQueueAttachV1,
        shape: Result<AttachShape, AttachRefusal>,
    ) -> (r: Result<HeliosAttachAdmission, SessionRefusal>)
        requires
            old(self).wf(),
        ensures
            final(self).wf(),
            match attach_refusal(old(self)@, *packet, shape) {
                Some(e) => r == Err::<HeliosAttachAdmission, SessionRefusal>(e) && final(self)@
                    == old(self)@,
                None => r == Ok::<HeliosAttachAdmission, SessionRefusal>(
                    HeliosAttachAdmission {
                        context_generation: packet.context_generation,
                        endpoint_id: packet.endpoint_id,
                        engine_class: shape->Ok_0.engine_class->0,
                        kind: shape->Ok_0.kind,
                    },
                ) && final(self)@ == attached(old(self)@, *packet),
            },
    {
        match self.phase {
            SessionPhase::Draining => {
                return Err(
                    SessionRefusal::Attach(
                        AttachRefusal::Capability(CapabilityRefusal::SessionInvalidated),
                    ),
                );
            },
            SessionPhase::Provisional => {
                return Err(SessionRefusal::SessionProvisional);
            },
            SessionPhase::Live => {},
        }
        if self.attached_contexts == u32::MAX {
            return Err(SessionRefusal::AttachedContextOverflow);
        }
        let recorded = self.endpoint(packet.endpoint_id)?;
        assert(endpoint_ok(self@, packet.endpoint_id - 1));
        let expected = if recorded.descriptor.endpoint_id == 0 {
            HeliosTranslationEndpointV1 {
                endpoint_id: packet.endpoint_id,
                engine_class: packet.engine_class,
                queue_family: packet.queue_family,
                queue_index: packet.queue_index,
            }
        } else {
            recorded.descriptor
        };
        let shape = match shape {
            Ok(s) => s,
            Err(e) => {
                return Err(SessionRefusal::Attach(e));
            },
        };
        let class = match self.check_packet(packet, expected, shape) {
            Ok(c) => c,
            Err(e) => {
                return Err(SessionRefusal::Attach(e));
            },
        };
        let ghost before = self@;
        self.declare_endpoint(expected)?;
        let ghost middle = self@;
        self.highest_context_generation = packet.context_generation;
        self.attached_contexts = self.attached_contexts + 1;
        assert forall|i: int| 0 <= i < ENDPOINT_SLOTS implies #[trigger] endpoint_ok(self@, i) by {
            assert(endpoint_ok(middle, i));
        }
        Ok(
            HeliosAttachAdmission {
                context_generation: packet.context_generation,
                endpoint_id: packet.endpoint_id,
                engine_class: class,
                kind: shape.kind,
            },
        )
    }

    fn check_packet(
        &self,
        packet: &HeliosQueueAttachV1,
        expected: HeliosTranslationEndpointV1,
        shape: AttachShape,
    ) -> (r: Result<HeliosEngineClass, AttachRefusal>)
        requires
            expected == expected_endpoint(self@, *packet),
        ensures
            match packet_refusal(self@, *packet, shape) {
                Some(e) => r == Err::<HeliosEngineClass, AttachRefusal>(e),
                None => r is Ok && shape.engine_class == Some(r->Ok_0),
            },
    {
        if let Some(reason) = check_generation(packet.package_generation, self.package_generation) {
            return Err(AttachRefusal::Generation { field: GenerationField::Package, reason });
        }
        if let Some(reason) = check_generation(packet.session_generation, self.session_generation) {
            return Err(AttachRefusal::Generation { field: GenerationField::Session, reason });
        }
        if packet.capability_low != self.capability.low || packet.capability_high
            != self.capability.high {
            return Err(AttachRefusal::Capability(CapabilityRefusal::Mismatch));
        }
        if packet.engine_class != expected.engine_class {
            return Err(
                AttachRefusal::EngineClassMismatch {
                    found: packet.engine_class,
                    expected: expected.engine_class,
                },
            );
        }
        if packet.queue_family != expected.queue_family {
            return Err(
                AttachRefusal::QueueFamilyMismatch {
                    found: packet.queue_family,
                    expected: expected.queue_family,
                },
            );
        }
        if packet.queue_index != expected.queue_index {
            return Err(
                AttachRefusal::QueueIndexMismatch {
                    found: packet.queue_index,
                    expected: expected.queue_index,
                },
            );
        }
        let class = match check_endpoint(&expected, self.endpoint_capacity, shape.engine_class) {
            Ok(c) => c,
            Err(e) => {
                return Err(AttachRefusal::Endpoint(e));
            },
        };
        if packet.context_generation == 0 {
            return Err(
                AttachRefusal::Generation {
                    field: GenerationField::Context,
                    reason: GenerationRefusal::Zero,
                },
            );
        }
        if packet.context_generation <= self.highest_context_generation {
            return Err(
                AttachRefusal::Generation {
                    field: GenerationField::Context,
                    reason: GenerationRefusal::NotMonotonic {
                        found: packet.context_generation,
                        highest: self.highest_context_generation,
                    },
                },
            );
        }
        Ok(class)
    }

    /// A context went away. Its generation stays spent. This works in every phase.
    pub fn detach(&mut self, context_generation: u64) -> (r: Result<(), SessionRefusal>)
        requires
            old(self).wf(),
        ensures
            final(self).wf(),
            match detach_refusal(old(self)@, context_generation) {
                Some(e) => r is Err && r->Err_0 == e && final(self)@ == old(self)@,
                None => r is Ok && final(self)@ == (Session {
                    contexts: (old(self)@.contexts - 1) as u32,
                    ..old(self)@
                }),
            },
    {
        if context_generation == 0 || context_generation > self.highest_context_generation
            || self.attached_contexts == 0 {
            return Err(SessionRefusal::DetachUnknownContext { context_generation });
        }
        let ghost before = self@;
        self.attached_contexts = self.attached_contexts - 1;
        assert forall|i: int| 0 <= i < ENDPOINT_SLOTS implies #[trigger] endpoint_ok(self@, i) by {
            assert(endpoint_ok(before, i));
        }
        Ok(())
    }

    /// Judges a control render and takes its reply slot, if it has one. This works
    /// before the session is started too: the start itself is a control render.
    /// `write_access` is the access word that is write access and nothing else.
    pub fn admit_control_render(
        &mut self,
        request: &ControlRenderRequest,
        write_access: u32,
    ) -> (r: Result<ControlRenderAdmission, SessionRefusal>)
        requires
            old(self).wf(),
        ensures
            final(self).wf(),
            match control_refusal(old(self)@, *request, write_access) {
                Some(e) => r == Err::<ControlRenderAdmission, SessionRefusal>(e) && final(self)@
                    == old(self)@,
                None => if request.has_reply {
                    r == Ok::<ControlRenderAdmission, SessionRefusal>(
                        slot_admission(
                            request.reply_offset,
                            request.reply_capacity_bytes,
                            request.reply_slot_generation,
                            request.batch_token,
                        ),
                    ) && final(self)@ == checked_out(
                        old(self)@,
                        request.reply_offset,
                        request.reply_capacity_bytes,
                        request.reply_slot_generation,
                        request.batch_token,
                        request.owner_context_generation,
                    )
                } else {
                    r == Ok::<ControlRenderAdmission, SessionRefusal>(
                        ControlRenderAdmission {
                            slot_index: None,
                            slot_generation: 0,
                            reply_offset: 0,
                            reply_capacity_bytes: 0,
                            batch_token: request.batch_token,
                        },
                    ) && final(self)@ == old(self)@
                },
            },
    {
        if self.phase == SessionPhase::Draining {
            return Err(SessionRefusal::SessionDraining);
        }
        if !request.on_control_context {
            return Err(SessionRefusal::ControlRenderNotOnControlContext);
        }
        if !request.has_reply {
            if request.allocation_count != 0 {
                return Err(
                    SessionRefusal::ControlRenderAllocationWithoutReply {
                        found: request.allocation_count,
                    },
                );
            }
            return Ok(
                ControlRenderAdmission {
                    slot_index: None,
                    slot_generation: 0,
                    reply_offset: 0,
                    reply_capacity_bytes: 0,
                    batch_token: request.batch_token,
                },
            );
        }
        let pool_generation: u64 = match self.pool {
            Some(p) => p.allocation_generation,
            None => {
                return Err(SessionRefusal::ReplyPoolNotBound);
            },
        };
        if request.allocation_count != 1 {
            return Err(
                SessionRefusal::ControlRenderAllocationCountNotOne {
                    found: request.allocation_count,
                },
            );
        }
        if !request.names_reply_pool {
            return Err(SessionRefusal::ControlRenderForeignAllocation);
        }
        if request.expected_allocation_generation != pool_generation {
            return Err(
                SessionRefusal::ControlRenderPoolGenerationStale {
                    found: request.expected_allocation_generation,
                    expected: pool_generation,
                },
            );
        }
        if request.access_flags != write_access {
            return Err(SessionRefusal::ControlRenderAccessNotWrite { found: request.access_flags });
        }
        self.checkout_reply_slot(
            request.reply_offset,
            request.reply_capacity_bytes,
            request.reply_slot_generation,
            request.batch_token,
            request.owner_context_generation,
        )
    }

    /// Judges the reply of an execution and takes its slot. Only a started session
    /// does so, and only for an attached context. `write_access` is the access word
    /// that is write access and nothing else.
    pub fn admit_execution_reply(
        &mut self,
        request: &ExecutionReplyRequest,
        write_access: u32,
    ) -> (r: Result<ControlRenderAdmission, SessionRefusal>)
        requires
            old(self).wf(),
        ensures
            final(self).wf(),
            match execution_refusal(old(self)@, *request, write_access) {
                Some(e) => r == Err::<ControlRenderAdmission, SessionRefusal>(e) && final(self)@
                    == old(self)@,
                None => r == Ok::<ControlRenderAdmission, SessionRefusal>(
                    slot_admission(
                        request.reply_offset,
                        request.reply_capacity_bytes,
                        request.reply_slot_generation,
                        request.batch_token,
                    ),
                ) && final(self)@ == checked_out(
                    old(self)@,
                    request.reply_offset,
                    request.reply_capacity_bytes,
                    request.reply_slot_generation,
                    request.batch_token,
                    request.owner_context_generation,
                ),
            },
    {
        match self.phase {
            SessionPhase::Provisional => {
                return Err(SessionRefusal::SessionProvisional);
            },
            SessionPhase::Draining => {
                return Err(SessionRefusal::SessionDraining);
            },
            SessionPhase::Live => {},
        }
        let pool_generation: u64 = match self.pool {
            Some(p) => p.allocation_generation,
            None => {
                return Err(SessionRefusal::ReplyPoolNotBound);
            },
        };
        if !request.names_reply_pool {
            return Err(SessionRefusal::ControlRenderForeignAllocation);
        }
        if request.expected_allocation_generation != pool_generation {
            return Err(
                SessionRefusal::ControlRenderPoolGenerationStale {
                    found: request.expected_allocation_generation,
                    expected: pool_generation,
                },
            );
        }
        if request.access_flags != write_access {
            return Err(SessionRefusal::ControlRenderAccessNotWrite { found: request.access_flags });
        }
        if request.owner_context_generation == 0 {
            return Err(SessionRefusal::ControlRenderSlotGenerationUnknown { found: 0 });
        }
        self.checkout_reply_slot(
            request.reply_offset,
            request.reply_capacity_bytes,
            request.reply_slot_generation,
            request.batch_token,
            request.owner_context_generation,
        )
    }

    fn checkout_reply_slot(
        &mut self,
        reply_offset: u64,
        reply_capacity_bytes: u64,
        reply_slot_generation: u64,
        batch_token: u64,
        owner_context_generation: u64,
    ) -> (r: Result<ControlRenderAdmission, SessionRefusal>)
        requires
            old(self).wf(),
            old(self)@.pool is Some,
        ensures
            final(self).wf(),
            match checkout_refusal(old(self)@, reply_offset, reply_slot_generation) {
                Some(e) => r == Err::<ControlRenderAdmission, SessionRefusal>(e) && final(self)@
                    == old(self)@,
                None => r == Ok::<ControlRenderAdmission, SessionRefusal>(
                    slot_admission(
                        reply_offset,
                        reply_capacity_bytes,
                        reply_slot_generation,
                        batch_token,
                    ),
                ) && final(self)@ == checked_out(
                    old(self)@,
                    reply_offset,
                    reply_capacity_bytes,
                    reply_slot_generation,
                    batch_token,
                    owner_context_generation,
                ),
            },
    {
        let selected: u64 = reply_offset / HELIOS_HVM1_REPLY_SLOT_BYTES;
        if selected >= REPLY_SLOTS as u64 {
            return Err(
                SessionRefusal::ControlRenderSlotIndexOutOfRange { found: selected as usize },
            );
        }
        let index: usize = selected as usize;
        let slot: ReplySlot = match self.pool {
            Some(p) => p.slots[index],
            None => {
                return Err(SessionRefusal::ReplyPoolNotBound);
            },
        };
        if slot.state != SlotState::Idle {
            return Err(SessionRefusal::ControlRenderSlotBusy { in_flight: slot.generation });
        }
        if reply_slot_generation <= slot.retired_generation {
            return Err(
                SessionRefusal::ControlRenderSlotGenerationStale {
                    found: reply_slot_generation,
                    watermark: slot.retired_generation,
                },
            );
        }
        self.set_slot(
            index,
            ReplySlot {
                state: SlotState::InFlight,
                generation: reply_slot_generation,
                retired_generation: slot.retired_generation,
                owner_context_generation,
                batch_token,
                reply_offset,
                reply_capacity_bytes,
                c51_value: 0,
            },
        );
        Ok(
            ControlRenderAdmission {
                slot_index: Some(index),
                slot_generation: reply_slot_generation,
                reply_offset,
                reply_capacity_bytes,
                batch_token,
            },
        )
    }

    fn set_slot(&mut self, index: usize, slot: ReplySlot)
        requires
            old(self).wf(),
            old(self)@.pool is Some,
            index < REPLY_SLOTS,
            slot_ok(slot),
        ensures
            final(self).wf(),
            final(self)@ == with_slot(old(self)@, index as int, slot),
    {
        let ghost before = self@;
        if let Some(p) = self.pool {
            let mut pool = p;
            pool.slots[index] = slot;
            self.pool = Some(pool);
            proof {
                assert(self@ =~= with_slot(before, index as int, slot));
                assert forall|i: int| 0 <= i < ENDPOINT_SLOTS implies #[trigger] endpoint_ok(
                    self@,
                    i,
                ) by {
                    assert(endpoint_ok(before, i));
                }
                assert forall|i: int| 0 <= i < REPLY_SLOTS implies #[trigger] slot_ok(
                    self@.pool->0.slots[i],
                ) by {
                    assert(slot_ok(before.pool->0.slots[i]));
                }
            }
        }
    }

    /// The generation of the bound pool.
    pub fn reply_pool_generation(&self) -> (r: Option<u64>)
        ensures
            r == (match self@.pool {
                Some(p) => Some(p.generation),
                None => None,
            }),
    {
        match self.pool {
            Some(p) => Some(p.allocation_generation),
            None => None,
        }
    }

    fn slot_in_use(&self, slot_index: usize, slot_generation: u64) -> (r: Result<
        ReplySlot,
        SessionRefusal,
    >)
        requires
            self.wf(),
        ensures
            match in_use_refusal(self@, slot_index, slot_generation) {
                Some(e) => r == Err::<ReplySlot, SessionRefusal>(e),
                None => r == Ok::<ReplySlot, SessionRefusal>(
                    self@.pool->0.slots[slot_index as int],
                ),
            },
    {
        if self.phase == SessionPhase::Draining {
            return Err(SessionRefusal::SessionDraining);
        }
        match self.pool {
            None => Err(SessionRefusal::ReplyPoolNotBound),
            Some(p) => {
                if slot_index >= REPLY_SLOTS {
                    return Err(
                        SessionRefusal::ControlRenderSlotIndexOutOfRange { found: slot_index },
                    );
                }
                let slot = p.slots[slot_index];
                if slot.state == SlotState::Idle || slot.generation != slot_generation {
                    return Err(
                        SessionRefusal::ControlRenderSlotGenerationUnknown {
                            found: slot_generation,
                        },
                    );
                }
                Ok(slot)
            },
        }
    }

    /// The host has answered in a slot.
    pub fn publish_slot(
        &mut self,
        slot_index: usize,
        slot_generation: u64,
        c51_value: u64,
    ) -> (r: Result<(), SessionRefusal>)
        requires
            old(self).wf(),
        ensures
            final(self).wf(),
            match in_use_refusal(old(self)@, slot_index, slot_generation) {
                Some(e) => r is Err && r->Err_0 == e && final(self)@ == old(self)@,
                None => r is Ok && final(self)@ == slot_published(
                    old(self)@,
                    slot_index as int,
                    c51_value,
                ),
            },
    {
        let mut slot = self.slot_in_use(slot_index, slot_generation)?;
        assert(slot_ok(self@.pool->0.slots[slot_index as int]));
        slot.state = SlotState::Published;
        slot.c51_value = c51_value;
        self.set_slot(slot_index, slot);
        Ok(())
    }

    /// The answer in a slot was consumed. Only now the slot can be taken again.
    pub fn retire_slot(
        &mut self,
        slot_index: usize,
        slot_generation: u64,
    ) -> (r: Result<(), SessionRefusal>)
        requires
            old(self).wf(),
        ensures
            final(self).wf(),
            match retire_refusal(old(self)@, slot_index, slot_generation) {
                Some(e) => r is Err && r->Err_0 == e && final(self)@ == old(self)@,
                None => r is Ok && final(self)@ == slot_freed(
                    old(self)@,
                    slot_index as int,
                    slot_generation,
                ),
            },
    {
        let slot = self.slot_in_use(slot_index, slot_generation)?;
        if slot.state != SlotState::Published {
            return Err(SessionRefusal::ControlRenderSlotBusy { in_flight: slot.generation });
        }
        self.set_slot(slot_index, idle(slot_generation));
        Ok(())
    }

    /// Gives back a slot in flight without an answer. This works while the session
    /// drains too. The generation is spent all the same.
    pub fn abort_slot(
        &mut self,
        slot_index: usize,
        slot_generation: u64,
    ) -> (r: Result<(), SessionRefusal>)
        requires
            old(self).wf(),
        ensures
            final(self).wf(),
            match abort_refusal(old(self)@, slot_index, slot_generation) {
                Some(e) => r is Err && r->Err_0 == e && final(self)@ == old(self)@,
                None => r is Ok && final(self)@ == slot_freed(
                    old(self)@,
                    slot_index as int,
                    slot_generation,
                ),
            },
    {
        match self.pool {
            None => {
                return Err(SessionRefusal::ReplyPoolNotBound);
            },
            Some(p) => {
                if slot_index >= REPLY_SLOTS {
                    return Err(
                        SessionRefusal::ControlRenderSlotIndexOutOfRange { found: slot_index },
                    );
                }
                let slot = p.slots[slot_index];
                if slot.state != SlotState::InFlight || slot.generation != slot_generation {
                    return Err(
                        SessionRefusal::ControlRenderSlotGenerationUnknown {
                            found: slot_generation,
                        },
                    );
                }
            },
        }
        self.set_slot(slot_index, idle(slot_generation));
        Ok(())
    }
}

fn unassigned() -> (e: SessionEndpoint)
    ensures
        e == fresh_endpoint(0),
{
    SessionEndpoint {
        descriptor: HeliosTranslationEndpointV1 {
            endpoint_id: 0,
            engine_class: 0,
            queue_family: 0,
            queue_index: 0,
        },
        ring_index: 0,
        fifo_depth: 0,
        next_serial: 1,
    }
}

fn idle(retired_generation: u64) -> (s: ReplySlot)
    ensures
        s == idle_slot(retired_generation),
{
    ReplySlot {
        state: SlotState::Idle,
        generation: 0,
        retired_generation,
        owner_context_generation: 0,
        batch_token: 0,
        reply_offset: 0,
        reply_capacity_bytes: 0,
        c51_value: 0,
    }
}

fn check_endpoint(
    endpoint: &HeliosTranslationEndpointV1,
    capacity: u32,
    class: Option<HeliosEngineClass>,
) -> (r: Result<HeliosEngineClass, EndpointRefusal>)
    ensures
        match endpoint_refusal(*endpoint, capacity, class) {
            Some(e) => r == Err::<HeliosEngineClass, EndpointRefusal>(e),
            None => r is Ok && class == Some(r->Ok_0),
        },
{
    if endpoint.endpoint_id == 0 || endpoint.endpoint_id > capacity {
        return Err(EndpointRefusal::OutOfRange { found: endpoint.endpoint_id, capacity });
    }
    if endpoint.queue_family == u32::MAX && endpoint.queue_index == u32::MAX {
        return Err(EndpointRefusal::ControlSentinelEndpoint);
    }
    match class {
        Some(c) => Ok(c),
        None => Err(EndpointRefusal::EngineClassUnknown { found: endpoint.engine_class }),
    }
}

/// The engine class of an endpoint. `class` is what its number stands for, if it
/// stands for one.
pub fn engine_class_of(
    endpoint: &HeliosTranslationEndpointV1,
    endpoint_capacity: u32,
    class: Option<HeliosEngineClass>,
) -> (r: Result<HeliosEngineClass, SessionRefusal>)
    ensures
        match endpoint_refusal(*endpoint, endpoint_capacity, class) {
            Some(e) => r == Err::<HeliosEngineClass, SessionRefusal>(
                SessionRefusal::Attach(AttachRefusal::Endpoint(e)),
            ),
            None => r is Ok && class == Some(r->Ok_0),
        },
{
    match check_endpoint(endpoint, endpoint_capacity, class) {
        Ok(c) => Ok(c),
        Err(e) => Err(SessionRefusal::Attach(AttachRefusal::Endpoint(e))),
    }
}

/// The number under which a limit is counted.
pub open spec fn limit_code(limit: HeliosCapacityLimit) -> u32 {
    match limit {
        HeliosCapacityLimit::SessionsPerProcess => 1,
        HeliosCapacityLimit::RingIndex => 2,
        HeliosCapacityLimit::OutstandingContextBatches => 3,
        HeliosCapacityLimit::ContextBatchBytes => 4,
        HeliosCapacityLimit::HostDispatchFifoDepth => 5,
    }
}

pub fn capacity_limit_code(limit: HeliosCapacityLimit) -> (n: u32)
    ensures
        n == limit_code(limit),
{
    match limit {
        HeliosCapacityLimit::SessionsPerProcess => 1,
        HeliosCapacityLimit::RingIndex => 2,
        HeliosCapacityLimit::OutstandingContextBatches => 3,
        HeliosCapacityLimit::ContextBatchBytes => 4,
        HeliosCapacityLimit::HostDispatchFifoDepth => 5,
    }
}

/// Compares a repeated session generation with the session's own.
pub fn check_session_generation(found: u64, session: &TranslationSession) -> (r: Result<
    (),
    SessionRefusal,
>)
    ensures
        match generation_refusal(found, session@.generation) {
            Some(reason) => r is Err && r->Err_0 == SessionRefusal::Init(
                InitRefusal::Generation { field: GenerationField::Session, reason },
            ),
            None => r is Ok,
        },
{
    match check_generation(found, session.session_generation) {
        Some(reason) => Err(
            SessionRefusal::Init(
                InitRefusal::Generation { field: GenerationField::Session, reason },
            ),
        ),
        None => Ok(()),
    }
}

/// Each limit is counted under a number of its own, and none under zero.
pub proof fn law_limit_codes_are_distinct(a: HeliosCapacityLimit, b: HeliosCapacityLimit)
    ensures
        limit_code(a) != 0,
        limit_code(a) == limit_code(b) ==> a == b,
{
}

/// A session that drains takes nothing on any more: no pool, no start, no context,
/// no render, no reply, no host entry, no snapshot, and no answer.
pub proof fn law_draining_takes_nothing_on(
    v: Session,
    role: Hvm1Role,
    size: u64,
    generation: u64,
    init: HeliosTranslationSessionInitV1,
    record: Result<(), InitRefusal>,
    packet: HeliosQueueAttachV1,
    shape: Result<AttachShape, AttachRefusal>,
    control: ControlRenderRequest,
    execution: ExecutionReplyRequest,
    write_access: u32,
    endpoint_id: u32,
    byte_rules: Result<(), Hnr2CapacityRefusal>,
    index: usize,
)
    requires
        v.phase == SessionPhase::Draining,
    ensures
        bind_refusal(v, role, size, generation) is Some,
        init_refusal(v, init, record) is Some,
        attach_refusal(v, packet, shape) is Some,
        control_refusal(v, control, write_access) is Some,
        execution_refusal(v, execution, write_access) is Some,
        enqueue_refusal(v, endpoint_id) is Some,
        snapshot_refusal(v, byte_rules) is Some,
        in_use_refusal(v, index, generation) is Some,
        retire_refusal(v, index, generation) is Some,
{
}

/// A session that drains stays so under everything that still works in it.
pub proof fn law_draining_is_terminal(v: Session, endpoint_id: u32, index: int, generation: u64)
    requires
        v.phase == SessionPhase::Draining,
    ensures
        dequeued(v, endpoint_id).phase == SessionPhase::Draining,
        slot_freed(v, index, generation).phase == SessionPhase::Draining,
        draining(v).phase == SessionPhase::Draining,
{
}

/// A generation that was freed in a slot never comes back there: neither it nor any
/// lower one can be checked out again.
pub proof fn law_spent_slot_generations_stay_spent(
    v: Session,
    index: usize,
    generation: u64,
    reply_offset: u64,
    replay: u64,
)
    requires
        session_wf(v),
        retire_refusal(v, index, generation) is None || abort_refusal(v, index, generation)
            is None,
        slot_of(reply_offset) == index,
        replay <= generation,
    ensures
        checkout_refusal(slot_freed(v, index as int, generation), reply_offset, replay) == Some(
            SessionRefusal::ControlRenderSlotGenerationStale {
                found: replay,
                watermark: generation,
            },
        ),
        generation > v.pool->0.slots[index as int].retired_generation,
{
    assert(slot_ok(v.pool->0.slots[index as int]));
}

/// A slot in use cannot be taken by another render, whatever it asks.
pub proof fn law_one_checkout_one_render(
    v: Session,
    reply_offset: u64,
    capacity: u64,
    generation: u64,
    batch_token: u64,
    owner: u64,
    another: u64,
)
    requires
        session_wf(v),
        v.pool is Some,
        checkout_refusal(v, reply_offset, generation) is None,
    ensures
        ({
            let taken = checked_out(v, reply_offset, capacity, generation, batch_token, owner);
            checkout_refusal(taken, reply_offset, another) == Some(
                SessionRefusal::ControlRenderSlotBusy { in_flight: generation },
            )
        }),
{
}

/// What happens in one slot leaves the others as they are.
pub proof fn law_slots_are_independent(v: Session, index: int, other: int, s: ReplySlot)
    requires
        session_wf(v),
        v.pool is Some,
        0 <= index < REPLY_SLOTS,
        0 <= other < REPLY_SLOTS,
        other != index,
    ensures
        with_slot(v, index, s).pool->0.slots[other] == v.pool->0.slots[other],
{
}

/// Context generations only go up: a context that was attached cannot be attached
/// again under the same or a lower generation, not even after it went away.
pub proof fn law_context_generations_stay_spent(
    v: Session,
    packet: HeliosQueueAttachV1,
    shape: Result<AttachShape, AttachRefusal>,
    later: HeliosQueueAttachV1,
    later_shape: Result<AttachShape, AttachRefusal>,
)
    requires
        session_wf(v),
        attach_refusal(v, packet, shape) is None,
        later.context_generation <= packet.context_generation,
    ensures
        attached(v, packet).highest_context > v.highest_context,
        attach_refusal(attached(v, packet), later, later_shape) is Some,
        attach_refusal(
            Session { contexts: v.contexts, ..attached(v, packet) },
            later,
            later_shape,
        ) is Some,
{
}

/// Every granted endpoint owns a nonzero ring that no other endpoint owns.
pub proof fn law_rings_are_distinct(v: Session, a: u32, b: u32)
    requires
        session_wf(v),
        in_range(v, a),
        in_range(v, b),
    ensures
        v.endpoints[a - 1].ring_index != 0,
        v.endpoints[a - 1].ring_index == v.endpoints[b - 1].ring_index ==> a == b,
{
    assert(endpoint_ok(v, a - 1));
    assert(endpoint_ok(v, b - 1));
}

/// Retiring a host entry undoes its queueing, but the serial stays spent.
pub proof fn law_dispatch_serials_go_up(v: Session, endpoint_id: u32)
    requires
        session_wf(v),
        enqueue_refusal(v, endpoint_id) is None,
    ensures
        ({
            let after = dequeued(enqueued(v, endpoint_id), endpoint_id);
            after.endpoints[endpoint_id - 1].fifo_depth == v.endpoints[endpoint_id
                - 1].fifo_depth && after.endpoints[endpoint_id - 1].next_serial
                == v.endpoints[endpoint_id - 1].next_serial + 1
        }),
        dequeue_refusal(enqueued(v, endpoint_id), endpoint_id) is None,
{
    assert(endpoint_ok(v, endpoint_id - 1));
}

} // verus!
