//! The native render path of one context: the assembly of a batch from its
//! fragments, the staging pool, the output patches, the physical capabilities,
//! and the outer submissions.
//!
//! What a record says of itself alone is judged elsewhere; that outcome comes in
//! as an argument, and what depends on the context is judged here.

use vstd::prelude::*;
use crate::protocol::HeliosOuterSubmitRejection;
use crate::protocol::Hnr2CapacityLimit;
use crate::protocol::Hnr2CapacityRefusal;
use crate::protocol::Hnr2DmaReject;
use crate::protocol::Hnr2Reject;
use crate::protocol::Hnr2TableReject;

verus! {

pub const HELIOS_HNR2_MAX_USE_RECORDS: u32 = 4096;
pub const HELIOS_HNR2_MAX_PATCH_RECORDS: u32 = 8192;
pub const HELIOS_HNR2_MAX_OUTPUT_PATCHES: u32 = 4096;
pub const HELIOS_HNR2_MAX_OUTSTANDING_SUBMISSIONS: u32 = 64;
pub const HELIOS_HNR2_SLOT_POOL_BYTES: u64 = 0xF0_0000;
pub const HELIOS_HNR2_HEADER_SIZE: u16 = 112;
pub const HELIOS_HVC1_DMA_BUFFER_BYTES: u32 = 262144;

/// Why an operation of the render path is refused.
#[allow(inconsistent_fields)]
#[derive(Debug, Clone, Copy, PartialEq, Eq, Structural)]
pub enum RenderRefusal {
    Header(Hnr2Reject),
    Table(Hnr2TableReject),
    Capacity(Hnr2CapacityRefusal),
    /// The list of patch locations is too short for one location per use.
    PatchListCapacityExceeded { needed: u32, capacity: u32 },
    /// More is given back than was taken.
    StagingUnderflow,
    Dma(Hnr2DmaReject),
    /// An allocation that has a place was given another one.
    PlacementNotRepeatable,
    /// The capability table does not fit its buffer.
    CapabilityTableTooLarge { needed: u64, capacity: u32 },
    /// A queue context asked for a reply, which only the control context has.
    ReplyOnQueueContext,
    OuterSubmit(HeliosOuterSubmitRejection),
}

/// The number under which a rejected submission is counted.
pub open spec fn submit_code(reject: HeliosOuterSubmitRejection) -> u32 {
    match reject {
        HeliosOuterSubmitRejection::Magic { .. } => 0x0901,
        HeliosOuterSubmitRejection::AbiVersion { .. } => 0x0902,
        HeliosOuterSubmitRejection::StructSize { .. } => 0x0903,
        HeliosOuterSubmitRejection::PrivateDataSize { .. } => 0x0904,
        HeliosOuterSubmitRejection::PackageGeneration { .. } => 0x0905,
        HeliosOuterSubmitRejection::SessionGeneration { .. } => 0x0906,
        HeliosOuterSubmitRejection::ContextGeneration { .. } => 0x0907,
        HeliosOuterSubmitRejection::EndpointId { .. } => 0x0908,
        HeliosOuterSubmitRejection::NotD3D12VirtualContext { .. } => 0x0909,
        HeliosOuterSubmitRejection::BatchIdZero => 0x090A,
        HeliosOuterSubmitRejection::BatchIdNotIncreasing { .. } => 0x090B,
        HeliosOuterSubmitRejection::Hob1BytesZero => 0x090C,
        HeliosOuterSubmitRejection::Hob1BytesBelowHeader { .. } => 0x090D,
        HeliosOuterSubmitRejection::Hob1BytesAboveLimit { .. } => 0x090E,
        HeliosOuterSubmitRejection::Hob1BytesMismatch { .. } => 0x090F,
        HeliosOuterSubmitRejection::ReservedNonZero { .. } => 0x0910,
        HeliosOuterSubmitRejection::Hob1BatchIdMismatch { .. } => 0x0911,
        HeliosOuterSubmitRejection::Hob1CrcMismatch { .. } => 0x0912,
        HeliosOuterSubmitRejection::Hob1TotalBytesMismatch { .. } => 0x0913,
    }
}

pub fn outer_submit_code(reject: HeliosOuterSubmitRejection) -> (n: u32)
    ensures
        n == submit_code(reject),
{
    match reject {
        HeliosOuterSubmitRejection::Magic { .. } => 0x0901,
        HeliosOuterSubmitRejection::AbiVersion { .. } => 0x0902,
        HeliosOuterSubmitRejection::StructSize { .. } => 0x0903,
        HeliosOuterSubmitRejection::PrivateDataSize { .. } => 0x0904,
        HeliosOuterSubmitRejection::PackageGeneration { .. } => 0x0905,
        HeliosOuterSubmitRejection::SessionGeneration { .. } => 0x0906,
        HeliosOuterSubmitRejection::ContextGeneration { .. } => 0x0907,
        HeliosOuterSubmitRejection::EndpointId { .. } => 0x0908,
        HeliosOuterSubmitRejection::NotD3D12VirtualContext { .. } => 0x0909,
        HeliosOuterSubmitRejection::BatchIdZero => 0x090A,
        HeliosOuterSubmitRejection::BatchIdNotIncreasing { .. } => 0x090B,
        HeliosOuterSubmitRejection::Hob1BytesZero => 0x090C,
        HeliosOuterSubmitRejection::Hob1BytesBelowHeader { .. } => 0x090D,
        HeliosOuterSubmitRejection::Hob1BytesAboveLimit { .. } => 0x090E,
        HeliosOuterSubmitRejection::Hob1BytesMismatch { .. } => 0x090F,
        HeliosOuterSubmitRejection::ReservedNonZero { .. } => 0x0910,
        HeliosOuterSubmitRejection::Hob1BatchIdMismatch { .. } => 0x0911,
        HeliosOuterSubmitRejection::Hob1CrcMismatch { .. } => 0x0912,
        HeliosOuterSubmitRejection::Hob1TotalBytesMismatch { .. } => 0x0913,
    }
}

/// The number of a refusal that has one of its own here; one that is passed on has
/// the number `forwarded` of the record that was refused.
pub open spec fn refusal_code(refusal: RenderRefusal, forwarded: u32) -> u32 {
    match refusal {
        RenderRefusal::Header(_) => forwarded,
        RenderRefusal::Table(_) => forwarded,
        RenderRefusal::Dma(_) => forwarded,
        RenderRefusal::Capacity(c) => match c.limit {
            Hnr2CapacityLimit::OutstandingSubmissions => 0x0801,
            Hnr2CapacityLimit::SlotPoolBytes => 0x0802,
            Hnr2CapacityLimit::LiveSnapshots => 0x0803,
            Hnr2CapacityLimit::LiveSnapshotBytes => 0x0804,
            Hnr2CapacityLimit::SnapshotBytes => 0x0805,
        },
        RenderRefusal::PatchListCapacityExceeded { .. } => 0x0701,
        RenderRefusal::StagingUnderflow => 0x0702,
        RenderRefusal::PlacementNotRepeatable => 0x0703,
        RenderRefusal::CapabilityTableTooLarge { .. } => 0x0704,
        RenderRefusal::ReplyOnQueueContext => 0x0705,
        RenderRefusal::OuterSubmit(reject) => submit_code(reject),
    }
}

impl RenderRefusal {
    /// The number under which the refusal is counted. `forwarded` is the number of
    /// the rejected record where the refusal only passes its rejection on.
    pub fn code(self, forwarded: u32) -> (n: u32)
        ensures
            n == refusal_code(self, forwarded),
    {
        match self {
            RenderRefusal::Header(_) => forwarded,
            RenderRefusal::Table(_) => forwarded,
            RenderRefusal::Dma(_) => forwarded,
            RenderRefusal::Capacity(c) => match c.limit {
                Hnr2CapacityLimit::OutstandingSubmissions => 0x0801,
                Hnr2CapacityLimit::SlotPoolBytes => 0x0802,
                Hnr2CapacityLimit::LiveSnapshots => 0x0803,
                Hnr2CapacityLimit::LiveSnapshotBytes => 0x0804,
                Hnr2CapacityLimit::SnapshotBytes => 0x0805,
            },
            RenderRefusal::PatchListCapacityExceeded { .. } => 0x0701,
            RenderRefusal::StagingUnderflow => 0x0702,
            RenderRefusal::PlacementNotRepeatable => 0x0703,
            RenderRefusal::CapabilityTableTooLarge { .. } => 0x0704,
            RenderRefusal::ReplyOnQueueContext => 0x0705,
            RenderRefusal::OuterSubmit(reject) => outer_submit_code(reject),
        }
    }
}

/// The refusal only passes on what was said of a record.
pub open spec fn is_forwarded(refusal: RenderRefusal) -> bool {
    refusal is Header || refusal is Table || refusal is Dma
}

/// Refusals of the same number are of the same sort: of the refusals that are
/// numbered here, no two sorts share a number, and none is zero.
pub proof fn law_refusal_codes_do_not_collide(a: RenderRefusal, b: RenderRefusal, n: u32)
    requires
        !is_forwarded(a),
        !is_forwarded(b),
        refusal_code(a, n) == refusal_code(b, n),
    ensures
        refusal_code(a, n) != 0,
        a is Capacity <==> b is Capacity,
        a is Capacity ==> a == b,
        a is PatchListCapacityExceeded <==> b is PatchListCapacityExceeded,
        a is StagingUnderflow <==> b is StagingUnderflow,
        a is PlacementNotRepeatable <==> b is PlacementNotRepeatable,
        a is CapabilityTableTooLarge <==> b is CapabilityTableTooLarge,
        a is ReplyOnQueueContext <==> b is ReplyOnQueueContext,
        a is OuterSubmit <==> b is OuterSubmit,
{
}

/// Rejections of an outer submission with the same number are of the same sort.
pub proof fn law_outer_submit_codes_are_distinct(
    a: HeliosOuterSubmitRejection,
    b: HeliosOuterSubmitRejection,
)
    requires
        submit_code(a) == submit_code(b),
    ensures
        submit_code(a) != 0,
        a is Magic <==> b is Magic,
        a is AbiVersion <==> b is AbiVersion,
        a is StructSize <==> b is StructSize,
        a is PrivateDataSize <==> b is PrivateDataSize,
        a is PackageGeneration <==> b is PackageGeneration,
        a is SessionGeneration <==> b is SessionGeneration,
        a is ContextGeneration <==> b is ContextGeneration,
        a is EndpointId <==> b is EndpointId,
        a is NotD3D12VirtualContext <==> b is NotD3D12VirtualContext,
        a is BatchIdZero <==> b is BatchIdZero,
        a is BatchIdNotIncreasing <==> b is BatchIdNotIncreasing,
        a is Hob1BytesZero <==> b is Hob1BytesZero,
        a is Hob1BytesBelowHeader <==> b is Hob1BytesBelowHeader,
        a is Hob1BytesAboveLimit <==> b is Hob1BytesAboveLimit,
        a is Hob1BytesMismatch <==> b is Hob1BytesMismatch,
        a is ReservedNonZero <==> b is ReservedNonZero,
        a is Hob1BatchIdMismatch <==> b is Hob1BatchIdMismatch,
        a is Hob1CrcMismatch <==> b is Hob1CrcMismatch,
        a is Hob1TotalBytesMismatch <==> b is Hob1TotalBytesMismatch,
{
}

/// What the system says of one render.
#[derive(Debug, Clone, Copy, PartialEq, Eq, Structural)]
pub struct RenderEnv {
    pub package_generation: u64,
    pub allocation_list_count: u32,
    pub command_length: u32,
    pub command_buffer_bytes: u32,
    pub patch_location_list_in_size: u32,
}

/// The staging pool of one context. A request that does not fit is refused; it
/// never waits.
#[derive(Debug, Clone, Copy, PartialEq, Eq, Structural)]
pub struct StagingPool {
    outstanding: u32,
    staged_bytes: u64,
}

/// What a staging pool holds.
pub struct Staging {
    pub outstanding: u32,
    pub bytes: u64,
}

impl View for StagingPool {
    type V = Staging;

    closed spec fn view(&self) -> Staging {
        Staging { outstanding: self.outstanding, bytes: self.staged_bytes }
    }
}

pub open spec fn staging_wf(v: Staging) -> bool {
    v.outstanding <= HELIOS_HNR2_MAX_OUTSTANDING_SUBMISSIONS && v.bytes
        <= HELIOS_HNR2_SLOT_POOL_BYTES
}

/// Why `bytes` cannot be staged, if they cannot.
pub open spec fn checkout_refusal(v: Staging, bytes: u64) -> Option<Hnr2CapacityLimit> {
    if v.outstanding >= HELIOS_HNR2_MAX_OUTSTANDING_SUBMISSIONS {
        Some(Hnr2CapacityLimit::OutstandingSubmissions)
    } else if v.bytes + bytes > HELIOS_HNR2_SLOT_POOL_BYTES {
        Some(Hnr2CapacityLimit::SlotPoolBytes)
    } else {
        None
    }
}

pub open spec fn staged(v: Staging, bytes: u64) -> Staging {
    Staging { outstanding: (v.outstanding + 1) as u32, bytes: (v.bytes + bytes) as u64 }
}

pub open spec fn unstaged(v: Staging, bytes: u64) -> Staging {
    Staging { outstanding: (v.outstanding - 1) as u32, bytes: (v.bytes - bytes) as u64 }
}

impl Default for StagingPool {
    fn default() -> (p: Self)
        ensures
            p.wf(),
            p@ == (Staging { outstanding: 0, bytes: 0 }),
    {
        Self::new()
    }
}

impl StagingPool {
    pub open spec fn wf(&self) -> bool {
        staging_wf(self@)
    }

    pub fn new() -> (p: Self)
        ensures
            p.wf(),
            p@ == (Staging { outstanding: 0, bytes: 0 }),
    {
        StagingPool { outstanding: 0, staged_bytes: 0 }
    }

    pub fn outstanding(&self) -> (n: u32)
        ensures
            n == self@.outstanding,
    {
        self.outstanding
    }

    pub fn staged_bytes(&self) -> (n: u64)
        ensures
            n == self@.bytes,
    {
        self.staged_bytes
    }

    /// Stages one submission of `bytes`.
    pub fn checkout(&mut self, bytes: u64) -> (r: Result<(), RenderRefusal>)
        requires
            old(self).wf(),
        ensures
            final(self).wf(),
            match checkout_refusal(old(self)@, bytes) {
                Some(limit) => r is Err && r->Err_0 == RenderRefusal::Capacity(
                    Hnr2CapacityRefusal { limit },
                ) && final(self)@ == old(self)@,
                None => r is Ok && final(self)@ == staged(old(self)@, bytes),
            },
    {
        if self.outstanding >= HELIOS_HNR2_MAX_OUTSTANDING_SUBMISSIONS {
            return Err(
                RenderRefusal::Capacity(
                    Hnr2CapacityRefusal { limit: Hnr2CapacityLimit::OutstandingSubmissions },
                ),
            );
        }
        if bytes > HELIOS_HNR2_SLOT_POOL_BYTES - self.staged_bytes {
            return Err(
                RenderRefusal::Capacity(
                    Hnr2CapacityRefusal { limit: Hnr2CapacityLimit::SlotPoolBytes },
                ),
            );
        }
        self.outstanding = self.outstanding + 1;
        self.staged_bytes = self.staged_bytes + bytes;
        Ok(())
    }

    /// Gives back one staged submission of `bytes`.
    pub fn retire(&mut self, bytes: u64) -> (r: Result<(), RenderRefusal>)
        requires
            old(self).wf(),
        ensures
            final(self).wf(),
            if old(self)@.outstanding == 0 || bytes > old(self)@.bytes {
                r is Err && r->Err_0 == RenderRefusal::StagingUnderflow && final(self)@ == old(
                    self,
                )@
            } else {
                r is Ok && final(self)@ == unstaged(old(self)@, bytes)
            },
    {
        if self.outstanding == 0 || bytes > self.staged_bytes {
            return Err(RenderRefusal::StagingUnderflow);
        }
        self.outstanding = self.outstanding - 1;
        self.staged_bytes = self.staged_bytes - bytes;
        Ok(())
    }

    /// Gives back a submission that was over before its render returned.
    pub fn finish_synchronous(&mut self, bytes: u64) -> (r: Result<(), RenderRefusal>)
        requires
            old(self).wf(),
        ensures
            final(self).wf(),
            if old(self)@.outstanding == 0 || bytes > old(self)@.bytes {
                r is Err && r->Err_0 == RenderRefusal::StagingUnderflow && final(self)@ == old(
                    self,
                )@
            } else {
                r is Ok && final(self)@ == unstaged(old(self)@, bytes)
            },
    {
        self.retire(bytes)
    }
}

/// Giving back what was staged undoes the staging.
pub proof fn law_retire_undoes_checkout(v: Staging, bytes: u64)
    requires
        staging_wf(v),
        checkout_refusal(v, bytes) is None,
    ensures
        staging_wf(staged(v, bytes)),
        unstaged(staged(v, bytes), bytes) == v,
        staged(v, bytes).outstanding > 0,
        bytes <= staged(v, bytes).bytes,
{
}

/// One use of an allocation by a commit.
#[derive(Debug, Clone, Copy, PartialEq, Eq, Structural)]
pub struct HeliosNativeRenderUse {
    pub allocation_list_index: u32,
    pub access_flags: u32,
    pub expected_allocation_generation: u64,
    pub first_patch: u32,
    pub patch_count: u32,
}

/// Where the output patches of a commit go: one for each use, in order. The number
/// of a patch is the number of its capability.
#[derive(Debug, Clone, Copy, PartialEq, Eq, Structural)]
pub struct PatchPlan {
    pub first_slot: u32,
    pub count: u32,
}

impl PatchPlan {
    /// The allocation and the capability of entry `i`.
    pub fn entry(&self, uses: &[HeliosNativeRenderUse], i: u32) -> (r: Option<(u32, u32)>)
        ensures
            r == (if i < self.count && i < uses@.len() {
                Some((uses@[i as int].allocation_list_index, i))
            } else {
                None
            }),
    {
        if i >= self.count || i as usize >= uses.len() {
            return None;
        }
        Some((uses[i as usize].allocation_list_index, i))
    }
}

/// Plans one output patch for each use.
pub fn plan_output_patch_slots(
    uses: &[HeliosNativeRenderUse],
    patch_list_capacity: u32,
) -> (r: Result<PatchPlan, RenderRefusal>)
    ensures
        r == (if uses@.len() > HELIOS_HNR2_MAX_USE_RECORDS {
            Err::<PatchPlan, RenderRefusal>(RenderRefusal::Table(Hnr2TableReject::UseCountMismatch))
        } else if uses@.len() > patch_list_capacity {
            Err(
                RenderRefusal::PatchListCapacityExceeded {
                    needed: uses@.len() as u32,
                    capacity: patch_list_capacity,
                },
            )
        } else {
            Ok(PatchPlan { first_slot: 0, count: uses@.len() as u32 })
        }),
{
    if uses.len() > HELIOS_HNR2_MAX_USE_RECORDS as usize {
        return Err(RenderRefusal::Table(Hnr2TableReject::UseCountMismatch));
    }
    let needed: u32 = uses.len() as u32;
    if needed > patch_list_capacity {
        return Err(
            RenderRefusal::PatchListCapacityExceeded { needed, capacity: patch_list_capacity },
        );
    }
    Ok(PatchPlan { first_slot: 0, count: needed })
}

/// The part of a fragment's header that places it in its batch.
#[derive(Debug, Clone, Copy, PartialEq, Eq, Structural)]
pub struct HeliosNativeRenderV2 {
    pub package_generation: u64,
    pub batch_token: u64,
    pub total_payload_bytes: u64,
    pub fragment_payload_offset: u64,
    pub fragment_payload_bytes: u32,
    pub fragment_index: u16,
    pub fragment_count: u16,
    /// The fragment opens its batch.
    pub begins: bool,
    /// The fragment closes its batch.
    pub commits: bool,
}

/// A batch of which more fragments are due.
#[derive(Debug, Clone, Copy, PartialEq, Eq, Structural)]
pub struct Hnr2OpenBatch {
    pub batch_token: u64,
    pub fragment_count: u16,
    pub next_index: u16,
    pub total_payload_bytes: u64,
    pub next_offset: u64,
}

#[derive(Debug, Clone, Copy, PartialEq, Eq, Structural)]
pub enum Hnr2FragmentClass {
    /// The first of several.
    Begin,
    /// Neither the first nor the last.
    Continue,
    /// The last of several.
    Commit,
    /// The only one.
    Complete,
}

impl Hnr2FragmentClass {
    pub open spec fn begins(self) -> bool {
        self == Hnr2FragmentClass::Begin || self == Hnr2FragmentClass::Complete
    }

    pub open spec fn commits(self) -> bool {
        self == Hnr2FragmentClass::Commit || self == Hnr2FragmentClass::Complete
    }

    pub fn is_begin(self) -> (b: bool)
        ensures
            b == self.begins(),
    {
        match self {
            Hnr2FragmentClass::Begin => true,
            Hnr2FragmentClass::Complete => true,
            _ => false,
        }
    }

    pub fn is_commit(self) -> (b: bool)
        ensures
            b == self.commits(),
    {
        match self {
            Hnr2FragmentClass::Commit => true,
            Hnr2FragmentClass::Complete => true,
            _ => false,
        }
    }
}

/// An admitted fragment, and the batch that it leaves open, if any.
#[derive(Debug, Clone, Copy, PartialEq, Eq, Structural)]
pub struct Hnr2Accept {
    pub class: Hnr2FragmentClass,
    pub next_open: Option<Hnr2OpenBatch>,
}

/// What a header is judged against.
#[derive(Debug, Clone, Copy, PartialEq, Eq, Structural)]
pub struct Hnr2Expect {
    pub package_generation: u64,
    pub allocation_list_count: u32,
    pub command_length: u32,
    pub command_buffer_bytes: u32,
    pub patch_location_list_in_size: u32,
    pub open: Option<Hnr2OpenBatch>,
    pub last_batch_token: u64,
}

/// The assembler of one context.
#[derive(Debug, Clone, Copy, PartialEq, Eq, Structural)]
pub struct RenderContext {
    open: Option<Hnr2OpenBatch>,
    last_batch_token: u64,
    staging: StagingPool,
}

/// What an assembler holds: the batch that is open, the token of the last batch
/// that was opened, and what is staged.
pub struct Assembler {
    pub open: Option<Hnr2OpenBatch>,
    pub last_token: u64,
    pub staging: Staging,
}

impl View for RenderContext {
    type V = Assembler;

    closed spec fn view(&self) -> Assembler {
        Assembler {
            open: self.open,
            last_token: self.last_batch_token,
            staging: self.staging@,
        }
    }
}

/// An open batch is the last that was opened, and has fragments and bytes to come.
pub open spec fn assembler_wf(v: Assembler) -> bool {
    &&& staging_wf(v.staging)
    &&& v.open matches Some(b) ==> {
        &&& b.batch_token == v.last_token
        &&& 0 < b.next_index < b.fragment_count
        &&& 0 < b.next_offset < b.total_payload_bytes
    }
}

/// What is wrong with the place of a fragment in its own batch, if anything.
pub open spec fn place_refusal(h: HeliosNativeRenderV2) -> Option<Hnr2Reject> {
    let end = h.fragment_payload_offset + h.fragment_payload_bytes;
    if h.batch_token == 0 {
        Some(Hnr2Reject::BatchTokenZero)
    } else if h.fragment_count == 0 {
        Some(Hnr2Reject::FragmentCountZero)
    } else if h.fragment_index >= h.fragment_count {
        Some(Hnr2Reject::FragmentIndexOutOfRange)
    } else if h.begins != (h.fragment_index == 0) {
        Some(Hnr2Reject::BeginFlagMisplaced)
    } else if h.commits != (h.fragment_index == h.fragment_count - 1) {
        Some(Hnr2Reject::CommitFlagMisplaced)
    } else if h.total_payload_bytes == 0 {
        Some(Hnr2Reject::TotalPayloadZero)
    } else if h.fragment_payload_bytes == 0 {
        Some(Hnr2Reject::FragmentPayloadZero)
    } else if end > h.total_payload_bytes {
        Some(Hnr2Reject::FragmentPayloadOverrun)
    } else if !h.commits && end == h.total_payload_bytes {
        Some(Hnr2Reject::NonFinalFragmentExhaustsPayload)
    } else if h.commits && end < h.total_payload_bytes {
        Some(Hnr2Reject::FinalFragmentShort)
    } else {
        None
    }
}

/// What is wrong with a fragment after those that came before it, if anything.
pub open spec fn order_refusal(v: Assembler, h: HeliosNativeRenderV2) -> Option<Hnr2Reject> {
    if h.begins {
        if v.open is Some {
            Some(Hnr2Reject::BatchAlreadyOpen)
        } else if h.batch_token <= v.last_token {
            Some(Hnr2Reject::BatchTokenNotIncreasing)
        } else if h.fragment_payload_offset != 0 {
            Some(Hnr2Reject::FragmentOffsetMismatch)
        } else {
            None
        }
    } else {
        match v.open {
            None => Some(Hnr2Reject::NoOpenBatch),
            Some(b) => if h.batch_token != b.batch_token {
                Some(Hnr2Reject::BatchTokenMismatch)
            } else if h.fragment_count != b.fragment_count {
                Some(Hnr2Reject::FragmentCountChanged)
            } else if h.fragment_index != b.next_index {
                Some(Hnr2Reject::FragmentIndexOutOfOrder)
            } else if h.total_payload_bytes != b.total_payload_bytes {
                Some(Hnr2Reject::TotalPayloadChanged)
            } else if h.fragment_payload_offset != b.next_offset {
                Some(Hnr2Reject::FragmentOffsetMismatch)
            } else {
                None
            },
        }
    }
}

/// Why a fragment is refused, if it is.
pub open spec fn fragment_refusal(
    v: Assembler,
    h: HeliosNativeRenderV2,
    record: Result<(), Hnr2Reject>,
) -> Option<Hnr2Reject> {
    if record is Err {
        Some(record->Err_0)
    } else if place_refusal(h) is Some {
        place_refusal(h)
    } else {
        order_refusal(v, h)
    }
}

/// What an admitted fragment is, and what it leaves open.
pub open spec fn acceptance(h: HeliosNativeRenderV2) -> Hnr2Accept {
    Hnr2Accept {
        class: if h.begins && h.commits {
            Hnr2FragmentClass::Complete
        } else if h.begins {
            Hnr2FragmentClass::Begin
        } else if h.commits {
            Hnr2FragmentClass::Commit
        } else {
            Hnr2FragmentClass::Continue
        },
        next_open: if h.commits {
            None
        } else {
            Some(
                Hnr2OpenBatch {
                    batch_token: h.batch_token,
                    fragment_count: h.fragment_count,
                    next_index: (h.fragment_index + 1) as u16,
                    total_payload_bytes: h.total_payload_bytes,
                    next_offset: (h.fragment_payload_offset + h.fragment_payload_bytes) as u64,
                },
            )
        },
    }
}

/// The assembler after an admitted fragment.
pub open spec fn applied(v: Assembler, h: HeliosNativeRenderV2, accept: Hnr2Accept) -> Assembler {
    Assembler {
        open: accept.next_open,
        last_token: if accept.class.begins() {
            h.batch_token
        } else {
            v.last_token
        },
        ..v
    }
}

impl Default for RenderContext {
    fn default() -> (c: Self)
        ensures
            c.wf(),
            c@.open is None && c@.last_token == 0 && c@.staging == (Staging {
                outstanding: 0,
                bytes: 0,
            }),
    {
        Self::new()
    }
}

impl RenderContext {
    pub open spec fn wf(&self) -> bool {
        assembler_wf(self@)
    }

    pub fn new() -> (c: Self)
        ensures
            c.wf(),
            c@.open is None && c@.last_token == 0 && c@.staging == (Staging {
                outstanding: 0,
                bytes: 0,
            }),
    {
        RenderContext { open: None, last_batch_token: 0, staging: StagingPool::new() }
    }

    pub fn open_batch(&self) -> (b: Option<Hnr2OpenBatch>)
        ensures
            b == self@.open,
    {
        self.open
    }

    pub fn last_batch_token(&self) -> (t: u64)
        ensures
            t == self@.last_token,
    {
        self.last_batch_token
    }

    pub fn staging(&self) -> (p: &StagingPool)
        ensures
            p@ == self@.staging,
    {
        &self.staging
    }

    pub fn staging_mut(&mut self) -> (p: &mut StagingPool)
        ensures
            p@ == old(self)@.staging,
            final(self)@ == (Assembler { staging: final(p)@, ..old(self)@ }),
    {
        &mut self.staging
    }

    /// Drops the open batch. Its token stays spent.
    pub fn abandon_open_batch(&mut self)
        requires
            old(self).wf(),
        ensures
            final(self).wf(),
            final(self)@ == (Assembler { open: None, ..old(self)@ }),
    {
        self.open = None;
    }
}

/// What the header of a fragment on this context is judged against.
pub fn render_expectation(context: &RenderContext, env: &RenderEnv) -> (e: Hnr2Expect)
    ensures
        e == (Hnr2Expect {
            package_generation: env.package_generation,
            allocation_list_count: env.allocation_list_count,
            command_length: env.command_length,
            command_buffer_bytes: env.command_buffer_bytes,
            patch_location_list_in_size: env.patch_location_list_in_size,
            open: context@.open,
            last_batch_token: context@.last_token,
        }),
{
    Hnr2Expect {
        package_generation: env.package_generation,
        allocation_list_count: env.allocation_list_count,
        command_length: env.command_length,
        command_buffer_bytes: env.command_buffer_bytes,
        patch_location_list_in_size: env.patch_location_list_in_size,
        open: context.open,
        last_batch_token: context.last_batch_token,
    }
}

fn check_place(h: &HeliosNativeRenderV2) -> (r: Option<Hnr2Reject>)
    ensures
        r == place_refusal(*h),
{
    if h.batch_token == 0 {
        return Some(Hnr2Reject::BatchTokenZero);
    }
    if h.fragment_count == 0 {
        return Some(Hnr2Reject::FragmentCountZero);
    }
    if h.fragment_index >= h.fragment_count {
        return Some(Hnr2Reject::FragmentIndexOutOfRange);
    }
    if h.begins != (h.fragment_index == 0) {
        return Some(Hnr2Reject::BeginFlagMisplaced);
    }
    if h.commits != (h.fragment_index == h.fragment_count - 1) {
        return Some(Hnr2Reject::CommitFlagMisplaced);
    }
    if h.total_payload_bytes == 0 {
        return Some(Hnr2Reject::TotalPayloadZero);
    }
    if h.fragment_payload_bytes == 0 {
        return Some(Hnr2Reject::FragmentPayloadZero);
    }
    let end: u64 = match h.fragment_payload_offset.checked_add(h.fragment_payload_bytes as u64) {
        Some(v) => v,
        None => {
            return Some(Hnr2Reject::FragmentPayloadOverrun);
        },
    };
    if end > h.total_payload_bytes {
        return Some(Hnr2Reject::FragmentPayloadOverrun);
    }
    if !h.commits && end == h.total_payload_bytes {
        return Some(Hnr2Reject::NonFinalFragmentExhaustsPayload);
    }
    if h.commits && end < h.total_payload_bytes {
        return Some(Hnr2Reject::FinalFragmentShort);
    }
    None
}

fn check_order(context: &RenderContext, h: &HeliosNativeRenderV2) -> (r: Option<Hnr2Reject>)
    ensures
        r == order_refusal(context@, *h),
{
    if h.begins {
        if context.open.is_some() {
            return Some(Hnr2Reject::BatchAlreadyOpen);
        }
        if h.batch_token <= context.last_batch_token {
            return Some(Hnr2Reject::BatchTokenNotIncreasing);
        }
        if h.fragment_payload_offset != 0 {
            return Some(Hnr2Reject::FragmentOffsetMismatch);
        }
        return None;
    }
    match context.open {
        None => Some(Hnr2Reject::NoOpenBatch),
        Some(b) => {
            if h.batch_token != b.batch_token {
                return Some(Hnr2Reject::BatchTokenMismatch);
            }
            if h.fragment_count != b.fragment_count {
                return Some(Hnr2Reject::FragmentCountChanged);
            }
            if h.fragment_index != b.next_index {
                return Some(Hnr2Reject::FragmentIndexOutOfOrder);
            }
            if h.total_payload_bytes != b.total_payload_bytes {
                return Some(Hnr2Reject::TotalPayloadChanged);
            }
            if h.fragment_payload_offset != b.next_offset {
                return Some(Hnr2Reject::FragmentOffsetMismatch);
            }
            None
        },
    }
}

/// Whether a fragment is next on this context. Nothing moves, so a render whose
/// buffer proves too small can come again. `record` is what the header says of
/// itself.
pub fn validate_render_fragment(
    context: &RenderContext,
    header: &HeliosNativeRenderV2,
    record: Result<(), Hnr2Reject>,
) -> (r: Result<Hnr2Accept, RenderRefusal>)
    ensures
        r == (match fragment_refusal(context@, *header, record) {
            Some(e) => Err::<Hnr2Accept, RenderRefusal>(RenderRefusal::Header(e)),
            None => Ok(acceptance(*header)),
        }),
{
    if let Err(e) = record {
        return Err(RenderRefusal::Header(e));
    }
    if let Some(e) = check_place(header) {
        return Err(RenderRefusal::Header(e));
    }
    if let Some(e) = check_order(context, header) {
        return Err(RenderRefusal::Header(e));
    }
    let class = if header.begins && header.commits {
        Hnr2FragmentClass::Complete
    } else if header.begins {
        Hnr2FragmentClass::Begin
    } else if header.commits {
        Hnr2FragmentClass::Commit
    } else {
        Hnr2FragmentClass::Continue
    };
    let next_open = if header.commits {
        None
    } else {
        Some(
            Hnr2OpenBatch {
                batch_token: header.batch_token,
                fragment_count: header.fragment_count,
                next_index: header.fragment_index + 1,
                total_payload_bytes: header.total_payload_bytes,
                next_offset: header.fragment_payload_offset + header.fragment_payload_bytes as u64,
            },
        )
    };
    Ok(Hnr2Accept { class, next_open })
}

/// Moves the assembler over a fragment that was found to be next. The token counts
/// from the moment a batch is opened.
pub fn apply_render_fragment(
    context: &mut RenderContext,
    header: &HeliosNativeRenderV2,
    accept: &Hnr2Accept,
)
    ensures
        final(context)@ == applied(old(context)@, *header, *accept),
        old(context).wf() && fragment_refusal(old(context)@, *header, Ok(())) is None && *accept
            == acceptance(*header) ==> final(context).wf(),
{
    if accept.class.is_begin() {
        context.last_batch_token = header.batch_token;
    }
    context.open = accept.next_open;
}

/// Admits a fragment and moves the assembler. A refused fragment leaves the open
/// batch as it was.
pub fn admit_render_fragment(
    context: &mut RenderContext,
    header: &HeliosNativeRenderV2,
    record: Result<(), Hnr2Reject>,
) -> (r: Result<Hnr2Accept, RenderRefusal>)
    requires
        old(context).wf(),
    ensures
        final(context).wf(),
        match fragment_refusal(old(context)@, *header, record) {
            Some(e) => r == Err::<Hnr2Accept, RenderRefusal>(RenderRefusal::Header(e)) && final(
                context
            )@ == old(context)@,
            None => r == Ok::<Hnr2Accept, RenderRefusal>(acceptance(*header)) && final(context)@
                == applied(old(context)@, *header, acceptance(*header)),
        },
{
    let accept = validate_render_fragment(context, header, record)?;
    apply_render_fragment(context, header, &accept);
    Ok(accept)
}

/// A token is spent once its batch is opened: after that no fragment opens a batch
/// under the same or a lower token, not even if the batch was abandoned.
pub proof fn law_batch_tokens_stay_spent(
    v: Assembler,
    h: HeliosNativeRenderV2,
    replay: HeliosNativeRenderV2,
)
    requires
        assembler_wf(v),
        h.begins,
        fragment_refusal(v, h, Ok(())) is None,
        replay.begins,
        replay.batch_token <= h.batch_token,
    ensures
        ({
            let after = applied(v, h, acceptance(h));
            fragment_refusal(after, replay, Ok(())) is Some && fragment_refusal(
                Assembler { open: None, ..after },
                replay,
                Ok(()),
            ) is Some && after.last_token > v.last_token
        }),
{
}

/// A batch is assembled without gaps and without overlaps: each fragment begins
/// where the one before it ended, and the last one ends where the payload does.
pub proof fn law_fragments_tile_the_payload(v: Assembler, h: HeliosNativeRenderV2)
    requires
        assembler_wf(v),
        fragment_refusal(v, h, Ok(())) is None,
    ensures
        h.fragment_payload_offset == (if h.begins {
            0
        } else {
            v.open->0.next_offset as int
        }),
        !h.begins ==> v.open is Some && h.total_payload_bytes == v.open->0.total_payload_bytes,
        h.commits ==> h.fragment_payload_offset + h.fragment_payload_bytes
            == h.total_payload_bytes,
        !h.commits ==> (applied(v, h, acceptance(h)).open matches Some(b) && b.next_offset
            == h.fragment_payload_offset + h.fragment_payload_bytes && b.next_index
            == h.fragment_index + 1),
        assembler_wf(applied(v, h, acceptance(h))),
{
}

/// What is wrong with a use, given which listed allocations are opened for write,
/// if anything.
pub open spec fn use_refusal(
    u: HeliosNativeRenderUse,
    writes: Seq<bool>,
    write_access: u32,
) -> Option<Hnr2TableReject> {
    if u.allocation_list_index >= writes.len() {
        Some(Hnr2TableReject::AllocationIndexOutOfRange)
    } else if (u.access_flags & write_access != 0) != writes[u.allocation_list_index as int] {
        Some(Hnr2TableReject::WriteOperationMismatch)
    } else {
        None
    }
}

/// The use `k` is the first that is refused, with `e`.
pub open spec fn first_bad_use(
    uses: Seq<HeliosNativeRenderUse>,
    writes: Seq<bool>,
    write_access: u32,
    k: int,
    e: Hnr2TableReject,
) -> bool {
    0 <= k < uses.len() && use_refusal(uses[k], writes, write_access) == Some(e) && forall|i: int|
        0 <= i < k ==> (#[trigger] use_refusal(uses[i], writes, write_access)) is None
}

/// Admits the tables of a commit. `tables` is what the tables say of themselves;
/// that a use writes exactly the allocations that are opened for write is judged
/// here. `write_access` is the flag of write access in an access word.
pub fn admit_commit_tables(
    uses: &[HeliosNativeRenderUse],
    patch_count: usize,
    allocation_list_count: u32,
    list_write_operations: &[bool],
    write_access: u32,
    tables: Result<(), Hnr2TableReject>,
) -> (r: Result<(), RenderRefusal>)
    ensures
        if patch_count > HELIOS_HNR2_MAX_PATCH_RECORDS {
            r is Err && r->Err_0 == RenderRefusal::Table(Hnr2TableReject::PatchCountMismatch)
        } else if list_write_operations@.len() != allocation_list_count {
            r is Err && r->Err_0 == RenderRefusal::Table(Hnr2TableReject::UseCountMismatch)
        } else if tables is Err {
            r is Err && r->Err_0 == RenderRefusal::Table(tables->Err_0)
        } else {
            match r {
                Ok(_) => forall|i: int|
                    0 <= i < uses@.len() ==> (#[trigger] use_refusal(
                        uses@[i],
                        list_write_operations@,
                        write_access,
                    )) is None,
                Err(RenderRefusal::Table(e)) => exists|k: int| #[trigger]
                    first_bad_use(uses@, list_write_operations@, write_access, k, e),
                Err(_) => false,
            }
        },
{
    if patch_count > HELIOS_HNR2_MAX_PATCH_RECORDS as usize {
        return Err(RenderRefusal::Table(Hnr2TableReject::PatchCountMismatch));
    }
    if list_write_operations.len() as u64 != allocation_list_count as u64 {
        return Err(RenderRefusal::Table(Hnr2TableReject::UseCountMismatch));
    }
    if let Err(e) = tables {
        return Err(RenderRefusal::Table(e));
    }
    let mut i: usize = 0;
    while i < uses.len()
        invariant
            i <= uses@.len(),
            patch_count <= HELIOS_HNR2_MAX_PATCH_RECORDS,
            list_write_operations@.len() == allocation_list_count,
            tables is Ok,
            forall|j: int|
                0 <= j < i ==> (#[trigger] use_refusal(
                    uses@[j],
                    list_write_operations@,
                    write_access,
                )) is None,
        decreases uses@.len() - i,
    {
        let u = uses[i];
        if u.allocation_list_index as usize >= list_write_operations.len() {
            assert(first_bad_use(
                uses@,
                list_write_operations@,
                write_access,
                i as int,
                Hnr2TableReject::AllocationIndexOutOfRange,
            ));
            return Err(RenderRefusal::Table(Hnr2TableReject::AllocationIndexOutOfRange));
        }
        if (u.access_flags & write_access != 0)
            != list_write_operations[u.allocation_list_index as usize] {
            assert(first_bad_use(
                uses@,
                list_write_operations@,
                write_access,
                i as int,
                Hnr2TableReject::WriteOperationMismatch,
            ));
            return Err(RenderRefusal::Table(Hnr2TableReject::WriteOperationMismatch));
        }
        assert(use_refusal(uses@[i as int], list_write_operations@, write_access) is None);
        i = i + 1;
    }
    Ok(())
}

/// Whether a fragment carries the tables.
pub fn fragment_carries_tables(class: Hnr2FragmentClass) -> (b: bool)
    ensures
        b == class.commits(),
{
    class.is_commit()
}

/// The bytes of one capability record.
pub const CAPABILITY_RECORD_BYTES: u32 = 48;

/// Where the capability table of a commit lives in its buffer.
#[derive(Debug, Clone, Copy, PartialEq, Eq, Structural)]
pub struct CapabilityTablePlan {
    pub offset: u32,
    pub count: u32,
    pub bytes: u32,
}

impl CapabilityTablePlan {
    /// Where entry `i` stands, if there is one and its offset can be told.
    pub open spec fn offset_of(self, i: u32) -> Option<u32> {
        if i < self.count && self.offset + i * CAPABILITY_RECORD_BYTES <= u32::MAX {
            Some((self.offset + i * CAPABILITY_RECORD_BYTES) as u32)
        } else {
            None
        }
    }

    /// Which entry stands at an offset, if one does.
    pub open spec fn entry_of(self, offset: u32) -> Option<u32> {
        if offset >= self.offset && (offset - self.offset) % 48 == 0 && (offset - self.offset) / 48
            < self.count {
            Some(((offset - self.offset) / 48) as u32)
        } else {
            None
        }
    }

    pub fn entry_offset(&self, i: u32) -> (r: Option<u32>)
        ensures
            r == self.offset_of(i),
    {
        if i >= self.count {
            return None;
        }
        match i.checked_mul(CAPABILITY_RECORD_BYTES) {
            Some(delta) => self.offset.checked_add(delta),
            None => None,
        }
    }

    /// The entry that a patch location names. An offset below the table, beyond it
    /// or inside a record names none.
    pub fn entry_at_offset(&self, offset: u32) -> (r: Option<u32>)
        ensures
            r == self.entry_of(offset),
    {
        if offset < self.offset {
            return None;
        }
        let delta: u32 = offset - self.offset;
        if delta % CAPABILITY_RECORD_BYTES != 0 {
            return None;
        }
        let index: u32 = delta / CAPABILITY_RECORD_BYTES;
        if index >= self.count {
            return None;
        }
        Some(index)
    }
}

/// Plans a capability table of `count` entries from `offset` on.
pub fn plan_capability_table(
    offset: u32,
    count: u32,
    dma_buffer_bytes: u32,
) -> (r: Result<CapabilityTablePlan, RenderRefusal>)
    ensures
        r == (if count > HELIOS_HNR2_MAX_OUTPUT_PATCHES {
            Err::<CapabilityTablePlan, RenderRefusal>(
                RenderRefusal::Dma(Hnr2DmaReject::OutputPatchCountTooLarge),
            )
        } else if offset + count * CAPABILITY_RECORD_BYTES > dma_buffer_bytes {
            Err(
                RenderRefusal::CapabilityTableTooLarge {
                    needed: (offset + count * CAPABILITY_RECORD_BYTES) as u64,
                    capacity: dma_buffer_bytes,
                },
            )
        } else {
            Ok(
                CapabilityTablePlan {
                    offset,
                    count,
                    bytes: (count * CAPABILITY_RECORD_BYTES) as u32,
                },
            )
        }),
{
    if count > HELIOS_HNR2_MAX_OUTPUT_PATCHES {
        return Err(RenderRefusal::Dma(Hnr2DmaReject::OutputPatchCountTooLarge));
    }
    let bytes: u64 = (count * CAPABILITY_RECORD_BYTES) as u64;
    let end: u64 = bytes + offset as u64;
    if end > dma_buffer_bytes as u64 {
        return Err(
            RenderRefusal::CapabilityTableTooLarge { needed: end, capacity: dma_buffer_bytes },
        );
    }
    Ok(CapabilityTablePlan { offset, count, bytes: bytes as u32 })
}

/// An entry of a table stands at an offset exactly if it is found there.
pub proof fn law_table_entries_are_found_again(plan: CapabilityTablePlan, i: u32, at: u32)
    ensures
        plan.entry_of(at) == Some(i) <==> plan.offset_of(i) == Some(at),
{
}

/// Every entry of a table that fits its buffer has an offset, and stands inside the
/// buffer.
pub proof fn law_planned_entries_fit(plan: CapabilityTablePlan, dma_buffer_bytes: u32, i: u32)
    requires
        plan.offset + plan.count * CAPABILITY_RECORD_BYTES <= dma_buffer_bytes,
        i < plan.count,
    ensures
        plan.offset_of(i) is Some,
        plan.offset_of(i)->0 + CAPABILITY_RECORD_BYTES <= dma_buffer_bytes,
{
}

/// The physical place of an allocation, as a submission is given it.
#[derive(Debug, Clone, Copy, PartialEq, Eq, Structural)]
pub struct Hnr2PhysicalCapability {
    pub allocation_generation: u64,
    /// Zero while the allocation has no place.
    pub segment_id: u32,
    pub access_flags: u32,
    pub physical_address: u64,
    pub allocation_offset: u64,
    pub byte_length: u64,
    pub hpm_epoch: u64,
}

/// What is wrong with a capability, beyond what its record says of itself, if
/// anything.
pub open spec fn capability_refusal(
    c: Hnr2PhysicalCapability,
    allocation_bytes: u64,
    record: Result<(), Hnr2DmaReject>,
) -> Option<Hnr2DmaReject> {
    if record is Err {
        Some(record->Err_0)
    } else if c.allocation_generation == 0 {
        Some(Hnr2DmaReject::AllocationGenerationZero)
    } else if c.byte_length == 0 {
        Some(Hnr2DmaReject::ByteLengthZero)
    } else if c.allocation_offset + c.byte_length > allocation_bytes {
        Some(Hnr2DmaReject::RangeOutOfAllocation)
    } else if c.segment_id == 0 && c.physical_address != 0 {
        Some(Hnr2DmaReject::UnplacedCapabilityNotZeroed)
    } else {
        None
    }
}

impl Hnr2PhysicalCapability {
    pub fn is_placed(&self) -> (b: bool)
        ensures
            b == (self.segment_id != 0),
    {
        self.segment_id != 0
    }

    /// Judges a capability of an allocation of `allocation_bytes`. `record` is what
    /// it says of itself: that its segment is known and its access word is legal.
    pub fn validate_at_render(
        &self,
        allocation_bytes: u64,
        record: Result<(), Hnr2DmaReject>,
    ) -> (r: Result<(), Hnr2DmaReject>)
        ensures
            match capability_refusal(*self, allocation_bytes, record) {
                Some(e) => r is Err && r->Err_0 == e,
                None => r is Ok,
            },
    {
        if let Err(e) = record {
            return Err(e);
        }
        if self.allocation_generation == 0 {
            return Err(Hnr2DmaReject::AllocationGenerationZero);
        }
        if self.byte_length == 0 {
            return Err(Hnr2DmaReject::ByteLengthZero);
        }
        if self.allocation_offset > allocation_bytes || self.byte_length > allocation_bytes
            - self.allocation_offset {
            return Err(Hnr2DmaReject::RangeOutOfAllocation);
        }
        if self.segment_id == 0 && self.physical_address != 0 {
            return Err(Hnr2DmaReject::UnplacedCapabilityNotZeroed);
        }
        Ok(())
    }
}

/// A capability without a place, for the whole of an allocation.
pub open spec fn unplaced(
    u: HeliosNativeRenderUse,
    generation: u64,
    bytes: u64,
) -> Hnr2PhysicalCapability {
    Hnr2PhysicalCapability {
        allocation_generation: generation,
        segment_id: 0,
        access_flags: u.access_flags,
        physical_address: 0,
        allocation_offset: 0,
        byte_length: bytes,
        hpm_epoch: 0,
    }
}

/// Builds the capability of a use. Generation and size are those of the allocation
/// itself.
pub fn build_capability(
    use_record: &HeliosNativeRenderUse,
    allocation_generation: u64,
    allocation_bytes: u64,
    record: Result<(), Hnr2DmaReject>,
) -> (r: Result<Hnr2PhysicalCapability, RenderRefusal>)
    ensures
        r == (match capability_refusal(
            unplaced(*use_record, allocation_generation, allocation_bytes),
            allocation_bytes,
            record,
        ) {
            Some(e) => Err::<Hnr2PhysicalCapability, RenderRefusal>(RenderRefusal::Dma(e)),
            None => Ok(unplaced(*use_record, allocation_generation, allocation_bytes)),
        }),
{
    let capability = Hnr2PhysicalCapability {
        allocation_generation,
        segment_id: 0,
        access_flags: use_record.access_flags,
        physical_address: 0,
        allocation_offset: 0,
        byte_length: allocation_bytes,
        hpm_epoch: 0,
    };
    match capability.validate_at_render(allocation_bytes, record) {
        Err(e) => Err(RenderRefusal::Dma(e)),
        Ok(_) => Ok(capability),
    }
}

/// The capability at another place.
pub open spec fn placed_at(
    c: Hnr2PhysicalCapability,
    segment_id: u32,
    physical_address: u64,
) -> Hnr2PhysicalCapability {
    Hnr2PhysicalCapability { segment_id, physical_address, ..c }
}

/// Gives a capability its place, once. It says whether the record changed: the same
/// place again changes nothing, no place changes nothing, and another place is
/// refused. `record` is what the capability says of itself at that place.
pub fn apply_placement(
    capability: &mut Hnr2PhysicalCapability,
    segment_id: u32,
    physical_address: u64,
    allocation_bytes: u64,
    record: Result<(), Hnr2DmaReject>,
) -> (r: Result<bool, RenderRefusal>)
    ensures
        ({
            let c = *old(capability);
            let candidate = placed_at(c, segment_id, physical_address);
            let refusal = capability_refusal(candidate, allocation_bytes, record);
            if c.segment_id != 0 {
                *final(capability) == c && r == (if c == candidate {
                    Ok::<bool, RenderRefusal>(false)
                } else {
                    Err(RenderRefusal::PlacementNotRepeatable)
                })
            } else if segment_id == 0 {
                *final(capability) == c && r == Ok::<bool, RenderRefusal>(false)
            } else if refusal is Some {
                *final(capability) == c && r == Err::<bool, RenderRefusal>(
                    RenderRefusal::Dma(refusal->0),
                )
            } else {
                *final(capability) == candidate && r == Ok::<bool, RenderRefusal>(true)
            }
        }),
{
    if capability.is_placed() {
        return if capability.segment_id == segment_id && capability.physical_address
            == physical_address {
            Ok(false)
        } else {
            Err(RenderRefusal::PlacementNotRepeatable)
        };
    }
    if segment_id == 0 {
        return Ok(false);
    }
    let mut candidate = *capability;
    candidate.segment_id = segment_id;
    candidate.physical_address = physical_address;
    match candidate.validate_at_render(allocation_bytes, record) {
        Err(e) => Err(RenderRefusal::Dma(e)),
        Ok(_) => {
            *capability = candidate;
            Ok(true)
        },
    }
}

/// The place that a snapshot takes: none of an allocation that has none.
pub open spec fn snapshot_of(
    c: Hnr2PhysicalCapability,
    segment_id: u32,
    physical_address: u64,
) -> Hnr2PhysicalCapability {
    if segment_id == 0 {
        placed_at(c, 0, 0)
    } else {
        placed_at(c, segment_id, physical_address)
    }
}

/// Takes the present place of an allocation, whatever it was before, and says
/// whether the record changed. An allocation that has moved gets its new place; one
/// that was evicted gets none. `record` is what the capability says of itself at
/// that place.
pub fn snapshot_placement(
    capability: &mut Hnr2PhysicalCapability,
    segment_id: u32,
    physical_address: u64,
    allocation_bytes: u64,
    record: Result<(), Hnr2DmaReject>,
) -> (r: Result<bool, RenderRefusal>)
    ensures
        ({
            let c = *old(capability);
            let candidate = snapshot_of(c, segment_id, physical_address);
            let refusal = capability_refusal(candidate, allocation_bytes, record);
            if c == candidate {
                *final(capability) == c && r == Ok::<bool, RenderRefusal>(false)
            } else if refusal is Some {
                *final(capability) == c && r == Err::<bool, RenderRefusal>(
                    RenderRefusal::Dma(refusal->0),
                )
            } else {
                *final(capability) == candidate && r == Ok::<bool, RenderRefusal>(true)
            }
        }),
{
    let address: u64 = if segment_id == 0 {
        0
    } else {
        physical_address
    };
    if capability.segment_id == segment_id && capability.physical_address == address {
        return Ok(false);
    }
    let mut candidate = *capability;
    candidate.segment_id = segment_id;
    candidate.physical_address = address;
    match candidate.validate_at_render(allocation_bytes, record) {
        Err(e) => Err(RenderRefusal::Dma(e)),
        Ok(_) => {
            *capability = candidate;
            Ok(true)
        },
    }
}

/// A snapshot that is taken again finds nothing to change, and forgets the place
/// that came before.
pub proof fn law_snapshot_is_idempotent(
    c: Hnr2PhysicalCapability,
    segment_id: u32,
    physical_address: u64,
    earlier_segment: u32,
    earlier_address: u64,
)
    ensures
        ({
            let once = snapshot_of(c, segment_id, physical_address);
            snapshot_of(once, segment_id, physical_address) == once && snapshot_of(
                snapshot_of(c, earlier_segment, earlier_address),
                segment_id,
                physical_address,
            ) == once
        }),
{
}

/// The state of a context that outer submissions are judged against.
#[derive(Debug, Clone, Copy, PartialEq, Eq, Structural)]
pub struct OuterSubmitContext {
    pub package_generation: u64,
    pub session_generation: u64,
    pub context_generation: u64,
    pub endpoint_id: u32,
    pub arm_flags: u32,
    /// The last batch that was submitted. Only an admitted submission moves it.
    last_batch_id: u64,
}

/// The descriptor of an outer submission.
#[derive(Debug, Clone, Copy, PartialEq, Eq, Structural)]
pub struct HeliosOuterSubmitV1 {
    pub package_generation: u64,
    pub session_generation: u64,
    pub context_generation: u64,
    pub endpoint_id: u32,
    pub hob1_bytes: u32,
    pub batch_id: u64,
}

/// What is known of a context, and the last batch that was submitted on it.
pub struct SubmitContext {
    pub package_generation: u64,
    pub session_generation: u64,
    pub context_generation: u64,
    pub endpoint_id: u32,
    pub arm_flags: u32,
    pub last_batch: u64,
}

impl View for OuterSubmitContext {
    type V = SubmitContext;

    closed spec fn view(&self) -> SubmitContext {
        SubmitContext {
            package_generation: self.package_generation,
            session_generation: self.session_generation,
            context_generation: self.context_generation,
            endpoint_id: self.endpoint_id,
            arm_flags: self.arm_flags,
            last_batch: self.last_batch_id,
        }
    }
}

impl OuterSubmitContext {
    pub fn new(
        package_generation: u64,
        session_generation: u64,
        context_generation: u64,
        endpoint_id: u32,
        arm_flags: u32,
    ) -> (c: Self)
        ensures
            c@ == (SubmitContext {
                package_generation,
                session_generation,
                context_generation,
                endpoint_id,
                arm_flags,
                last_batch: 0,
            }),
    {
        OuterSubmitContext {
            package_generation,
            session_generation,
            context_generation,
            endpoint_id,
            arm_flags,
            last_batch_id: 0,
        }
    }

    pub fn last_batch_id(&self) -> (id: u64)
        ensures
            id == self@.last_batch,
    {
        self.last_batch_id
    }
}

/// Why a submission is refused, if it is.
pub open spec fn submit_refusal(
    c: SubmitContext,
    s: HeliosOuterSubmitV1,
    command_length: u64,
    virtual_arm: u32,
    record: Result<(), HeliosOuterSubmitRejection>,
) -> Option<HeliosOuterSubmitRejection> {
    if record is Err {
        Some(record->Err_0)
    } else if s.package_generation != c.package_generation {
        Some(
            HeliosOuterSubmitRejection::PackageGeneration {
                found: s.package_generation,
                expected: c.package_generation,
            },
        )
    } else if s.session_generation != c.session_generation {
        Some(
            HeliosOuterSubmitRejection::SessionGeneration {
                found: s.session_generation,
                expected: c.session_generation,
            },
        )
    } else if s.context_generation != c.context_generation {
        Some(
            HeliosOuterSubmitRejection::ContextGeneration {
                found: s.context_generation,
                expected: c.context_generation,
            },
        )
    } else if s.endpoint_id != c.endpoint_id {
        Some(
            HeliosOuterSubmitRejection::EndpointId {
                found: s.endpoint_id,
                expected: c.endpoint_id,
            },
        )
    } else if c.arm_flags != virtual_arm {
        Some(HeliosOuterSubmitRejection::NotD3D12VirtualContext { context_flags: c.arm_flags })
    } else if s.batch_id == 0 {
        Some(HeliosOuterSubmitRejection::BatchIdZero)
    } else if s.batch_id <= c.last_batch {
        Some(
            HeliosOuterSubmitRejection::BatchIdNotIncreasing {
                found: s.batch_id,
                last: c.last_batch,
            },
        )
    } else if s.hob1_bytes == 0 {
        Some(HeliosOuterSubmitRejection::Hob1BytesZero)
    } else if s.hob1_bytes != command_length {
        Some(
            HeliosOuterSubmitRejection::Hob1BytesMismatch { found: s.hob1_bytes, command_length },
        )
    } else {
        None
    }
}

/// Admits an outer submission. A refused one spends no batch. `virtual_arm` is the
/// arm of the contexts that submit by virtual address, and `record` is what the
/// descriptor says of itself.
pub fn admit_hos1(
    context: &mut OuterSubmitContext,
    submit: &HeliosOuterSubmitV1,
    command_length: u64,
    virtual_arm: u32,
    record: Result<(), HeliosOuterSubmitRejection>,
) -> (r: Result<(), RenderRefusal>)
    ensures
        match submit_refusal(old(context)@, *submit, command_length, virtual_arm, record) {
            Some(e) => r is Err && r->Err_0 == RenderRefusal::OuterSubmit(e) && final(context)@
                == old(context)@,
            None => r is Ok && final(context)@ == (SubmitContext {
                last_batch: submit.batch_id,
                ..old(context)@
            }),
        },
{
    match check_submit(context, submit, command_length, virtual_arm, record) {
        Some(e) => Err(RenderRefusal::OuterSubmit(e)),
        None => {
            context.last_batch_id = submit.batch_id;
            Ok(())
        },
    }
}

fn check_submit(
    context: &OuterSubmitContext,
    submit: &HeliosOuterSubmitV1,
    command_length: u64,
    virtual_arm: u32,
    record: Result<(), HeliosOuterSubmitRejection>,
) -> (r: Option<HeliosOuterSubmitRejection>)
    ensures
        r == submit_refusal(context@, *submit, command_length, virtual_arm, record),
{
    if let Err(e) = record {
        return Some(e);
    }
    if submit.package_generation != context.package_generation {
        return Some(
            HeliosOuterSubmitRejection::PackageGeneration {
                found: submit.package_generation,
                expected: context.package_generation,
            },
        );
    }
    if submit.session_generation != context.session_generation {
        return Some(
            HeliosOuterSubmitRejection::SessionGeneration {
                found: submit.session_generation,
                expected: context.session_generation,
            },
        );
    }
    if submit.context_generation != context.context_generation {
        return Some(
            HeliosOuterSubmitRejection::ContextGeneration {
                found: submit.context_generation,
                expected: context.context_generation,
            },
        );
    }
    if submit.endpoint_id != context.endpoint_id {
        return Some(
            HeliosOuterSubmitRejection::EndpointId {
                found: submit.endpoint_id,
                expected: context.endpoint_id,
            },
        );
    }
    if context.arm_flags != virtual_arm {
        return Some(
            HeliosOuterSubmitRejection::NotD3D12VirtualContext { context_flags: context.arm_flags },
        );
    }
    if submit.batch_id == 0 {
        return Some(HeliosOuterSubmitRejection::BatchIdZero);
    }
    if submit.batch_id <= context.last_batch_id {
        return Some(
            HeliosOuterSubmitRejection::BatchIdNotIncreasing {
                found: submit.batch_id,
                last: context.last_batch_id,
            },
        );
    }
    if submit.hob1_bytes == 0 {
        return Some(HeliosOuterSubmitRejection::Hob1BytesZero);
    }
    if submit.hob1_bytes as u64 != command_length {
        return Some(
            HeliosOuterSubmitRejection::Hob1BytesMismatch {
                found: submit.hob1_bytes,
                command_length,
            },
        );
    }
    None
}

/// Spends a batch that was judged elsewhere. False if it is zero or not above the
/// last one.
pub fn commit_physical_hob1(context: &mut OuterSubmitContext, batch_id: u64) -> (b: bool)
    ensures
        b == (batch_id > old(context)@.last_batch),
        final(context)@ == (if b {
            SubmitContext { last_batch: batch_id, ..old(context)@ }
        } else {
            old(context)@
        }),
{
    if batch_id == 0 || batch_id <= context.last_batch_id {
        return false;
    }
    context.last_batch_id = batch_id;
    true
}

/// A batch that was submitted is spent: it is not admitted again, nor is any lower
/// one.
pub proof fn law_batch_ids_stay_spent(
    c: SubmitContext,
    s: HeliosOuterSubmitV1,
    length: u64,
    replay: HeliosOuterSubmitV1,
    replay_length: u64,
    virtual_arm: u32,
    record: Result<(), HeliosOuterSubmitRejection>,
)
    requires
        submit_refusal(c, s, length, virtual_arm, Ok(())) is None,
        replay.batch_id <= s.batch_id,
    ensures
        s.batch_id > c.last_batch,
        submit_refusal(
            SubmitContext { last_batch: s.batch_id, ..c },
            replay,
            replay_length,
            virtual_arm,
            record,
        ) is Some,
{
}

} // verus!
