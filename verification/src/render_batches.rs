//! What the render path admits: how a payload may be cut into fragments, what may be
//! staged, used, placed and submitted, and what each refusal stands for.

use vstd::prelude::*;
use crate::native_render;
use crate::native_render::{
    Assembler, CapabilityTablePlan, HeliosNativeRenderUse, HeliosNativeRenderV2,
    HeliosOuterSubmitV1, Hnr2OpenBatch, Hnr2PhysicalCapability, RenderRefusal, Staging,
    SubmitContext,
};
use crate::protocol::{
    HeliosOuterSubmitRejection, Hnr2CapacityLimit, Hnr2DmaReject, Hnr2Reject, Hnr2TableReject,
};

verus! {

/// The fragment has a place in its own batch: it is the first exactly if it begins the
/// batch, the last exactly if it commits it, and holds the end of the payload exactly
/// if it is the last.
pub open spec fn has_a_place(h: HeliosNativeRenderV2) -> bool {
    &&& h.batch_token > 0
    &&& h.fragment_index < h.fragment_count
    &&& (h.begins <==> h.fragment_index == 0)
    &&& (h.commits <==> h.fragment_index + 1 == h.fragment_count)
    &&& h.fragment_payload_bytes > 0
    &&& h.fragment_payload_offset + h.fragment_payload_bytes <= h.total_payload_bytes
    &&& (h.commits <==> h.fragment_payload_offset + h.fragment_payload_bytes
        == h.total_payload_bytes)
}

/// The fragment follows what was admitted before: it opens a batch under a new token
/// where none is open, or it goes on where the open batch stopped.
pub open spec fn comes_next(v: Assembler, h: HeliosNativeRenderV2) -> bool {
    if h.begins {
        v.open is None && h.batch_token > v.last_token && h.fragment_payload_offset == 0
    } else {
        v.open == Some(
            Hnr2OpenBatch {
                batch_token: h.batch_token,
                fragment_count: h.fragment_count,
                next_index: h.fragment_index,
                total_payload_bytes: h.total_payload_bytes,
                next_offset: h.fragment_payload_offset,
            },
        )
    }
}

/// A fragment whose record stands is admitted exactly if it has a place in its batch
/// and comes next. One whose record does not stand is refused for that.
pub proof fn law_a_fragment_is_admitted_if_it_is_next(
    v: Assembler,
    h: HeliosNativeRenderV2,
    record: Result<(), Hnr2Reject>,
)
    ensures
        native_render::fragment_refusal(v, h, record) is None <==> record is Ok && has_a_place(h)
            && comes_next(v, h),
        record is Err ==> native_render::fragment_refusal(v, h, record) == Some(record->Err_0),
{
}

/// The fault that a refusal of a fragment names.
pub open spec fn has_fault(v: Assembler, h: HeliosNativeRenderV2, e: Hnr2Reject) -> bool {
    let end = h.fragment_payload_offset + h.fragment_payload_bytes;
    let b = v.open->0;
    match e {
        Hnr2Reject::BatchTokenZero => h.batch_token == 0,
        Hnr2Reject::FragmentCountZero => h.fragment_count == 0,
        Hnr2Reject::FragmentIndexOutOfRange => h.fragment_index >= h.fragment_count,
        Hnr2Reject::BeginFlagMisplaced => h.begins != (h.fragment_index == 0),
        Hnr2Reject::CommitFlagMisplaced => h.commits != (h.fragment_index + 1
            == h.fragment_count),
        Hnr2Reject::TotalPayloadZero => h.total_payload_bytes == 0,
        Hnr2Reject::FragmentPayloadZero => h.fragment_payload_bytes == 0,
        Hnr2Reject::FragmentPayloadOverrun => end > h.total_payload_bytes,
        Hnr2Reject::NonFinalFragmentExhaustsPayload => !h.commits && end == h.total_payload_bytes,
        Hnr2Reject::FinalFragmentShort => h.commits && end < h.total_payload_bytes,
        Hnr2Reject::BatchAlreadyOpen => h.begins && v.open is Some,
        Hnr2Reject::BatchTokenNotIncreasing => h.begins && h.batch_token <= v.last_token,
        Hnr2Reject::NoOpenBatch => !h.begins && v.open is None,
        Hnr2Reject::BatchTokenMismatch => !h.begins && h.batch_token != b.batch_token,
        Hnr2Reject::FragmentCountChanged => !h.begins && h.fragment_count != b.fragment_count,
        Hnr2Reject::FragmentIndexOutOfOrder => !h.begins && h.fragment_index != b.next_index,
        Hnr2Reject::TotalPayloadChanged => !h.begins && h.total_payload_bytes
            != b.total_payload_bytes,
        Hnr2Reject::FragmentOffsetMismatch => if h.begins {
            h.fragment_payload_offset != 0
        } else {
            h.fragment_payload_offset != b.next_offset
        },
        _ => false,
    }
}

/// A refused fragment has the fault that it is refused for.
pub proof fn law_a_refused_fragment_has_its_fault(v: Assembler, h: HeliosNativeRenderV2)
    ensures
        native_render::fragment_refusal(v, h, Ok(())) matches Some(e) ==> has_fault(v, h, e),
{
}

/// The fragment with index `i` of a payload that is cut at `cuts`.
pub open spec fn is_cut(h: HeliosNativeRenderV2, token: u64, cuts: Seq<int>, i: int) -> bool {
    &&& h.batch_token == token
    &&& h.total_payload_bytes == cuts.last()
    &&& h.fragment_payload_offset == cuts[i]
    &&& h.fragment_payload_bytes == cuts[i + 1] - cuts[i]
    &&& h.fragment_index == i
    &&& h.fragment_count == cuts.len() - 1
    &&& h.begins == (i == 0)
    &&& h.commits == (i == cuts.len() - 2)
}

/// The fragments are a payload that is cut at increasing places, in order.
pub open spec fn are_cuts(hs: Seq<HeliosNativeRenderV2>, token: u64, cuts: Seq<int>) -> bool {
    &&& cuts.len() == hs.len() + 1
    &&& hs.len() > 0
    &&& cuts[0] == 0
    &&& forall|i: int, j: int| 0 <= i < j < cuts.len() ==> #[trigger] cuts[i] < #[trigger] cuts[j]
    &&& forall|i: int| 0 <= i < hs.len() ==> is_cut(#[trigger] hs[i], token, cuts, i)
}

/// The assembler after the first `n` fragments, each of which moved it.
pub open spec fn after_fragments(v: Assembler, hs: Seq<HeliosNativeRenderV2>, n: int) -> Assembler
    decreases n,
{
    if n <= 0 {
        v
    } else {
        let before = after_fragments(v, hs, n - 1);
        native_render::applied(before, hs[n - 1], native_render::acceptance(hs[n - 1]))
    }
}

/// However a payload is cut, its fragments are admitted one after the other under a new
/// token, and the last of them closes the batch. Until then the batch is open and
/// waits for the next cut. What is staged does not move.
pub proof fn law_a_payload_may_be_cut_anywhere(
    v: Assembler,
    hs: Seq<HeliosNativeRenderV2>,
    token: u64,
    cuts: Seq<int>,
    n: int,
)
    requires
        v.open is None,
        token > v.last_token,
        are_cuts(hs, token, cuts),
        0 <= n <= hs.len(),
    ensures
        ({
            let w = after_fragments(v, hs, n);
            &&& w.staging == v.staging
            &&& n < hs.len() ==> native_render::fragment_refusal(w, hs[n], Ok(())) is None
            &&& n == 0 ==> w == v
            &&& n > 0 ==> w.last_token == token
            &&& 0 < n < hs.len() ==> (w.open matches Some(b) && b.batch_token == token
                && b.next_index == n && b.next_offset == cuts[n] && b.fragment_count == hs.len()
                && b.total_payload_bytes == cuts.last())
            &&& n == hs.len() ==> w.open is None
        }),
    decreases n,
{
    if n < hs.len() {
        assert(is_cut(hs[n], token, cuts, n));
        assert(cuts[n] < cuts[n + 1]);
        if n + 1 < hs.len() {
            assert(cuts[n + 1] < cuts[hs.len() as int]);
        }
    }
    if n > 0 {
        law_a_payload_may_be_cut_anywhere(v, hs, token, cuts, n - 1);
        assert(is_cut(hs[n - 1], token, cuts, n - 1));
        assert(cuts[n - 1] < cuts[n]);
    }
}

/// What an admitted fragment is told to be follows from where it stands.
pub proof fn law_a_fragment_is_classed_by_its_place(h: HeliosNativeRenderV2)
    requires
        has_a_place(h),
    ensures
        ({
            let class = native_render::acceptance(h).class;
            &&& class is Complete <==> h.fragment_count == 1
            &&& class is Begin <==> h.fragment_index == 0 && h.fragment_count > 1
            &&& class is Commit <==> h.fragment_index > 0 && h.fragment_index + 1
                == h.fragment_count
            &&& class is Continue <==> h.fragment_index > 0 && h.fragment_index + 1
                < h.fragment_count
            &&& class.begins() <==> h.fragment_index == 0
            &&& class.commits() <==> h.fragment_index + 1 == h.fragment_count
        }),
{
}

/// Bytes are staged exactly if fewer than 64 submissions are out and the pool has room
/// for them. A refusal names the bound that is reached. What is staged adds up.
pub proof fn law_staging_is_bounded(v: Staging, bytes: u64)
    ensures
        native_render::checkout_refusal(v, bytes) is None <==> v.outstanding < 64 && v.bytes + bytes
            <= 0xF0_0000,
        native_render::checkout_refusal(v, bytes) == Some(
            Hnr2CapacityLimit::OutstandingSubmissions,
        ) <==> v.outstanding >= 64,
        native_render::checkout_refusal(v, bytes) == Some(Hnr2CapacityLimit::SlotPoolBytes)
            <==> v.outstanding < 64 && v.bytes + bytes > 0xF0_0000,
        native_render::checkout_refusal(v, bytes) is None ==> ({
            let w = native_render::staged(v, bytes);
            w.outstanding == v.outstanding + 1 && w.bytes == v.bytes + bytes
        }),
        v.outstanding > 0 && bytes <= v.bytes ==> ({
            let w = native_render::unstaged(v, bytes);
            w.outstanding == v.outstanding - 1 && w.bytes == v.bytes - bytes
        }),
{
}

/// A use is admitted exactly if it names a listed allocation and writes it exactly if
/// that allocation is opened for write.
pub proof fn law_a_use_writes_what_is_opened_for_write(
    u: HeliosNativeRenderUse,
    writes: Seq<bool>,
    write_access: u32,
)
    ensures
        ({
            let r = native_render::use_refusal(u, writes, write_access);
            let i = u.allocation_list_index as int;
            &&& r is None <==> i < writes.len() && (writes[i] <==> u.access_flags & write_access
                != 0)
            &&& r == Some(Hnr2TableReject::AllocationIndexOutOfRange) <==> i >= writes.len()
            &&& r == Some(Hnr2TableReject::WriteOperationMismatch) <==> i < writes.len() && (
            writes[i] <==> u.access_flags & write_access == 0)
        }),
{
}

/// A capability whose record stands is good exactly if it has a generation, covers some
/// bytes inside its allocation, and names an address only together with a segment.
pub proof fn law_a_capability_lies_inside_its_allocation(
    c: Hnr2PhysicalCapability,
    allocation_bytes: u64,
    record: Result<(), Hnr2DmaReject>,
)
    ensures
        ({
            let r = native_render::capability_refusal(c, allocation_bytes, record);
            &&& r is None <==> record is Ok && c.allocation_generation > 0 && c.byte_length > 0
                && c.allocation_offset + c.byte_length <= allocation_bytes && (c.segment_id == 0
                ==> c.physical_address == 0)
            &&& record is Err ==> r == Some(record->Err_0)
            &&& record is Ok ==> (r matches Some(e) ==> match e {
                Hnr2DmaReject::AllocationGenerationZero => c.allocation_generation == 0,
                Hnr2DmaReject::ByteLengthZero => c.byte_length == 0,
                Hnr2DmaReject::RangeOutOfAllocation => c.allocation_offset + c.byte_length
                    > allocation_bytes,
                Hnr2DmaReject::UnplacedCapabilityNotZeroed => c.segment_id == 0
                    && c.physical_address != 0,
                _ => false,
            })
        }),
{
}

/// A capability is built without a place, for the whole allocation and with the access
/// of its use; placing it changes its place alone, and a snapshot of an allocation
/// that has no place takes the place away.
pub proof fn law_placing_changes_the_place_alone(
    u: HeliosNativeRenderUse,
    generation: u64,
    bytes: u64,
    segment_id: u32,
    physical_address: u64,
)
    ensures
        ({
            let c = native_render::unplaced(u, generation, bytes);
            let p = native_render::placed_at(c, segment_id, physical_address);
            let t = native_render::snapshot_of(p, 0, physical_address);
            &&& c.segment_id == 0 && c.physical_address == 0 && c.hpm_epoch == 0
            &&& c.allocation_offset == 0 && c.byte_length == bytes
            &&& c.allocation_generation == generation && c.access_flags == u.access_flags
            &&& p.segment_id == segment_id && p.physical_address == physical_address
            &&& p.allocation_offset == 0 && p.byte_length == bytes && p.hpm_epoch == 0
            &&& p.allocation_generation == generation && p.access_flags == u.access_flags
            &&& t == c
            &&& segment_id != 0 ==> native_render::snapshot_of(c, segment_id, physical_address)
                == p
        }),
{
}

/// A submission whose record stands is admitted exactly if it is of the context's own
/// generations and endpoint, on a context that submits by virtual address, under a
/// batch above the last, and with the length of the command.
pub proof fn law_a_submission_fits_its_context(
    c: SubmitContext,
    s: HeliosOuterSubmitV1,
    command_length: u64,
    virtual_arm: u32,
    record: Result<(), HeliosOuterSubmitRejection>,
)
    ensures
        ({
            let r = native_render::submit_refusal(c, s, command_length, virtual_arm, record);
            &&& r is None <==> record is Ok && s.package_generation == c.package_generation
                && s.session_generation == c.session_generation && s.context_generation
                == c.context_generation && s.endpoint_id == c.endpoint_id && c.arm_flags
                == virtual_arm && s.batch_id > c.last_batch && s.hob1_bytes > 0 && s.hob1_bytes
                == command_length
            &&& record is Err ==> r == Some(record->Err_0)
            &&& record is Ok ==> (r matches Some(e) ==> match e {
                HeliosOuterSubmitRejection::PackageGeneration { found, expected } => found
                    == s.package_generation && expected == c.package_generation && found
                    != expected,
                HeliosOuterSubmitRejection::SessionGeneration { found, expected } => found
                    == s.session_generation && expected == c.session_generation && found
                    != expected,
                HeliosOuterSubmitRejection::ContextGeneration { found, expected } => found
                    == s.context_generation && expected == c.context_generation && found
                    != expected,
                HeliosOuterSubmitRejection::EndpointId { found, expected } => found
                    == s.endpoint_id && expected == c.endpoint_id && found != expected,
                HeliosOuterSubmitRejection::NotD3D12VirtualContext { context_flags } =>
                context_flags == c.arm_flags && context_flags != virtual_arm,
                HeliosOuterSubmitRejection::BatchIdZero => s.batch_id == 0,
                HeliosOuterSubmitRejection::BatchIdNotIncreasing { found, last } => found
                    == s.batch_id && last == c.last_batch && found <= last,
                HeliosOuterSubmitRejection::Hob1BytesZero => s.hob1_bytes == 0,
                HeliosOuterSubmitRejection::Hob1BytesMismatch { found, command_length: length } =>
                found == s.hob1_bytes && length == command_length && found != length,
                _ => false,
            })
        }),
{
}

/// The entries of a capability table stand one behind the other, 48 bytes each, and only
/// where an entry begins is one found.
pub proof fn law_table_entries_are_in_a_row(plan: CapabilityTablePlan, i: u32, at: u32)
    ensures
        plan.offset_of(i) == Some(at) <==> i < plan.count && at == plan.offset + 48 * i,
        plan.offset_of(i) is None <==> i >= plan.count || plan.offset + 48 * i > u32::MAX,
        plan.entry_of(at) == Some(i) <==> i < plan.count && at == plan.offset + 48 * i,
{
}

/// The numbers under which refused renders are counted. A refusal that passes on what was
/// said of a record is counted under the number of that record.
pub proof fn law_refusals_have_their_numbers(refusal: RenderRefusal, forwarded: u32)
    ensures
        native_render::refusal_code(refusal, forwarded) == (match refusal {
            RenderRefusal::Header(_) => forwarded,
            RenderRefusal::Table(_) => forwarded,
            RenderRefusal::Dma(_) => forwarded,
            RenderRefusal::Capacity(c) => match c.limit {
                Hnr2CapacityLimit::OutstandingSubmissions => 0x0801,
                Hnr2CapacityLimit::SlotPoolBytes => 0x0802,
                Hnr2CapacityLimit::LiveSnapshots => 0x0803,
                Hnr2CapacityLimit::LiveSnapshotBytes => 0x0804,
                Hnr2CapacityLimit::SnapshotBytes => 0x0805,
            },
            RenderRefusal::PatchListCapacityExceeded { .. } => 0x0701,
            RenderRefusal::StagingUnderflow => 0x0702,
            RenderRefusal::PlacementNotRepeatable => 0x0703,
            RenderRefusal::CapabilityTableTooLarge { .. } => 0x0704,
            RenderRefusal::ReplyOnQueueContext => 0x0705,
            RenderRefusal::OuterSubmit(reject) => native_render::submit_code(reject),
        }),
{
}

/// The numbers under which rejected submissions are counted.
pub proof fn law_rejected_submissions_have_their_numbers(reject: HeliosOuterSubmitRejection)
    ensures
        native_render::submit_code(reject) == (match reject {
            HeliosOuterSubmitRejection::Magic { .. } => 0x0901u32,
            HeliosOuterSubmitRejection::AbiVersion { .. } => 0x0902,
            HeliosOuterSubmitRejection::StructSize { .. } => 0x0903,
            HeliosOuterSubmitRejection::PrivateDataSize { .. } => 0x0904,
            HeliosOuterSubmitRejection::PackageGeneration { .. } => 0x0905,
            HeliosOuterSubmitRejection::SessionGeneration { .. } => 0x0906,
            HeliosOuterSubmitRejection::ContextGeneration { .. } => 0x0907,
            HeliosOuterSubmitRejection::EndpointId { .. } => 0x0908,
            HeliosOuterSubmitRejection::NotD3D12VirtualContext { .. } => 0x0909,
            HeliosOuterSubmitRejection::BatchIdZero => 0x090A,
            HeliosOuterSubmitRejection::BatchIdNotIncreasing { .. } => 0x090B,
            HeliosOuterSubmitRejection::Hob1BytesZero => 0x090C,
            HeliosOuterSubmitRejection::Hob1BytesBelowHeader { .. } => 0x090D,
            HeliosOuterSubmitRejection::Hob1BytesAboveLimit { .. } => 0x090E,
            HeliosOuterSubmitRejection::Hob1BytesMismatch { .. } => 0x090F,
            HeliosOuterSubmitRejection::ReservedNonZero { .. } => 0x0910,
            HeliosOuterSubmitRejection::Hob1BatchIdMismatch { .. } => 0x0911,
            HeliosOuterSubmitRejection::Hob1CrcMismatch { .. } => 0x0912,
            HeliosOuterSubmitRejection::Hob1TotalBytesMismatch { .. } => 0x0913,
        }),
{
}

/// A table is refused for the first of its uses that is wrong: every use before it names a
/// listed allocation and writes it exactly if it is opened for write, and that one does not.
pub proof fn law_the_first_bad_use_is_named(
    uses: Seq<HeliosNativeRenderUse>,
    writes: Seq<bool>,
    write_access: u32,
    k: int,
    e: Hnr2TableReject,
    i: int,
)
    requires
        native_render::first_bad_use(uses, writes, write_access, k, e),
        0 <= i <= k,
    ensures
        ({
            let listed = uses[i].allocation_list_index < writes.len();
            let fits = listed && (uses[i].access_flags & write_access != 0)
                == writes[uses[i].allocation_list_index as int];
            &&& k < uses.len()
            &&& fits <==> i < k
            &&& i == k ==> e == (if listed {
                Hnr2TableReject::WriteOperationMismatch
            } else {
                Hnr2TableReject::AllocationIndexOutOfRange
            })
        }),
{
    assert(i < k ==> native_render::use_refusal(uses[i], writes, write_access) is None);
}

} // verus!
