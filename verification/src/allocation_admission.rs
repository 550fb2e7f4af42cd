//! What allocation records are admitted for, field by field.

use vstd::prelude::*;
use crate::allocation_identity;
use crate::allocation_identity::{
    AllocPrivateKind, AllocationIdentity, GenerationCounter, HeliosAllocDescRejection,
    HeliosExtentRejection, HeliosExtentRetirementV1, HeliosExtentSealState,
    HeliosRetirementRejection, HeliosVenusMemoryAllocationV1, Hoc1Pool, Hvm1Placement, Hvm1Reject,
    IdentityRefusal, PlacementField, WrittenAllocationFlags,
};
use crate::bytes;
use crate::protocol::{HeliosWddmAllocationDescV2, Hvm1Role, Hwa2Vocabulary};

verus! {

/// A counter gives out its next generation, which is never zero and never the last
/// number, and goes on with the one after it. A reset changes its epoch alone, to the
/// next one.
pub proof fn law_generations_are_consecutive(c: GenerationCounter)
    ensures
        match allocation_identity::minted(c) {
            Ok((generation, d)) => 0 < c.next < u64::MAX && generation == c.next && d.next == c.next
                + 1 && d.epoch == c.epoch,
            Err(IdentityRefusal::GenerationCounterUninitialised) => c.next == 0,
            Err(IdentityRefusal::GenerationSpaceExhausted) => c.next == u64::MAX,
            Err(_) => false,
        },
        match allocation_identity::after_reset(c) {
            Ok(d) => c.epoch < u32::MAX && d.epoch == c.epoch + 1 && d.next == c.next,
            Err(e) => c.epoch == u32::MAX && e == IdentityRefusal::AdapterEpochSpaceExhausted,
        },
{
}

/// An allocation is opened exactly under the epoch that it was made in, and opening it
/// counts one more open and changes nothing else.
pub proof fn law_an_allocation_is_opened_in_its_epoch(a: AllocationIdentity, adapter_epoch: u32)
    ensures
        match allocation_identity::opened(a, adapter_epoch) {
            Ok(b) => a.epoch == adapter_epoch && b.opens == a.opens + 1 && b.generation
                == a.generation && b.epoch == a.epoch,
            Err(IdentityRefusal::StaleAdapterEpoch { object_epoch, adapter_epoch: found }) =>
                a.epoch != adapter_epoch && object_epoch == a.epoch && found == adapter_epoch,
            Err(IdentityRefusal::OpenCountOverflow) => a.opens == u32::MAX,
            Err(_) => false,
        },
{
}

/// A request is admitted exactly if it is of the package, names no generation yet and
/// sets no flag of the kernel driver. A refusal names what was found.
pub proof fn law_a_request_leaves_the_drivers_fields_open(
    d: HeliosWddmAllocationDescV2,
    package_generation: u64,
    vocabulary: Hwa2Vocabulary,
)
    ensures
        ({
            let r = allocation_identity::input_refusal(d, package_generation, vocabulary);
            let own = d.flags & vocabulary.flag_kmd_owned_mask;
            &&& r is None <==> d.package_generation == package_generation
                && d.allocation_generation == 0 && own == 0
            &&& r matches Some(e) ==> match e {
                HeliosAllocDescRejection::PackageGeneration { found, expected } => found
                    == d.package_generation && expected == package_generation && found != expected,
                HeliosAllocDescRejection::AllocationGenerationNonZeroOnInput { found } => found
                    == d.allocation_generation && found != 0,
                HeliosAllocDescRejection::KmdOwnedFlagSetOnInput { bits } => bits == own && bits
                    != 0,
                _ => false,
            }
        }),
{
}

/// A finished record is admitted exactly if it is of the package and has a generation, is
/// primary if it is flipped directly, and names no source if it is a primary of the
/// runtime.
pub proof fn law_a_finished_record_has_a_generation(
    d: HeliosWddmAllocationDescV2,
    package_generation: u64,
    vocabulary: Hwa2Vocabulary,
)
    ensures
        ({
            let r = allocation_identity::output_refusal(d, package_generation, vocabulary);
            let flipped = d.flags & vocabulary.flag_direct_flip_compatible != 0;
            let primary = d.flags & vocabulary.flag_primary != 0;
            let runtime = d.flags & vocabulary.flag_d3d12_runtime_primary != 0;
            &&& r is None <==> d.package_generation == package_generation
                && d.allocation_generation != 0 && (flipped ==> primary) && (runtime
                ==> d.vidpn_source == 0xFFFF_FFFF)
            &&& r matches Some(e) ==> match e {
                HeliosAllocDescRejection::PackageGeneration { found, expected } => found
                    == d.package_generation && expected == package_generation && found != expected,
                HeliosAllocDescRejection::AllocationGenerationZero => d.allocation_generation == 0,
                HeliosAllocDescRejection::DirectFlipWithoutPrimary => flipped && !primary,
                HeliosAllocDescRejection::D3D12RuntimePrimaryNotSentinel { found } => runtime
                    && found == d.vidpn_source && found != 0xFFFF_FFFF,
                _ => false,
            }
        }),
{
}

/// A stamped record has the generation and every flag that it was given, and is the
/// request in everything else.
pub proof fn law_a_stamp_adds_a_generation_and_flags(
    d: HeliosWddmAllocationDescV2,
    allocation_generation: u64,
    kmd_flags: u32,
)
    ensures
        ({
            let s = allocation_identity::stamped(d, allocation_generation, kmd_flags);
            &&& s.allocation_generation == allocation_generation
            &&& s.flags & kmd_flags == kmd_flags
            &&& s.flags & d.flags == d.flags
            &&& s.flags & !kmd_flags == d.flags & !kmd_flags
            &&& s == (HeliosWddmAllocationDescV2 {
                allocation_generation: s.allocation_generation,
                flags: s.flags,
                ..d
            })
        }),
{
    let f = d.flags;
    assert((f | kmd_flags) & kmd_flags == kmd_flags && (f | kmd_flags) & f == f && (f | kmd_flags)
        & !kmd_flags == f & !kmd_flags) by (bit_vector);
}

/// Two records echo each other exactly if they are equal but for the generation and for
/// the flags of the kernel driver.
pub proof fn law_echoes_differ_in_the_drivers_fields_alone(
    a: HeliosWddmAllocationDescV2,
    b: HeliosWddmAllocationDescV2,
    mask: u32,
)
    ensures
        allocation_identity::echoes(a, b, mask) <==> a == (HeliosWddmAllocationDescV2 {
            allocation_generation: a.allocation_generation,
            flags: a.flags,
            planes: a.planes,
            ..b
        }) && a.planes@ == b.planes@ && a.flags & !mask == b.flags & !mask,
{
}

/// Memory is requested exactly with the fields that the kernel driver writes back left at
/// zero, at the one size of a reply pool if it is one, and without processor access if
/// the processor never sees it.
pub proof fn law_memory_is_requested_for_its_role(
    h: HeliosVenusMemoryAllocationV1,
    role: Hvm1Role,
    cpu_access: u32,
)
    ensures
        ({
            let r = allocation_identity::hvm1_input_refusal(h, role, cpu_access);
            let blank = h.object_generation == 0 && h.segment_page_shift == 0
                && h.allocation_alignment == 0;
            let unseen = role is VulkanDeviceLocal;
            let reply = role is ReplyPool;
            &&& r is None <==> blank && (unseen ==> h.access & cpu_access == 0) && (reply
                ==> h.byte_size == 0x40_0000)
            &&& r matches Some(e) ==> match e {
                Hvm1Reject::AccessNotRoleCompatible => unseen && h.access & cpu_access != 0,
                Hvm1Reject::ByteSizeNotExactForRole => reply && h.byte_size != 0x40_0000,
                Hvm1Reject::WriteBackFieldNotZeroOnInput => !blank,
                _ => false,
            }
        }),
{
}

/// A memory request is answered by its length first, by its record next and by its role
/// last; an admitted one is what stands in the bytes.
pub proof fn law_a_memory_request_is_judged_in_order(
    b: Seq<u8>,
    cpu_access: u32,
    record: Result<Hvm1Role, Hvm1Reject>,
)
    ensures
        ({
            let r = allocation_identity::hvm1_admitted(b, cpu_access, record);
            &&& b.len() != 64 ==> r == Err::<
                (HeliosVenusMemoryAllocationV1, Hvm1Role),
                IdentityRefusal,
            >(IdentityRefusal::Hvm1(Hvm1Reject::PrivateDataSizeMismatch))
            &&& b.len() == 64 && record is Err ==> r == Err::<
                (HeliosVenusMemoryAllocationV1, Hvm1Role),
                IdentityRefusal,
            >(IdentityRefusal::Hvm1(record->Err_0))
            &&& r matches Ok((h, role)) ==> b.len() == 64 && record == Ok::<Hvm1Role, Hvm1Reject>(
                role,
            ) && h.byte_size == bytes::word64(b, 24) && h.role == bytes::word32(b, 32) && h.access
                == bytes::word32(b, 36) && h.cache_policy == bytes::word32(b, 40)
                && h.package_generation == bytes::word64(b, 8) && bytes::word64(b, 16) == 0
                && bytes::word32(b, 44) == 0 && bytes::word64(b, 48) == 0
            &&& b.len() == 64 && record is Ok && r is Err
                ==> allocation_identity::hvm1_input_refusal(
                allocation_identity::hvm1_of(b),
                record->Ok_0,
                cpu_access,
            ) is Some
        }),
{
}

/// A finished memory record has the generation and the alignment that it was given and
/// pages of 4096 bytes, and is the request in everything else.
pub proof fn law_a_memory_stamp_writes_three_fields(
    h: HeliosVenusMemoryAllocationV1,
    object_generation: u64,
    allocation_alignment: u64,
)
    ensures
        allocation_identity::hvm1_stamped(h, object_generation, allocation_alignment) == (
        HeliosVenusMemoryAllocationV1 {
            object_generation,
            segment_page_shift: 12,
            allocation_alignment,
            ..h
        }),
{
}

/// Where a part of a placement stands in the order of comparison.
pub open spec fn rank(field: PlacementField) -> int {
    match field {
        PlacementField::CpuVisible => 0,
        PlacementField::Cached => 1,
        PlacementField::AccessedPhysically => 2,
        PlacementField::ExplicitResidencyNotification => 3,
        PlacementField::DisablePartialResidency => 4,
        PlacementField::RestrictedToSingleSegment => 5,
        PlacementField::PreferredSegment => 6,
        PlacementField::CachePolicy => 7,
    }
}

/// The written flags agree with the placement in one part.
pub open spec fn agree(p: Hvm1Placement, w: WrittenAllocationFlags, field: PlacementField) -> bool {
    match field {
        PlacementField::CpuVisible => w.cpu_visible == p.cpu_visible,
        PlacementField::Cached => w.cached == p.cached,
        PlacementField::AccessedPhysically => w.accessed_physically == p.accessed_physically,
        PlacementField::ExplicitResidencyNotification => w.explicit_residency_notification
            == p.explicit_residency_notification,
        PlacementField::DisablePartialResidency => w.disable_partial_residency
            == p.disable_partial_residency,
        PlacementField::RestrictedToSingleSegment => w.restricted_to_single_segment
            == p.restricted_to_single_segment,
        PlacementField::PreferredSegment => w.preferred_segment == p.preferred_segment,
        PlacementField::CachePolicy => w.cache_policy == p.cache_policy,
    }
}

/// A difference is named exactly if there is one, and it is the first one.
pub proof fn law_the_first_difference_is_named(
    p: Hvm1Placement,
    w: WrittenAllocationFlags,
    field: PlacementField,
)
    ensures
        match allocation_identity::placement_difference(p, w) {
            None => agree(p, w, field),
            Some(found) => !agree(p, w, found) && (rank(field) < rank(found) ==> agree(
                p,
                w,
                field,
            )),
        },
{
}

/// An extent is reserved exactly if it has some bytes and not too many, begins on a
/// boundary of 64 KiB, ends inside the pool of 64 MiB, and is one of 256. It is counted,
/// and nothing else of the pool changes.
pub proof fn law_an_extent_is_reserved_if_it_fits(p: Hoc1Pool, offset: u64, length: u64)
    ensures
        ({
            let end = offset + length;
            match allocation_identity::reserved(p, offset, length) {
                Ok((state, q)) => 0 < length <= 0xF0_0000 && offset % 0x1_0000 == 0 && end
                    <= 0x400_0000 && p.live_extents < 256 && state is Reserved && q.live_extents
                    == p.live_extents + 1 && q.last_retired_hqc1_value
                    == p.last_retired_hqc1_value,
                Err(IdentityRefusal::Extent(e)) => match e {
                    HeliosExtentRejection::ByteLengthZero => length == 0,
                    HeliosExtentRejection::ByteLengthAboveHob1Limit { found, limit } => found
                        == length && limit == 0xF0_0000 && found > limit,
                    HeliosExtentRejection::OffsetMisaligned { offset: found, alignment } => found
                        == offset && alignment == 0x1_0000 && offset % 0x1_0000 != 0,
                    HeliosExtentRejection::RangeOutsidePool { end: found, pool_bytes } => pool_bytes
                        == 0x400_0000 && end > 0x400_0000 && found == (if end > u64::MAX {
                        u64::MAX as int
                    } else {
                        end
                    }),
                    HeliosExtentRejection::LiveExtentLimit { live, limit } => live
                        == p.live_extents && limit == 256 && live >= limit,
                },
                Err(_) => false,
            }
        }),
{
}

/// An extent is retired exactly if its record is good, its value is above the last one and
/// the device has come to it, and an extent is live. One fewer is live then.
pub proof fn law_an_extent_is_retired_once_it_is_complete(
    p: Hoc1Pool,
    t: HeliosExtentRetirementV1,
    completed: u64,
    record: Result<(), HeliosRetirementRejection>,
)
    ensures
        match allocation_identity::retired(p, t, completed, record) {
            Ok(q) => record is Ok && p.last_retired_hqc1_value < t.hqc1_value <= completed
                && q.live_extents == p.live_extents - 1 && q.last_retired_hqc1_value
                == t.hqc1_value,
            Err(IdentityRefusal::Retirement(e)) => if record is Err {
                e == record->Err_0
            } else {
                t.hqc1_value <= p.last_retired_hqc1_value && e == (
                HeliosRetirementRejection::Hqc1ValueNotIncreasing {
                    found: t.hqc1_value,
                    previous: p.last_retired_hqc1_value,
                })
            },
            Err(IdentityRefusal::ExtentNotRetiredYet { recorded, completed: found }) => recorded
                == t.hqc1_value && found == completed && completed < t.hqc1_value,
            Err(IdentityRefusal::NoLiveExtent) => p.live_extents == 0,
            Err(_) => false,
        },
{
}

/// How far an extent has come.
pub open spec fn stage(s: HeliosExtentSealState) -> int {
    match s {
        HeliosExtentSealState::Free => 0,
        HeliosExtentSealState::Reserved => 1,
        HeliosExtentSealState::Sealed => 2,
        HeliosExtentSealState::Submitted => 3,
        HeliosExtentSealState::Retired => 4,
    }
}

/// An extent goes through its five states in order and begins again.
pub proof fn law_an_extent_goes_through_its_states(s: HeliosExtentSealState)
    ensures
        stage(s.next()) == (stage(s) + 1) % 5,
{
}

/// A record is told by its exact length together with its tag: 168 bytes under `HWA2`, or
/// 64 bytes under `HVM1` or `HOC1`.
pub proof fn law_a_record_is_told_by_length_and_tag(b: Seq<u8>)
    ensures
        ({
            let tag = bytes::word32(b, 0);
            let kind = allocation_identity::private_kind(b);
            &&& kind == Some(AllocPrivateKind::Hwa2) <==> b.len() == 168 && tag == 0x3241_5748
            &&& kind == Some(AllocPrivateKind::Hvm1) <==> b.len() == 64 && tag == 0x314D_5648
            &&& kind == Some(AllocPrivateKind::Hoc1) <==> b.len() == 64 && tag == 0x3143_4F48
        }),
{
}

} // verus!
