use kmd_logic::allocation_identity::{
    check_input, check_output, classify_alloc_private_data, decode_hoc1, decode_hvm1,
    decode_hwa2, encode_hoc1, encode_hvm1, encode_hwa2, hoc1_admit_create_input,
    hoc1_stamp_create_output, hvm1_admit_create_input, hvm1_admit_placement, hvm1_fields_equal,
    hvm1_lock_admissible, hvm1_stamp_create_output, hvm1_written_flags_match,
    hwa2_admit_create_input, hwa2_admit_open, hwa2_echoed_fields_equal,
    hwa2_stamp_create_output, AllocPrivateKind, AllocationIdentity, GenerationCounter,
    HeliosAllocDescRejection, HeliosExtentRejection, HeliosExtentRetirementV1,
    HeliosExtentSealState, HeliosOuterCommandAllocRejection, HeliosOuterCommandAllocationV1,
    HeliosRetirementRejection, HeliosVenusMemoryAllocationV1, Hoc1Pool, Hvm1Placement,
    Hvm1Reject, IdentityRefusal, PlacementField, WrittenAllocationFlags, ADMITTED_ABI_VERSIONS,
    HELIOS_HOB1_MAX_BYTES, HELIOS_HOC1_EXTENT_ALIGNMENT, HELIOS_HOC1_MAX_LIVE_EXTENTS,
    HELIOS_HOC1_POOL_BYTES, HELIOS_HVM1_SEGMENT_PAGE_SHIFT,
};
use kmd_logic::protocol::{
    HeliosWddmAllocationDescV2, HeliosWddmPlaneRecordV2, Hvm1Role, Hwa2Vocabulary,
    D3DDDI_ID_UNINITIALIZED, HELIOS_HOC1_BYTES, HELIOS_HOC1_MAGIC, HELIOS_HVM1_MAGIC,
    HELIOS_HVM1_REPLY_POOL_BYTES, HELIOS_HVM1_SIZE, HELIOS_HWA2_BYTES,
};

const FLAG_DISPLAYABLE: u32 = 0x10;
const FLAG_PROTECTED: u32 = 0x20;
const FLAG_CPU_VISIBLE: u32 = 0x100;
const FLAG_SHARED: u32 = 0x400;
const BIND_CONSTANT_BUFFER: u32 = 0x4;
const KIND_STANDARD_PRIMARY: u32 = 3;
const MEMORY_DEVICE_LOCAL: u32 = 1;
const MEMORY_CPU_VISIBLE: u32 = 2;
const ACCESS_CPU_READ: u32 = 0x1;
const ACCESS_CPU_WRITE: u32 = 0x2;
const ACCESS_HOST_READ: u32 = 0x4;
const ACCESS_HOST_WRITE: u32 = 0x8;
const CACHE_NOT_CPU_VISIBLE: u32 = 3;
const SEGMENT_APERTURE: u32 = 2;

fn vocabulary() -> Hwa2Vocabulary {
    Hwa2Vocabulary {
        flag_kmd_owned_mask: 0x6,
        flag_direct_flip_compatible: 0x2,
        flag_d3d12_runtime_primary: 0x4,
        flag_primary: 0x1,
        flag_standard: 0x8,
        bind_render_target: 0x20,
        bind_shader_resource: 0x8,
        bind_unordered_access: 0x80,
        bind_depth_stencil: 0x40,
        bind_present: 0x100,
        swizzle_linear: 1,
        kind_buffer: 1,
        kind_image: 2,
    }
}

const PKG: u64 = 0x0001_0000_0000_0007;

fn primary_input() -> HeliosWddmAllocationDescV2 {
    let mut d = HeliosWddmAllocationDescV2::header(PKG, 0);
    d.byte_size = 1920 * 4 * 1080;
    d.width = 1920;
    d.height = 1080;
    d.depth_or_array_size = 1;
    d.mip_levels = 1;
    d.dxgi_format = 87;
    d.d3d_ddi_format = 21;
    d.sample_count = 1;
    d.sample_quality = 0;
    d.allocation_kind = KIND_STANDARD_PRIMARY;
    d.flags = vocabulary().flag_primary
        | FLAG_DISPLAYABLE
        | FLAG_SHARED
        | vocabulary().flag_standard;
    d.bind_flags = vocabulary().bind_render_target | vocabulary().bind_shader_resource;
    d.vidpn_source = 0;
    d.standard_allocation_type = 1;
    d.swizzle_class = vocabulary().swizzle_linear;
    d.memory_class = MEMORY_DEVICE_LOCAL;
    d.plane_count = 1;
    d.planes[0] = HeliosWddmPlaneRecordV2 {
        offset: 0,
        row_pitch: 1920 * 4,
        slice_pitch: 1920 * 4 * 1080,
    };
    d
}

fn buffer_input() -> HeliosWddmAllocationDescV2 {
    let mut d = HeliosWddmAllocationDescV2::header(PKG, 0);
    d.byte_size = 65536;
    d.allocation_kind = vocabulary().kind_buffer;
    d.bind_flags = BIND_CONSTANT_BUFFER;
    d.swizzle_class = vocabulary().swizzle_linear;
    d.memory_class = MEMORY_CPU_VISIBLE;
    d.flags = FLAG_CPU_VISIBLE;
    d
}

fn create_input(b: &[u8]) -> Result<HeliosWddmAllocationDescV2, IdentityRefusal> {
    hwa2_admit_create_input(b, PKG, &vocabulary(), Ok(()))
}

fn stamp(
    input: &HeliosWddmAllocationDescV2,
    allocation_generation: u64,
    kmd_flags: u32,
) -> Result<HeliosWddmAllocationDescV2, IdentityRefusal> {
    hwa2_stamp_create_output(input, allocation_generation, kmd_flags, PKG, &vocabulary(), Ok(()))
}

fn open(b: &[u8], package_generation: u64) -> Result<HeliosWddmAllocationDescV2, IdentityRefusal> {
    hwa2_admit_open(b, package_generation, &vocabulary(), Ok(()))
}

fn role_of(number: u32) -> Result<Hvm1Role, Hvm1Reject> {
    for role in [
        Hvm1Role::ReplyPool,
        Hvm1Role::VulkanHostVisible,
        Hvm1Role::Feedback,
        Hvm1Role::VulkanDeviceLocal,
    ] {
        if role.to_u32() == number {
            return Ok(role);
        }
    }
    Err(Hvm1Reject::Record { code: 1 })
}

/// What the record says of itself here: the role that its number names.
fn memory_input(
    b: &[u8],
) -> Result<(HeliosVenusMemoryAllocationV1, Hvm1Role), IdentityRefusal> {
    let record = match decode_hvm1(b) {
        Ok(h) => role_of(h.role),
        Err(e) => Err(e),
    };
    hvm1_admit_create_input(b, ACCESS_CPU_READ | ACCESS_CPU_WRITE, record)
}

fn memory_stamp(
    input: &HeliosVenusMemoryAllocationV1,
    object_generation: u64,
    allocation_alignment: u64,
) -> Result<HeliosVenusMemoryAllocationV1, IdentityRefusal> {
    let record = if allocation_alignment.is_power_of_two() {
        Ok(())
    } else {
        Err(Hvm1Reject::AllocationAlignmentInvalid)
    };
    hvm1_stamp_create_output(input, object_generation, allocation_alignment, record)
}

fn memory_record(role: Hvm1Role, byte_size: u64, access: u32) -> HeliosVenusMemoryAllocationV1 {
    HeliosVenusMemoryAllocationV1 {
        magic: HELIOS_HVM1_MAGIC,
        abi_version: 1,
        struct_size: HELIOS_HVM1_SIZE,
        package_generation: PKG,
        object_generation: 0,
        byte_size,
        role: role.to_u32(),
        access,
        cache_policy: placement_of(role).cache_policy,
        segment_page_shift: 0,
        allocation_alignment: 0,
        reserved: 0,
    }
}

fn reply_pool_input() -> HeliosVenusMemoryAllocationV1 {
    memory_record(
        Hvm1Role::ReplyPool,
        HELIOS_HVM1_REPLY_POOL_BYTES,
        ACCESS_CPU_READ | ACCESS_HOST_WRITE,
    )
}

fn pool_input() -> HeliosOuterCommandAllocationV1 {
    HeliosOuterCommandAllocationV1 {
        magic: HELIOS_HOC1_MAGIC,
        abi_version: 1,
        struct_size: HELIOS_HOC1_BYTES,
        package_generation: PKG,
        allocation_generation: 0,
        byte_size: HELIOS_HOC1_POOL_BYTES,
        extent_alignment: HELIOS_HOC1_EXTENT_ALIGNMENT,
        access: 1,
        cache_policy: 2,
        physical_adapter_mask: 1,
        reserved: [0; 16],
    }
}

fn placement_of(role: Hvm1Role) -> Hvm1Placement {
    let cpu_visible = role != Hvm1Role::VulkanDeviceLocal;
    Hvm1Placement {
        cpu_visible,
        cached: cpu_visible,
        accessed_physically: true,
        explicit_residency_notification: true,
        disable_partial_residency: true,
        restricted_to_single_segment: true,
        preferred_segment: SEGMENT_APERTURE,
        cache_policy: if cpu_visible { 1 } else { CACHE_NOT_CPU_VISIBLE },
    }
}

fn host_visible_input() -> HeliosVenusMemoryAllocationV1 {
    memory_record(
        Hvm1Role::VulkanHostVisible,
        65536,
        ACCESS_CPU_READ | ACCESS_CPU_WRITE,
    )
}

fn device_local_input() -> HeliosVenusMemoryAllocationV1 {
    memory_record(
        Hvm1Role::VulkanDeviceLocal,
        4096,
        ACCESS_HOST_READ | ACCESS_HOST_WRITE,
    )
}

fn retirement(hqc1_value: u64) -> HeliosExtentRetirementV1 {
    HeliosExtentRetirementV1 {
        queue_context: 0xDEAD_BEEF,
        context_generation: 0x2222_2222_2222_2222,
        batch_id: 7,
        hqc1_value,
    }
}

#[test]
fn generations_are_nonzero_unique_and_survive_an_adapter_reset() {
    let counter = GenerationCounter::new();
    let (first, counter) = AllocationIdentity::create(counter).expect("first create");
    let (second, counter) = AllocationIdentity::create(counter).expect("second create");
    assert_ne!(first.generation, 0);
    assert_ne!(second.generation, 0);
    assert_ne!(first.generation, second.generation);

    let counter = counter.on_adapter_reset().expect("reset bumps the epoch");
    let (third, _) = AllocationIdentity::create(counter).expect("post-reset create");
    assert_ne!(third.generation, first.generation);
    assert_ne!(third.generation, second.generation);
    assert!(third.generation > second.generation);
    assert_ne!(third.epoch, first.epoch);

    assert_eq!(
        first.open(third.epoch),
        Err(IdentityRefusal::StaleAdapterEpoch {
            object_epoch: first.epoch,
            adapter_epoch: third.epoch,
        })
    );
}

#[test]
fn the_generation_counter_refuses_exhaustion_rather_than_repeating() {
    let counter = GenerationCounter {
        next: u64::MAX - 1,
        epoch: 1,
    };
    let (value, counter) = counter.mint().expect("the penultimate value is legal");
    assert_eq!(value, u64::MAX - 1);
    assert_eq!(counter.next, u64::MAX);
    assert_eq!(
        counter.mint().err(),
        Some(IdentityRefusal::GenerationSpaceExhausted)
    );

    assert_eq!(
        GenerationCounter { next: 0, epoch: 0 }.mint().err(),
        Some(IdentityRefusal::GenerationCounterUninitialised)
    );
    assert_eq!(
        GenerationCounter {
            next: 1,
            epoch: u32::MAX,
        }
        .on_adapter_reset()
        .err(),
        Some(IdentityRefusal::AdapterEpochSpaceExhausted)
    );
}

#[test]
fn open_never_restamps_the_generation() {
    let (identity, _) = AllocationIdentity::create(GenerationCounter::new()).expect("create");
    let mut current = identity;
    for expected_opens in 1..=8u32 {
        current = current.open(identity.epoch).expect("open");
        assert_eq!(current.generation, identity.generation);
        assert_eq!(current.epoch, identity.epoch);
        assert_eq!(current.opens, expected_opens);
    }

    let saturated = AllocationIdentity {
        opens: u32::MAX,
        ..identity
    };
    assert_eq!(
        saturated.open(identity.epoch),
        Err(IdentityRefusal::OpenCountOverflow)
    );
}

#[test]
fn the_generation_is_a_stale_check_and_zero_is_never_a_wildcard() {
    let (identity, counter) =
        AllocationIdentity::create(GenerationCounter::new()).expect("create");
    let (other, _) = AllocationIdentity::create(counter).expect("second create");

    assert_eq!(
        identity.matches_expected(identity.generation, identity.epoch),
        Ok(true)
    );
    assert_eq!(
        identity.matches_expected(other.generation, identity.epoch),
        Ok(false)
    );
    assert_eq!(
        identity.matches_expected(0, identity.epoch),
        Err(IdentityRefusal::ExpectedGenerationZero)
    );
    assert_eq!(
        identity.matches_expected(identity.generation, identity.epoch + 1),
        Err(IdentityRefusal::StaleAdapterEpoch {
            object_epoch: identity.epoch,
            adapter_epoch: identity.epoch + 1,
        })
    );
}

#[test]
fn hwa2_create_input_refuses_every_kmd_owned_field() {
    let good = encode_hwa2(&primary_input());
    assert!(create_input(&good).is_ok());

    let mut with_generation = primary_input();
    with_generation.allocation_generation = 0x51;
    assert_eq!(
        create_input(&encode_hwa2(&with_generation)),
        Err(IdentityRefusal::Hwa2(
            HeliosAllocDescRejection::AllocationGenerationNonZeroOnInput { found: 0x51 }
        ))
    );

    for bit in [
        vocabulary().flag_direct_flip_compatible,
        vocabulary().flag_d3d12_runtime_primary,
    ] {
        let mut d = primary_input();
        if bit == vocabulary().flag_d3d12_runtime_primary {
            d.vidpn_source = D3DDDI_ID_UNINITIALIZED;
        }
        d.flags |= bit;
        assert_eq!(
            create_input(&encode_hwa2(&d)),
            Err(IdentityRefusal::Hwa2(
                HeliosAllocDescRejection::KmdOwnedFlagSetOnInput { bits: bit }
            )),
            "flag {bit:#x} is KMD-owned and must be refused on input"
        );
    }
}

#[test]
fn hwa2_write_back_passes_create_output_and_then_fails_create_input() {
    let input = create_input(&encode_hwa2(&primary_input())).expect("admit");
    let output =
        stamp(&input, 0x51, vocabulary().flag_direct_flip_compatible)
            .expect("stamp");

    assert_eq!(check_output(&output, PKG, &vocabulary()), None);
    assert_eq!(open(&encode_hwa2(&output), PKG), Ok(output));
    assert_eq!(
        check_input(&output, PKG, &vocabulary()),
        Some(HeliosAllocDescRejection::AllocationGenerationNonZeroOnInput { found: 0x51 })
    );
}

#[test]
fn hwa2_create_output_with_a_zero_generation_is_refused() {
    let input = create_input(&encode_hwa2(&buffer_input())).expect("admit");
    assert_eq!(
        stamp(&input, 0, 0),
        Err(IdentityRefusal::GenerationZeroAtStamp)
    );

    let mut unstamped = input;
    unstamped.allocation_generation = 0;
    assert_eq!(
        open(&encode_hwa2(&unstamped), PKG),
        Err(IdentityRefusal::Hwa2(
            HeliosAllocDescRejection::AllocationGenerationZero
        ))
    );
}

#[test]
fn hwa2_echoes_every_non_kmd_byte_verbatim() {
    for input in [primary_input(), buffer_input()] {
        let kmd_flags = if input.has_flag(vocabulary().flag_primary) {
            vocabulary().flag_direct_flip_compatible
        } else {
            0
        };
        let admitted = create_input(&encode_hwa2(&input)).expect("admit");
        let output =
            stamp(&admitted, 0xABCD, kmd_flags).expect("stamp");

        assert!(hwa2_echoed_fields_equal(&admitted, &output, &vocabulary()));

        let before = encode_hwa2(&admitted);
        let after = encode_hwa2(&output);
        for offset in 0..before.len() {
            if (16..24).contains(&offset) {
                continue;
            }
            if (68..72).contains(&offset) {
                continue;
            }
            assert_eq!(
                before[offset], after[offset],
                "byte {offset} is not KMD-owned and must be echoed verbatim"
            );
        }
        let flags_before = u32::from_le_bytes([before[68], before[69], before[70], before[71]]);
        let flags_after = u32::from_le_bytes([after[68], after[69], after[70], after[71]]);
        assert_eq!(
            flags_before & !vocabulary().flag_kmd_owned_mask,
            flags_after & !vocabulary().flag_kmd_owned_mask,
            "only the two KMD-owned bits may change in the flag word"
        );
        assert_eq!(flags_after & vocabulary().flag_kmd_owned_mask, kmd_flags);
    }
}

#[test]
fn the_kmd_stamp_is_not_a_rubber_stamp() {
    let buffer = create_input(&encode_hwa2(&buffer_input())).expect("admit");
    assert_eq!(
        stamp(&buffer, 1, vocabulary().flag_direct_flip_compatible),
        Err(IdentityRefusal::Hwa2(
            HeliosAllocDescRejection::DirectFlipWithoutPrimary
        ))
    );

    let primary = create_input(&encode_hwa2(&primary_input())).expect("admit");
    assert_eq!(
        stamp(&primary, 1, vocabulary().flag_d3d12_runtime_primary),
        Err(IdentityRefusal::Hwa2(
            HeliosAllocDescRejection::D3D12RuntimePrimaryNotSentinel { found: 0 }
        ))
    );

    assert_eq!(
        stamp(&primary, 1, FLAG_PROTECTED),
        Err(IdentityRefusal::KmdFlagOutsidePartition {
            bits: FLAG_PROTECTED
        })
    );
}

#[test]
fn open_is_a_pure_read() {
    let input = create_input(&encode_hwa2(&primary_input())).expect("admit");
    let output =
        stamp(&input, 0x51, vocabulary().flag_direct_flip_compatible)
            .expect("stamp");
    let on_the_wire = encode_hwa2(&output);

    let opened = open(&on_the_wire, PKG).expect("open");
    assert_eq!(opened, output);
    assert_eq!(encode_hwa2(&opened), on_the_wire);

    assert_eq!(
        open(&on_the_wire, PKG ^ 1),
        Err(IdentityRefusal::Hwa2(
            HeliosAllocDescRejection::PackageGeneration {
                found: PKG,
                expected: PKG ^ 1,
            }
        ))
    );
}

#[test]
fn hvm1_role_four_refuses_cpu_access_and_is_never_lockable() {
    let (record, role) =
        memory_input(&encode_hvm1(&device_local_input())).expect("admit");
    assert_eq!(role, Hvm1Role::VulkanDeviceLocal);
    assert_eq!(record.cache_policy, CACHE_NOT_CPU_VISIBLE);
    assert_eq!(
        hvm1_lock_admissible(Hvm1Role::VulkanDeviceLocal),
        Err(IdentityRefusal::Role4NeverLockable)
    );

    for bit in [ACCESS_CPU_READ, ACCESS_CPU_WRITE] {
        let mut cpu = device_local_input();
        cpu.access |= bit;
        assert_eq!(
            memory_input(&encode_hvm1(&cpu)).err(),
            Some(IdentityRefusal::Hvm1(Hvm1Reject::AccessNotRoleCompatible)),
            "role 4 must refuse CPU access bit {bit:#x}"
        );
    }

    for role in [
        Hvm1Role::ReplyPool,
        Hvm1Role::VulkanHostVisible,
        Hvm1Role::Feedback,
    ] {
        assert_eq!(hvm1_lock_admissible(role), Ok(()));
    }
}

#[test]
fn hvm1_reply_pool_size_is_fixed_at_the_kmd_entry_point() {
    let pool = reply_pool_input();
    assert_eq!(pool.byte_size, HELIOS_HVM1_REPLY_POOL_BYTES);
    assert_eq!(HELIOS_HVM1_REPLY_POOL_BYTES, 4 * 1024 * 1024);
    let (_, role) = memory_input(&encode_hvm1(&pool)).expect("admit");
    assert_eq!(role, Hvm1Role::ReplyPool);

    let mut half = pool;
    half.byte_size = HELIOS_HVM1_REPLY_POOL_BYTES / 2;
    assert_eq!(
        memory_input(&encode_hvm1(&half)).err(),
        Some(IdentityRefusal::Hvm1(Hvm1Reject::ByteSizeNotExactForRole))
    );
}

#[test]
fn hvm1_write_back_fields_are_refused_nonzero_on_input() {
    let input = host_visible_input();
    for prefill in [
        |r: &mut HeliosVenusMemoryAllocationV1| r.object_generation = 9,
        |r: &mut HeliosVenusMemoryAllocationV1| r.segment_page_shift = 12,
        |r: &mut HeliosVenusMemoryAllocationV1| r.allocation_alignment = 4096,
    ] {
        let mut prefilled = input;
        prefill(&mut prefilled);
        assert_eq!(
            memory_input(&encode_hvm1(&prefilled)).err(),
            Some(IdentityRefusal::Hvm1(
                Hvm1Reject::WriteBackFieldNotZeroOnInput
            ))
        );
    }

    let (admitted, role) = memory_input(&encode_hvm1(&input)).expect("admit");
    assert_eq!(role, Hvm1Role::VulkanHostVisible);
    let output = memory_stamp(&admitted, 42, 4096).expect("stamp");
    assert_eq!(output.object_generation, 42);
    assert_eq!(output.segment_page_shift, HELIOS_HVM1_SEGMENT_PAGE_SHIFT);
    assert_eq!(output.allocation_alignment, 4096);

    let mut echoed = output;
    echoed.object_generation = 0;
    echoed.segment_page_shift = 0;
    echoed.allocation_alignment = 0;
    assert!(hvm1_fields_equal(&echoed, &admitted));

    assert_eq!(
        memory_stamp(&admitted, 0, 4096).err(),
        Some(IdentityRefusal::GenerationZeroAtStamp)
    );
    assert_eq!(
        memory_stamp(&admitted, 42, 4095).err(),
        Some(IdentityRefusal::Hvm1(
            Hvm1Reject::AllocationAlignmentInvalid
        ))
    );
}

#[test]
fn hvm1_placement_is_refused_until_the_aperture_segment_exists() {
    for role in [
        Hvm1Role::ReplyPool,
        Hvm1Role::VulkanHostVisible,
        Hvm1Role::Feedback,
        Hvm1Role::VulkanDeviceLocal,
    ] {
        assert_eq!(
            hvm1_admit_placement(role, placement_of(role), SEGMENT_APERTURE, false),
            Err(IdentityRefusal::ApertureSegmentNotExposed {
                role: role.to_u32()
            }),
            "role {} must be counted without an aperture",
            role.to_u32()
        );
        let placement = hvm1_admit_placement(role, placement_of(role), SEGMENT_APERTURE, true)
            .expect("aperture present");
        assert_eq!(placement.preferred_segment, SEGMENT_APERTURE);
    }
}

#[test]
fn hvm1_written_flags_must_match_the_role_table_field_by_field() {
    for role in [
        Hvm1Role::ReplyPool,
        Hvm1Role::VulkanHostVisible,
        Hvm1Role::Feedback,
        Hvm1Role::VulkanDeviceLocal,
    ] {
        let placement = placement_of(role);
        let faithful = WrittenAllocationFlags {
            cpu_visible: placement.cpu_visible,
            cached: placement.cached,
            accessed_physically: placement.accessed_physically,
            explicit_residency_notification: placement.explicit_residency_notification,
            disable_partial_residency: placement.disable_partial_residency,
            restricted_to_single_segment: placement.restricted_to_single_segment,
            preferred_segment: placement.preferred_segment,
            cache_policy: placement.cache_policy,
        };
        assert_eq!(hvm1_written_flags_match(&placement, &faithful), Ok(()));

        let mut dropped = faithful;
        dropped.disable_partial_residency = false;
        assert_eq!(
            hvm1_written_flags_match(&placement, &dropped),
            Err(IdentityRefusal::PlacementMismatch {
                field: PlacementField::DisablePartialResidency
            })
        );
        let mut dropped = faithful;
        dropped.restricted_to_single_segment = false;
        assert_eq!(
            hvm1_written_flags_match(&placement, &dropped),
            Err(IdentityRefusal::PlacementMismatch {
                field: PlacementField::RestrictedToSingleSegment
            })
        );
        let mut flipped = faithful;
        flipped.cpu_visible = !flipped.cpu_visible;
        assert_eq!(
            hvm1_written_flags_match(&placement, &flipped),
            Err(IdentityRefusal::PlacementMismatch {
                field: PlacementField::CpuVisible
            })
        );
        let mut foreign = faithful;
        foreign.preferred_segment = u32::MAX;
        assert_eq!(
            hvm1_written_flags_match(&placement, &foreign),
            Err(IdentityRefusal::PlacementMismatch {
                field: PlacementField::PreferredSegment
            })
        );
    }
}

#[test]
fn hoc1_create_stamps_the_generation_exactly_once() {
    let bytes = encode_hoc1(&pool_input());
    let input = hoc1_admit_create_input(&bytes, Ok(())).expect("admit");
    assert_eq!(input.allocation_generation, 0);
    assert_eq!(input.byte_size, HELIOS_HOC1_POOL_BYTES);

    let output = hoc1_stamp_create_output(&input, 0x9, Ok(())).expect("stamp");
    assert_eq!(output.allocation_generation, 0x9);
    assert_eq!(
        hoc1_admit_create_input(&encode_hoc1(&output), Ok(())),
        Err(IdentityRefusal::Hoc1(
            HeliosOuterCommandAllocRejection::AllocationGenerationNonZeroOnInput { found: 0x9 }
        ))
    );
    assert_eq!(
        hoc1_stamp_create_output(&input, 0, Ok(())),
        Err(IdentityRefusal::GenerationZeroAtStamp)
    );
}

#[test]
fn the_pool_ledger_enforces_the_live_extent_cap_across_calls() {
    let mut pool = Hoc1Pool::new();
    for i in 0..HELIOS_HOC1_MAX_LIVE_EXTENTS {
        let offset = u64::from(i) * u64::from(HELIOS_HOC1_EXTENT_ALIGNMENT);
        let (state, next) = pool
            .reserve(offset, 4096)
            .expect("reservation inside the pool");
        assert_eq!(state, HeliosExtentSealState::Reserved);
        assert!(state.cpu_writable());
        pool = next;
    }
    assert_eq!(pool.live_extents, HELIOS_HOC1_MAX_LIVE_EXTENTS);
    assert_eq!(
        pool.reserve(0, 4096),
        Err(IdentityRefusal::Extent(
            HeliosExtentRejection::LiveExtentLimit {
                live: HELIOS_HOC1_MAX_LIVE_EXTENTS,
                limit: HELIOS_HOC1_MAX_LIVE_EXTENTS,
            }
        ))
    );

    let pool = pool.retire(&retirement(10), 10, Ok(())).expect("retire one");
    assert_eq!(pool.live_extents, HELIOS_HOC1_MAX_LIVE_EXTENTS - 1);
    let (_, pool) = pool.reserve(0, 4096).expect("a slot came free");
    assert_eq!(pool.live_extents, HELIOS_HOC1_MAX_LIVE_EXTENTS);
}

#[test]
fn the_pool_ledger_walks_reserve_seal_submit_retire() {
    let pool = Hoc1Pool::new();
    let (mut state, pool) = pool.reserve(0, HELIOS_HOB1_MAX_BYTES).expect("reserve");
    assert_eq!(pool.live_extents, 1);
    assert!(state.cpu_writable());

    for next in [
        HeliosExtentSealState::Sealed,
        HeliosExtentSealState::Submitted,
        HeliosExtentSealState::Retired,
    ] {
        state = state.advance(next).expect("legal C65 transition");
        assert!(!state.cpu_writable());
    }

    assert_eq!(
        pool.retire(&retirement(12), 11, Ok(())),
        Err(IdentityRefusal::ExtentNotRetiredYet {
            recorded: 12,
            completed: 11,
        })
    );
    let pool = pool.retire(&retirement(12), 12, Ok(())).expect("retire");
    assert_eq!(pool.live_extents, 0);
    assert_eq!(pool.last_retired_hqc1_value, 12);
    assert_eq!(
        state.advance(HeliosExtentSealState::Free),
        Ok(HeliosExtentSealState::Free)
    );

    assert_eq!(
        pool.retire(&retirement(13), 13, Ok(())),
        Err(IdentityRefusal::NoLiveExtent)
    );
}

#[test]
fn retirement_values_must_strictly_increase_across_calls() {
    let (_, pool) = Hoc1Pool::new().reserve(0, 4096).expect("reserve");
    let (_, pool) = pool
        .reserve(u64::from(HELIOS_HOC1_EXTENT_ALIGNMENT), 4096)
        .expect("reserve");
    let pool = pool.retire(&retirement(5), 100, Ok(())).expect("first retire");
    assert_eq!(
        pool.retire(&retirement(5), 100, Ok(())),
        Err(IdentityRefusal::Retirement(
            HeliosRetirementRejection::Hqc1ValueNotIncreasing {
                found: 5,
                previous: 5,
            }
        ))
    );
    let pool = pool.retire(&retirement(6), 100, Ok(())).expect("second retire");
    assert_eq!(pool.live_extents, 0);
}

#[test]
fn extent_bounds_are_the_hob1_limit_and_the_pool_end() {
    let pool = Hoc1Pool::new();
    assert_eq!(HELIOS_HOB1_MAX_BYTES, 15 * 1024 * 1024);
    assert_eq!(HELIOS_HOC1_POOL_BYTES, 64 * 1024 * 1024);
    assert_eq!(HELIOS_HOC1_EXTENT_ALIGNMENT, 64 * 1024);

    assert_eq!(
        pool.reserve(0, HELIOS_HOB1_MAX_BYTES + 1),
        Err(IdentityRefusal::Extent(
            HeliosExtentRejection::ByteLengthAboveHob1Limit {
                found: HELIOS_HOB1_MAX_BYTES + 1,
                limit: HELIOS_HOB1_MAX_BYTES,
            }
        ))
    );
    assert_eq!(
        pool.reserve(
            HELIOS_HOC1_POOL_BYTES - u64::from(HELIOS_HOC1_EXTENT_ALIGNMENT),
            65537
        ),
        Err(IdentityRefusal::Extent(
            HeliosExtentRejection::RangeOutsidePool {
                end: HELIOS_HOC1_POOL_BYTES + 1,
                pool_bytes: HELIOS_HOC1_POOL_BYTES,
            }
        ))
    );
    assert_eq!(
        pool.reserve(4096, 4096),
        Err(IdentityRefusal::Extent(
            HeliosExtentRejection::OffsetMisaligned {
                offset: 4096,
                alignment: HELIOS_HOC1_EXTENT_ALIGNMENT,
            }
        ))
    );
    assert_eq!(
        pool.reserve(0, 0),
        Err(IdentityRefusal::Extent(
            HeliosExtentRejection::ByteLengthZero
        ))
    );
}

#[test]
fn hwa2_private_data_is_an_exact_length_gate() {
    let record = primary_input();
    let bytes = encode_hwa2(&record);
    let expected = HELIOS_HWA2_BYTES as usize;
    assert_eq!(bytes.len(), expected);

    assert_eq!(create_input(&bytes), Ok(record));
    assert_eq!(
        create_input(&bytes[..expected - 1]),
        Err(IdentityRefusal::Hwa2(
            HeliosAllocDescRejection::PrivateDataSize {
                found: expected - 1,
                expected,
            }
        ))
    );

    let mut oversize = [0u8; (HELIOS_HWA2_BYTES as usize) + 1];
    oversize[..expected].copy_from_slice(&bytes);
    assert_eq!(
        create_input(&oversize),
        Err(IdentityRefusal::Hwa2(
            HeliosAllocDescRejection::PrivateDataSize {
                found: expected + 1,
                expected,
            }
        ))
    );

    let mut staging = [0u8; (HELIOS_HWA2_BYTES as usize) + 8];
    staging[3..3 + expected].copy_from_slice(&bytes);
    assert_eq!(
        create_input(&staging[3..3 + expected]),
        Ok(record)
    );
}

#[test]
fn hvm1_private_data_is_an_exact_length_gate() {
    let record = host_visible_input();
    let bytes = encode_hvm1(&record);
    let expected = HELIOS_HVM1_SIZE as usize;
    assert_eq!(bytes.len(), expected);

    let (parsed, role) = memory_input(&bytes).expect("exact length");
    assert!(hvm1_fields_equal(&parsed, &record));
    assert_eq!(role, Hvm1Role::VulkanHostVisible);

    assert_eq!(
        memory_input(&bytes[..expected - 1]).err(),
        Some(IdentityRefusal::Hvm1(Hvm1Reject::PrivateDataSizeMismatch))
    );
    let mut oversize = [0u8; (HELIOS_HVM1_SIZE as usize) + 1];
    oversize[..expected].copy_from_slice(&bytes);
    assert_eq!(
        memory_input(&oversize).err(),
        Some(IdentityRefusal::Hvm1(Hvm1Reject::PrivateDataSizeMismatch))
    );

    let mut staging = [0u8; (HELIOS_HVM1_SIZE as usize) + 8];
    staging[3..3 + expected].copy_from_slice(&bytes);
    let (parsed, _) =
        memory_input(&staging[3..3 + expected]).expect("odd address");
    assert!(hvm1_fields_equal(&parsed, &record));
}

#[test]
fn hoc1_private_data_is_an_exact_length_gate() {
    let record = pool_input();
    let bytes = encode_hoc1(&record);
    let expected = HELIOS_HOC1_BYTES as usize;
    assert_eq!(bytes.len(), expected);

    assert_eq!(hoc1_admit_create_input(&bytes, Ok(())), Ok(record));
    assert_eq!(
        hoc1_admit_create_input(&bytes[..expected - 1], Ok(())),
        Err(IdentityRefusal::Hoc1(
            HeliosOuterCommandAllocRejection::PrivateDataSize {
                found: expected - 1,
                expected,
            }
        ))
    );
    let mut oversize = [0u8; (HELIOS_HOC1_BYTES as usize) + 1];
    oversize[..expected].copy_from_slice(&bytes);
    assert_eq!(
        hoc1_admit_create_input(&oversize, Ok(())),
        Err(IdentityRefusal::Hoc1(
            HeliosOuterCommandAllocRejection::PrivateDataSize {
                found: expected + 1,
                expected,
            }
        ))
    );

    let mut staging = [0u8; (HELIOS_HOC1_BYTES as usize) + 8];
    staging[3..3 + expected].copy_from_slice(&bytes);
    assert_eq!(
        hoc1_admit_create_input(&staging[3..3 + expected], Ok(())),
        Ok(record)
    );
}

#[test]
fn the_private_data_discriminator_needs_the_magic_not_just_the_length() {
    assert_eq!(HELIOS_HVM1_SIZE, HELIOS_HOC1_BYTES);
    assert_eq!(
        classify_alloc_private_data(&encode_hwa2(&primary_input())),
        Some(AllocPrivateKind::Hwa2)
    );
    assert_eq!(
        classify_alloc_private_data(&encode_hvm1(&host_visible_input())),
        Some(AllocPrivateKind::Hvm1)
    );
    assert_eq!(
        classify_alloc_private_data(&encode_hoc1(&pool_input())),
        Some(AllocPrivateKind::Hoc1)
    );

    let hvm1 = encode_hvm1(&host_visible_input());
    assert_eq!(classify_alloc_private_data(&hvm1[..48]), None);
    assert_eq!(classify_alloc_private_data(&[0u8; 48]), None);
    assert_eq!(classify_alloc_private_data(&[]), None);
    assert_eq!(classify_alloc_private_data(&[0u8; 3]), None);
}

#[test]
fn the_independent_encoder_agrees_with_protocols_reader() {
    for desc in [primary_input(), buffer_input()] {
        assert_eq!(
            decode_hwa2(&encode_hwa2(&desc)),
            Ok(desc)
        );
    }
    for record in [
        host_visible_input(),
        device_local_input(),
        reply_pool_input(),
    ] {
        let parsed = decode_hvm1(&encode_hvm1(&record))
            .expect("round trip");
        assert!(hvm1_fields_equal(&parsed, &record));
    }
    let hoc1 = pool_input();
    assert_eq!(
        decode_hoc1(&encode_hoc1(&hoc1)),
        Ok(hoc1)
    );

    assert_eq!(ADMITTED_ABI_VERSIONS, (2, 1, 1));
}
#[test]
fn a_record_is_refused_for_what_it_says_of_itself() {
    let bytes = encode_hwa2(&buffer_input());
    let said = HeliosAllocDescRejection::Record { code: 9 };
    assert_eq!(
        hwa2_admit_create_input(&bytes, PKG, &vocabulary(), Err(said)),
        Err(IdentityRefusal::Hwa2(said))
    );
    assert_eq!(
        hwa2_admit_open(&bytes, PKG, &vocabulary(), Err(said)),
        Err(IdentityRefusal::Hwa2(said))
    );
    assert_eq!(
        hwa2_stamp_create_output(&buffer_input(), 1, 0, PKG, &vocabulary(), Err(said)),
        Err(IdentityRefusal::Hwa2(said))
    );
    let pool = HeliosOuterCommandAllocRejection::Record { code: 9 };
    assert_eq!(
        hoc1_admit_create_input(&encode_hoc1(&pool_input()), Err(pool)),
        Err(IdentityRefusal::Hoc1(pool))
    );
    let tuple = HeliosRetirementRejection::Record { code: 9 };
    assert_eq!(
        Hoc1Pool::default().retire(&retirement(1), 1, Err(tuple)),
        Err(IdentityRefusal::Retirement(tuple))
    );
}

#[test]
fn seal_states_go_round_in_one_order() {
    let round = [
        HeliosExtentSealState::Free,
        HeliosExtentSealState::Reserved,
        HeliosExtentSealState::Sealed,
        HeliosExtentSealState::Submitted,
        HeliosExtentSealState::Retired,
    ];
    for (i, from) in round.into_iter().enumerate() {
        for (j, to) in round.into_iter().enumerate() {
            let expected = if j == (i + 1) % 5 {
                Ok(to)
            } else {
                Err(IdentityRefusal::SealTransition { from, to })
            };
            assert_eq!(from.advance(to), expected);
        }
    }
}

#[test]
fn an_extent_whose_end_does_not_fit_is_outside_the_pool() {
    assert_eq!(
        Hoc1Pool::new().reserve(0xFFFF_FFFF_FFFF_0000, 0x1_0000),
        Err(IdentityRefusal::Extent(HeliosExtentRejection::RangeOutsidePool {
            end: u64::MAX,
            pool_bytes: HELIOS_HOC1_POOL_BYTES,
        }))
    );
}
