use kmd_logic::allocation_identity::{check_output, HeliosAllocDescRejection};
use kmd_logic::outer_execution::hwa2_is_outer_execution_resource;
use kmd_logic::protocol::{HeliosWddmAllocationDescV2, Hwa2Vocabulary};

const PACKAGE_GENERATION: u64 = 7;
const FLAG_CPU_VISIBLE: u32 = 0x100;
const FLAG_RESOURCE_ASSOCIATED: u32 = 0x200;
const FLAG_SHARED: u32 = 0x400;

fn vocabulary() -> Hwa2Vocabulary {
    Hwa2Vocabulary {
        flag_kmd_owned_mask: 0x6,
        flag_direct_flip_compatible: 0x2,
        flag_d3d12_runtime_primary: 0x4,
        flag_primary: 0x1,
        flag_standard: 0x8,
        bind_render_target: 0x20,
        bind_shader_resource: 0x8,
        bind_unordered_access: 0x80,
        bind_depth_stencil: 0x40,
        bind_present: 0x100,
        swizzle_linear: 1,
        kind_buffer: 1,
        kind_image: 2,
    }
}

fn admitted(desc: &HeliosWddmAllocationDescV2) -> bool {
    hwa2_is_outer_execution_resource(desc, PACKAGE_GENERATION, &vocabulary(), Ok(()))
}

fn associated_buffer() -> HeliosWddmAllocationDescV2 {
    let mut desc = HeliosWddmAllocationDescV2::header(PACKAGE_GENERATION, 0x1_0000_0001);
    desc.byte_size = 4096;
    desc.allocation_kind = vocabulary().kind_buffer;
    desc.flags = FLAG_CPU_VISIBLE | FLAG_RESOURCE_ASSOCIATED;
    desc.swizzle_class = vocabulary().swizzle_linear;
    desc.memory_class = 1;
    assert_eq!(check_output(&desc, PACKAGE_GENERATION, &vocabulary()), None);
    desc
}

#[test]
fn ordinary_resource_association_does_not_require_external_sharing() {
    let desc = associated_buffer();
    assert_eq!(desc.flags, 0x300);
    assert!(admitted(&desc));
}

#[test]
fn externally_shared_resource_association_remains_admitted() {
    let mut desc = associated_buffer();
    desc.flags |= FLAG_SHARED;
    assert!(admitted(&desc));
}

#[test]
fn unassociated_internal_chunk_is_admitted() {
    let mut internal = associated_buffer();
    internal.flags &= !FLAG_RESOURCE_ASSOCIATED;
    assert!(admitted(&internal));
}

#[test]
fn association_standard_kind_and_validation_remain_fail_closed() {
    let mut standard = associated_buffer();
    standard.flags |= vocabulary().flag_standard;
    assert!(!admitted(&standard));

    let mut invalid = associated_buffer();
    invalid.allocation_generation = 0;
    assert!(!admitted(&invalid));
}
#[test]
fn neither_a_refused_record_nor_another_kind_is_admitted() {
    let desc = associated_buffer();
    assert!(!hwa2_is_outer_execution_resource(
        &desc,
        PACKAGE_GENERATION,
        &vocabulary(),
        Err(HeliosAllocDescRejection::Record { code: 1 }),
    ));
    assert!(!hwa2_is_outer_execution_resource(&desc, 8, &vocabulary(), Ok(())));
    let mut image = desc;
    image.allocation_kind = vocabulary().kind_image;
    assert!(admitted(&image));
    let mut unknown = desc;
    unknown.allocation_kind = 3;
    assert!(!admitted(&unknown));
}
