use kmd_logic::present_copy::{
    alias_image_spec, choose_renderer_device_local_memory_type, decode_copy_ref,
    encode_copy_ref, encode_copy_stream, encode_copy_to_buffer_stream, target_class,
    AliasRefusal, CopyGeometry, CopyIds, CopyRect, CopyRegion, CopyToBufferIds, GeometryRefusal,
    TargetClass, TargetRefusal, ACCESS_MEMORY_READ, ACCESS_MEMORY_WRITE, ACCESS_TRANSFER_READ,
    ACCESS_TRANSFER_WRITE, BUFFER_STREAM_FIXED_BYTES, BUFFER_STREAM_REGION_BYTES,
    CMD_BEGIN_COMMAND_BUFFER, CMD_CMD_COPY_IMAGE, CMD_CMD_COPY_IMAGE_TO_BUFFER,
    CMD_CMD_PIPELINE_BARRIER, CMD_END_COMMAND_BUFFER, CMD_QUEUE_SUBMIT,
    COMMAND_BUFFER_USAGE_ONE_TIME_SUBMIT, COPY_REF_BYTES, COPY_REF_OFFSET, IMAGE_ASPECT_COLOR,
    IMAGE_CREATE_MUTABLE_FORMAT, IMAGE_LAYOUT_GENERAL, MAX_REGIONS, MAX_SLOTS,
    PIPELINE_STAGE_ALL_COMMANDS, PIPELINE_STAGE_TRANSFER, STREAM_BYTES, STREAM_FIXED_BYTES,
    STREAM_REGION_BYTES, ST_COMMAND_BUFFER_BEGIN_INFO, ST_IMAGE_MEMORY_BARRIER,
    ST_MEMORY_BARRIER, ST_SUBMIT_INFO,
};
use kmd_logic::protocol::{HeliosWddmAllocationDescV2, Hwa2Vocabulary};
use kmd_logic::{
    encode_image_create, encode_memory_allocate, MemoryAllocateSpec, MemoryPNext,
    CMD_ALLOCATE_MEMORY, CMD_CREATE_IMAGE, IMAGE_TILING_OPTIMAL, IMAGE_TYPE_2D,
    ST_IMAGE_CREATE_INFO, ST_IMAGE_FORMAT_LIST_CREATE_INFO, ST_IMPORT_MEMORY_RESOURCE_INFO_MESA,
    ST_MEMORY_ALLOCATE_INFO, ST_MEMORY_DEDICATED_ALLOCATE_INFO,
};

fn vocabulary() -> Hwa2Vocabulary {
    Hwa2Vocabulary {
        flag_kmd_owned_mask: 0x6,
        flag_direct_flip_compatible: 0x2,
        flag_d3d12_runtime_primary: 0x4,
        flag_primary: 0x1,
        flag_standard: 0x8,
        bind_render_target: 0x20,
        bind_shader_resource: 0x8,
        bind_unordered_access: 0x80,
        bind_depth_stencil: 0x40,
        bind_present: 0x100,
        swizzle_linear: 1,
        kind_buffer: 1,
        kind_image: 2,
    }
}

fn word(bytes: &[u8], at: usize) -> u32 {
    u32::from_le_bytes([bytes[at], bytes[at + 1], bytes[at + 2], bytes[at + 3]])
}

fn qword(bytes: &[u8], at: usize) -> u64 {
    let mut b = [0u8; 8];
    b.copy_from_slice(&bytes[at..at + 8]);
    u64::from_le_bytes(b)
}

const IDS: CopyIds = CopyIds {
    queue: 0x1001,
    command_buffer: 0x2002,
    src_image: 0x3003,
    dst_image: 0x4004,
};

#[test]
fn copy_ref_round_trips_and_refuses_stale_shapes() {
    assert_eq!(decode_copy_ref(&encode_copy_ref(Some((2, 7)))), Some((2, 7)));
    assert_eq!(decode_copy_ref(&encode_copy_ref(None)), None);
    assert_eq!(encode_copy_ref(None), [0u8; COPY_REF_BYTES]);
    assert_eq!(encode_copy_ref(Some((1, 0))), [0u8; COPY_REF_BYTES]);
    assert_eq!(
        encode_copy_ref(Some((MAX_SLOTS as u32, 5))),
        [0u8; COPY_REF_BYTES]
    );
    let mut bad = encode_copy_ref(Some((1, 9)));
    bad[12] = 1;
    assert_eq!(decode_copy_ref(&bad), None);
    assert_eq!(decode_copy_ref(&[0xFFu8; 16]), None);
    assert_eq!(decode_copy_ref(&[0u8; 15]), None);
    assert!(COPY_REF_OFFSET + COPY_REF_BYTES <= 32, "must sit below the flip record");
}

#[test]
fn whole_window_is_one_region() {
    let g = CopyGeometry {
        src_extent: (1280, 720),
        dst_extent: (1280, 720),
        src_rect: CopyRect::new(0, 0, 1280, 720),
        dst_rect: CopyRect::new(0, 0, 1280, 720),
        sub_rects: &[],
    };
    let mut out = [CopyRegion {
        src_x: 0,
        src_y: 0,
        dst_x: 0,
        dst_y: 0,
        width: 0,
        height: 0,
    }; MAX_REGIONS];
    assert_eq!(g.regions(&mut out), Ok(1));
    assert_eq!(
        out[0],
        CopyRegion {
            src_x: 0,
            src_y: 0,
            dst_x: 0,
            dst_y: 0,
            width: 1280,
            height: 720
        }
    );
}

#[test]
fn sub_rects_are_clipped_translated_and_empties_dropped() {
    let subs = [
        CopyRect::new(100, 50, 400, 250),
        CopyRect::new(400, 50, 800, 250),
        CopyRect::new(900, 900, 950, 950),
    ];
    let g = CopyGeometry {
        src_extent: (640, 480),
        dst_extent: (700, 500),
        src_rect: CopyRect::new(0, 0, 640, 480),
        dst_rect: CopyRect::new(100, 50, 740, 530),
        sub_rects: &subs,
    };
    let mut out = [CopyRegion {
        src_x: 0,
        src_y: 0,
        dst_x: 0,
        dst_y: 0,
        width: 0,
        height: 0,
    }; MAX_REGIONS];
    assert_eq!(g.regions(&mut out), Ok(2));
    assert_eq!(
        out[0],
        CopyRegion {
            src_x: 0,
            src_y: 0,
            dst_x: 100,
            dst_y: 50,
            width: 300,
            height: 200
        }
    );
    assert_eq!(
        out[1],
        CopyRegion {
            src_x: 300,
            src_y: 0,
            dst_x: 400,
            dst_y: 50,
            width: 300,
            height: 200
        }
    );
}

#[test]
fn stretch_empty_and_overflow_are_refused_by_name() {
    let mut out = [CopyRegion {
        src_x: 0,
        src_y: 0,
        dst_x: 0,
        dst_y: 0,
        width: 0,
        height: 0,
    }; MAX_REGIONS];
    let base = CopyGeometry {
        src_extent: (100, 100),
        dst_extent: (100, 100),
        src_rect: CopyRect::new(0, 0, 100, 100),
        dst_rect: CopyRect::new(0, 0, 50, 50),
        sub_rects: &[],
    };
    assert_eq!(base.regions(&mut out), Err(GeometryRefusal::Stretch));
    let empty = CopyGeometry {
        dst_rect: CopyRect::new(0, 0, 100, 100),
        src_extent: (0, 100),
        ..base
    };
    assert_eq!(empty.regions(&mut out), Err(GeometryRefusal::Empty));
    let many = [CopyRect::new(0, 0, 1, 1); MAX_REGIONS + 1];
    let too_many = CopyGeometry {
        dst_rect: CopyRect::new(0, 0, 100, 100),
        sub_rects: &many,
        ..base
    };
    assert_eq!(too_many.regions(&mut out), Err(GeometryRefusal::TooManyRects));
    let all_outside = [CopyRect::new(500, 500, 600, 600)];
    let outside = CopyGeometry {
        dst_rect: CopyRect::new(0, 0, 100, 100),
        sub_rects: &all_outside,
        ..base
    };
    assert_eq!(outside.regions(&mut out), Err(GeometryRefusal::Empty));
}

fn desc(dxgi: u32, bind: u32) -> HeliosWddmAllocationDescV2 {
    let mut d = HeliosWddmAllocationDescV2::header(0, 0);
    d.width = 1280;
    d.height = 720;
    d.depth_or_array_size = 1;
    d.mip_levels = 1;
    d.sample_count = 1;
    d.dxgi_format = dxgi;
    d.bind_flags = bind;
    d.swizzle_class = vocabulary().swizzle_linear;
    d
}

#[test]
fn alias_spec_reproduces_the_measured_him1_shape() {
    let spec = alias_image_spec(
        &desc(
            87,
            vocabulary().bind_render_target | vocabulary().bind_present,
        ),
        &vocabulary(),
    )
    .unwrap();
    assert_eq!(spec.format, 44);
    assert_eq!(spec.usage, 0x13);
    assert_eq!(spec.flags, 0x8);
    assert_eq!(spec.tiling, IMAGE_TILING_OPTIMAL);
    assert_eq!(spec.external_handle_type, 0);
    assert_eq!((spec.width, spec.height), (1280, 720));
    let srv = alias_image_spec(
        &desc(
            87,
            vocabulary().bind_render_target | vocabulary().bind_shader_resource,
        ),
        &vocabulary(),
    )
    .unwrap();
    assert_eq!(srv.usage, 0x17);
}

#[test]
fn alias_spec_refuses_what_it_cannot_mirror() {
    let mut d = desc(87, vocabulary().bind_render_target);
    d.swizzle_class = vocabulary().swizzle_linear;
    assert!(alias_image_spec(&d, &vocabulary()).is_ok());
    let d = desc(87, vocabulary().bind_unordered_access);
    assert_eq!(alias_image_spec(&d, &vocabulary()), Err(AliasRefusal::Tiling));
    let d = desc(24, vocabulary().bind_render_target);
    assert_eq!(alias_image_spec(&d, &vocabulary()), Err(AliasRefusal::Format));
    let mut d = desc(87, vocabulary().bind_render_target);
    d.sample_count = 4;
    assert_eq!(alias_image_spec(&d, &vocabulary()), Err(AliasRefusal::Shape));
    let d = desc(87, vocabulary().bind_depth_stencil);
    assert_eq!(alias_image_spec(&d, &vocabulary()), Err(AliasRefusal::DepthStencil));
}

#[test]
fn alias_image_create_has_no_pnext() {
    let spec = alias_image_spec(&desc(87, vocabulary().bind_render_target), &vocabulary()).unwrap();
    let w = encode_image_create(0x10, 0x20, &spec);
    let b = w.finished().unwrap();
    assert_eq!(word(b, 0), CMD_CREATE_IMAGE);
    assert_eq!(qword(b, 8), 0x10);
    assert_eq!(qword(b, 16), 1);
    assert_eq!(word(b, 24), ST_IMAGE_CREATE_INFO as u32);
    assert_eq!(qword(b, 28), 1);
    assert_eq!(word(b, 36), ST_IMAGE_FORMAT_LIST_CREATE_INFO as u32);
    assert_eq!(qword(b, 40), 0, "format list pNext");
    assert_eq!(word(b, 48), 2, "viewFormatCount");
    assert_eq!(qword(b, 52), 2, "array_size");
    assert_eq!((word(b, 60), word(b, 64)), (44, 50), "UNORM then SRGB");
    assert_eq!(word(b, 68), IMAGE_CREATE_MUTABLE_FORMAT);
    assert_eq!(word(b, 72), IMAGE_TYPE_2D);
    assert_eq!(word(b, 76), 44);
    assert_eq!(spec.view_formats, [44, 50]);
}

#[test]
fn copy_stream_layout_is_exact_for_one_region() {
    let regions = [CopyRegion {
        src_x: 3,
        src_y: 5,
        dst_x: 7,
        dst_y: 11,
        width: 640,
        height: 480,
    }];
    let w = encode_copy_stream(IDS, &regions);
    let b = w.finished().expect("fits");
    assert_eq!(b.len(), STREAM_FIXED_BYTES + STREAM_REGION_BYTES);

    assert_eq!(word(b, 0), CMD_BEGIN_COMMAND_BUFFER);
    assert_eq!(word(b, 4), 0);
    assert_eq!(qword(b, 8), IDS.command_buffer);
    assert_eq!(qword(b, 16), 1);
    assert_eq!(word(b, 24), ST_COMMAND_BUFFER_BEGIN_INFO as u32);
    assert_eq!(qword(b, 28), 0);
    assert_eq!(word(b, 36), COMMAND_BUFFER_USAGE_ONE_TIME_SUBMIT);
    assert_eq!(qword(b, 40), 0);

    let bar = 48;
    assert_eq!(word(b, bar), CMD_CMD_PIPELINE_BARRIER);
    assert_eq!(qword(b, bar + 8), IDS.command_buffer);
    assert_eq!(word(b, bar + 16), PIPELINE_STAGE_ALL_COMMANDS);
    assert_eq!(word(b, bar + 20), PIPELINE_STAGE_TRANSFER);
    assert_eq!(word(b, bar + 52), 2, "imageMemoryBarrierCount");
    assert_eq!(qword(b, bar + 56), 2, "array_size");
    let ib0 = bar + 64;
    assert_eq!(word(b, ib0), ST_IMAGE_MEMORY_BARRIER as u32);
    assert_eq!(word(b, ib0 + 16), ACCESS_TRANSFER_READ);
    assert_eq!(qword(b, ib0 + 36), IDS.src_image);
    let ib1 = ib0 + 64;
    assert_eq!(word(b, ib1 + 16), ACCESS_TRANSFER_WRITE);
    assert_eq!(qword(b, ib1 + 36), IDS.dst_image);
    assert_eq!(word(b, ib1 + 44), IMAGE_ASPECT_COLOR);

    let cp = 240;
    assert_eq!(word(b, cp), CMD_CMD_COPY_IMAGE);
    assert_eq!(qword(b, cp + 16), IDS.src_image);
    assert_eq!(word(b, cp + 24), IMAGE_LAYOUT_GENERAL as u32);
    assert_eq!(qword(b, cp + 28), IDS.dst_image);
    assert_eq!(word(b, cp + 40), 1, "regionCount");
    assert_eq!(qword(b, cp + 44), 1, "array_size");
    let r = cp + 52;
    assert_eq!(word(b, r), IMAGE_ASPECT_COLOR);
    assert_eq!(word(b, r + 12), 1, "layerCount");
    assert_eq!((word(b, r + 16), word(b, r + 20), word(b, r + 24)), (3, 5, 0));
    assert_eq!((word(b, r + 44), word(b, r + 48), word(b, r + 52)), (7, 11, 0));
    assert_eq!((word(b, r + 56), word(b, r + 60), word(b, r + 64)), (640, 480, 1));

    assert_eq!(word(b, 360), CMD_CMD_PIPELINE_BARRIER);
    assert_eq!(word(b, 360 + 16), PIPELINE_STAGE_TRANSFER);
    assert_eq!(word(b, 360 + 20), PIPELINE_STAGE_ALL_COMMANDS);
    assert_eq!(word(b, 552), CMD_END_COMMAND_BUFFER);
    assert_eq!(qword(b, 560), IDS.command_buffer);
    let sub = 568;
    assert_eq!(word(b, sub), CMD_QUEUE_SUBMIT);
    assert_eq!(qword(b, sub + 8), IDS.queue);
    assert_eq!(word(b, sub + 16), 1);
    assert_eq!(qword(b, sub + 20), 1);
    assert_eq!(word(b, sub + 28), ST_SUBMIT_INFO as u32);
    assert_eq!(qword(b, sub + 32), 0);
    assert_eq!(word(b, sub + 40), 0);
    assert_eq!(qword(b, sub + 44), 0);
    assert_eq!(qword(b, sub + 52), 0);
    assert_eq!(word(b, sub + 60), 1);
    assert_eq!(qword(b, sub + 64), 1);
    assert_eq!(qword(b, sub + 72), IDS.command_buffer);
    assert_eq!(word(b, sub + 80), 0);
    assert_eq!(qword(b, sub + 84), 0);
    assert_eq!(qword(b, sub + 92), 0, "fence");
    assert_eq!(sub + 100, b.len());
}

#[test]
fn target_class_separates_kmd_staging_from_umd_textures() {
    let mut d = desc(87, vocabulary().bind_render_target | vocabulary().bind_shader_resource);
    d.flags |= vocabulary().flag_standard;
    d.standard_allocation_type = 3;
    d.plane_count = 1;
    d.planes[0].row_pitch = 5120;
    d.planes[0].offset = 0;
    d.byte_size = 5120 * 720;
    assert_eq!(
        target_class(&d, &vocabulary()),
        Ok(TargetClass::LinearBuffer {
            pitch: 5120,
            offset: 0
        })
    );
    let u = desc(87, vocabulary().bind_render_target);
    assert_eq!(target_class(&u, &vocabulary()), Ok(TargetClass::OptimalImage));
    d.planes[0].row_pitch = 5118;
    assert_eq!(target_class(&d, &vocabulary()), Err(TargetRefusal::Plane));
    d.planes[0].row_pitch = 5120;
    d.byte_size = 5120 * 719;
    assert_eq!(target_class(&d, &vocabulary()), Err(TargetRefusal::Plane));
}

#[test]
fn copy_to_buffer_stream_layout_is_exact_for_one_region() {
    let ids = CopyToBufferIds {
        queue: 0x1001,
        command_buffer: 0x2002,
        src_image: 0x3003,
        dst_buffer: 0x5005,
    };
    let regions = [CopyRegion {
        src_x: 3,
        src_y: 5,
        dst_x: 7,
        dst_y: 11,
        width: 640,
        height: 480,
    }];
    let w = encode_copy_to_buffer_stream(ids, &regions, 5120, 256);
    let b = w.finished().expect("fits");
    assert_eq!(b.len(), BUFFER_STREAM_FIXED_BYTES + BUFFER_STREAM_REGION_BYTES);
    let bar = 48;
    assert_eq!(word(b, bar), CMD_CMD_PIPELINE_BARRIER);
    assert_eq!(word(b, bar + 28), 1, "memoryBarrierCount");
    assert_eq!(qword(b, bar + 32), 1);
    assert_eq!(word(b, bar + 40), ST_MEMORY_BARRIER as u32);
    assert_eq!(qword(b, bar + 44), 0);
    assert_eq!(word(b, bar + 52), ACCESS_MEMORY_READ | ACCESS_MEMORY_WRITE);
    assert_eq!(word(b, bar + 56), ACCESS_TRANSFER_WRITE);
    assert_eq!(word(b, bar + 60), 0, "bufferMemoryBarrierCount");
    assert_eq!(qword(b, bar + 64), 0);
    assert_eq!(word(b, bar + 72), 1, "imageMemoryBarrierCount");
    assert_eq!(qword(b, bar + 76), 1);
    let ib = bar + 84;
    assert_eq!(word(b, ib), ST_IMAGE_MEMORY_BARRIER as u32);
    assert_eq!(word(b, ib + 16), ACCESS_TRANSFER_READ);
    assert_eq!(qword(b, ib + 36), ids.src_image);
    assert_eq!(bar + 148, 196);
    let cp = 196;
    assert_eq!(word(b, cp), CMD_CMD_COPY_IMAGE_TO_BUFFER);
    assert_eq!(qword(b, cp + 8), ids.command_buffer);
    assert_eq!(qword(b, cp + 16), ids.src_image);
    assert_eq!(word(b, cp + 24), IMAGE_LAYOUT_GENERAL as u32);
    assert_eq!(qword(b, cp + 28), ids.dst_buffer);
    assert_eq!(word(b, cp + 36), 1);
    assert_eq!(qword(b, cp + 40), 1);
    let r = cp + 48;
    assert_eq!(qword(b, r), 256 + 11 * 5120 + 7 * 4, "bufferOffset");
    assert_eq!(word(b, r + 8), 1280, "bufferRowLength in texels");
    assert_eq!(word(b, r + 12), 0);
    assert_eq!(word(b, r + 16), IMAGE_ASPECT_COLOR);
    assert_eq!((word(b, r + 32), word(b, r + 36), word(b, r + 40)), (3, 5, 0));
    assert_eq!((word(b, r + 44), word(b, r + 48), word(b, r + 52)), (640, 480, 1));
    assert_eq!(word(b, 300), CMD_CMD_PIPELINE_BARRIER);
    assert_eq!(word(b, 448), CMD_END_COMMAND_BUFFER);
    assert_eq!(word(b, 464), CMD_QUEUE_SUBMIT);
    assert_eq!(qword(b, 464 + 72), ids.command_buffer);
    assert_eq!(464 + 100, b.len());
}

#[test]
fn dedicated_import_chain_matches_the_export_dedicated_shape() {
    let w = encode_memory_allocate(
        0x10,
        0x20,
        &MemoryAllocateSpec {
            pnext: MemoryPNext::ImportResourceDedicated {
                resource_id: 237,
                image: 0x30,
                buffer: 0,
            },
            size: 4096,
            memory_type_index: 1,
        },
    );
    let b = w.finished().unwrap();
    assert_eq!(word(b, 0), CMD_ALLOCATE_MEMORY);
    assert_eq!(qword(b, 8), 0x10);
    assert_eq!(qword(b, 16), 1);
    assert_eq!(word(b, 24), ST_MEMORY_ALLOCATE_INFO as u32);
    assert_eq!(qword(b, 28), 1, "pNext present");
    assert_eq!(word(b, 36), ST_IMPORT_MEMORY_RESOURCE_INFO_MESA as u32);
    assert_eq!(qword(b, 40), 1, "import's pNext present");
    assert_eq!(word(b, 48), ST_MEMORY_DEDICATED_ALLOCATE_INFO as u32);
    assert_eq!(qword(b, 52), 0, "dedicated's pNext");
    assert_eq!(qword(b, 60), 0x30, "image");
    assert_eq!(qword(b, 68), 0, "buffer");
    assert_eq!(word(b, 76), 237, "resourceId after the nested struct");
    assert_eq!(qword(b, 80), 4096, "allocationSize");
    assert_eq!(word(b, 88), 1, "memoryTypeIndex");
}

#[test]
fn renderer_device_local_type_follows_the_icd_rule() {
    let flags = [0x0, 0x1, 0x6, 0x11];
    assert_eq!(choose_renderer_device_local_memory_type(&flags, 4), Some(1));
    let flags = [0x11, 0x21, 0x1];
    assert_eq!(choose_renderer_device_local_memory_type(&flags, 3), Some(2));
    assert_eq!(choose_renderer_device_local_memory_type(&[0x6, 0x2], 2), None);
    assert_eq!(choose_renderer_device_local_memory_type(&[0x1], 0), None);
}

#[test]
fn max_regions_fit_the_stream_buffer() {
    let regions = [CopyRegion {
        src_x: 0,
        src_y: 0,
        dst_x: 0,
        dst_y: 0,
        width: 1,
        height: 1,
    }; MAX_REGIONS];
    let w = encode_copy_stream(IDS, &regions);
    let b = w.finished().expect("MAX_REGIONS must fit STREAM_BYTES");
    assert_eq!(b.len(), STREAM_FIXED_BYTES + MAX_REGIONS * STREAM_REGION_BYTES);
    assert!(b.len() <= STREAM_BYTES);
    let ids = CopyToBufferIds {
        queue: 1,
        command_buffer: 2,
        src_image: 3,
        dst_buffer: 4,
    };
    let w = encode_copy_to_buffer_stream(ids, &regions, 5120, 0);
    let b = w.finished().expect("MAX_REGIONS must fit STREAM_BYTES");
    assert_eq!(
        b.len(),
        BUFFER_STREAM_FIXED_BYTES + MAX_REGIONS * BUFFER_STREAM_REGION_BYTES
    );
}

#[test]
fn no_other_bytes_decode_to_the_same_copy() {
    let bytes = encode_copy_ref(Some((3, 9)));
    assert_eq!(decode_copy_ref(&bytes), Some((3, 9)));
    for i in 0..COPY_REF_BYTES {
        let mut other = bytes;
        other[i] ^= 1;
        assert_ne!(decode_copy_ref(&other), Some((3, 9)));
    }
}
