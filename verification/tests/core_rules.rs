use kmd_logic::{
    gate_active, gate_pack, gate_seq, choose_device_local_memory_type,
    choose_host_visible_memory_type, choose_importable_memory_type,
    choose_strict_device_local_memory_type, cross_adapter_pitch, round_up_page, seq_read,
    window_range, encode_image_create, encode_memory_allocate, optimal_gdi_memory_pnext,
    DisplayMode, ImageCreateSpec, MemoryAllocateSpec, MemoryPNext, MemoryTypeChoice, Pfn,
    ScanoutFormat, SeqRead, Writer, CMD_FLAG_GENERATE_REPLY, CROSS_ADAPTER_PITCH_ALIGN,
    FALLBACK_DISPLAY_HEIGHT, FALLBACK_DISPLAY_WIDTH, IMAGE_TILING_LINEAR, IMAGE_TILING_OPTIMAL,
    MAX_CMD_BYTES, MEMORY_PROPERTY_DEVICE_LOCAL, MEMORY_PROPERTY_HOST_COHERENT,
    MEMORY_PROPERTY_HOST_VISIBLE, SEQ_READ_ATTEMPTS, ST_IMPORT_MEMORY_RESOURCE_INFO_MESA,
};

const GOLD_DEVICE: u64 = 0x1111_2222_3333_4444;
const GOLD_IMAGE: u64 = 0x5555_6666_7777_8888;
const GOLD_MEMORY: u64 = 0x9999_AAAA_BBBB_CCCC;
const GOLD_SIZE: u64 = 0x0080_0000;
const GOLD_MTI: u32 = 7;

const GOLDEN_LINEAR_SCANOUT_IMAGE: &[u8] = &[
    0x36, 0x00, 0x00, 0x00, 0x01, 0x00, 0x00, 0x00, 0x44, 0x44, 0x33, 0x33, 0x22, 0x22, 0x11,
    0x11, 0x01, 0x00, 0x00, 0x00, 0x00, 0x00, 0x00, 0x00, 0x0e, 0x00, 0x00, 0x00, 0x01, 0x00,
    0x00, 0x00, 0x00, 0x00, 0x00, 0x00, 0x41, 0xe3, 0x9b, 0x3b, 0x00, 0x00, 0x00, 0x00, 0x00,
    0x00, 0x00, 0x00, 0x00, 0x02, 0x00, 0x00, 0x00, 0x00, 0x00, 0x00, 0x01, 0x00, 0x00, 0x00,
    0x2c, 0x00, 0x00, 0x00, 0x68, 0x07, 0x00, 0x00, 0x06, 0x04, 0x00, 0x00, 0x01, 0x00, 0x00,
    0x00, 0x01, 0x00, 0x00, 0x00, 0x01, 0x00, 0x00, 0x00, 0x01, 0x00, 0x00, 0x00, 0x01, 0x00,
    0x00, 0x00, 0x03, 0x00, 0x00, 0x00, 0x00, 0x00, 0x00, 0x00, 0x00, 0x00, 0x00, 0x00, 0x00,
    0x00, 0x00, 0x00, 0x00, 0x00, 0x00, 0x00, 0x08, 0x00, 0x00, 0x00, 0x00, 0x00, 0x00, 0x00,
    0x00, 0x00, 0x00, 0x00, 0x01, 0x00, 0x00, 0x00, 0x00, 0x00, 0x00, 0x00, 0x88, 0x88, 0x77,
    0x77, 0x66, 0x66, 0x55, 0x55,
];
const GOLDEN_OPTIMAL_GDI_IMAGE: &[u8] = &[
    0x36, 0x00, 0x00, 0x00, 0x01, 0x00, 0x00, 0x00, 0x44, 0x44, 0x33, 0x33, 0x22, 0x22, 0x11,
    0x11, 0x01, 0x00, 0x00, 0x00, 0x00, 0x00, 0x00, 0x00, 0x0e, 0x00, 0x00, 0x00, 0x01, 0x00,
    0x00, 0x00, 0x00, 0x00, 0x00, 0x00, 0x41, 0xe3, 0x9b, 0x3b, 0x00, 0x00, 0x00, 0x00, 0x00,
    0x00, 0x00, 0x00, 0x00, 0x02, 0x00, 0x00, 0x08, 0x00, 0x00, 0x00, 0x01, 0x00, 0x00, 0x00,
    0x2c, 0x00, 0x00, 0x00, 0x68, 0x07, 0x00, 0x00, 0x06, 0x04, 0x00, 0x00, 0x01, 0x00, 0x00,
    0x00, 0x01, 0x00, 0x00, 0x00, 0x01, 0x00, 0x00, 0x00, 0x01, 0x00, 0x00, 0x00, 0x00, 0x00,
    0x00, 0x00, 0x17, 0x00, 0x00, 0x00, 0x00, 0x00, 0x00, 0x00, 0x00, 0x00, 0x00, 0x00, 0x00,
    0x00, 0x00, 0x00, 0x00, 0x00, 0x00, 0x00, 0x00, 0x00, 0x00, 0x00, 0x00, 0x00, 0x00, 0x00,
    0x00, 0x00, 0x00, 0x00, 0x01, 0x00, 0x00, 0x00, 0x00, 0x00, 0x00, 0x00, 0x88, 0x88, 0x77,
    0x77, 0x66, 0x66, 0x55, 0x55,
];
const GOLDEN_MEMORY_PLAIN: &[u8] = &[
    0x15, 0x00, 0x00, 0x00, 0x01, 0x00, 0x00, 0x00, 0x44, 0x44, 0x33, 0x33, 0x22, 0x22, 0x11,
    0x11, 0x01, 0x00, 0x00, 0x00, 0x00, 0x00, 0x00, 0x00, 0x05, 0x00, 0x00, 0x00, 0x00, 0x00,
    0x00, 0x00, 0x00, 0x00, 0x00, 0x00, 0x00, 0x00, 0x80, 0x00, 0x00, 0x00, 0x00, 0x00, 0x07,
    0x00, 0x00, 0x00, 0x00, 0x00, 0x00, 0x00, 0x00, 0x00, 0x00, 0x00, 0x01, 0x00, 0x00, 0x00,
    0x00, 0x00, 0x00, 0x00, 0xcc, 0xcc, 0xbb, 0xbb, 0xaa, 0xaa, 0x99, 0x99,
];
const GOLDEN_MEMORY_EXPORT: &[u8] = &[
    0x15, 0x00, 0x00, 0x00, 0x01, 0x00, 0x00, 0x00, 0x44, 0x44, 0x33, 0x33, 0x22, 0x22, 0x11,
    0x11, 0x01, 0x00, 0x00, 0x00, 0x00, 0x00, 0x00, 0x00, 0x05, 0x00, 0x00, 0x00, 0x01, 0x00,
    0x00, 0x00, 0x00, 0x00, 0x00, 0x00, 0x42, 0xe3, 0x9b, 0x3b, 0x00, 0x00, 0x00, 0x00, 0x00,
    0x00, 0x00, 0x00, 0x00, 0x02, 0x00, 0x00, 0x00, 0x00, 0x80, 0x00, 0x00, 0x00, 0x00, 0x00,
    0x07, 0x00, 0x00, 0x00, 0x00, 0x00, 0x00, 0x00, 0x00, 0x00, 0x00, 0x00, 0x01, 0x00, 0x00,
    0x00, 0x00, 0x00, 0x00, 0x00, 0xcc, 0xcc, 0xbb, 0xbb, 0xaa, 0xaa, 0x99, 0x99,
];
const GOLDEN_MEMORY_EXPORT_DEDICATED: &[u8] = &[
    0x15, 0x00, 0x00, 0x00, 0x01, 0x00, 0x00, 0x00, 0x44, 0x44, 0x33, 0x33, 0x22, 0x22, 0x11,
    0x11, 0x01, 0x00, 0x00, 0x00, 0x00, 0x00, 0x00, 0x00, 0x05, 0x00, 0x00, 0x00, 0x01, 0x00,
    0x00, 0x00, 0x00, 0x00, 0x00, 0x00, 0x42, 0xe3, 0x9b, 0x3b, 0x01, 0x00, 0x00, 0x00, 0x00,
    0x00, 0x00, 0x00, 0x19, 0xba, 0x9c, 0x3b, 0x00, 0x00, 0x00, 0x00, 0x00, 0x00, 0x00, 0x00,
    0x88, 0x88, 0x77, 0x77, 0x66, 0x66, 0x55, 0x55, 0x00, 0x00, 0x00, 0x00, 0x00, 0x00, 0x00,
    0x00, 0x00, 0x02, 0x00, 0x00, 0x00, 0x00, 0x80, 0x00, 0x00, 0x00, 0x00, 0x00, 0x07, 0x00,
    0x00, 0x00, 0x00, 0x00, 0x00, 0x00, 0x00, 0x00, 0x00, 0x00, 0x01, 0x00, 0x00, 0x00, 0x00,
    0x00, 0x00, 0x00, 0xcc, 0xcc, 0xbb, 0xbb, 0xaa, 0xaa, 0x99, 0x99,
];
#[test]
fn linear_scanout_image_bytes_are_unchanged() {
    let w = encode_image_create(
        GOLD_DEVICE,
        GOLD_IMAGE,
        &ImageCreateSpec {
            external_handle_type: 0x0000_0200,
            flags: 0,
            format: 44,
            width: 1896,
            height: 1030,
            tiling: IMAGE_TILING_LINEAR,
            usage: 0x1 | 0x2,
            initial_layout: 8,
            view_format_count: 0,
            view_formats: [0; 2],
        },
    );
    assert_eq!(w.finished(), Some(GOLDEN_LINEAR_SCANOUT_IMAGE));
}

#[test]
fn optimal_gdi_image_bytes_are_unchanged() {
    let w = encode_image_create(
        GOLD_DEVICE,
        GOLD_IMAGE,
        &ImageCreateSpec {
            external_handle_type: 0x0000_0200,
            flags: 0x8,
            format: 44,
            width: 1896,
            height: 1030,
            tiling: IMAGE_TILING_OPTIMAL,
            usage: 0x1 | 0x2 | 0x4 | 0x10,
            initial_layout: 0,
            view_format_count: 0,
            view_formats: [0; 2],
        },
    );
    assert_eq!(w.finished(), Some(GOLDEN_OPTIMAL_GDI_IMAGE));
}

#[test]
fn plain_memory_allocate_bytes_are_unchanged() {
    let w = encode_memory_allocate(
        GOLD_DEVICE,
        GOLD_MEMORY,
        &MemoryAllocateSpec {
            pnext: MemoryPNext::Plain,
            size: GOLD_SIZE,
            memory_type_index: GOLD_MTI,
        },
    );
    assert_eq!(w.finished(), Some(GOLDEN_MEMORY_PLAIN));
}

#[test]
fn export_memory_allocate_bytes_are_unchanged() {
    let w = encode_memory_allocate(
        GOLD_DEVICE,
        GOLD_MEMORY,
        &MemoryAllocateSpec {
            pnext: MemoryPNext::Export {
                handle_type: 0x0000_0200,
            },
            size: GOLD_SIZE,
            memory_type_index: GOLD_MTI,
        },
    );
    assert_eq!(w.finished(), Some(GOLDEN_MEMORY_EXPORT));
}

#[test]
fn optimal_gdi_memory_export_has_no_dedicated_image_dependency() {
    assert!(matches!(
        optimal_gdi_memory_pnext(0x0000_0200),
        MemoryPNext::Export {
            handle_type: 0x0000_0200
        }
    ));
}

#[test]
fn import_resource_differs_from_export_only_in_stype_and_payload() {
    let mk = |pnext| {
        encode_memory_allocate(
            GOLD_DEVICE,
            GOLD_MEMORY,
            &MemoryAllocateSpec {
                pnext,
                size: GOLD_SIZE,
                memory_type_index: GOLD_MTI,
            },
        )
    };
    let export_w = mk(MemoryPNext::Export {
        handle_type: 0x0000_0200,
    });
    let import_w = mk(MemoryPNext::ImportResource {
        resource_id: 0x0000_0201,
    });
    let export = export_w.finished().expect("encoder must not overflow");
    let import = import_w.finished().expect("encoder must not overflow");
    assert_eq!(export.len(), import.len());
    assert_eq!(export.len() % 4, 0);
    let word = |b: &[u8], i: usize| {
        u32::from_le_bytes([b[i * 4], b[i * 4 + 1], b[i * 4 + 2], b[i * 4 + 3]])
    };
    let mut differing = 0;
    for i in 0..export.len() / 4 {
        if word(export, i) == word(import, i) {
            continue;
        }
        differing += 1;
        let v = word(import, i);
        assert!(
            v == ST_IMPORT_MEMORY_RESOURCE_INFO_MESA as u32 || v == 0x0000_0201,
            "word {i} differs but is neither the sType nor the resource id: {v:#x}"
        );
    }
    assert_eq!(
        differing, 2,
        "expected exactly the sType word and the payload word to differ"
    );
}

#[test]
fn importable_memory_type_prefers_the_fewest_property_flags() {
    let flags = [0x0, 0x1, 0x5, 0x7];
    assert_eq!(choose_importable_memory_type(&flags, 4, 0b1111), Some(0));
    assert_eq!(choose_importable_memory_type(&flags, 4, 0b1110), Some(1));
    assert_eq!(choose_importable_memory_type(&flags, 4, 0b1100), Some(2));
    assert_eq!(choose_importable_memory_type(&flags, 4, 0), None);
    assert_eq!(choose_importable_memory_type(&flags, 2, 0b1100), None);
}

#[test]
fn import_resource_stype_is_the_venus_protocol_value() {
    assert_eq!(ST_IMPORT_MEMORY_RESOURCE_INFO_MESA, 1000384002);
}

#[test]
fn export_dedicated_memory_allocate_keeps_its_nesting_order() {
    let w = encode_memory_allocate(
        GOLD_DEVICE,
        GOLD_MEMORY,
        &MemoryAllocateSpec {
            pnext: MemoryPNext::ExportDedicated {
                handle_type: 0x0000_0200,
                image: GOLD_IMAGE,
            },
            size: GOLD_SIZE,
            memory_type_index: GOLD_MTI,
        },
    );
    assert_eq!(w.finished(), Some(GOLDEN_MEMORY_EXPORT_DEDICATED));
}

#[test]
fn linear_and_optimal_tiling_are_not_the_same_value() {
    assert_eq!(IMAGE_TILING_OPTIMAL, 0);
    assert_eq!(IMAGE_TILING_LINEAR, 1);
}

#[test]
fn cross_adapter_pitch_vectors() {
    assert_eq!(cross_adapter_pitch(0), 0);
    assert_eq!(cross_adapter_pitch(1), 256);
    assert_eq!(cross_adapter_pitch(64), 256);
    assert_eq!(cross_adapter_pitch(65), 512);
    assert_eq!(cross_adapter_pitch(1896), 7680);
    assert_eq!(cross_adapter_pitch(1920), 7680);
    assert_eq!(cross_adapter_pitch(1952), 7936);
    assert_eq!(cross_adapter_pitch(u32::MAX), 0xFFFF_FF00);
}

#[test]
fn cross_adapter_pitch_is_idempotent_on_aligned_widths() {
    for width in [64u32, 128, 320, 1920, 3840] {
        let pitch = cross_adapter_pitch(width);
        assert_eq!(pitch % CROSS_ADAPTER_PITCH_ALIGN, 0, "width {width}");
        assert!(pitch >= width * 4, "width {width} pitch {pitch}");
        assert!(
            pitch - width * 4 < CROSS_ADAPTER_PITCH_ALIGN,
            "width {width}"
        );
    }
}

#[test]
fn round_up_page_vectors() {
    assert_eq!(round_up_page(0), 0);
    assert_eq!(round_up_page(1), 4096);
    assert_eq!(round_up_page(4096), 4096);
    assert_eq!(round_up_page(4097), 8192);
    assert_eq!(round_up_page(u64::MAX), 0xFFFF_FFFF_FFFF_F000);
}

#[test]
fn round_up_page_saturates_instead_of_wrapping() {
    for n in [u64::MAX, u64::MAX - 1, u64::MAX - 4094, u64::MAX - 4095] {
        assert_eq!(round_up_page(n), 0xFFFF_FFFF_FFFF_F000, "n {n:#x}");
    }
    assert_eq!(round_up_page(u64::MAX - 4096), 0xFFFF_FFFF_FFFF_F000);
    assert_eq!(round_up_page(0xFFFF_FFFF_FFFF_EFFF), 0xFFFF_FFFF_FFFF_F000);
}

#[test]
fn window_range_accepts_exact_fit_and_rejects_one_past() {
    assert_eq!(window_range(4096, 0, 4096), Some(0));
    assert_eq!(window_range(4096, 4095, 1), Some(4095));
    assert_eq!(window_range(4096, 0, 4097), None);
    assert_eq!(window_range(4096, 4096, 1), None);
    assert_eq!(window_range(4096, 1, 4096), None);
}

#[test]
fn window_range_handles_empty_ranges() {
    assert_eq!(window_range(4096, 0, 0), Some(0));
    assert_eq!(window_range(4096, 4096, 0), Some(4096));
    assert_eq!(window_range(4096, 4097, 0), None);
    assert_eq!(window_range(0, 0, 0), Some(0));
    assert_eq!(window_range(0, 0, 1), None);
}

#[test]
fn window_range_rejects_wrapping_offsets() {
    assert_eq!(window_range(4096, u64::MAX, 1), None);
    assert_eq!(window_range(4096, u64::MAX - 4095, 4096), None);
    assert_eq!(window_range(u64::MAX, u64::MAX, 1), None);
}

#[test]
fn pfn_physical_address_vectors() {
    assert_eq!(Pfn(0).physical_address(), Some(0));
    assert_eq!(Pfn(1).physical_address(), Some(4096));
    assert_eq!(Pfn(0x1234).physical_address(), Some(0x1234 * 4096));
    assert_eq!(
        Pfn((1 << 51) - 1).physical_address(),
        Some(0x7FFF_FFFF_FFFF_F000)
    );
}

#[test]
fn pfn_physical_address_rejects_overflow() {
    assert_eq!(Pfn(1 << 52).physical_address(), None);
    assert_eq!(Pfn(u64::MAX).physical_address(), None);
}

#[test]
fn pfn_physical_address_rejects_the_sign_bit() {
    assert_eq!(Pfn((1 << 52) - 1).physical_address(), None);
    assert_eq!(Pfn(1 << 51).physical_address(), None);
}

#[test]
fn seq_read_accepts_only_an_even_unchanged_sequence() {
    assert_eq!(seq_read(0, 0), SeqRead::Stable);
    assert_eq!(seq_read(2, 2), SeqRead::Stable);
    assert_eq!(seq_read(u32::MAX - 1, u32::MAX - 1), SeqRead::Stable);
}

#[test]
fn seq_read_retries_on_an_in_flight_or_landed_publish() {
    assert_eq!(seq_read(1, 1), SeqRead::Retry);
    assert_eq!(seq_read(3, 4), SeqRead::Retry);
    assert_eq!(seq_read(2, 4), SeqRead::Retry);
    assert_eq!(seq_read(2, 3), SeqRead::Retry);
    assert_eq!(seq_read(u32::MAX - 1, 0), SeqRead::Retry);
}

#[test]
fn seq_read_bound_terminates_against_a_live_writer() {
    let mut attempts = 0;
    let mut settled = false;
    while attempts < SEQ_READ_ATTEMPTS {
        attempts += 1;
        if seq_read(2 * attempts + 1, 2 * attempts + 1) == SeqRead::Stable {
            settled = true;
            break;
        }
    }
    assert!(!settled);
    assert_eq!(attempts, SEQ_READ_ATTEMPTS);
}

#[test]
fn both_helpers_are_const_evaluable() {
    assert_eq!(cross_adapter_pitch(1896), 7680);
    assert_eq!(round_up_page(4097), 8192);
}

fn site1_converter(dxgi: u32) -> Option<u32> {
    match dxgi {
        0 | 88 => Some(2),
        28 => Some(67),
        87 => Some(1),
        _ => None,
    }
}

fn site3_and_4_allowlist(dxgi: u32) -> bool {
    matches!(dxgi, 28 | 87 | 88)
}

#[test]
fn scanout_format_reproduces_all_four_pre_r503_sites() {
    for dxgi in [0u32, 28, 87, 88, 10, 24, 91, 93, 1, 2, 67, 134, u32::MAX] {
        assert_eq!(
            ScanoutFormat::from_dxgi_or_legacy_zero(dxgi).map(ScanoutFormat::virtio),
            site1_converter(dxgi),
            "converter disagrees for DXGI {dxgi}"
        );
        assert_eq!(
            ScanoutFormat::from_dxgi(dxgi).is_some(),
            site3_and_4_allowlist(dxgi),
            "validator acceptance set disagrees for DXGI {dxgi}"
        );
    }

    assert_eq!(ScanoutFormat::Bgra8.dxgi(), 87);

    for dxgi in 0..=256u32 {
        if ScanoutFormat::from_dxgi(dxgi).is_some() {
            assert!(ScanoutFormat::from_dxgi_or_legacy_zero(dxgi).is_some());
        }
    }

    assert_eq!(
        ScanoutFormat::from_dxgi_or_legacy_zero(0),
        Some(ScanoutFormat::Bgrx8)
    );
    assert_eq!(ScanoutFormat::from_dxgi(0), None);
    assert_eq!(ScanoutFormat::Bgrx8.dxgi(), 88);
}

#[test]
fn display_mode_from_host_validates_once() {
    assert_eq!(DisplayMode::from_host(0, 0), None);
    assert_eq!(DisplayMode::from_host(319, 240), None);
    assert_eq!(DisplayMode::from_host(320, 239), None);
    let min = DisplayMode::from_host(320, 240).expect("320x240 is the minimum");
    assert_eq!((min.width(), min.height()), (320, 240));
    let shipped = DisplayMode::from_host(1896, 1066).expect("the shipped primary");
    assert_eq!((shipped.width(), shipped.height()), (1896, 1066));
    let fallback = DisplayMode::from_host(1920, 1080).expect("the fallback mode");
    assert_eq!(<(u32, u32)>::from(fallback), (1920, 1080));
    assert_eq!(shipped.packed(), (1896 << 16) | 1066);
    assert_eq!(fallback.packed(), (1920 << 16) | 1080);
    let wide = DisplayMode::from_host(4096, 2160).expect("4K");
    assert_eq!(wide.packed() >> 16, 4096);
}

#[test]
fn display_mode_fallback_is_the_documented_extent() {
    assert_eq!(
        <(u32, u32)>::from(DisplayMode::fallback()),
        (FALLBACK_DISPLAY_WIDTH, FALLBACK_DISPLAY_HEIGHT)
    );
    assert_eq!(<(u32, u32)>::from(DisplayMode::fallback()), (1920, 1080));
    assert_eq!(
        DisplayMode::from_host(FALLBACK_DISPLAY_WIDTH, FALLBACK_DISPLAY_HEIGHT),
        Some(DisplayMode::fallback())
    );
}

#[test]
fn gate_pack_round_trips_and_keeps_the_flag_in_the_low_half() {
    for seq in [0u32, 1, 2, 0x7FFF_FFFF, 0x8000_0000, u32::MAX] {
        for active in [false, true] {
            let word = gate_pack(seq, active);
            assert_eq!(gate_seq(word), seq, "seq lost for {seq}/{active}");
            assert_eq!(gate_active(word), active, "flag lost for {seq}/{active}");
        }
    }
    assert_eq!(gate_pack(0, false), 0);
    assert!(!gate_active(0));
    assert!(gate_active(gate_pack(12345, true)));
    assert!(!gate_active(gate_pack(12345, false)));
    assert_ne!(gate_pack(12345, false), 0);
}

#[test]
fn gate_transitions_reject_a_stale_clear() {
    let empty = gate_pack(0, false);
    let n1 = gate_pack(gate_seq(empty).wrapping_add(1), true);
    assert_eq!(n1, gate_pack(1, true));

    assert_eq!(n1, gate_pack(1, true));

    let n2 = gate_pack(gate_seq(n1).wrapping_add(1), true);
    assert_eq!(n2, gate_pack(2, true));

    assert_ne!(n2, gate_pack(1, true));

    let wrapped = gate_pack(u32::MAX, true);
    assert_eq!(gate_seq(wrapped).wrapping_add(1), 0);
    assert_ne!(gate_pack(0, true), wrapped);
}

const EXT_FULL: [&[u8]; 5] = [
    b"VK_KHR_external_memory\0",
    b"VK_KHR_external_memory_fd\0",
    b"VK_KHR_image_format_list\0",
    b"VK_EXT_external_memory_dma_buf\0",
    b"VK_EXT_image_drm_format_modifier\0",
];

const CMD_CREATE_DEVICE: u32 = 11;
const ST_DEVICE_CREATE_INFO: i32 = 3;
const ST_DEVICE_QUEUE_CREATE_INFO: i32 = 2;

fn encode_create_device(exts: &[&[u8]]) -> Writer {
    let mut w = Writer::new();
    w.header(CMD_CREATE_DEVICE, CMD_FLAG_GENERATE_REPLY);
    w.u64(0xDEAD_BEEF);
    w.count(true);
    w.i32(ST_DEVICE_CREATE_INFO);
    w.u64(0);
    w.u32(0);
    w.u32(1);
    w.count(true);
    w.i32(ST_DEVICE_QUEUE_CREATE_INFO);
    w.u64(0);
    w.u32(0);
    w.u32(0);
    w.u32(1);
    w.count(true);
    w.u32(1.0f32.to_bits());
    w.u32(0);
    w.count(false);
    if exts.is_empty() {
        w.u32(0);
        w.count(false);
    } else {
        w.u32(exts.len() as u32);
        w.u64(exts.len() as u64);
        for ext in exts {
            w.u64(ext.len() as u64);
            w.bytes_padded(ext);
        }
    }
    w.count(false);
    w.count(false);
    w.count(true);
    w.u64(0x1234);
    w
}

#[test]
fn writer_ext_full_create_device_is_332_bytes() {
    let w = encode_create_device(&EXT_FULL);
    assert!(!w.overflowed());
    assert_eq!(w.len(), 332);
    let bare = encode_create_device(&[]);
    assert_eq!(bare.len(), 144);
    assert_eq!(w.len() - bare.len(), 188);
}

const BIG: &[u8] = b"VK_EXT_image_drm_format_modifier\0";

#[test]
fn writer_headroom_is_four_more_extension_names() {
    let plus_four: [&[u8]; 9] = [
        EXT_FULL[0],
        EXT_FULL[1],
        EXT_FULL[2],
        EXT_FULL[3],
        EXT_FULL[4],
        BIG,
        BIG,
        BIG,
        BIG,
    ];
    let w = encode_create_device(&plus_four);
    assert!(!w.overflowed(), "four more names must still fit");
    assert_eq!(w.len(), 508);

    let plus_five: [&[u8]; 10] = [
        EXT_FULL[0],
        EXT_FULL[1],
        EXT_FULL[2],
        EXT_FULL[3],
        EXT_FULL[4],
        BIG,
        BIG,
        BIG,
        BIG,
        BIG,
    ];
    let w = encode_create_device(&plus_five);
    assert!(w.overflowed(), "a fifth extra name must be refused");
    assert!(w.finished().is_none());
}

#[test]
fn writer_overflow_is_sticky_and_withholds_the_bytes() {
    let mut w = Writer::new();
    w.header(7, 0);
    assert_eq!(w.cmd_type(), 7);
    for _ in 0..MAX_CMD_BYTES {
        w.u64(0);
    }
    assert!(w.overflowed());
    assert!(w.finished().is_none());
    w.u32(1);
    assert!(w.finished().is_none());
    assert_eq!(w.cmd_type(), 7);
}

#[test]
fn writer_accepts_exactly_max_cmd_bytes() {
    let mut w = Writer::new();
    for _ in 0..MAX_CMD_BYTES / 8 {
        w.u64(0);
    }
    assert!(!w.overflowed());
    assert_eq!(w.len(), MAX_CMD_BYTES);
    assert_eq!(w.finished().map(|s| s.len()), Some(MAX_CMD_BYTES));

    w.u32(0);
    assert!(w.overflowed());
}

#[test]
fn writer_bytes_padded_pads_with_zeroes() {
    let mut w = Writer::new();
    w.bytes_padded(b"abcde");
    assert_eq!(w.len(), 8);
    assert_eq!(w.finished(), Some(&b"abcde\0\0\0"[..]));

    let mut w = Writer::new();
    w.bytes_padded(b"VK_EXT_image_drm_format_modifier\0");
    assert_eq!(w.len(), 36);
}

const NVIDIA_SHAPED: [u32; 3] = [
    MEMORY_PROPERTY_DEVICE_LOCAL,
    MEMORY_PROPERTY_HOST_VISIBLE | MEMORY_PROPERTY_HOST_COHERENT,
    MEMORY_PROPERTY_DEVICE_LOCAL | MEMORY_PROPERTY_HOST_VISIBLE | MEMORY_PROPERTY_HOST_COHERENT,
];

#[test]
fn memory_type_exact_on_the_shape_this_box_reports() {
    assert_eq!(
        choose_device_local_memory_type(&NVIDIA_SHAPED, 3, 0b111),
        Some(MemoryTypeChoice::Exact(0))
    );
    assert_eq!(
        choose_host_visible_memory_type(&NVIDIA_SHAPED, 3, 0b111),
        Some(MemoryTypeChoice::Exact(1))
    );
}

#[test]
fn memory_type_downgrades_when_only_host_visible_is_allowed() {
    assert_eq!(
        choose_device_local_memory_type(&NVIDIA_SHAPED, 3, 0b010),
        Some(MemoryTypeChoice::Downgraded(1))
    );
}

#[test]
fn memory_type_device_local_bar_type_is_exact() {
    assert_eq!(
        choose_device_local_memory_type(&NVIDIA_SHAPED, 3, 0b100),
        Some(MemoryTypeChoice::Exact(2))
    );
    assert_eq!(
        choose_device_local_memory_type(&NVIDIA_SHAPED, 3, 0b101),
        Some(MemoryTypeChoice::Exact(0))
    );
}

#[test]
fn strict_device_local_never_selects_host_visible_or_fallback_memory() {
    assert_eq!(
        choose_strict_device_local_memory_type(&NVIDIA_SHAPED, 3, 0b111),
        Some(MemoryTypeChoice::Exact(0))
    );
    assert_eq!(
        choose_strict_device_local_memory_type(&NVIDIA_SHAPED, 3, 0b110),
        None
    );
    assert_eq!(
        choose_strict_device_local_memory_type(&NVIDIA_SHAPED, 3, 0b010),
        None
    );
    assert_eq!(
        choose_strict_device_local_memory_type(&NVIDIA_SHAPED, 3, 0),
        None
    );
}

#[test]
fn memory_type_host_visible_without_coherent_is_a_downgrade() {
    let flags = [MEMORY_PROPERTY_HOST_VISIBLE, MEMORY_PROPERTY_DEVICE_LOCAL];
    assert_eq!(
        choose_host_visible_memory_type(&flags, 2, 0b11),
        Some(MemoryTypeChoice::Downgraded(0))
    );
}

#[test]
fn memory_type_none_when_nothing_qualifies() {
    let flags = [MEMORY_PROPERTY_DEVICE_LOCAL, MEMORY_PROPERTY_DEVICE_LOCAL];
    assert_eq!(choose_host_visible_memory_type(&flags, 2, 0b11), None);
    assert_eq!(choose_device_local_memory_type(&flags, 2, 0), None);
}

#[test]
fn memory_type_scan_is_bounded_by_both_count_and_array() {
    let flags = [MEMORY_PROPERTY_DEVICE_LOCAL];
    assert_eq!(
        choose_device_local_memory_type(&flags, 32, u32::MAX),
        Some(MemoryTypeChoice::Exact(0))
    );
    assert_eq!(choose_device_local_memory_type(&flags, 0, u32::MAX), None);
}

#[test]
fn writer_encodes_little_endian() {
    let mut w = Writer::new();
    w.header(0x1122_3344, 0x5566_7788);
    w.u64(0x0102_0304_0506_0708);
    w.u32(1.0f32.to_bits());
    assert_eq!(
        w.finished(),
        Some(
            &[
                0x44, 0x33, 0x22, 0x11, 0x88, 0x77, 0x66, 0x55, 0x08, 0x07, 0x06, 0x05, 0x04,
                0x03, 0x02, 0x01, 0x00, 0x00, 0x80, 0x3F,
            ][..]
        )
    );
}
