use kmd_logic::present_dma_header::{decode, encode, PresentDmaKind, PRESENT_DMA_HEADER_BYTES};

#[test]
fn every_kind_round_trips() {
    for kind in [
        PresentDmaKind::Blt,
        PresentDmaKind::Flip,
        PresentDmaKind::Mpo,
        PresentDmaKind::Other,
    ] {
        assert_eq!(decode(&encode(kind)), Some(kind));
    }
}

#[test]
fn decode_accepts_a_longer_window_and_ignores_the_tail() {
    let mut buf = [0xA5u8; 64];
    buf[..16].copy_from_slice(&encode(PresentDmaKind::Blt));
    assert_eq!(decode(&buf), Some(PresentDmaKind::Blt));
}

#[test]
fn foreign_records_and_garbage_are_not_present_packets() {
    for magic in [0x3144_4B48u32, 0x3153_4F48u32, 0, 0xFFFF_FFFF] {
        let mut buf = encode(PresentDmaKind::Blt);
        buf[0..4].copy_from_slice(&magic.to_le_bytes());
        assert_eq!(decode(&buf), None, "magic {magic:#x}");
    }
    assert_eq!(decode(&[0u8; 64]), None);
    assert_eq!(decode(&[0xFFu8; 64]), None);
}

#[test]
fn version_kind_and_reserved_are_all_checked() {
    let mut bad_version = encode(PresentDmaKind::Flip);
    bad_version[4..8].copy_from_slice(&2u32.to_le_bytes());
    assert_eq!(decode(&bad_version), None);

    let mut bad_kind = encode(PresentDmaKind::Flip);
    bad_kind[8..12].copy_from_slice(&5u32.to_le_bytes());
    assert_eq!(decode(&bad_kind), None);
    let mut zero_kind = encode(PresentDmaKind::Flip);
    zero_kind[8..12].copy_from_slice(&0u32.to_le_bytes());
    assert_eq!(decode(&zero_kind), None);

    let mut reserved = encode(PresentDmaKind::Flip);
    reserved[12] = 1;
    assert_eq!(decode(&reserved), None);
}

#[test]
fn short_windows_are_refused() {
    let full = encode(PresentDmaKind::Mpo);
    assert_eq!(decode(&full[..15]), None);
    assert_eq!(decode(&[]), None);
}

#[test]
fn header_fits_below_the_flip_record() {
    assert!(PRESENT_DMA_HEADER_BYTES <= 32);
}

#[test]
fn no_other_header_decodes_to_the_same_kind() {
    let header = encode(PresentDmaKind::Flip);
    for i in 0..PRESENT_DMA_HEADER_BYTES {
        let mut other = header;
        other[i] ^= 1;
        assert_ne!(decode(&other), Some(PresentDmaKind::Flip));
    }
}
