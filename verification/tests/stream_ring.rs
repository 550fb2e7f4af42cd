use kmd_logic::stream_ring::{
    execute_stub, Region, ReserveRefusal, StreamRing, EXECUTE_STUB_BYTES,
};

type Ring = StreamRing<8>;

#[test]
fn the_execute_stub_is_the_documented_64_wire_bytes() {
    let stub = execute_stub(0x1234_5678, 0x0000_0001_0000_0040, 418_652);
    let mut at = 0usize;
    let mut expect = |bytes: &[u8]| {
        assert_eq!(&stub[at..at + bytes.len()], bytes, "at byte {at}");
        at += bytes.len();
    };
    expect(&180u32.to_le_bytes());
    expect(&0u32.to_le_bytes());
    expect(&1u32.to_le_bytes());
    expect(&1u64.to_le_bytes());
    expect(&0x1234_5678u32.to_le_bytes());
    expect(&0x0000_0001_0000_0040u64.to_le_bytes());
    expect(&418_652u64.to_le_bytes());
    expect(&0u64.to_le_bytes());
    expect(&0u32.to_le_bytes());
    expect(&0u64.to_le_bytes());
    expect(&0u32.to_le_bytes());
    assert_eq!(at, EXECUTE_STUB_BYTES);
}

#[test]
fn regions_come_back_in_order_and_free_in_order() {
    let mut ring = Ring::new(1024);
    let a = ring.reserve(100).unwrap();
    let b = ring.reserve(200).unwrap();
    assert_eq!(a, Region { offset: 0, len: 100 });
    assert_eq!(b, Region { offset: 128, len: 200 });
    assert_eq!(ring.live_bytes(), 128 + 256);
    assert!(ring.retire(a));
    assert_eq!(ring.live_bytes(), 256);
    assert!(ring.retire(b));
    assert_eq!(ring.live_bytes(), 0);
    assert_eq!(ring.live_regions(), 0);
}

#[test]
fn an_out_of_order_release_defers_space_until_the_older_region_goes() {
    let mut ring = Ring::new(1024);
    let a = ring.reserve(100).unwrap();
    let b = ring.reserve(200).unwrap();
    assert!(ring.retire(b));
    assert_eq!(ring.live_bytes(), 128 + 256, "space stays owned behind a");
    assert!(!ring.retire(b), "a second release of the same region is refused");
    assert!(ring.retire(a));
    assert_eq!(ring.live_bytes(), 0);
    assert_eq!(ring.live_regions(), 0);
}

#[test]
fn a_region_never_wraps_and_the_skipped_tail_is_reclaimed() {
    let mut ring = Ring::new(512);
    let a = ring.reserve(300).unwrap();
    let b = ring.reserve(100).unwrap();
    assert_eq!(b.offset, 320);
    assert!(ring.retire(a));
    let c = ring.reserve(200).unwrap();
    assert_eq!(c.offset, 0);
    assert_eq!(ring.live_bytes(), 128 + 64 + 256);
    assert!(ring.retire(b));
    assert_eq!(ring.live_bytes(), 64 + 256);
    assert!(ring.retire(c));
    assert_eq!(ring.live_bytes(), 0);
}

#[test]
fn full_is_a_refusal_not_a_corruption() {
    let mut ring = Ring::new(256);
    let a = ring.reserve(256).unwrap();
    assert_eq!(ring.reserve(1), Err(ReserveRefusal::Full));
    assert_eq!(ring.reserve(257), Err(ReserveRefusal::Unrepresentable));
    assert_eq!(ring.reserve(0), Err(ReserveRefusal::Unrepresentable));
    assert!(ring.retire(a));
    assert!(ring.reserve(256).is_ok());
}

#[test]
fn a_wrapped_reservation_cannot_overrun_the_live_tail() {
    let mut ring = Ring::new(512);
    let a = ring.reserve(64).unwrap();
    let _b = ring.reserve(384).unwrap();
    assert!(ring.retire(a));
    assert_eq!(ring.reserve(128), Err(ReserveRefusal::Full));
    assert_eq!(ring.reserve(64).unwrap().offset, 448);
}

#[test]
fn the_queue_bounds_live_regions_and_a_stale_release_is_refused() {
    let mut ring = StreamRing::<2>::new(1024);
    let a = ring.reserve(64).unwrap();
    let _b = ring.reserve(64).unwrap();
    assert_eq!(ring.reserve(64), Err(ReserveRefusal::QueueFull));
    assert!(!ring.retire(Region { offset: 999, len: 1 }));
    assert!(ring.retire(a));
    assert!(ring.reserve(64).is_ok());
}

#[test]
fn a_misaligned_or_zero_size_ring_refuses_everything() {
    assert_eq!(Ring::new(100).reserve(1), Err(ReserveRefusal::Unrepresentable));
    assert_eq!(Ring::new(0).reserve(1), Err(ReserveRefusal::Unrepresentable));
}

#[test]
fn every_region_lies_inside_the_ring_on_its_own() {
    let mut ring = Ring::new(1024);
    let mut regions: Vec<Region> = Vec::new();
    for round in 0..40u64 {
        match ring.reserve(30 + 37 * (round % 9)) {
            Ok(region) => {
                assert_eq!(region.offset % 64, 0);
                assert!(region.offset + region.len.div_ceil(64) * 64 <= ring.size());
                for other in &regions {
                    assert!(
                        region.offset + region.len <= other.offset
                            || other.offset + other.len <= region.offset
                    );
                }
                regions.push(region);
            }
            Err(_) => assert!(ring.retire(regions.remove(0))),
        }
        assert!(ring.live_bytes() <= ring.size());
        assert!(ring.live_regions() <= 8);
    }
}

#[test]
fn full_means_that_no_run_is_left() {
    let mut ring = Ring::new(512);
    let a = ring.reserve(128).unwrap();
    let b = ring.reserve(128).unwrap();
    let c = ring.reserve(128).unwrap();
    assert!(ring.retire(a));
    // 256 bytes are free, 128 on either side of what `b` and `c` own.
    assert_eq!(ring.live_bytes(), 256);
    assert_eq!(ring.reserve(192), Err(ReserveRefusal::Full));
    assert_eq!(ring.reserve(129), Err(ReserveRefusal::Full));
    let d = ring.reserve(128).unwrap();
    assert_eq!(d, Region { offset: 384, len: 128 });
    let e = ring.reserve(65).unwrap();
    assert_eq!(e, Region { offset: 0, len: 65 });
    // Nothing is free any more.
    assert_eq!(ring.live_bytes(), 512);
    assert_eq!(ring.reserve(1), Err(ReserveRefusal::Full));
    assert!(ring.retire(b));
    assert!(ring.retire(c));
    assert_eq!(ring.reserve(256), Ok(Region { offset: 128, len: 256 }));
}

#[test]
fn a_run_that_was_skipped_is_not_handed_out() {
    let mut ring = Ring::new(512);
    let a = ring.reserve(256).unwrap();
    let b = ring.reserve(192).unwrap();
    assert!(ring.retire(a));
    // The 64 bytes behind `b` are too short and go with the region at zero.
    let c = ring.reserve(128).unwrap();
    assert_eq!(c, Region { offset: 0, len: 128 });
    assert_eq!(ring.live_bytes(), 192 + 64 + 128);
    assert_eq!(ring.reserve(129), Err(ReserveRefusal::Full));
    assert_eq!(ring.reserve(128), Ok(Region { offset: 128, len: 128 }));
    assert!(ring.retire(b));
}
