use kmd_logic::native_fence_lifecycle::{
    admit_create, admit_open, close_local, destroy_global, encode, next_epoch,
    next_object_generation, open_local, parse, retire_global, retire_local, surface_is_admitted,
    update_count_is_bounded, validate_create, validate_open, value_update_is_forward,
    FenceState, GlobalFence, PddReject, Population, Refusal, HNF1_FLAG_SHARED, HNF1_MAGIC,
    HNF1_SIZE, MAX_LIVE_GLOBAL, MAX_LIVE_LOCAL, MAX_UPDATE_FENCES, NATIVE_FENCE_TYPE_DEFAULT,
    NATIVE_FENCE_TYPE_INTRA_GPU, OFF_ABI_VERSION, OFF_ADAPTER_LUID, OFF_FLAGS, OFF_MAGIC,
    OFF_NATIVE_TYPE, OFF_OBJECT_GENERATION, OFF_PACKAGE_GENERATION, OFF_RESERVED,
    OFF_STRUCT_SIZE, RESERVED_LEN,
};

const PKG: u64 = 0x0102_0304_0506_0708;
const LUID: i64 = 0x0000_1234_5678_9abc_u64 as i64;

fn good_pdd() -> [u8; HNF1_SIZE] {
    encode(PKG, 0, NATIVE_FENCE_TYPE_DEFAULT, HNF1_FLAG_SHARED, 0)
}

#[test]
fn magic_is_the_ascii_tag_hnf1_little_endian() {
    assert_eq!(HNF1_MAGIC.to_le_bytes(), *b"HNF1");
}

#[test]
fn the_byte_table_fields_tile_the_record_exactly() {
    let spans = [
        (OFF_MAGIC, 4),
        (OFF_ABI_VERSION, 2),
        (OFF_STRUCT_SIZE, 2),
        (OFF_PACKAGE_GENERATION, 8),
        (OFF_OBJECT_GENERATION, 8),
        (OFF_NATIVE_TYPE, 4),
        (OFF_FLAGS, 4),
        (OFF_ADAPTER_LUID, 8),
        (OFF_RESERVED, RESERVED_LEN),
    ];
    let mut cursor = 0usize;
    for (off, len) in spans {
        assert_eq!(off, cursor, "field at {off} does not abut the previous one");
        cursor += len;
    }
    assert_eq!(cursor, HNF1_SIZE);
}

#[test]
fn encode_round_trips_through_parse() {
    let bytes = encode(PKG, 7, NATIVE_FENCE_TYPE_INTRA_GPU, HNF1_FLAG_SHARED, LUID);
    let parsed = parse(&bytes);
    assert_eq!(parsed.package_generation, PKG);
    assert_eq!(parsed.object_generation, 7);
    assert_eq!(parsed.native_type, NATIVE_FENCE_TYPE_INTRA_GPU);
    assert_eq!(parsed.flags, HNF1_FLAG_SHARED);
    assert_eq!(parsed.adapter_luid, LUID);
    assert!(bytes[OFF_RESERVED..].iter().all(|b| *b == 0));
}

#[test]
fn a_well_formed_create_pdd_is_admitted() {
    let ok = validate_create(&good_pdd(), PKG, LUID, NATIVE_FENCE_TYPE_DEFAULT);
    assert_eq!(ok.map(|h| h.flags), Ok(HNF1_FLAG_SHARED));
}

#[test]
fn every_header_field_has_its_own_refusal() {
    let mut b = good_pdd();
    b[OFF_MAGIC] ^= 1;
    assert_eq!(
        validate_create(&b, PKG, LUID, NATIVE_FENCE_TYPE_DEFAULT),
        Err(PddReject::Magic)
    );

    let mut b = good_pdd();
    b[OFF_ABI_VERSION] = 2;
    assert_eq!(
        validate_create(&b, PKG, LUID, NATIVE_FENCE_TYPE_DEFAULT),
        Err(PddReject::AbiVersion)
    );

    let mut b = good_pdd();
    b[OFF_STRUCT_SIZE] = 63;
    assert_eq!(
        validate_create(&b, PKG, LUID, NATIVE_FENCE_TYPE_DEFAULT),
        Err(PddReject::StructSize)
    );

    let b = good_pdd();
    assert_eq!(
        validate_create(&b, PKG ^ 1, LUID, NATIVE_FENCE_TYPE_DEFAULT),
        Err(PddReject::PackageGeneration)
    );

    let b = encode(PKG, 1, NATIVE_FENCE_TYPE_DEFAULT, 0, 0);
    assert_eq!(
        validate_create(&b, PKG, LUID, NATIVE_FENCE_TYPE_DEFAULT),
        Err(PddReject::ObjectGenerationNotZero)
    );

    let b = encode(PKG, 0, NATIVE_FENCE_TYPE_DEFAULT, HNF1_FLAG_SHARED | 2, 0);
    assert_eq!(
        validate_create(&b, PKG, LUID, NATIVE_FENCE_TYPE_DEFAULT),
        Err(PddReject::Flags)
    );

    let mut b = good_pdd();
    b[OFF_RESERVED + RESERVED_LEN - 1] = 1;
    assert_eq!(
        validate_create(&b, PKG, LUID, NATIVE_FENCE_TYPE_DEFAULT),
        Err(PddReject::Reserved)
    );
}

#[test]
fn an_undocumented_native_type_is_refused_before_the_ddi_comparison() {
    let b = encode(PKG, 0, 2, 0, 0);
    assert_eq!(
        validate_create(&b, PKG, LUID, 2),
        Err(PddReject::NativeType),
        "an undocumented type must not be admitted just because the OS echoed it"
    );

    let b = encode(PKG, 0, NATIVE_FENCE_TYPE_INTRA_GPU, 0, 0);
    assert_eq!(
        validate_create(&b, PKG, LUID, NATIVE_FENCE_TYPE_INTRA_GPU),
        Err(PddReject::NativeType),
        "INTRA_GPU requires a fence-storage allocation path this package does not expose"
    );
}

#[test]
fn the_pdd_type_must_agree_with_the_ddi_type() {
    let b = encode(PKG, 0, NATIVE_FENCE_TYPE_DEFAULT, 0, 0);
    assert_eq!(
        validate_create(&b, PKG, LUID, NATIVE_FENCE_TYPE_INTRA_GPU),
        Err(PddReject::NativeTypeMismatch)
    );
}

#[test]
fn create_accepts_a_zero_or_exact_luid_and_nothing_else() {
    let zero = encode(PKG, 0, NATIVE_FENCE_TYPE_DEFAULT, 0, 0);
    assert!(validate_create(&zero, PKG, LUID, NATIVE_FENCE_TYPE_DEFAULT).is_ok());
    let exact = encode(PKG, 0, NATIVE_FENCE_TYPE_DEFAULT, 0, LUID);
    assert!(validate_create(&exact, PKG, LUID, NATIVE_FENCE_TYPE_DEFAULT).is_ok());
    let other = encode(PKG, 0, NATIVE_FENCE_TYPE_DEFAULT, 0, LUID ^ 1);
    assert_eq!(
        validate_create(&other, PKG, LUID, NATIVE_FENCE_TYPE_DEFAULT),
        Err(PddReject::AdapterLuid)
    );
}

#[test]
fn open_requires_the_exact_global_identity() {
    let b = encode(PKG, 0, NATIVE_FENCE_TYPE_DEFAULT, HNF1_FLAG_SHARED, LUID);
    assert!(validate_open(&b, PKG, LUID, NATIVE_FENCE_TYPE_DEFAULT, HNF1_FLAG_SHARED,).is_ok());
    assert_eq!(
        validate_open(
            &b,
            PKG,
            LUID ^ 1,
            NATIVE_FENCE_TYPE_DEFAULT,
            HNF1_FLAG_SHARED,
        ),
        Err(PddReject::AdapterLuid)
    );
    let nonzero_generation = encode(PKG, 7, NATIVE_FENCE_TYPE_DEFAULT, HNF1_FLAG_SHARED, LUID);
    assert_eq!(
        validate_open(
            &nonzero_generation,
            PKG,
            LUID,
            NATIVE_FENCE_TYPE_DEFAULT,
            HNF1_FLAG_SHARED,
        ),
        Err(PddReject::ObjectGenerationNotZero)
    );
}

#[test]
fn the_population_is_bounded_in_both_directions() {
    let full = Population {
        live_global: MAX_LIVE_GLOBAL,
        live_local: 0,
    };
    assert_eq!(admit_create(full), Err(Refusal::PoolExhausted));
    let full_local = Population {
        live_global: 0,
        live_local: MAX_LIVE_LOCAL,
    };
    assert_eq!(admit_open(full_local), Err(Refusal::PoolExhausted));

    let empty = Population::default();
    assert_eq!(retire_local(empty), Err(Refusal::NoLocalReference));
    assert_eq!(retire_global(empty), Err(Refusal::NotLive));

    let one = admit_create(empty).unwrap();
    assert_eq!(one.live_global, 1);
    assert_eq!(retire_global(one).unwrap(), empty);
}

#[test]
fn a_stale_epoch_blocks_open_but_never_blocks_close() {
    let f = GlobalFence::new(4, 1);
    assert_eq!(open_local(f, 5), Err(Refusal::StaleEpoch));

    let f = open_local(f, 4).unwrap();
    assert_eq!(f.local_refs, 1);
    let f = close_local(f).expect("close must survive a reset");
    assert_eq!(f.local_refs, 0);
}

#[test]
fn destroy_with_live_locals_refuses_rather_than_dangling_them() {
    let f = GlobalFence::new(0, 1);
    let f = open_local(f, 0).unwrap();
    assert_eq!(
        destroy_global(f),
        Err(Refusal::LocalReferencesOutstanding),
        "freeing the global object here is a use-after-free in every local"
    );
    let f = close_local(f).unwrap();
    let f = destroy_global(f).unwrap();
    assert_eq!(f.state, FenceState::Dead);
    assert_eq!(destroy_global(f), Err(Refusal::NotLive));
    assert_eq!(close_local(f), Err(Refusal::NotLive));
}

#[test]
fn draining_becomes_dead_when_the_last_local_closes() {
    let mut f = GlobalFence::new(0, 1);
    f = open_local(f, 0).unwrap();
    f = open_local(f, 0).unwrap();
    f.state = FenceState::Draining;
    f = close_local(f).unwrap();
    assert_eq!(
        f.state,
        FenceState::Draining,
        "one reference still holds it"
    );
    f = close_local(f).unwrap();
    assert_eq!(f.state, FenceState::Dead);
}

#[test]
fn a_dead_object_cannot_be_reopened() {
    let f = GlobalFence {
        state: FenceState::Dead,
        ..GlobalFence::new(0, 1)
    };
    assert_eq!(open_local(f, 0), Err(Refusal::NotLive));
}

#[test]
fn the_object_generation_is_never_zero_and_never_wraps_to_zero() {
    assert_eq!(next_object_generation(0), Some(1));
    assert_eq!(next_object_generation(1), Some(2));
    assert_eq!(next_object_generation(u64::MAX), None);
    assert_eq!(next_epoch(6, 7), Some(7));
    assert_eq!(next_epoch(7, 7), None);
}

#[test]
fn update_count_is_rejected_before_the_bound_is_exceeded() {
    assert!(update_count_is_bounded(0));
    assert!(update_count_is_bounded(MAX_UPDATE_FENCES));
    assert!(!update_count_is_bounded(MAX_UPDATE_FENCES + 1));
}

#[test]
fn value_updates_are_reported_not_enforced() {
    assert!(value_update_is_forward(4, 4));
    assert!(value_update_is_forward(4, 5));
    assert!(value_update_is_forward(4, u64::MAX));
    assert!(!value_update_is_forward(5, 4));
}

#[test]
fn admission_is_conjunctive() {
    assert!(surface_is_admitted(true, true, true, true, true));
    for i in 0..5 {
        let g = |n: usize| n != i;
        assert!(
            !surface_is_admitted(g(0), g(1), g(2), g(3), g(4)),
            "gate {i} alone must be able to refuse the whole surface"
        );
    }
}
