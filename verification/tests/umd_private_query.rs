use kmd_logic::umd_private_query::is_exact;

#[test]
fn admits_the_measured_output_only_open_adapter_shape() {
    assert!(is_exact(0, true, 48, false, true));
}

#[test]
fn rejects_every_single_field_shape_mutation() {
    let cases = [
        (1, true, 48, false, true),
        (0, false, 48, false, true),
        (0, true, 47, false, true),
        (0, true, 49, false, true),
        (0, true, 48, true, true),
        (0, true, 48, false, false),
    ];
    for (input_size, input_is_null, output_size, output_is_null, output_is_aligned) in cases {
        assert!(!is_exact(
            input_size,
            input_is_null,
            output_size,
            output_is_null,
            output_is_aligned,
        ));
    }
}
