use kmd_logic::scanout_lease::fence_is_forward;
use kmd_logic::scanout_retire::next_bind_sequence;

#[test]
fn bind_sequence_exhaustion_never_wraps() {
    assert_eq!(next_bind_sequence(0), Some(1));
    assert_eq!(next_bind_sequence(u64::MAX - 1), Some(u64::MAX));
    assert_eq!(next_bind_sequence(u64::MAX), None);
}

#[test]
fn fence_forwardness_survives_the_u32_wrap() {
    assert!(fence_is_forward(0, 1));
    assert!(!fence_is_forward(1, 1));
    assert!(!fence_is_forward(2, 1));
    assert!(fence_is_forward(u32::MAX, 0));
    assert!(fence_is_forward(u32::MAX - 1, 3));
    assert!(!fence_is_forward(0, 0x8000_0000));
    assert!(fence_is_forward(0, 0x7fff_ffff));
}

#[test]
fn one_of_two_fences_is_forward_wherever_they_stand() {
    for (a, b) in [(0u32, 1u32), (5, 0x7fff_0000), (u32::MAX, 3)] {
        assert!(fence_is_forward(a, b) && !fence_is_forward(b, a));
        for by in [1u32, 0x8000_0000, u32::MAX] {
            assert!(fence_is_forward(a.wrapping_add(by), b.wrapping_add(by)));
        }
    }
    assert!(!fence_is_forward(7, 0x8000_0007) && !fence_is_forward(0x8000_0007, 7));
}
