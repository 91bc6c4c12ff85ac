use rust_to_metal_sl::prelude::{clamp, max, min, ComponentWiseMath};

#[test]
fn integer_test_abs() {
    1i32.abs();
    assert_eq!(ComponentWiseMath::abs(-7i32), 7);
    assert_eq!(ComponentWiseMath::abs(7i32), 7);
}

#[test]
fn min_max_on_integers() {
    assert_eq!(min(3i32, 5i32), 3);
    assert_eq!(max(3i32, 5i32), 5);
    assert_eq!(min(9u32, 2u32), 2);
    assert_eq!(max(9u32, 2u32), 9);
}

#[test]
fn clamp_on_integers() {
    assert_eq!(clamp(10i32, 0i32, 3i32), 3);
    assert_eq!(clamp(-4i32, 0i32, 3i32), 0);
    assert_eq!(clamp(2i32, 0i32, 3i32), 2);
    assert_eq!(clamp(7u32, 1u32, 4u32), 4);
}
