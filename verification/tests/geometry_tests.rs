use tower_of_derp::base::Base;
use tower_of_derp::geometry::{floor_div, isqrt64, Point};

#[test]
fn isqrt_small_values() {
    assert_eq!(isqrt64(0), 0);
    assert_eq!(isqrt64(1), 1);
    assert_eq!(isqrt64(3), 1);
    assert_eq!(isqrt64(4), 2);
    assert_eq!(isqrt64(99), 9);
    assert_eq!(isqrt64(100), 10);
}

#[test]
fn isqrt_large_values() {
    assert_eq!(isqrt64(112_500_000), 10_606);
    assert_eq!(isqrt64(0x4000_0000_0000_0000), 0x8000_0000);
    assert_eq!(isqrt64(0x4000_0000_0000_0000 - 1), 0x8000_0000 - 1);
}

#[test]
fn floor_division_rounds_down() {
    assert_eq!(floor_div(0, 35_000), 0);
    assert_eq!(floor_div(34_999, 35_000), 0);
    assert_eq!(floor_div(35_000, 35_000), 1);
    assert_eq!(floor_div(-1, 35_000), -1);
    assert_eq!(floor_div(-35_000, 35_000), -1);
    assert_eq!(floor_div(-35_001, 35_000), -2);
    assert_eq!(floor_div(i64::MIN, 35_000), i64::MIN / 35_000 - 1);
}

#[test]
fn base_footprint_edges() {
    let base = Base { position: Point { x: 0, y: 8 } };
    // x is padded 5 px on the left, y is not padded above.
    assert!(base.is_position_in_base(Point { x: -5_000, y: 8 * 35_000 }));
    assert!(!base.is_position_in_base(Point { x: -5_001, y: 8 * 35_000 }));
    assert!(!base.is_position_in_base(Point { x: 0, y: 8 * 35_000 - 1 }));
    // The far corner reaches base size plus twice the padding.
    assert!(base.is_position_in_base(Point { x: 70_000, y: 8 * 35_000 + 70_000 }));
    assert!(!base.is_position_in_base(Point { x: 70_001, y: 8 * 35_000 + 70_000 }));
}
