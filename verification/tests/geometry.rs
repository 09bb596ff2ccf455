use sprite_stage::geometry::{
    clamp_coordinate, clamp_extent, Position, Region, MAX_EXTENT, MIN_COORDINATE,
};

#[test]
fn bounds_are_half_the_integer_range() {
    assert_eq!(MAX_EXTENT, i32::MAX / 2);
    assert_eq!(MIN_COORDINATE, i32::MIN / 2);
}

#[test]
fn clamp_coordinate_keeps_values_in_range() {
    assert_eq!(clamp_coordinate(0), 0);
    assert_eq!(clamp_coordinate(-17), -17);
    assert_eq!(clamp_coordinate(MAX_EXTENT as i64), MAX_EXTENT);
    assert_eq!(clamp_coordinate(MIN_COORDINATE as i64), MIN_COORDINATE);
}

#[test]
fn clamp_coordinate_saturates() {
    assert_eq!(clamp_coordinate(MAX_EXTENT as i64 + 1), MAX_EXTENT);
    assert_eq!(clamp_coordinate(i64::MAX), MAX_EXTENT);
    assert_eq!(clamp_coordinate(MIN_COORDINATE as i64 - 1), MIN_COORDINATE);
    assert_eq!(clamp_coordinate(i64::MIN), MIN_COORDINATE);
}

#[test]
fn clamp_extent_replaces_zero_and_caps() {
    assert_eq!(clamp_extent(0), 1);
    assert_eq!(clamp_extent(1), 1);
    assert_eq!(clamp_extent(26), 26);
    assert_eq!(clamp_extent(MAX_EXTENT as u32), MAX_EXTENT as u32);
    assert_eq!(clamp_extent(MAX_EXTENT as u32 + 1), MAX_EXTENT as u32);
    assert_eq!(clamp_extent(u32::MAX), MAX_EXTENT as u32);
}

#[test]
fn region_new_keeps_ordinary_values() {
    let r = Region::new(0, 0, 26, 36);
    assert_eq!(r, Region { x: 0, y: 0, width: 26, height: 36 });
}

#[test]
fn region_new_clamps_each_value() {
    let r = Region::new(i32::MAX, i32::MIN, 0, u32::MAX);
    assert_eq!(r.x, MAX_EXTENT);
    assert_eq!(r.y, MIN_COORDINATE);
    assert_eq!(r.width, 1);
    assert_eq!(r.height, MAX_EXTENT as u32);
}

#[test]
fn region_from_center_puts_the_middle_on_the_point() {
    let r = Region::from_center(Position::new(400, 300), 26, 36);
    assert_eq!(r, Region { x: 387, y: 282, width: 26, height: 36 });
}

#[test]
fn region_from_center_rounds_odd_sides_down() {
    let r = Region::from_center(Position::new(0, 0), 5, 3);
    assert_eq!(r, Region { x: -2, y: -1, width: 5, height: 3 });
}

#[test]
fn region_from_center_clamps_sides_and_corner() {
    let r = Region::from_center(Position::new(i32::MIN, i32::MAX), 0, u32::MAX);
    assert_eq!(r.width, 1);
    assert_eq!(r.height, MAX_EXTENT as u32);
    assert_eq!(r.x, MIN_COORDINATE);
    assert_eq!(r.y, MAX_EXTENT - MAX_EXTENT / 2);
}
