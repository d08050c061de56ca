use region_picker::geometry::{clamp_coord, clamp_point, MAX_HEIGHT, MAX_WIDTH};

#[test]
fn clamp_below_and_above() {
    assert_eq!(clamp_point((-50, 2000), 1920, 1080), (0, 1080));
}

#[test]
fn clamp_above_and_below() {
    assert_eq!(clamp_point((3000, -10), 1920, 1080), (1920, 0));
}

#[test]
fn clamp_inside_is_unchanged() {
    assert_eq!(clamp_point((100, 200), MAX_WIDTH, MAX_HEIGHT), (100, 200));
}

#[test]
fn clamp_on_the_border_is_unchanged() {
    assert_eq!(clamp_point((1920, 1080), MAX_WIDTH, MAX_HEIGHT), (1920, 1080));
    assert_eq!(clamp_point((0, 0), MAX_WIDTH, MAX_HEIGHT), (0, 0));
}

#[test]
fn clamp_extreme_values() {
    assert_eq!(clamp_point((i32::MIN, i32::MAX), 1920, 1080), (0, 1080));
}

#[test]
fn clamp_coord_interval() {
    assert_eq!(clamp_coord(5, 1, 3), 3);
    assert_eq!(clamp_coord(-5, 1, 3), 1);
    assert_eq!(clamp_coord(2, 1, 3), 2);
}
