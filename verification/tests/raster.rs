use termgl::raster::{frame_size, rendering_rectangle};
use termgl::ShadingMode;

#[test]
fn rectangle_is_clamped_to_screen() {
    let r = rendering_rectangle((-5, 3), (10, -2), (4, 20), 8, 6);
    assert_eq!((r.min_x, r.max_x, r.min_y, r.max_y), (0, 7, 0, 5));
}

#[test]
fn rectangle_inside_screen_is_bounding_box() {
    let r = rendering_rectangle((2, 3), (5, 1), (4, 4), 10, 10);
    assert_eq!((r.min_x, r.max_x, r.min_y, r.max_y), (2, 5, 1, 4));
}

#[test]
fn rectangle_off_screen_collapses_to_edge() {
    let r = rendering_rectangle((20, 20), (30, 25), (22, 40), 8, 6);
    assert_eq!((r.min_x, r.max_x, r.min_y, r.max_y), (7, 7, 5, 5));
}

#[test]
fn frame_size_doubles_rows() {
    assert_eq!(frame_size(80, 24), (80, 48));
    assert_eq!(frame_size(0, 0), (0, 0));
}

#[test]
fn shading_modes_compare() {
    assert!(ShadingMode::Phong == ShadingMode::Phong);
    assert!(ShadingMode::Phong != ShadingMode::Gouraud);
}
