use rustland::geometry::{heading, isqrt_u64, normalize, rotate, Rect, Vec2};
use rustland::screen_transform::ScreenTransform;

#[test]
fn integer_square_root() {
    assert_eq!(isqrt_u64(0), 0);
    assert_eq!(isqrt_u64(15), 3);
    assert_eq!(isqrt_u64(16), 4);
    assert_eq!(isqrt_u64(u64::MAX), 4_294_967_295);
}

#[test]
fn normalize_scales_to_unit() {
    assert_eq!(normalize(Vec2::new(3, 4)), Vec2::new(600_000, 800_000));
    assert_eq!(normalize(Vec2::new(0, 0)), Vec2::new(0, 0));
    assert_eq!(normalize(Vec2::new(-5, 0)), Vec2::new(-1_000_000, 0));
}

#[test]
fn headings_at_quarter_turns() {
    assert_eq!(heading(0), Vec2::new(0, 1_000_000));
    assert_eq!(heading(16_384), Vec2::new(1_000_000, 0));
    assert_eq!(heading(32_768), Vec2::new(0, -1_000_000));
    assert_eq!(heading(-16_384), Vec2::new(-1_000_000, 0));
    assert_eq!(heading(8_192), Vec2::new(705_882, 705_882));
}

#[test]
fn rotate_by_quarter_turn() {
    assert_eq!(rotate(Vec2::new(1_000_000, 0), 16_384), Vec2::new(0, 1_000_000));
    assert_eq!(rotate(Vec2::new(250, -75), 0), Vec2::new(250, -75));
}

#[test]
fn rectangle_centres() {
    let r = Rect::new_centered(100, 200, 50, 40);
    assert_eq!(r, Rect::new(75, 180, 50, 40));
    assert_eq!(r.center(), Vec2::new(100, 200));
    assert!(rustland::geometry::rect_intersection(r, Rect::new(124, 219, 5, 5)));
    assert!(!rustland::geometry::rect_intersection(r, Rect::new(125, 180, 5, 5)));
}

#[test]
fn screen_transform_maps_pixels_and_world() {
    let mut t = ScreenTransform::new(1280, 720);
    assert_eq!(t.pick_screen(720, 360), Vec2::new(1_000_000, 500_000));
    t.translate_center(Vec2::new(2_000_000, 3_000_000));
    assert_eq!(t.offset, Vec2::new(2_000_000 - 888_888, 2_500_000));
    assert_eq!(t.pick_world(640, 360), Vec2::new(2_000_000, 3_000_000));
    assert_eq!(t.project_point(Vec2::new(2_000_000, 3_000_000)), Vec2::new(888_888, 500_000));
    let r = t.project_rect(Rect::new(2_000_000, 3_000_000, 100_000, 100_000));
    assert_eq!(r, Rect::new(888_888, 500_000, 100_000, 100_000));
    assert_eq!(t.to_pixels(r), (639, 360, 72, 72));
    t.resize(800, 600);
    assert_eq!(t.px, (800, 600));
}
