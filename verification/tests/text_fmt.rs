use paintr_core::geom::{Rect, Vec2};
use paintr_core::image_utils::{make_color_img, white_color};
use paintr_core::text::i64_to_string;

#[test]
fn decimal_rendering_matches_std() {
    for n in [0i64, 7, 10, 205, -1, -99, 1000000, i64::MAX, i64::MIN] {
        assert_eq!(i64_to_string(n), n.to_string());
    }
}

#[test]
fn rect_accessors() {
    let rt = Rect::from_origin_size(Vec2::new(-1, 2), 3, 4);
    assert_eq!(rt.width(), 3);
    assert_eq!(rt.height(), 4);
    assert_eq!(rt.origin(), Vec2::new(-1, 2));
    assert_eq!(rt.translate(Vec2::new(1, -2)), Rect::new(0, 0, 3, 4));
}

#[test]
fn solid_image_pixels() {
    let img = make_color_img(3, 2, white_color());
    assert_eq!((img.size_w(), img.size_h()), (3, 2));
    for y in 0..2 {
        for x in 0..3 {
            assert_eq!(img.get_pixel(x, y), white_color());
        }
    }
}

#[test]
fn vector_arithmetic() {
    assert_eq!(Vec2::new(1, 2).add(Vec2::new(3, -5)), Vec2::new(4, -3));
    assert_eq!(Vec2::new(1, -2).neg(), Vec2::new(-1, 2));
    assert!(Vec2::zero().is_zero());
    assert!(!Vec2::new(0, 1).is_zero());
}
