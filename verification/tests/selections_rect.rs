use paintr_core::geom::{Rect, Vec2};
use paintr_core::image_utils::{make_color_img, transparent_color, white_color};
use paintr_core::selections::{CopyMode, Selection};

#[test]
fn rect_copy_should_works() {
    let white = make_color_img(4, 4, white_color());
    let rt = Selection::rect(Rect::from_origin_size(Vec2::new(-1, -1), 3, 3));
    let img = rt.copy(&white, CopyMode::Shrink).unwrap();
    assert_eq!((img.size_w(), img.size_h()), (2, 2));
    assert_eq!(img.get_pixel(1, 1), white_color());

    let img = rt.copy(&white, CopyMode::Expand).unwrap();
    assert_eq!((img.size_w(), img.size_h()), (3, 3));
    assert_eq!(img.get_pixel(1, 1), white_color());
    assert_eq!(img.get_pixel(0, 0), transparent_color());
}

#[test]
fn rect_cutout_should_works() {
    let white = make_color_img(4, 4, white_color());
    let rt = Selection::rect(Rect::from_origin_size(Vec2::new(-1, -1), 3, 3));
    let img = rt.cutout(&white).unwrap();
    assert_eq!((img.size_w(), img.size_h()), (4, 4));
    assert_eq!(img.get_pixel(3, 3), white_color());
    assert_eq!(img.get_pixel(1, 1), transparent_color());
}
