use paintr_core::actions::{DrawBrush, Edit, MoveCanvas, MoveSelection, Paste};
use paintr_core::canvas::CanvasData;
use paintr_core::geom::{Rect, Vec2};
use paintr_core::image_utils::{make_color_img, transparent_color, white_color, yellow_color, Rgba};
use paintr_core::selections::{CopyMode, Selection};

fn canvas_fixture(w: u32, h: u32, color: Rgba) -> CanvasData {
    CanvasData::new("test-img".to_string(), make_color_img(w, h, color))
}

#[test]
fn selection_description_uses_truncated_coordinates() {
    let sel = Selection::rect(Rect::from_origin_size(Vec2::new(-1, -1), 3, 3));
    assert_eq!(sel.description().as_str(), "X: -1, Y: -1, W: 3, H: 3");

    let sel = Selection::rect(Rect::from_origin_size(Vec2::new(0, 12), 16, 205));
    assert_eq!(sel.description().as_str(), "X: 0, Y: 12, W: 16, H: 205");
}

#[test]
fn selection_contains_is_half_open() {
    let sel = Selection::rect(Rect::new(2, 2, 6, 6));
    assert!(sel.contains(Vec2::new(2, 2)));
    assert!(sel.contains(Vec2::new(5, 5)));
    assert!(!sel.contains(Vec2::new(6, 6)));
    assert!(!sel.contains(Vec2::new(1, 2)));
}

#[test]
fn selection_transform_composes_additively() {
    let sel = Selection::rect(Rect::new(0, 0, 4, 4));
    let twice = sel.transform(Vec2::new(1, 2)).transform(Vec2::new(3, 4));
    let once = sel.transform(Vec2::new(4, 6));
    assert!(twice.same(&once));
    assert_eq!(twice.position(), Vec2::new(4, 6));
}

#[test]
fn selection_area_and_emptiness() {
    let sel = Selection::rect(Rect::from_origin_size(Vec2::new(-1, -1), 3, 3));
    assert_eq!(sel.area(), 9);
    assert!(!sel.is_empty());
    assert!(Selection::rect(Rect::new(2, 2, 2, 8)).is_empty());
}

#[test]
fn zero_area_selection_clears_the_selection() {
    let mut canvas = canvas_fixture(4, 4, white_color());
    canvas.select(Selection::rect(Rect::new(0, 0, 2, 2)));
    assert!(canvas.selection().is_some());
    canvas.select(Selection::rect(Rect::new(1, 1, 1, 3)));
    assert!(canvas.selection().is_none());
}

#[test]
fn copy_and_cutout_outside_bounds_give_nothing() {
    let white = make_color_img(4, 4, white_color());
    let sel = Selection::rect(Rect::from_origin_size(Vec2::new(20, 20), 3, 3));
    assert!(sel.copy(&white, CopyMode::Shrink).is_none());
    assert!(sel.copy(&white, CopyMode::Expand).is_none());
    assert!(sel.cutout(&white).is_none());
}

#[test]
fn cutout_leaves_the_source_image_untouched() {
    let white = make_color_img(4, 4, white_color());
    let sel = Selection::rect(Rect::new(0, 0, 4, 4));
    let cut = sel.cutout(&white).unwrap();
    assert_eq!(cut.get_pixel(2, 2), transparent_color());
    for y in 0..4 {
        for x in 0..4 {
            assert_eq!(white.get_pixel(x, y), white_color());
        }
    }
}

#[test]
fn brush_stamps_the_brush_color() {
    let mut canvas = canvas_fixture(16, 16, white_color());
    canvas.draw_with_brush(&vec![Vec2::new(8, 8)]);
    let merged = canvas.merged();
    assert_eq!(merged.get_pixel(8, 8), yellow_color());
    assert_eq!(merged.get_pixel(0, 0), white_color());
}

#[test]
fn brush_skips_points_already_stamped() {
    let mut canvas = canvas_fixture(16, 16, white_color());
    canvas.draw_with_brush(&vec![Vec2::new(8, 8), Vec2::new(8, 8)]);
    canvas.draw_with_brush(&vec![Vec2::new(8, 8)]);
    let merged = canvas.merged();
    assert_eq!(merged.get_pixel(8, 8), yellow_color());
}

#[test]
fn brush_edits_merge_keeping_all_points() {
    let a = Edit::DrawBrush(DrawBrush::new(vec![Vec2::new(2, 2)]));
    let b = Edit::DrawBrush(DrawBrush::new(vec![Vec2::new(9, 9)]));
    let merged = a.merge(&b);
    assert!(merged.is_some());

    let mut canvas = canvas_fixture(16, 16, white_color());
    merged.unwrap().apply(&mut canvas);
    let img = canvas.merged();
    assert_eq!(img.get_pixel(2, 2), yellow_color());
    assert_eq!(img.get_pixel(9, 9), yellow_color());
}

#[test]
fn edits_of_different_kinds_do_not_merge() {
    let a = Edit::MoveCanvas(MoveCanvas::new(Vec2::new(1, 1)));
    let b = Edit::MoveSelection(MoveSelection::new(Vec2::new(1, 1)));
    assert!(a.merge(&b).is_none());
    let p = Edit::Paste(Paste::new(make_color_img(2, 2, white_color())));
    assert!(p.merge(&p).is_none());
    assert_eq!(p.description().text().as_str(), "Paste");
    assert_eq!(b.description().text().as_str(), "Move Selection");
    let d = Edit::DrawBrush(DrawBrush::new(vec![]));
    assert_eq!(d.description().text().as_str(), "Draw Brush");
}

#[test]
fn expand_copy_places_pixels_at_the_right_offset() {
    let mut canvas = canvas_fixture(4, 4, white_color());
    let black = make_color_img(2, 2, paintr_core::image_utils::black_color());
    canvas.paste(black);
    let merged = canvas.merged();

    let sel = Selection::rect(Rect::from_origin_size(Vec2::new(-2, -2), 4, 4));
    let img = sel.copy(&merged, CopyMode::Expand).unwrap();
    assert_eq!((img.size_w(), img.size_h()), (4, 4));
    assert_eq!(img.get_pixel(0, 0), transparent_color());
    assert_eq!(img.get_pixel(2, 2), paintr_core::image_utils::black_color());
    assert_eq!(img.get_pixel(3, 3), paintr_core::image_utils::black_color());
}
