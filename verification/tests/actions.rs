use paintr_core::actions::{Edit, MoveCanvas, MoveSelection, Paste};
use paintr_core::canvas::CanvasData;
use paintr_core::geom::{Rect, Vec2};
use paintr_core::image_utils::{black_color, make_color_img, transparent_color, white_color, Rgba};
use paintr_core::selections::Selection;

fn canvas_fixture(w: u32, h: u32, color: Rgba) -> CanvasData {
    CanvasData::new("test-img".to_string(), make_color_img(w, h, color))
}

#[test]
fn paste_should_works() {
    let mut canvas = canvas_fixture(16, 16, black_color());

    let white = make_color_img(4, 4, white_color());
    let action = Edit::Paste(Paste::new(white));
    let old = action.execute(&mut canvas);
    let img = old.merged();
    assert_eq!(img.get_pixel(2, 2), black_color());

    let img = canvas.merged();
    assert_eq!(img.get_pixel(2, 2), white_color());
}

#[test]
fn move_canvas_should_works() {
    let mut canvas = canvas_fixture(16, 16, black_color());

    let action = Edit::MoveCanvas(MoveCanvas::new(Vec2::new(4, 4)));
    let old = action.execute(&mut canvas);
    let img = old.merged();
    assert_eq!(img.get_pixel(2, 2), black_color());

    let img = canvas.merged();
    assert_eq!(img.get_pixel(2, 2), transparent_color());
}

#[test]
fn move_selection_should_works() {
    let mut canvas = canvas_fixture(16, 16, black_color());
    canvas.select(Selection::rect(Rect::from_origin_size(Vec2::new(0, 0), 4, 4)));

    let action = Edit::MoveSelection(MoveSelection::new(Vec2::new(4, 4)));
    let old = action.execute(&mut canvas);
    let img = old.merged();
    assert_eq!(img.get_pixel(2, 2), black_color());

    let img = canvas.merged();
    assert_eq!(img.get_pixel(2, 2), transparent_color());
}

#[test]
fn move_selection_should_works_in_multiple_planes() {
    let mut canvas = canvas_fixture(16, 16, black_color());

    canvas.select(Selection::rect(Rect::from_origin_size(Vec2::new(0, 0), 4, 4)));
    let action = Edit::MoveSelection(MoveSelection::new(Vec2::new(4, 4)));
    action.execute(&mut canvas);
    assert_eq!(canvas.merged().get_pixel(2, 2), transparent_color());

    canvas.select(Selection::rect(Rect::from_origin_size(Vec2::new(0, 0), 8, 8)));
    let action = Edit::MoveSelection(MoveSelection::new(Vec2::new(8, 8)));
    action.execute(&mut canvas);
    assert_eq!(canvas.merged().get_pixel(6, 6), transparent_color());
}
