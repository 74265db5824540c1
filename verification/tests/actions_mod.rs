use paintr_core::actions::{Edit, MoveCanvas, Paste};
use paintr_core::canvas::CanvasData;
use paintr_core::geom::Vec2;
use paintr_core::image_utils::{black_color, make_color_img, transparent_color, white_color, Rgba};

fn canvas_fixture(w: u32, h: u32, color: Rgba) -> CanvasData {
    CanvasData::new("test-img".to_string(), make_color_img(w, h, color))
}

#[test]
fn mod_paste_should_works() {
    let mut canvas = canvas_fixture(16, 16, black_color());

    let white = make_color_img(4, 4, white_color());
    let action = Edit::Paste(Paste::new(white));
    let old = action.execute(&mut canvas);
    let img = old.merged();
    assert_eq!(img.get_pixel(2, 2), black_color());

    let img = canvas.merged();
    assert_eq!(img.get_pixel(2, 2), white_color());
}

#[test]
fn mod_move_canvas_should_works() {
    let mut canvas = canvas_fixture(16, 16, black_color());

    let action = Edit::MoveCanvas(MoveCanvas::new(Vec2::new(4, 4)));
    let old = action.execute(&mut canvas);
    let img = old.merged();
    assert_eq!(img.get_pixel(2, 2), black_color());

    let img = canvas.merged();
    assert_eq!(img.get_pixel(2, 2), transparent_color());
}
