use paintr_core::canvas::CanvasData;
use paintr_core::geom::Vec2;
use paintr_core::image_utils::{black_color, make_color_img, transparent_color, white_color, Rgba};

fn canvas_fixture(w: u32, h: u32, color: Rgba) -> CanvasData {
    CanvasData::new("test-img".to_string(), make_color_img(w, h, color))
}

#[test]
fn canvas_data_merged_should_works() {
    let mut canvas = canvas_fixture(16, 16, white_color());
    let black = make_color_img(4, 4, black_color());
    canvas.paste(black);
    let merged = canvas.merged();

    assert_eq!(merged.get_pixel(0, 0), black_color());
    assert_eq!(merged.get_pixel(8, 8), white_color());
}

#[test]
fn canvas_data_merged_should_works_with_moved() {
    let mut canvas = canvas_fixture(16, 16, white_color());
    canvas.move_canvas(Vec2::new(4, 4));
    let black = make_color_img(4, 4, black_color());
    canvas.paste(black);
    let merged = canvas.merged();

    assert_eq!(merged.get_pixel(0, 0), black_color());
    assert_eq!(merged.get_pixel(8, 8), white_color());
    assert_eq!(merged.get_pixel(0, 8), transparent_color());
    assert_eq!(merged.get_pixel(8, 0), transparent_color());
}
