use paintr_core::actions::{Edit, MoveCanvas};
use paintr_core::canvas::CanvasData;
use paintr_core::edit::EditKind;
use paintr_core::editor::Editor;
use paintr_core::geom::Vec2;
use paintr_core::image_utils::{make_color_img, white_color};

fn editor_fixture() -> Editor {
    let mut editor = Editor::new();
    editor.open(CanvasData::new("test-img".to_string(), make_color_img(16, 16, white_color())));
    editor
}

#[test]
fn editor_without_canvas_applies_nothing() {
    let mut editor = Editor::new();
    let applied = editor.do_edit(
        Edit::MoveCanvas(MoveCanvas::new(Vec2::new(4, 4))),
        EditKind::NonMergeable,
    );
    assert!(!applied);
    assert!(editor.do_undo().is_none());
    assert!(editor.do_redo().is_none());
}

#[test]
fn editor_refuses_undo_and_redo_mid_gesture() {
    let mut editor = editor_fixture();
    let applied = editor.do_edit(
        Edit::MoveCanvas(MoveCanvas::new(Vec2::new(4, 4))),
        EditKind::Mergeable,
    );
    assert!(applied);
    assert!(editor.is_editing());
    assert!(editor.do_undo().is_none());
    assert!(editor.do_redo().is_none());
}

#[test]
fn editor_undo_redo_after_gesture_ends() {
    let mut editor = editor_fixture();
    editor.do_edit(Edit::MoveCanvas(MoveCanvas::new(Vec2::new(4, 4))), EditKind::Mergeable);
    editor.do_edit(Edit::MoveCanvas(MoveCanvas::new(Vec2::new(1, 1))), EditKind::NonMergeable);
    assert!(!editor.is_editing());

    let desc = editor.do_undo().unwrap();
    assert_eq!(desc.text().as_str(), "Move");
    let desc = editor.do_redo().unwrap();
    assert_eq!(desc.text().as_str(), "Move");

    let canvas = editor.canvas().as_ref().unwrap();
    assert_eq!(canvas.position(), Vec2::new(5, 5));
}
