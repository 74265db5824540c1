use paintr_core::actions::{Edit, MoveCanvas, MoveSelection, Paste};
use paintr_core::canvas::CanvasData;
use paintr_core::edit::{EditKind, UndoHistory};
use paintr_core::geom::{Rect, Vec2};
use paintr_core::image_utils::{black_color, make_color_img, white_color, Rgba};
use paintr_core::selections::Selection;

fn canvas_fixture(w: u32, h: u32, color: Rgba) -> CanvasData {
    CanvasData::new("test-img".to_string(), make_color_img(w, h, color))
}

#[test]
fn two_mergeable_canvas_moves_collapse_to_one_entry() {
    let mut canvas = canvas_fixture(16, 16, white_color());
    let mut history = UndoHistory::new();

    history.edit(&mut canvas, Edit::MoveCanvas(MoveCanvas::new(Vec2::new(3, 0))), EditKind::Mergeable);
    history.edit(&mut canvas, Edit::MoveCanvas(MoveCanvas::new(Vec2::new(1, 4))), EditKind::Mergeable);

    assert_eq!(history.undo_count(), 1);
    assert_eq!(canvas.position(), Vec2::new(4, 4));

    let desc = history.undo(&mut canvas).unwrap();
    assert_eq!(desc.text().as_str(), "Move");
    assert_eq!(canvas.position(), Vec2::new(0, 0));
    assert_eq!(history.undo_count(), 0);
}

#[test]
fn two_mergeable_selection_moves_collapse_to_one_entry() {
    let mut canvas = canvas_fixture(16, 16, white_color());
    canvas.select(Selection::rect(Rect::from_origin_size(Vec2::new(0, 0), 4, 4)));
    let mut history = UndoHistory::new();

    history.edit(
        &mut canvas,
        Edit::MoveSelection(MoveSelection::new(Vec2::new(2, 2))),
        EditKind::Mergeable,
    );
    history.edit(
        &mut canvas,
        Edit::MoveSelection(MoveSelection::new(Vec2::new(3, 3))),
        EditKind::Mergeable,
    );

    assert_eq!(history.undo_count(), 1);
    let sel = canvas.selection().unwrap();
    assert!(sel.contains(Vec2::new(5, 5)));
    assert!(!sel.contains(Vec2::new(4, 4)));
}

#[test]
fn non_mergeable_edits_do_not_merge() {
    let mut canvas = canvas_fixture(16, 16, white_color());
    let mut history = UndoHistory::new();

    history.edit(
        &mut canvas,
        Edit::MoveCanvas(MoveCanvas::new(Vec2::new(3, 0))),
        EditKind::NonMergeable,
    );
    history.edit(&mut canvas, Edit::MoveCanvas(MoveCanvas::new(Vec2::new(1, 4))), EditKind::Mergeable);

    assert_eq!(history.undo_count(), 2);
}

#[test]
fn paste_never_merges() {
    let mut canvas = canvas_fixture(16, 16, white_color());
    let mut history = UndoHistory::new();

    let a = make_color_img(4, 4, black_color());
    let b = make_color_img(4, 4, black_color());
    history.edit(&mut canvas, Edit::Paste(Paste::new(a)), EditKind::Mergeable);
    history.edit(&mut canvas, Edit::Paste(Paste::new(b)), EditKind::Mergeable);

    assert_eq!(history.undo_count(), 2);
}

#[test]
fn undo_redo_round_trip_restores_merged_output() {
    let mut canvas = canvas_fixture(16, 16, white_color());
    let mut history = UndoHistory::new();

    let black = make_color_img(4, 4, black_color());
    history.edit(&mut canvas, Edit::Paste(Paste::new(black)), EditKind::NonMergeable);
    history.edit(
        &mut canvas,
        Edit::MoveCanvas(MoveCanvas::new(Vec2::new(4, 4))),
        EditKind::NonMergeable,
    );

    let after = canvas.merged();

    assert!(history.undo(&mut canvas).is_some());
    assert!(history.undo(&mut canvas).is_some());
    assert!(history.undo(&mut canvas).is_none());

    assert!(history.redo(&mut canvas).is_some());
    assert!(history.redo(&mut canvas).is_some());
    assert!(history.redo(&mut canvas).is_none());

    let again = canvas.merged();
    assert_eq!((again.size_w(), again.size_h()), (after.size_w(), after.size_h()));
    for y in 0..after.size_h() {
        for x in 0..after.size_w() {
            assert_eq!(again.get_pixel(x, y), after.get_pixel(x, y));
        }
    }
    assert_eq!(canvas.position(), Vec2::new(4, 4));
}

#[test]
fn undo_restores_the_state_before_a_selection_was_bound() {
    let mut canvas = canvas_fixture(16, 16, black_color());
    canvas.select(Selection::rect(Rect::from_origin_size(Vec2::new(0, 0), 4, 4)));
    let mut history = UndoHistory::new();

    history.edit(
        &mut canvas,
        Edit::MoveSelection(MoveSelection::new(Vec2::new(4, 4))),
        EditKind::NonMergeable,
    );
    assert_eq!(canvas.merged().get_pixel(2, 2), paintr_core::image_utils::transparent_color());

    assert!(history.undo(&mut canvas).is_some());
    let img = canvas.merged();
    for y in 0..16 {
        for x in 0..16 {
            assert_eq!(img.get_pixel(x, y), black_color());
        }
    }
}

#[test]
fn new_edit_clears_redos() {
    let mut canvas = canvas_fixture(16, 16, white_color());
    let mut history = UndoHistory::new();

    history.edit(
        &mut canvas,
        Edit::MoveCanvas(MoveCanvas::new(Vec2::new(4, 4))),
        EditKind::NonMergeable,
    );
    assert!(history.undo(&mut canvas).is_some());
    assert_eq!(history.redo_count(), 1);

    history.edit(
        &mut canvas,
        Edit::MoveCanvas(MoveCanvas::new(Vec2::new(1, 1))),
        EditKind::NonMergeable,
    );
    assert_eq!(history.redo_count(), 0);
    assert!(history.redo(&mut canvas).is_none());
}

#[test]
fn redone_edit_is_recorded_as_non_mergeable() {
    let mut canvas = canvas_fixture(16, 16, white_color());
    let mut history = UndoHistory::new();

    history.edit(&mut canvas, Edit::MoveCanvas(MoveCanvas::new(Vec2::new(4, 4))), EditKind::Mergeable);
    assert!(history.undo(&mut canvas).is_some());
    let desc = history.redo(&mut canvas).unwrap();
    assert_eq!(desc.text().as_str(), "Move");

    history.edit(&mut canvas, Edit::MoveCanvas(MoveCanvas::new(Vec2::new(1, 1))), EditKind::Mergeable);
    assert_eq!(history.undo_count(), 2);
    assert_eq!(canvas.position(), Vec2::new(5, 5));
}
