//! The command objects a UI action constructs: paste a bitmap, move the
//! whole canvas, move the selection, draw brush points. Each knows how to
//! apply itself to a document, describe itself for UI feedback, and
//! (except `Paste`) merge with an adjacent edit of its own kind so that a
//! continuous drag collapses into one undo step.
use crate::canvas::{canvas_wf, draw_brush_spec, move_canvas_ok, move_canvas_spec,
    move_selection_ok, move_selection_spec, paste_ok, paste_spec, CanvasData, CanvasV};
use crate::geom::{fits_i64, v2_add, Vec2, Vec2V};
use crate::image_utils::{Img, ImgV};
use crate::plane::{draw_ok, pts_view};
use vstd::prelude::*;

verus! {

/// A human-readable description of an edit, for status display.
#[derive(Debug)]
pub struct EditDesc {
    text: String,
}

impl View for EditDesc {
    type V = Seq<char>;

    closed spec fn view(&self) -> Seq<char> {
        self.text@
    }
}

impl EditDesc {
    pub fn new(s: String) -> (r: EditDesc)
        ensures
            r@ == s@,
    {
        EditDesc { text: s }
    }

    /// The description's text.
    pub fn text(&self) -> (r: &String)
        ensures
            r@ == self@,
    {
        &self.text
    }
}

/// Paste a bitmap onto the canvas.
#[derive(Debug)]
pub struct Paste {
    img: Img,
}

impl View for Paste {
    type V = ImgV;

    closed spec fn view(&self) -> ImgV {
        self.img@
    }
}

impl Paste {
    pub fn new(img: Img) -> (r: Paste)
        ensures
            r@ == img@,
    {
        Paste { img }
    }
}

/// Move the whole canvas.
#[derive(Clone, Copy, PartialEq, Eq, Structural, Debug)]
pub struct MoveCanvas {
    offset: Vec2,
}

impl View for MoveCanvas {
    type V = Vec2V;

    closed spec fn view(&self) -> Vec2V {
        self.offset@
    }
}

impl MoveCanvas {
    pub fn new(offset: Vec2) -> (r: MoveCanvas)
        ensures
            r@ == offset@,
    {
        MoveCanvas { offset }
    }
}

/// Move the selection.
#[derive(Clone, Copy, PartialEq, Eq, Structural, Debug)]
pub struct MoveSelection {
    offset: Vec2,
}

impl View for MoveSelection {
    type V = Vec2V;

    closed spec fn view(&self) -> Vec2V {
        self.offset@
    }
}

impl MoveSelection {
    pub fn new(offset: Vec2) -> (r: MoveSelection)
        ensures
            r@ == offset@,
    {
        MoveSelection { offset }
    }
}

/// Draw brush points on the canvas.
#[derive(Debug)]
pub struct DrawBrush {
    pos: Vec<Vec2>,
}

impl View for DrawBrush {
    type V = Seq<Vec2V>;

    closed spec fn view(&self) -> Seq<Vec2V> {
        pts_view(self.pos@)
    }
}

impl DrawBrush {
    pub fn new(pos: Vec<Vec2>) -> (r: DrawBrush)
        ensures
            r@ == pts_view(pos@),
    {
        DrawBrush { pos }
    }
}

/// An edit action over the document: the closed set of command kinds.
#[derive(Debug)]
pub enum Edit {
    Paste(Paste),
    MoveCanvas(MoveCanvas),
    MoveSelection(MoveSelection),
    DrawBrush(DrawBrush),
}

/// Ghost model of an edit.
#[verifier::ext_equal]
pub ghost enum EditV {
    Paste(ImgV),
    MoveCanvas(Vec2V),
    MoveSelection(Vec2V),
    DrawBrush(Seq<Vec2V>),
}

impl View for Edit {
    type V = EditV;

    open spec fn view(&self) -> EditV {
        match self {
            Edit::Paste(p) => EditV::Paste(p@),
            Edit::MoveCanvas(m) => EditV::MoveCanvas(m@),
            Edit::MoveSelection(m) => EditV::MoveSelection(m@),
            Edit::DrawBrush(d) => EditV::DrawBrush(d@),
        }
    }
}

/// What applying an edit does to the document.
#[verifier::opaque]
pub open spec fn apply_spec(c: CanvasV, e: EditV) -> CanvasV {
    match e {
        EditV::Paste(img) => paste_spec(c, img),
        EditV::MoveCanvas(v) => move_canvas_spec(c, v),
        EditV::MoveSelection(v) => move_selection_spec(c, v),
        EditV::DrawBrush(pts) => draw_brush_spec(c, pts),
    }
}

/// When applying an edit is defined: the document is well-formed and the
/// edit's own precondition holds.
pub open spec fn apply_ok(c: CanvasV, e: EditV) -> bool {
    canvas_wf(c) && (match e {
        EditV::Paste(img) => paste_ok(c, img),
        EditV::MoveCanvas(v) => move_canvas_ok(c, v),
        EditV::MoveSelection(v) => move_selection_ok(c, v),
        EditV::DrawBrush(pts) => draw_ok(c.planes, pts),
    })
}

/// An edit's description text.
pub open spec fn desc_of(e: EditV) -> Seq<char> {
    match e {
        EditV::Paste(_) => "Paste"@,
        EditV::MoveCanvas(_) => "Move"@,
        EditV::MoveSelection(_) => "Move Selection"@,
        EditV::DrawBrush(_) => "Draw Brush"@,
    }
}

/// What merging an adjacent pair of edits gives: two canvas moves or two
/// selection moves combine into one move by the summed offset (when the
/// sum is representable), two brush strokes combine into one carrying the
/// newer points followed by the older ones; nothing else merges, and a
/// paste never merges.
pub open spec fn merge_spec(prev: EditV, next: EditV) -> Option<EditV> {
    match (prev, next) {
        (EditV::MoveCanvas(a), EditV::MoveCanvas(b)) => if fits_i64(a.x + b.x) && fits_i64(
            a.y + b.y,
        ) {
            Some(EditV::MoveCanvas(v2_add(a, b)))
        } else {
            None
        },
        (EditV::MoveSelection(a), EditV::MoveSelection(b)) => if fits_i64(a.x + b.x) && fits_i64(
            a.y + b.y,
        ) {
            Some(EditV::MoveSelection(v2_add(a, b)))
        } else {
            None
        },
        (EditV::DrawBrush(a), EditV::DrawBrush(b)) => Some(EditV::DrawBrush(b + a)),
        _ => None,
    }
}

impl Edit {
    /// Apply this edit to the document in place.
    pub fn apply(&self, data: &mut CanvasData)
        requires
            apply_ok(old(data)@, self@),
        ensures
            final(data)@ == apply_spec(old(data)@, self@),
            canvas_wf(final(data)@),
    {
        proof {
            reveal(apply_spec);
        }
        match self {
            Edit::Paste(p) => data.paste(p.img.clone()),
            Edit::MoveCanvas(m) => data.move_canvas(m.offset),
            Edit::MoveSelection(m) => data.move_selection(m.offset),
            Edit::DrawBrush(d) => data.draw_with_brush(&d.pos),
        }
    }

    /// Snapshot the document, apply this edit, and hand back the pre-edit
    /// snapshot.
    pub fn execute(&self, data: &mut CanvasData) -> (prev: CanvasData)
        requires
            apply_ok(old(data)@, self@),
        ensures
            prev@ == old(data)@,
            final(data)@ == apply_spec(old(data)@, self@),
            canvas_wf(final(data)@),
    {
        let prev = data.clone();
        self.apply(data);
        prev
    }

    /// Describe this edit for UI feedback.
    pub fn description(&self) -> (r: EditDesc)
        ensures
            r@ == desc_of(self@),
    {
        match self {
            Edit::Paste(_) => EditDesc::new("Paste".to_owned()),
            Edit::MoveCanvas(_) => EditDesc::new("Move".to_owned()),
            Edit::MoveSelection(_) => EditDesc::new("Move Selection".to_owned()),
            Edit::DrawBrush(_) => EditDesc::new("Draw Brush".to_owned()),
        }
    }

    /// Try to merge `next` into this edit; only two edits of the same
    /// kind merge, and the result stands for doing this edit and then
    /// `next`.
    pub fn merge(&self, next: &Edit) -> (r: Option<Edit>)
        ensures
            match (r, merge_spec(self@, next@)) {
                (None, None) => true,
                (Some(m), Some(mv)) => m@ == mv,
                _ => false,
            },
    {
        match (self, next) {
            (Edit::MoveCanvas(a), Edit::MoveCanvas(b)) => {
                match (a.offset.x.checked_add(b.offset.x), a.offset.y.checked_add(b.offset.y)) {
                    (Some(x), Some(y)) => Some(Edit::MoveCanvas(MoveCanvas::new(Vec2::new(x, y)))),
                    _ => None,
                }
            },
            (Edit::MoveSelection(a), Edit::MoveSelection(b)) => {
                match (a.offset.x.checked_add(b.offset.x), a.offset.y.checked_add(b.offset.y)) {
                    (Some(x), Some(y)) => Some(
                        Edit::MoveSelection(MoveSelection::new(Vec2::new(x, y))),
                    ),
                    _ => None,
                }
            },
            (Edit::DrawBrush(a), Edit::DrawBrush(b)) => {
                let mut pos: Vec<Vec2> = Vec::new();
                let mut i: usize = 0;
                let bn = b.pos.len();
                proof {
                    assert(pos@ =~= b.pos@.subrange(0, 0));
                }
                while i < bn
                    invariant
                        i <= bn,
                        bn == b.pos@.len(),
                        pos@ == b.pos@.subrange(0, i as int),
                    decreases bn - i,
                {
                    pos.push(b.pos[i]);
                    proof {
                        assert(pos@ =~= b.pos@.subrange(0, i + 1 as int));
                    }
                    i += 1;
                }
                let an = a.pos.len();
                let mut j: usize = 0;
                proof {
                    assert(b.pos@.subrange(0, bn as int) =~= b.pos@);
                    assert(pos@ =~= b.pos@ + a.pos@.subrange(0, 0));
                }
                while j < an
                    invariant
                        j <= an,
                        an == a.pos@.len(),
                        pos@ == b.pos@ + a.pos@.subrange(0, j as int),
                    decreases an - j,
                {
                    pos.push(a.pos[j]);
                    proof {
                        assert(pos@ =~= b.pos@ + a.pos@.subrange(0, j + 1 as int));
                    }
                    j += 1;
                }
                proof {
                    assert(b.pos@.subrange(0, bn as int) =~= b.pos@);
                    assert(a.pos@.subrange(0, an as int) =~= a.pos@);
                    assert(pts_view(b.pos@ + a.pos@) =~= pts_view(b.pos@) + pts_view(a.pos@));
                }
                Some(Edit::DrawBrush(DrawBrush::new(pos)))
            },
            _ => None,
        }
    }
}

} // verus!
