//! The editable document: a plane stack, an optional selection in its
//! bound or unbound state, a whole-canvas transform applied at composite
//! time, and the fixed bounding size computed when the document is opened.
use crate::geom::{rect_area, rect_fits, rect_translate, v2_add, v2_fits, v2_neg, Rect, RectV,
    Size, SizeV, Vec2, Vec2V};
use crate::image_utils::{color_img, img_wf, transparent, transparent_image, Img, ImgV};
use crate::plane::{bind_ok, bind_spec, draw_ok, draw_spec, merged_fits, merged_onto_spec,
    merged_spec, planes_wf, pts_view, Plane, PlaneDataV, PlaneIndex, PlaneV, Planes};
use crate::selections::Selection;
use vstd::prelude::*;

verus! {

/// Whether a selection is still a free-floating region (`Unbind`) or has
/// been materialized into its own plane (`Bind`), after which moving the
/// selection means moving that plane.
#[derive(Clone, Copy, PartialEq, Eq, Structural, Debug)]
pub enum SelectionBinder {
    Unbind(Selection),
    Bind(Selection, PlaneIndex),
}

/// Ghost model of the selection binding state.
pub ghost enum BinderV {
    Unbind(RectV),
    Bind(RectV, int),
}

impl View for SelectionBinder {
    type V = BinderV;

    open spec fn view(&self) -> BinderV {
        match self {
            SelectionBinder::Unbind(s) => BinderV::Unbind(s@),
            SelectionBinder::Bind(s, i) => BinderV::Bind(s@, i.0 as int),
        }
    }
}

/// Ghost model of the document.
#[verifier::ext_equal]
pub ghost struct CanvasV {
    pub path: Seq<char>,
    pub selection: Option<BinderV>,
    pub planes: Seq<PlaneDataV>,
    pub transform: Vec2V,
    pub size: SizeV,
}

/// The region of the current selection, whatever its binding state.
pub open spec fn binder_rect(b: BinderV) -> RectV {
    match b {
        BinderV::Unbind(r) => r,
        BinderV::Bind(r, _) => r,
    }
}

/// Document well-formedness: at least one plane exists, every plane's
/// bitmap is well-formed, a stored selection has non-zero area and
/// in-range coordinates, and a bound selection's handle points at a plane.
pub open spec fn canvas_wf(c: CanvasV) -> bool {
    &&& c.planes.len() >= 1
    &&& planes_wf(c.planes)
    &&& v2_fits(c.transform)
    &&& 0 <= c.size.w <= u32::MAX
    &&& 0 <= c.size.h <= u32::MAX
    &&& match c.selection {
        None => true,
        Some(b) => rect_fits(binder_rect(b)) && rect_area(binder_rect(b)) != 0 && (match b {
            BinderV::Unbind(_) => true,
            BinderV::Bind(_, i) => 0 <= i < c.planes.len(),
        }),
    }
}

/// A fresh document over a decoded bitmap: one plane, no selection, no
/// transform, bounding size taken from the bitmap.
pub open spec fn canvas_new_spec(path: Seq<char>, img: ImgV) -> CanvasV {
    CanvasV {
        path,
        selection: None,
        planes: Seq::<PlaneDataV>::empty().push(
            PlaneDataV { plane: PlaneV::Image(img), transform: Vec2V { x: 0, y: 0 } },
        ),
        transform: Vec2V { x: 0, y: 0 },
        size: SizeV { w: img.width, h: img.height },
    }
}

/// Setting the selection: a zero-area region clears it, anything else is
/// stored as a free-floating (unbound) selection.
pub open spec fn select_spec(c: CanvasV, r: RectV) -> CanvasV {
    if rect_area(r) == 0 {
        CanvasV { selection: None, ..c }
    } else {
        CanvasV { selection: Some(BinderV::Unbind(r)), ..c }
    }
}

/// Pasting pushes the bitmap as a new top plane, offset by the negated
/// canvas transform so the content lands at a fixed screen position no
/// matter how far the canvas has been panned.
pub open spec fn paste_spec(c: CanvasV, img: ImgV) -> CanvasV {
    CanvasV {
        planes: c.planes.push(
            PlaneDataV { plane: PlaneV::Image(img), transform: v2_neg(c.transform) },
        ),
        ..c
    }
}

pub open spec fn paste_ok(c: CanvasV, img: ImgV) -> bool {
    img_wf(img) && v2_fits(v2_neg(c.transform))
}

/// Translating a binder's region keeps its binding state.
pub open spec fn binder_translate(b: BinderV, v: Vec2V) -> BinderV {
    match b {
        BinderV::Unbind(r) => BinderV::Unbind(rect_translate(r, v)),
        BinderV::Bind(r, i) => BinderV::Bind(rect_translate(r, v), i),
    }
}

/// Moving the canvas accumulates into the whole-canvas transform and
/// drags the selection outline along, whatever its binding state.
pub open spec fn move_canvas_spec(c: CanvasV, v: Vec2V) -> CanvasV {
    CanvasV {
        transform: v2_add(c.transform, v),
        selection: match c.selection {
            None => None,
            Some(b) => Some(binder_translate(b, v)),
        },
        ..c
    }
}

pub open spec fn move_canvas_ok(c: CanvasV, v: Vec2V) -> bool {
    v2_fits(v2_add(c.transform, v)) && (match c.selection {
        None => true,
        Some(b) => rect_fits(rect_translate(binder_rect(b), v)),
    })
}

/// Moving the selection. An unbound selection is first resolved into
/// canvas-local coordinates and bound into its own plane; then (or when it
/// is already bound) that plane and the selection's region move by the
/// offset. With no selection, nothing happens.
pub open spec fn move_selection_spec(c: CanvasV, v: Vec2V) -> CanvasV {
    match c.selection {
        None => c,
        Some(b) => {
            let sel = binder_rect(b);
            let (planes1, idx) = match b {
                BinderV::Unbind(_) => (
                    bind_spec(c.planes, rect_translate(sel, v2_neg(c.transform))),
                    c.planes.len() as int,
                ),
                BinderV::Bind(_, i) => (c.planes, i),
            };
            let moved = planes1.update(
                idx,
                PlaneDataV {
                    plane: planes1[idx].plane,
                    transform: v2_add(planes1[idx].transform, v),
                },
            );
            CanvasV {
                planes: moved,
                selection: Some(BinderV::Bind(rect_translate(sel, v), idx)),
                ..c
            }
        },
    }
}

pub open spec fn move_selection_ok(c: CanvasV, v: Vec2V) -> bool {
    match c.selection {
        None => true,
        Some(b) => {
            let sel = binder_rect(b);
            rect_fits(rect_translate(sel, v)) && (match b {
                BinderV::Unbind(_) => {
                    let local = rect_translate(sel, v2_neg(c.transform));
                    &&& v2_fits(v2_neg(c.transform))
                    &&& rect_fits(local)
                    &&& bind_ok(c.planes, local)
                    &&& v2_fits(v2_add(Vec2V { x: local.x0, y: local.y0 }, v))
                },
                BinderV::Bind(_, i) => 0 <= i < c.planes.len() && v2_fits(
                    v2_add(c.planes[i].transform, v),
                ),
            })
        },
    }
}

/// Drawing forwards to the plane stack.
pub open spec fn draw_brush_spec(c: CanvasV, pts: Seq<Vec2V>) -> CanvasV {
    CanvasV { planes: draw_spec(c.planes, pts), ..c }
}

/// The merged appearance of the document. With no canvas transform it is
/// the plane merge itself (sized to the planes' bounding box); otherwise
/// the planes are blended, shifted by the transform, onto a transparent
/// buffer of the document's fixed size, so off-canvas content is clipped.
pub open spec fn merged_canvas_spec(c: CanvasV) -> ImgV {
    if c.transform == (Vec2V { x: 0, y: 0 }) {
        merged_spec(c.planes).unwrap()
    } else {
        merged_onto_spec(c.planes, color_img(c.size.w, c.size.h, transparent()), c.transform)
    }
}

pub open spec fn merged_ok(c: CanvasV) -> bool {
    merged_fits(c.planes) && c.size.w * c.size.h <= usize::MAX
}

/// The editable document.
#[derive(Debug)]
pub struct CanvasData {
    pub path: String,
    pub selection: Option<SelectionBinder>,
    pub planes: Planes,
    pub transform: Vec2,
    pub size: Size,
}

impl View for CanvasData {
    type V = CanvasV;

    open spec fn view(&self) -> CanvasV {
        CanvasV {
            path: self.path@,
            selection: match self.selection {
                None => None,
                Some(b) => Some(b@),
            },
            planes: self.planes@,
            transform: self.transform@,
            size: self.size@,
        }
    }
}

impl Clone for CanvasData {
    /// Snapshotting the document for the undo history keeps its whole
    /// state.
    fn clone(&self) -> (r: CanvasData)
        ensures
            r@ == self@,
    {
        let r = CanvasData {
            path: self.path.clone(),
            selection: self.selection,
            planes: self.planes.clone(),
            transform: self.transform,
            size: self.size,
        };
        proof {
            assert(r@ =~= self@);
        }
        r
    }
}

impl CanvasData {
    /// A fresh document over a decoded bitmap, remembering where it came
    /// from; the bitmap becomes the single bottom plane and fixes the
    /// document's bounding size.
    pub fn new(path: String, img: Img) -> (r: CanvasData)
        requires
            img_wf(img@),
        ensures
            r@ == canvas_new_spec(path@, img@),
            canvas_wf(r@),
    {
        let size = Size::new(img.size_w(), img.size_h());
        let mut planes = Planes::new();
        planes.push(Plane::Image(img));
        let r = CanvasData { path, selection: None, planes, transform: Vec2::zero(), size };
        proof {
            assert(r@.planes =~= canvas_new_spec(r.path@, canvas_new_spec(
                r.path@,
                r@.planes[0].plane->Image_0,
            ).planes[0].plane->Image_0).planes);
            assert(r@ =~= canvas_new_spec(r.path@, r@.planes[0].plane->Image_0));
        }
        r
    }

    /// The path the document was loaded from or last saved to.
    pub fn path(&self) -> (r: &String)
        ensures
            r@ == self@.path,
    {
        &self.path
    }

    /// Remember a new path after the merged raster has been written there.
    pub fn set_path(&mut self, path: String)
        ensures
            final(self)@ == (CanvasV { path: path@, ..old(self)@ }),
    {
        self.path = path;
        proof {
            assert(final(self)@ =~= (CanvasV { path: final(self).path@, ..old(self)@ }));
        }
    }

    /// The current selection's region, whatever its binding state.
    pub fn selection(&self) -> (r: Option<Selection>)
        ensures
            match (r, self@.selection) {
                (None, None) => true,
                (Some(s), Some(b)) => s@ == binder_rect(b),
                _ => false,
            },
    {
        match &self.selection {
            None => None,
            Some(SelectionBinder::Unbind(s)) => Some(*s),
            Some(SelectionBinder::Bind(s, _)) => Some(*s),
        }
    }

    /// Set (or clear) the selection; a zero-area region means "no
    /// selection".
    pub fn select(&mut self, sel: Selection)
        ensures
            final(self)@ == select_spec(old(self)@, sel@),
            canvas_wf(old(self)@) ==> canvas_wf(final(self)@),
    {
        proof {
            crate::geom::lemma_area_zero(sel@);
        }
        let empty = match &sel {
            Selection::Rect(rt) => rt.x0 == rt.x1 || rt.y0 == rt.y1,
        };
        if empty {
            self.selection = None;
        } else {
            self.selection = Some(SelectionBinder::Unbind(sel));
        }
        proof {
            assert(final(self)@ =~= select_spec(old(self)@, sel@));
        }
    }

    /// Push a pasted bitmap as the new top plane, compensated for the
    /// canvas transform; pasting always succeeds.
    pub fn paste(&mut self, img: Img)
        requires
            paste_ok(old(self)@, img@),
        ensures
            final(self)@ == paste_spec(old(self)@, img@),
            canvas_wf(old(self)@) ==> canvas_wf(final(self)@),
    {
        let ghost iv = img@;
        let offset = self.transform.neg();
        let idx = self.planes.push(Plane::Image(img));
        self.planes.move_with_index(idx, offset);
        proof {
            assert(final(self)@.planes =~= paste_spec(old(self)@, iv).planes);
            assert(final(self)@ =~= paste_spec(old(self)@, iv));
        }
    }

    /// Accumulate into the whole-canvas transform, dragging the selection
    /// outline along so it visually tracks the canvas.
    pub fn move_canvas(&mut self, offset: Vec2)
        requires
            move_canvas_ok(old(self)@, offset@),
        ensures
            final(self)@ == move_canvas_spec(old(self)@, offset@),
            canvas_wf(old(self)@) ==> canvas_wf(final(self)@),
    {
        self.transform = self.transform.add(offset);
        match self.selection {
            None => {},
            Some(SelectionBinder::Unbind(s)) => {
                self.selection = Some(SelectionBinder::Unbind(s.transform(offset)));
            },
            Some(SelectionBinder::Bind(s, i)) => {
                self.selection = Some(SelectionBinder::Bind(s.transform(offset), i));
            },
        }
        proof {
            assert(final(self)@ =~= move_canvas_spec(old(self)@, offset@));
            if canvas_wf(old(self)@) {
                match old(self)@.selection {
                    None => {},
                    Some(b) => {
                        assert(rect_area(rect_translate(binder_rect(b), offset@)) == rect_area(
                            binder_rect(b),
                        ));
                    },
                }
            }
        }
    }

    /// Move the selection. The first move of an unbound selection binds it
    /// into its own plane (cutting its footprint out of every existing
    /// plane); after that, moving the selection moves that plane. With no
    /// selection this is a no-op.
    pub fn move_selection(&mut self, offset: Vec2)
        requires
            canvas_wf(old(self)@),
            move_selection_ok(old(self)@, offset@),
        ensures
            final(self)@ == move_selection_spec(old(self)@, offset@),
            canvas_wf(final(self)@),
    {
        match self.selection {
            None => {
                proof {
                    assert(final(self)@ =~= move_selection_spec(old(self)@, offset@));
                }
            },
            Some(binder) => {
                let (sel, index) = match binder {
                    SelectionBinder::Unbind(sel) => {
                        let local = sel.transform(self.transform.neg());
                        let idx = self.planes.bind_selection(&local);
                        (sel, idx)
                    },
                    SelectionBinder::Bind(sel, idx) => (sel, idx),
                };
                let moved = sel.transform(offset);
                self.planes.move_with_index(index, offset);
                self.selection = Some(SelectionBinder::Bind(moved, index));
                proof {
                    assert(final(self)@ =~= move_selection_spec(old(self)@, offset@));
                    let b = old(self)@.selection.unwrap();
                    assert(rect_area(rect_translate(binder_rect(b), offset@)) == rect_area(
                        binder_rect(b),
                    ));
                }
            },
        }
    }

    /// Stamp brush points onto the top scratch plane of the stack.
    pub fn draw_with_brush(&mut self, pos: &Vec<Vec2>)
        requires
            draw_ok(old(self)@.planes, pts_view(pos@)),
        ensures
            final(self)@ == draw_brush_spec(old(self)@, pts_view(pos@)),
            canvas_wf(old(self)@) ==> canvas_wf(final(self)@),
    {
        self.planes.draw_with_brush(pos);
        proof {
            assert(final(self)@ =~= draw_brush_spec(old(self)@, pts_view(pos@)));
            if canvas_wf(old(self)@) {
                assert(draw_spec(old(self)@.planes, pts_view(pos@)).len() >= 1);
            }
        }
    }

    /// The merged raster of the document: the plane merge itself when the
    /// canvas transform is zero, otherwise the planes shifted by the
    /// transform and clipped to the document's fixed size.
    pub fn merged(&self) -> (r: Img)
        requires
            canvas_wf(self@),
            merged_ok(self@),
        ensures
            r@ == merged_canvas_spec(self@),
            img_wf(r@),
    {
        if self.transform.is_zero() {
            match self.planes.merged() {
                Some(m) => m,
                None => {
                    proof {
                        assert(false);
                    }
                    vstd::pervasive::unreached()
                },
            }
        } else {
            let base = transparent_image(self.size.width, self.size.height);
            self.planes.merged_to(base, self.transform)
        }
    }

    /// Whether the merged raster's buffers can be allocated on this
    /// machine; unverified callers check this before asking for `merged`.
    pub fn merge_feasible(&self) -> (r: bool)
        ensures
            r == merged_ok(self@),
    {
        let planes_ok = match self.planes.max_size() {
            None => true,
            Some(sz) => (sz.width as usize).checked_mul(sz.height as usize).is_some(),
        };
        planes_ok && (self.size.width as usize).checked_mul(self.size.height as usize).is_some()
    }

    /// The document's fixed bounding size, the extent a renderer lays it
    /// out with.
    pub fn paint_size(&self) -> (r: Option<Size>)
        ensures
            r == Some(self.size),
    {
        Some(self.size)
    }

    /// The canvas-level transform, for display.
    pub fn position(&self) -> (r: Vec2)
        ensures
            r@ == self@.transform,
    {
        self.transform
    }
}

} // verus!
