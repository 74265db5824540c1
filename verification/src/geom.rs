//! Integer plane geometry: offsets, sizes and axis-aligned rectangles.
//!
//! Offsets and rectangle corners are `i64` coordinates; sizes are `u32`
//! pixel counts. Each type has a ghost model (`Vec2V`, `SizeV`, `RectV`)
//! over unbounded integers, which the contracts of the rest of the crate
//! are stated over.
use vstd::prelude::*;

verus! {

/// Ghost model of an offset or point: a pair of unbounded integers.
pub ghost struct Vec2V {
    pub x: int,
    pub y: int,
}

/// Ghost model of a size in pixels.
pub ghost struct SizeV {
    pub w: int,
    pub h: int,
}

/// Ghost model of a rectangle, by its two corners.
pub ghost struct RectV {
    pub x0: int,
    pub y0: int,
    pub x1: int,
    pub y1: int,
}

pub open spec fn fits_i64(x: int) -> bool {
    i64::MIN <= x <= i64::MAX
}

pub open spec fn v2_fits(v: Vec2V) -> bool {
    fits_i64(v.x) && fits_i64(v.y)
}

pub open spec fn v2_add(a: Vec2V, b: Vec2V) -> Vec2V {
    Vec2V { x: a.x + b.x, y: a.y + b.y }
}

pub open spec fn v2_neg(a: Vec2V) -> Vec2V {
    Vec2V { x: -a.x, y: -a.y }
}

pub open spec fn rect_fits(r: RectV) -> bool {
    fits_i64(r.x0) && fits_i64(r.y0) && fits_i64(r.x1) && fits_i64(r.y1)
}

pub open spec fn rect_width(r: RectV) -> int {
    r.x1 - r.x0
}

pub open spec fn rect_height(r: RectV) -> int {
    r.y1 - r.y0
}

pub open spec fn rect_area(r: RectV) -> int {
    rect_width(r) * rect_height(r)
}

pub open spec fn rect_translate(r: RectV, v: Vec2V) -> RectV {
    RectV { x0: r.x0 + v.x, y0: r.y0 + v.y, x1: r.x1 + v.x, y1: r.y1 + v.y }
}

/// Point-in-rectangle test; the right and bottom edges are exclusive.
pub open spec fn rect_contains(r: RectV, p: Vec2V) -> bool {
    r.x0 <= p.x < r.x1 && r.y0 <= p.y < r.y1
}

/// An offset (or point) on the pixel plane.
#[derive(Clone, Copy, PartialEq, Eq, Structural, Debug)]
pub struct Vec2 {
    pub x: i64,
    pub y: i64,
}

impl View for Vec2 {
    type V = Vec2V;

    open spec fn view(&self) -> Vec2V {
        Vec2V { x: self.x as int, y: self.y as int }
    }
}

impl Vec2 {
    pub fn new(x: i64, y: i64) -> (r: Vec2)
        ensures
            r@ == (Vec2V { x: x as int, y: y as int }),
    {
        Vec2 { x, y }
    }

    pub fn zero() -> (r: Vec2)
        ensures
            r@ == (Vec2V { x: 0, y: 0 }),
    {
        Vec2 { x: 0, y: 0 }
    }

    pub fn add(self, o: Vec2) -> (r: Vec2)
        requires
            v2_fits(v2_add(self@, o@)),
        ensures
            r@ == v2_add(self@, o@),
    {
        Vec2 { x: self.x + o.x, y: self.y + o.y }
    }

    pub fn neg(self) -> (r: Vec2)
        requires
            v2_fits(v2_neg(self@)),
        ensures
            r@ == v2_neg(self@),
    {
        Vec2 { x: -self.x, y: -self.y }
    }

    pub fn is_zero(self) -> (r: bool)
        ensures
            r == (self@ == (Vec2V { x: 0, y: 0 })),
    {
        self.x == 0 && self.y == 0
    }
}

/// A size in whole pixels.
#[derive(Clone, Copy, PartialEq, Eq, Structural, Debug)]
pub struct Size {
    pub width: u32,
    pub height: u32,
}

impl View for Size {
    type V = SizeV;

    open spec fn view(&self) -> SizeV {
        SizeV { w: self.width as int, h: self.height as int }
    }
}

impl Size {
    pub fn new(width: u32, height: u32) -> (r: Size)
        ensures
            r@ == (SizeV { w: width as int, h: height as int }),
    {
        Size { width, height }
    }
}

/// An axis-aligned rectangle, by its two corners.
#[derive(Clone, Copy, PartialEq, Eq, Structural, Debug)]
pub struct Rect {
    pub x0: i64,
    pub y0: i64,
    pub x1: i64,
    pub y1: i64,
}

impl View for Rect {
    type V = RectV;

    open spec fn view(&self) -> RectV {
        RectV { x0: self.x0 as int, y0: self.y0 as int, x1: self.x1 as int, y1: self.y1 as int }
    }
}

impl Rect {
    pub fn new(x0: i64, y0: i64, x1: i64, y1: i64) -> (r: Rect)
        ensures
            r@ == (RectV { x0: x0 as int, y0: y0 as int, x1: x1 as int, y1: y1 as int }),
    {
        Rect { x0, y0, x1, y1 }
    }

    /// The rectangle whose top-left corner is `origin` and whose extent is
    /// `w` by `h`.
    pub fn from_origin_size(origin: Vec2, w: i64, h: i64) -> (r: Rect)
        requires
            fits_i64(origin@.x + w),
            fits_i64(origin@.y + h),
        ensures
            r@ == (RectV {
                x0: origin@.x,
                y0: origin@.y,
                x1: origin@.x + w,
                y1: origin@.y + h,
            }),
    {
        Rect { x0: origin.x, y0: origin.y, x1: origin.x + w, y1: origin.y + h }
    }

    pub fn width(self) -> (r: i64)
        requires
            fits_i64(rect_width(self@)),
        ensures
            r as int == rect_width(self@),
    {
        self.x1 - self.x0
    }

    pub fn height(self) -> (r: i64)
        requires
            fits_i64(rect_height(self@)),
        ensures
            r as int == rect_height(self@),
    {
        self.y1 - self.y0
    }

    pub fn origin(self) -> (r: Vec2)
        ensures
            r@ == (Vec2V { x: self@.x0, y: self@.y0 }),
    {
        Vec2 { x: self.x0, y: self.y0 }
    }

    /// Pure translation by `v`.
    pub fn translate(self, v: Vec2) -> (r: Rect)
        requires
            rect_fits(rect_translate(self@, v@)),
        ensures
            r@ == rect_translate(self@, v@),
    {
        Rect {
            x0: self.x0 + v.x,
            y0: self.y0 + v.y,
            x1: self.x1 + v.x,
            y1: self.y1 + v.y,
        }
    }

    pub fn contains(self, p: Vec2) -> (r: bool)
        ensures
            r == rect_contains(self@, p@),
    {
        self.x0 <= p.x && p.x < self.x1 && self.y0 <= p.y && p.y < self.y1
    }
}

/// A rectangle has zero area exactly when one of its sides has zero
/// length.
pub proof fn lemma_area_zero(r: RectV)
    ensures
        (rect_area(r) == 0) <==> (r.x0 == r.x1 || r.y0 == r.y1),
{
    let w = rect_width(r);
    let h = rect_height(r);
    assert((w * h == 0) <==> (w == 0 || h == 0)) by (nonlinear_arith);
}

/// Translating by `a` and then by `b` is translating by `a + b`: the
/// translation of a region composes additively.
pub proof fn lemma_translate_compose(r: RectV, a: Vec2V, b: Vec2V)
    ensures
        rect_translate(rect_translate(r, a), b) == rect_translate(r, v2_add(a, b)),
{
}

} // verus!
