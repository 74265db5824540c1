//! The selection subsystem: a geometric region over the canvas, with
//! containment tests, pure translation, and the two pixel-extraction
//! policies (`copy` with shrink-to-intersection or expand-to-declared-size,
//! and the non-destructive `cutout`).
use crate::geom::{fits_i64, lemma_area_zero, rect_area, rect_contains, rect_fits, rect_height,
    rect_translate, rect_width, Rect, RectV, Vec2, Vec2V};
use crate::image_utils::{img_wf, lemma_flat_decompose, lemma_flat_index, pix, transparent, transparent_color, Img, ImgV,
    Rgba};
use crate::text::{dec_str, i64_to_string};
use vstd::string::StringExecFns;
use vstd::pervasive::VecAdditionalExecFns;
use vstd::prelude::*;

verus! {

/// How `copy` sizes its result: `Shrink` returns exactly the part of the
/// selection that lies inside the image; `Expand` always returns an image
/// of the selection's declared size, transparent where the source has no
/// pixels.
#[derive(Clone, Copy, PartialEq, Eq, Structural, Debug)]
pub enum CopyMode {
    Shrink,
    Expand,
}

/// A geometric region describing the active area of a canvas. Currently
/// one shape: an axis-aligned rectangle.
#[derive(Clone, Copy, PartialEq, Eq, Structural, Debug)]
pub enum Selection {
    Rect(Rect),
}

impl View for Selection {
    type V = RectV;

    open spec fn view(&self) -> RectV {
        match self {
            Selection::Rect(rt) => rt@,
        }
    }
}

/// The selection's region clipped to an image of size `w` x `h`, clamped
/// the way druid clamps an empty intersection: the far corner never lies
/// before the near one.
pub open spec fn intersect_spec(r: RectV, w: int, h: int) -> RectV {
    let x0 = if r.x0 > 0 { r.x0 } else { 0 };
    let y0 = if r.y0 > 0 { r.y0 } else { 0 };
    let x1c = if r.x1 < w { r.x1 } else { w };
    let y1c = if r.y1 < h { r.y1 } else { h };
    let x1 = if x1c > x0 { x1c } else { x0 };
    let y1 = if y1c > y0 { y1c } else { y0 };
    RectV { x0, y0, x1, y1 }
}

/// The `it`-shaped part of `img`, as its own image.
pub open spec fn crop_spec(img: ImgV, it: RectV) -> ImgV {
    let w = rect_width(it);
    let h = rect_height(it);
    ImgV {
        width: w,
        height: h,
        pixels: Seq::new((w * h) as nat, |i: int| pix(img, it.x0 + i % w, it.y0 + i / w)),
    }
}

/// An image of the selection's declared size holding the pixels of `img`
/// under the clipped region `it`, at their position relative to the
/// selection's own top-left corner, and transparent elsewhere.
pub open spec fn expand_spec(img: ImgV, r: RectV, it: RectV) -> ImgV {
    let w = rect_width(r);
    let h = rect_height(r);
    ImgV {
        width: w,
        height: h,
        pixels: Seq::new(
            (w * h) as nat,
            |i: int|
                {
                    let gx = r.x0 + i % w;
                    let gy = r.y0 + i / w;
                    if rect_contains(it, Vec2V { x: gx, y: gy }) {
                        pix(img, gx, gy)
                    } else {
                        transparent()
                    }
                },
        ),
    }
}

/// What `copy` returns: `None` when the selection misses the image
/// entirely, otherwise the extracted pixels under the chosen mode.
pub open spec fn copy_spec(r: RectV, img: ImgV, mode: CopyMode) -> Option<ImgV> {
    let it = intersect_spec(r, img.width, img.height);
    if rect_area(it) == 0 {
        None
    } else if mode == CopyMode::Shrink {
        Some(crop_spec(img, it))
    } else {
        Some(expand_spec(img, r, it))
    }
}

/// What `cutout` returns: `None` when the selection misses the image
/// entirely, otherwise a same-sized image with the clipped region made
/// fully transparent. Every pixel is either the source pixel or
/// transparent: a cutout never invents content.
pub open spec fn cutout_spec(r: RectV, img: ImgV) -> Option<ImgV> {
    let it = intersect_spec(r, img.width, img.height);
    if rect_area(it) == 0 {
        None
    } else {
        Some(
            ImgV {
                width: img.width,
                height: img.height,
                pixels: Seq::new(
                    img.pixels.len(),
                    |i: int|
                        {
                            let p = Vec2V { x: i % img.width, y: i / img.width };
                            if rect_contains(it, p) {
                                transparent()
                            } else {
                                img.pixels[i]
                            }
                        },
                ),
            },
        )
    }
}

/// The status-bar text describing a region: origin and extent.
pub open spec fn desc_spec(r: RectV) -> Seq<char> {
    "X: "@ + dec_str(r.x0) + ", Y: "@ + dec_str(r.y0) + ", W: "@ + dec_str(rect_width(r))
        + ", H: "@ + dec_str(rect_height(r))
}

/// The model of an optional image result.
pub open spec fn opt_img_view(r: Option<Img>) -> Option<ImgV> {
    match r {
        Option::Some(img) => Option::Some(img@),
        Option::None => Option::None,
    }
}

/// The clipped region of a selection in an image of size `w` x `h`.
fn intersect(r: Rect, w: u32, h: u32) -> (it: Rect)
    ensures
        it@ == intersect_spec(r@, w as int, h as int),
{
    let x0: i64 = if r.x0 > 0 {
        r.x0
    } else {
        0
    };
    let y0: i64 = if r.y0 > 0 {
        r.y0
    } else {
        0
    };
    let x1c: i64 = if r.x1 < w as i64 {
        r.x1
    } else {
        w as i64
    };
    let y1c: i64 = if r.y1 < h as i64 {
        r.y1
    } else {
        h as i64
    };
    let x1: i64 = if x1c > x0 {
        x1c
    } else {
        x0
    };
    let y1: i64 = if y1c > y0 {
        y1c
    } else {
        y0
    };
    Rect { x0, y0, x1, y1 }
}

/// The clipped region is ordered; when it is non-degenerate it lies inside
/// both the image bounds and the selection's own region.
pub proof fn lemma_intersect_props(r: RectV, w: int, h: int)
    requires
        0 <= w,
        0 <= h,
    ensures
        intersect_spec(r, w, h).x0 <= intersect_spec(r, w, h).x1,
        intersect_spec(r, w, h).y0 <= intersect_spec(r, w, h).y1,
        0 <= intersect_spec(r, w, h).x0,
        0 <= intersect_spec(r, w, h).y0,
        intersect_spec(r, w, h).x0 != intersect_spec(r, w, h).x1 ==> r.x0 <= intersect_spec(
            r,
            w,
            h,
        ).x0 && intersect_spec(r, w, h).x1 <= r.x1 && intersect_spec(r, w, h).x1 <= w,
        intersect_spec(r, w, h).y0 != intersect_spec(r, w, h).y1 ==> r.y0 <= intersect_spec(
            r,
            w,
            h,
        ).y0 && intersect_spec(r, w, h).y1 <= r.y1 && intersect_spec(r, w, h).y1 <= h,
{
}

/// `a * b <= c * d` for `0 <= a <= c` and `0 <= b <= d`.
proof fn lemma_mul_le(a: int, b: int, c: int, d: int)
    requires
        0 <= a <= c,
        0 <= b <= d,
    ensures
        a * b <= c * d,
{
    assert(a * b <= c * d) by (nonlinear_arith)
        requires
            0 <= a <= c,
            0 <= b <= d,
    ;
}

impl Selection {
    /// A rectangular selection.
    pub fn rect(rt: Rect) -> (s: Selection)
        ensures
            s@ == rt@,
    {
        Selection::Rect(rt)
    }

    /// The selection's top-left corner.
    pub fn position(&self) -> (p: Vec2)
        ensures
            p@ == (Vec2V { x: self@.x0, y: self@.y0 }),
    {
        match self {
            Selection::Rect(rt) => rt.origin(),
        }
    }

    /// True when the region is degenerate (zero area); such a selection is
    /// treated as no selection at all.
    pub fn is_empty(&self) -> (r: bool)
        ensures
            r == (rect_area(self@) == 0),
    {
        proof {
            lemma_area_zero(self@);
        }
        match self {
            Selection::Rect(rt) => rt.x0 == rt.x1 || rt.y0 == rt.y1,
        }
    }

    /// The region's signed area.
    pub fn area(&self) -> (r: i128)
        requires
            fits_i64(rect_width(self@)),
            fits_i64(rect_height(self@)),
        ensures
            r as int == rect_area(self@),
    {
        match self {
            Selection::Rect(rt) => {
                let w: i128 = (rt.x1 as i128) - (rt.x0 as i128);
                let h: i128 = (rt.y1 as i128) - (rt.y0 as i128);
                proof {
                    assert(w * h == rect_area(self@) && -0x4000_0000_0000_0000_0000_0000_0000_0000
                        <= w * h <= 0x4000_0000_0000_0000_0000_0000_0000_0000) by (nonlinear_arith)
                        requires
                            w == rect_width(self@),
                            h == rect_height(self@),
                            -0x8000_0000_0000_0000 <= w <= 0x7fff_ffff_ffff_ffff,
                            -0x8000_0000_0000_0000 <= h <= 0x7fff_ffff_ffff_ffff,
                    ;
                }
                w * h
            },
        }
    }

    /// Point-in-region test, used to tell "click inside the selection"
    /// from "start a new selection".
    pub fn contains(&self, pt: Vec2) -> (r: bool)
        ensures
            r == rect_contains(self@, pt@),
    {
        match self {
            Selection::Rect(rt) => rt.contains(pt),
        }
    }

    /// Pure translation: a new region offset by `offset`.
    pub fn transform(&self, offset: Vec2) -> (s: Selection)
        requires
            rect_fits(rect_translate(self@, offset@)),
        ensures
            s@ == rect_translate(self@, offset@),
    {
        match self {
            Selection::Rect(rt) => Selection::Rect(rt.translate(offset)),
        }
    }

    /// The status-bar text for this region: origin and extent, in the
    /// exact wording the status bar shows.
    pub fn description(&self) -> (s: String)
        requires
            fits_i64(rect_width(self@)),
            fits_i64(rect_height(self@)),
        ensures
            s@ == desc_spec(self@),
    {
        let rt = match self {
            Selection::Rect(rt) => *rt,
        };
        let mut s = String::new();
        proof {
            reveal_strlit("X: ");
            reveal_strlit(", Y: ");
            reveal_strlit(", W: ");
            reveal_strlit(", H: ");
        }
        s.append("X: ");
        let x = i64_to_string(rt.x0);
        s.append(x.as_str());
        s.append(", Y: ");
        let y = i64_to_string(rt.y0);
        s.append(y.as_str());
        s.append(", W: ");
        let w = i64_to_string(rt.width());
        s.append(w.as_str());
        s.append(", H: ");
        let h = i64_to_string(rt.height());
        s.append(h.as_str());
        proof {
            assert(s@ =~= desc_spec(self@));
        }
        s
    }

    /// Whether two selections describe the same region.
    pub fn same(&self, other: &Selection) -> (r: bool)
        ensures
            r == (self@ == other@),
    {
        match (self, other) {
            (Selection::Rect(a), Selection::Rect(b)) => {
                a.x0 == b.x0 && a.y0 == b.y0 && a.x1 == b.x1 && a.y1 == b.y1
            },
        }
    }

    /// Extract the pixels under the region, clipped to the image bounds;
    /// `None` when the clipped region is empty.
    pub fn copy(&self, img: &Img, mode: CopyMode) -> (r: Option<Img>)
        requires
            img_wf(img@),
            mode == CopyMode::Expand ==> rect_width(self@) <= u32::MAX && rect_height(self@)
                <= u32::MAX && rect_width(self@) * rect_height(self@) <= usize::MAX,
        ensures
            opt_img_view(r) == copy_spec(self@, img@, mode),
            r is Some ==> img_wf(r.unwrap()@),
    {
        let rt = match self {
            Selection::Rect(rt) => *rt,
        };
        let it = intersect(rt, img.width, img.height);
        proof {
            lemma_intersect_props(rt@, img@.width, img@.height);
            lemma_area_zero(it@);
        }
        if it.x0 == it.x1 || it.y0 == it.y1 {
            return None;
        }
        match mode {
            CopyMode::Shrink => Some(crop_image(img, it)),
            CopyMode::Expand => Some(expand_image(img, rt, it)),
        }
    }

    /// A new image, the same size as `img`, with the region's pixels
    /// replaced by fully-transparent ones; the passed-in image itself is
    /// untouched. `None` when the clipped region is empty.
    pub fn cutout(&self, img: &Img) -> (r: Option<Img>)
        requires
            img_wf(img@),
        ensures
            opt_img_view(r) == cutout_spec(self@, img@),
            r is Some ==> img_wf(r.unwrap()@),
    {
        let rt = match self {
            Selection::Rect(rt) => *rt,
        };
        let it = intersect(rt, img.width, img.height);
        proof {
            lemma_intersect_props(rt@, img@.width, img@.height);
            lemma_area_zero(it@);
        }
        if it.x0 == it.x1 || it.y0 == it.y1 {
            return None;
        }
        let ghost target = cutout_spec(self@, img@).unwrap();
        let len: usize = img.pixels.len();
        let w: usize = img.width as usize;
        let mut pixels: Vec<Rgba> = Vec::new();
        let mut i: usize = 0;
        while i < len
        invariant
            i <= len,
            len == img@.pixels.len(),
            w == img@.width,
            img_wf(img@),
            target == cutout_spec(rt@, img@).unwrap(),
            rect_area(intersect_spec(rt@, img@.width, img@.height)) != 0,
            it@ == intersect_spec(rt@, img@.width, img@.height),
            self@ == rt@,
            pixels@.len() == i,
            forall|j: int| 0 <= j < i ==> pixels@[j] == target.pixels[j],
        decreases len - i,
        {
            proof {
                let iw = img@.width;
                let ih = img@.height;
                assert(w > 0) by (nonlinear_arith)
                    requires
                        i < len,
                        len == iw * ih,
                        w == iw,
                        0 <= iw,
                ;
                lemma_flat_decompose(img@.width, img@.height, i as int);
            }
            let x: usize = i % w;
            let y: usize = i / w;
            if (x as i64) >= it.x0 && (x as i64) < it.x1 && (y as i64) >= it.y0 && (y as i64)
                < it.y1 {
                pixels.push(transparent_color());
            } else {
                pixels.push(img.pixels[i]);
            }
            i += 1;
        }
        let out = Img { width: img.width, height: img.height, pixels };
        proof {
            assert(out@.pixels =~= target.pixels);
            assert(out@ =~= target);
        }
        Some(out)
    }
}

/// The clipped region `it` of `img`, as its own image. `it` must be a
/// non-empty region lying inside the image bounds.
fn crop_image(img: &Img, it: Rect) -> (out: Img)
    requires
        img_wf(img@),
        0 <= it@.x0 < it@.x1 <= img@.width,
        0 <= it@.y0 < it@.y1 <= img@.height,
    ensures
        out@ == crop_spec(img@, it@),
        img_wf(out@),
{
    let ghost target = crop_spec(img@, it@);
    let ow: usize = (it.x1 - it.x0) as usize;
    let oh: usize = (it.y1 - it.y0) as usize;
    proof {
        lemma_mul_le(ow as int, oh as int, img@.width, img@.height);
    }
    // Reading the length makes its usize bound available to the loop below.
    let src_len: usize = img.pixels.len();
    let total: usize = ow * oh;
    let mut pixels: Vec<Rgba> = Vec::new();
    let mut i: usize = 0;
    while i < total
        invariant
            i <= total,
            total == ow * oh,
            ow == rect_width(it@),
            oh == rect_height(it@),
            0 < ow,
            0 < oh,
            img_wf(img@),
            img@.pixels.len() <= usize::MAX,
            ow <= u32::MAX,
            oh <= u32::MAX,
            0 <= it@.x0 < it@.x1 <= img@.width,
            0 <= it@.y0 < it@.y1 <= img@.height,
            target == crop_spec(img@, it@),
            pixels@.len() == i,
            forall|j: int| 0 <= j < i ==> pixels@[j] == target.pixels[j],
        decreases total - i,
    {
        proof {
            lemma_flat_decompose(ow as int, oh as int, i as int);
        }
        let x: usize = i % ow;
        let y: usize = i / ow;
        proof {
            lemma_flat_index(img@.width, img@.height, it@.x0 + x, it@.y0 + y);
        }
        let sx: usize = (it.x0 as usize) + x;
        let sy: usize = (it.y0 as usize) + y;
        let si: usize = sy * (img.width as usize) + sx;
        pixels.push(img.pixels[si]);
        i += 1;
    }
    let out = Img { width: ow as u32, height: oh as u32, pixels };
    proof {
        assert(out@.pixels =~= target.pixels);
        assert(out@ =~= target);
    }
    out
}

/// An image of the full declared size of `r`, holding `img`'s pixels under
/// the clipped region `it` and transparent elsewhere.
fn expand_image(img: &Img, r: Rect, it: Rect) -> (out: Img)
    requires
        img_wf(img@),
        rect_width(r@) <= u32::MAX,
        rect_height(r@) <= u32::MAX,
        rect_width(r@) * rect_height(r@) <= usize::MAX,
        it@ == intersect_spec(r@, img@.width, img@.height),
        it@.x0 != it@.x1,
        it@.y0 != it@.y1,
    ensures
        out@ == expand_spec(img@, r@, it@),
        img_wf(out@),
{
    let ghost target = expand_spec(img@, r@, it@);
    proof {
        lemma_intersect_props(r@, img@.width, img@.height);
        assert(r@.x0 <= it@.x0 && it@.x1 <= r@.x1 && r@.y0 <= it@.y0 && it@.y1 <= r@.y1);
        assert(it@.x0 < it@.x1 && it@.y0 < it@.y1);
    }
    let ow: usize = (r.x1 - r.x0) as usize;
    let oh: usize = (r.y1 - r.y0) as usize;
    let total: usize = ow * oh;
    // Reading the length makes its usize bound available to the loop below.
    let src_len: usize = img.pixels.len();
    let mut pixels: Vec<Rgba> = Vec::new();
    let mut i: usize = 0;
    while i < total
        invariant
            i <= total,
            total == ow * oh,
            ow == rect_width(r@),
            oh == rect_height(r@),
            0 < ow,
            0 < oh,
            img_wf(img@),
            img@.pixels.len() <= usize::MAX,
            ow <= u32::MAX,
            oh <= u32::MAX,
            0 <= it@.x0 < it@.x1 <= img@.width,
            0 <= it@.y0 < it@.y1 <= img@.height,
            r@.x0 <= it@.x0 && it@.x1 <= r@.x1 && r@.y0 <= it@.y0 && it@.y1 <= r@.y1,
            target == expand_spec(img@, r@, it@),
            pixels@.len() == i,
            forall|j: int| 0 <= j < i ==> pixels@[j] == target.pixels[j],
        decreases total - i,
    {
        proof {
            lemma_flat_decompose(ow as int, oh as int, i as int);
        }
        let x: usize = i % ow;
        let y: usize = i / ow;
        let gx: i64 = r.x0 + (x as i64);
        let gy: i64 = r.y0 + (y as i64);
        if gx >= it.x0 && gx < it.x1 && gy >= it.y0 && gy < it.y1 {
            proof {
                lemma_flat_index(img@.width, img@.height, gx as int, gy as int);
            }
            let si: usize = (gy as usize) * (img.width as usize) + (gx as usize);
            pixels.push(img.pixels[si]);
        } else {
            pixels.push(transparent_color());
        }
        i += 1;
    }
    let out = Img { width: ow as u32, height: oh as u32, pixels };
    proof {
        assert(out@.pixels =~= target.pixels);
        assert(out@ =~= target);
    }
    out
}

} // verus!
