//! The plane stack: an ordered list of image layers, each with its own
//! translation offset, composited bottom-to-top into one raster on demand.
//! Also holds the scratch "draw" plane that accumulates brush strokes, and
//! the operation that lifts a floating selection into its own plane.
use crate::geom::{rect_fits, rect_translate, v2_fits, v2_neg, RectV, Size, SizeV, Vec2, Vec2V};
use crate::image_utils::{blend_img, color_img, img_wf, merge_image, transparent,
    transparent_image, yellow, yellow_color, Img, ImgV, Rgba};
use crate::selections::{copy_spec, cutout_spec, opt_img_view, CopyMode, Selection};
use vstd::prelude::*;

verus! {

/// The radius, in pixels, of the circle stamped for each brush point.
pub const BRUSH_RADIUS: i32 = 5;

/// What `imageproc`'s filled-circle rasterizer leaves in a `w` x `h`
/// pixel grid after stamping a circle of the given radius and color
/// centered at `(cx, cy)`: a function of these arguments alone. Nothing
/// more is assumed of it than that it keeps the grid's size.
pub uninterp spec fn stamp_of(
    px: Seq<Rgba>,
    w: int,
    h: int,
    cx: int,
    cy: int,
    radius: int,
    color: Rgba,
) -> Seq<Rgba>;

/// Relies on `imageproc::drawing::draw_filled_circle_mut`: stamps a filled
/// circle into a copy of the image, clipped to its bounds, and leaves the
/// image's size unchanged (it draws in place into a same-sized buffer).
#[verifier::external_body]
fn stamp_circle(img: &Img, cx: i64, cy: i64, radius: i32, color: Rgba) -> (out: Img)
    requires
        img_wf(img@),
        -0x4000_0000 <= cx <= 0x4000_0000,
        -0x4000_0000 <= cy <= 0x4000_0000,
        0 <= radius <= 1024,
    ensures
        out@.width == img@.width,
        out@.height == img@.height,
        out@.pixels == stamp_of(
            img@.pixels,
            img@.width,
            img@.height,
            cx as int,
            cy as int,
            radius as int,
            color,
        ),
        out@.pixels.len() == img@.pixels.len(),
{
    let raw: Vec<u8> = img.pixels.iter().flat_map(|p| [p.r, p.g, p.b, p.a]).collect();
    let mut buf = image::RgbaImage::from_raw(img.width, img.height, raw)
        .expect("pixel count matches the dimensions");
    let c = image::Rgba([color.r, color.g, color.b, color.a]);
    imageproc::drawing::draw_filled_circle_mut(&mut buf, (cx as i32, cy as i32), radius, c);
    let pixels = buf
        .into_raw()
        .chunks_exact(4)
        .map(|c| Rgba { r: c[0], g: c[1], b: c[2], a: c[3] })
        .collect();
    Img { width: img.width, height: img.height, pixels }
}

/// Ghost model of the scratch draw plane: its bitmap and the brush points
/// already stamped into it.
#[verifier::ext_equal]
pub ghost struct DrawPlaneV {
    pub img: ImgV,
    pub brush: Seq<Vec2V>,
}

/// Ghost model of one plane.
#[verifier::ext_equal]
pub ghost enum PlaneV {
    Image(ImgV),
    Draw(DrawPlaneV),
}

/// Ghost model of a plane with its offset.
#[verifier::ext_equal]
pub ghost struct PlaneDataV {
    pub plane: PlaneV,
    pub transform: Vec2V,
}

/// The bitmap a plane shows.
pub open spec fn plane_img_v(p: PlaneV) -> ImgV {
    match p {
        PlaneV::Image(img) => img,
        PlaneV::Draw(d) => d.img,
    }
}

/// A mutable scratch bitmap accumulating brush strokes.
#[derive(Debug)]
pub struct DrawPlane {
    pub img: Img,
    pub brush: Vec<Vec2>,
}

impl View for DrawPlane {
    type V = DrawPlaneV;

    open spec fn view(&self) -> DrawPlaneV {
        DrawPlaneV { img: self.img@, brush: self.brush@.map_values(|p: Vec2| p@) }
    }
}

impl Clone for DrawPlane {
    /// Cloning keeps the bitmap and the brush points.
    fn clone(&self) -> (r: DrawPlane)
        ensures
            r@ == self@,
    {
        let img = self.img.clone();
        let brush = self.brush.clone();
        proof {
            assert(brush@ =~= self.brush@);
        }
        DrawPlane { img, brush }
    }
}

impl DrawPlane {
    /// A fully transparent scratch plane with no strokes yet.
    pub fn new(w: u32, h: u32) -> (r: DrawPlane)
        requires
            w * h <= usize::MAX,
        ensures
            r@ == (DrawPlaneV {
                img: color_img(w as int, h as int, transparent()),
                brush: Seq::<Vec2V>::empty(),
            }),
    {
        let r = DrawPlane { img: transparent_image(w, h), brush: Vec::new() };
        proof {
            assert(r@.brush =~= Seq::<Vec2V>::empty());
        }
        r
    }
}

/// One layer of raster content: a committed bitmap, or the live scratch
/// plane that brush strokes are drawn into.
#[derive(Debug)]
pub enum Plane {
    Image(Img),
    Draw(DrawPlane),
}

impl View for Plane {
    type V = PlaneV;

    open spec fn view(&self) -> PlaneV {
        match self {
            Plane::Image(img) => PlaneV::Image(img@),
            Plane::Draw(d) => PlaneV::Draw(d@),
        }
    }
}

impl Clone for Plane {
    /// Cloning keeps the plane's kind and content.
    fn clone(&self) -> (r: Plane)
        ensures
            r@ == self@,
    {
        match self {
            Plane::Image(img) => Plane::Image(img.clone()),
            Plane::Draw(d) => Plane::Draw(d.clone()),
        }
    }
}

impl Plane {
    /// The bitmap this plane shows.
    pub fn img_ref(&self) -> (r: &Img)
        ensures
            r@ == plane_img_v(self@),
    {
        match self {
            Plane::Image(img) => img,
            Plane::Draw(d) => &d.img,
        }
    }
}

/// A stable handle to one plane in the stack; planes are never removed,
/// only appended and replaced in place, so positions are stable.
#[derive(Clone, Copy, PartialEq, Eq, Structural, Debug)]
pub struct PlaneIndex(pub usize);

/// One plane together with its own translation offset.
#[derive(Debug)]
pub struct PlaneData {
    pub plane: Plane,
    pub transform: Vec2,
}

impl View for PlaneData {
    type V = PlaneDataV;

    open spec fn view(&self) -> PlaneDataV {
        PlaneDataV { plane: self.plane@, transform: self.transform@ }
    }
}

impl Clone for PlaneData {
    /// Cloning keeps the plane and its offset.
    fn clone(&self) -> (r: PlaneData)
        ensures
            r@ == self@,
    {
        PlaneData { plane: self.plane.clone(), transform: self.transform }
    }
}

/// The ordered plane stack, bottom first; the last plane is topmost.
#[derive(Debug)]
pub struct Planes {
    pub planes: Vec<PlaneData>,
}

impl View for Planes {
    type V = Seq<PlaneDataV>;

    open spec fn view(&self) -> Seq<PlaneDataV> {
        self.planes@.map_values(|pd: PlaneData| pd@)
    }
}

impl Clone for Planes {
    /// Cloning keeps every plane and offset.
    fn clone(&self) -> (r: Planes)
        ensures
            r@ == self@,
    {
        let planes = self.planes.clone();
        proof {
            assert(planes@.map_values(|pd: PlaneData| pd@) =~= self.planes@.map_values(
                |pd: PlaneData| pd@,
            ));
        }
        Planes { planes }
    }
}

/// Every plane's bitmap is well-formed.
pub open spec fn planes_wf(s: Seq<PlaneDataV>) -> bool {
    forall|i: int| 0 <= i < s.len() ==> img_wf(plane_img_v(#[trigger] s[i].plane))
}

/// The bounding size of all planes' extents; `None` for an empty stack.
pub open spec fn max_size_spec(s: Seq<PlaneDataV>) -> Option<SizeV>
    decreases s.len(),
{
    if s.len() == 0 {
        None
    } else {
        let img = plane_img_v(s.last().plane);
        let sz = SizeV { w: img.width, h: img.height };
        match max_size_spec(s.drop_last()) {
            None => Some(sz),
            Some(acc) => Some(
                SizeV {
                    w: if acc.w > sz.w {
                        acc.w
                    } else {
                        sz.w
                    },
                    h: if acc.h > sz.h {
                        acc.h
                    } else {
                        sz.h
                    },
                },
            ),
        }
    }
}

/// The model of an optional size result.
pub open spec fn opt_size_view(r: Option<Size>) -> Option<SizeV> {
    match r {
        Option::Some(sz) => Option::Some(sz@),
        Option::None => Option::None,
    }
}

/// All planes blended bottom-to-top onto `base`, every offset additionally
/// shifted by `extra`.
pub open spec fn merged_onto_spec(s: Seq<PlaneDataV>, base: ImgV, extra: Vec2V) -> ImgV
    decreases s.len(),
{
    if s.len() == 0 {
        base
    } else {
        let p = s.last();
        blend_img(
            merged_onto_spec(s.drop_last(), base, extra),
            plane_img_v(p.plane),
            p.transform.x + extra.x,
            p.transform.y + extra.y,
        )
    }
}

/// The merged appearance of the stack: all planes blended onto a
/// transparent buffer of the bounding size. `None` for an empty stack.
pub open spec fn merged_spec(s: Seq<PlaneDataV>) -> Option<ImgV> {
    match max_size_spec(s) {
        None => None,
        Some(sz) => Some(
            merged_onto_spec(s, color_img(sz.w, sz.h, transparent()), Vec2V { x: 0, y: 0 }),
        ),
    }
}

/// The merged buffer of the bounding size can be allocated.
pub open spec fn merged_fits(s: Seq<PlaneDataV>) -> bool {
    match max_size_spec(s) {
        None => true,
        Some(sz) => sz.w * sz.h <= usize::MAX,
    }
}

/// One plane after the selection's footprint has been cut out of it: the
/// covered pixels are replaced by transparency (and the plane becomes a
/// committed bitmap); a plane the selection misses is left as it is.
pub open spec fn bind_cut_plane(p: PlaneDataV, sel: RectV) -> PlaneDataV {
    let target = rect_translate(sel, v2_neg(p.transform));
    match cutout_spec(target, plane_img_v(p.plane)) {
        Some(c) => PlaneDataV { plane: PlaneV::Image(c), transform: p.transform },
        None => p,
    }
}

/// The stack after a selection is bound into its own plane: the selection's
/// appearance is copied out of the merged stack at its declared size, every
/// existing plane has the selection's footprint cut out, and the copy is
/// pushed on top at the selection's own position.
pub open spec fn bind_spec(s: Seq<PlaneDataV>, sel: RectV) -> Seq<PlaneDataV> {
    let merged = merged_spec(s).unwrap();
    let cut = copy_spec(sel, merged, CopyMode::Expand).unwrap();
    s.map_values(|p: PlaneDataV| bind_cut_plane(p, sel)).push(
        PlaneDataV {
            plane: PlaneV::Image(cut),
            transform: Vec2V { x: sel.x0, y: sel.y0 },
        },
    )
}

/// When binding a selection is defined: at least one plane exists, the
/// merged buffer can be built, the selection actually covers part of it
/// (anything else is a programmer error upstream), its declared size is
/// representable, and the footprint's coordinates stay in range for every
/// plane.
pub open spec fn bind_ok(s: Seq<PlaneDataV>, sel: RectV) -> bool {
    &&& s.len() > 0
    &&& planes_wf(s)
    &&& merged_fits(s)
    &&& rect_fits(sel)
    &&& rect_width(sel) <= u32::MAX
    &&& rect_height(sel) <= u32::MAX
    &&& rect_width(sel) * rect_height(sel) <= usize::MAX
    &&& copy_spec(sel, merged_spec(s).unwrap(), CopyMode::Expand) is Some
    &&& forall|i: int|
        0 <= i < s.len() ==> v2_fits(v2_neg(#[trigger] s[i].transform)) && rect_fits(
            rect_translate(sel, v2_neg(s[i].transform)),
        )
}

pub open spec fn rect_width(r: RectV) -> int {
    crate::geom::rect_width(r)
}

pub open spec fn rect_height(r: RectV) -> int {
    crate::geom::rect_height(r)
}

/// The model of a point list.
pub open spec fn pts_view(pts: Seq<Vec2>) -> Seq<Vec2V> {
    pts.map_values(|p: Vec2| p@)
}

/// The scratch plane after the given points are stamped in order: each
/// point not already stamped gets a filled circle of the brush radius in
/// the brush color and is recorded; points already stamped are skipped.
pub open spec fn stamp_points(d: DrawPlaneV, pts: Seq<Vec2V>) -> DrawPlaneV
    decreases pts.len(),
{
    if pts.len() == 0 {
        d
    } else {
        let prev = stamp_points(d, pts.drop_last());
        let p = pts.last();
        if prev.brush.contains(p) {
            prev
        } else {
            DrawPlaneV {
                img: ImgV {
                    width: prev.img.width,
                    height: prev.img.height,
                    pixels: stamp_of(
                        prev.img.pixels,
                        prev.img.width,
                        prev.img.height,
                        p.x,
                        p.y,
                        BRUSH_RADIUS as int,
                        yellow(),
                    ),
                },
                brush: prev.brush.push(p),
            }
        }
    }
}

/// The stack after brush points are drawn: nothing happens on an empty
/// stack; otherwise a fresh transparent scratch plane of the bounding size
/// is appended first if the top plane is a committed bitmap, and the
/// points are then stamped into the top scratch plane.
pub open spec fn draw_spec(s: Seq<PlaneDataV>, pts: Seq<Vec2V>) -> Seq<PlaneDataV> {
    if s.len() == 0 {
        s
    } else {
        let sz = max_size_spec(s).unwrap();
        let s1 = if s.last().plane is Image {
            s.push(
                PlaneDataV {
                    plane: PlaneV::Draw(
                        DrawPlaneV {
                            img: color_img(sz.w, sz.h, transparent()),
                            brush: Seq::<Vec2V>::empty(),
                        },
                    ),
                    transform: Vec2V { x: 0, y: 0 },
                },
            )
        } else {
            s
        };
        let li = s1.len() - 1;
        let d0 = s1[li].plane->Draw_0;
        s1.update(
            li,
            PlaneDataV { plane: PlaneV::Draw(stamp_points(d0, pts)), transform: s1[li].transform },
        )
    }
}

/// When drawing is defined: the scratch plane of the bounding size can be
/// allocated and every point is in range for the rasterizer.
pub open spec fn draw_ok(s: Seq<PlaneDataV>, pts: Seq<Vec2V>) -> bool {
    s.len() > 0 ==> {
        &&& planes_wf(s)
        &&& merged_fits(s)
        &&& forall|i: int|
            0 <= i < pts.len() ==> -0x4000_0000 <= (#[trigger] pts[i]).x <= 0x4000_0000
                && -0x4000_0000 <= pts[i].y <= 0x4000_0000
    }
}

impl Planes {
    /// An empty stack.
    pub fn new() -> (r: Planes)
        ensures
            r@ == Seq::<PlaneDataV>::empty(),
    {
        let r = Planes { planes: Vec::new() };
        proof {
            assert(r@ =~= Seq::<PlaneDataV>::empty());
        }
        r
    }

    pub fn len(&self) -> (n: usize)
        ensures
            n == self@.len(),
    {
        self.planes.len()
    }

    /// Append a plane at zero offset; the returned handle stays valid for
    /// the stack's whole life.
    pub fn push(&mut self, plane: Plane) -> (idx: PlaneIndex)
        ensures
            final(self)@ == old(self)@.push(
                PlaneDataV { plane: plane@, transform: Vec2V { x: 0, y: 0 } },
            ),
            idx.0 == old(self)@.len(),
    {
        let idx = self.planes.len();
        let ghost pv = plane@;
        self.planes.push(PlaneData { plane, transform: Vec2::zero() });
        proof {
            assert(self@ =~= old(self)@.push(
                PlaneDataV { plane: pv, transform: Vec2V { x: 0, y: 0 } },
            ));
        }
        PlaneIndex(idx)
    }

    /// The bounding size of all planes' extents; `None` when the stack is
    /// empty.
    pub fn max_size(&self) -> (r: Option<Size>)
        ensures
            opt_size_view(r) == max_size_spec(self@),
    {
        let n = self.planes.len();
        let mut cur: Option<Size> = None;
        let mut i: usize = 0;
        while i < n
            invariant
                i <= n,
                n == self@.len(),
                opt_size_view(cur) == max_size_spec(self@.subrange(0, i as int)),
            decreases n - i,
        {
            let pd = &self.planes[i];
            let img = pd.plane.img_ref();
            let (w, h) = (img.size_w(), img.size_h());
            let next: Size = match cur {
                None => Size::new(w, h),
                Some(acc) => Size::new(
                    if acc.width > w {
                        acc.width
                    } else {
                        w
                    },
                    if acc.height > h {
                        acc.height
                    } else {
                        h
                    },
                ),
            };
            cur = Some(next);
            proof {
                assert(self@.subrange(0, i + 1 as int).drop_last() =~= self@.subrange(
                    0,
                    i as int,
                ));
                assert(self@.subrange(0, i + 1 as int).last() == self@[i as int]);
            }
            i += 1;
        }
        proof {
            assert(self@.subrange(0, n as int) =~= self@);
        }
        cur
    }

    /// Composite all planes bottom-to-top, alpha-blending each onto a
    /// transparent buffer of the bounding size; `None` when the stack is
    /// empty.
    pub fn merged(&self) -> (r: Option<Img>)
        requires
            planes_wf(self@),
            merged_fits(self@),
        ensures
            opt_img_view(r) == merged_spec(self@),
            r is Some ==> img_wf(r.unwrap()@),
    {
        let sz = match self.max_size() {
            None => {
                return None;
            },
            Some(sz) => sz,
        };
        let img = transparent_image(sz.width, sz.height);
        Some(self.merged_to(img, Vec2::zero()))
    }

    /// Composite all planes onto a caller-supplied base, every plane's
    /// offset additionally shifted by `extra`.
    pub fn merged_to(&self, img: Img, extra: Vec2) -> (r: Img)
        requires
            planes_wf(self@),
            img_wf(img@),
        ensures
            r@ == merged_onto_spec(self@, img@, extra@),
            img_wf(r@),
    {
        let ghost base = img@;
        let mut img = img;
        let n = self.planes.len();
        let mut i: usize = 0;
        while i < n
            invariant
                i <= n,
                n == self@.len(),
                planes_wf(self@),
                img_wf(base),
                img_wf(img@),
                img@ == merged_onto_spec(self@.subrange(0, i as int), base, extra@),
            decreases n - i,
        {
            proof {
                assert(self@[i as int] == self.planes@[i as int]@);
            }
            let pd = &self.planes[i];
            let src = pd.plane.img_ref();
            merge_image(
                &mut img,
                src,
                (pd.transform.x as i128) + (extra.x as i128),
                (pd.transform.y as i128) + (extra.y as i128),
            );
            proof {
                assert(self@.subrange(0, i + 1 as int).drop_last() =~= self@.subrange(
                    0,
                    i as int,
                ));
                assert(self@.subrange(0, i + 1 as int).last() == self@[i as int]);
            }
            i += 1;
        }
        proof {
            assert(self@.subrange(0, n as int) =~= self@);
        }
        img
    }

    /// Accumulate `offset` into one plane's own offset; paint order is
    /// unchanged.
    pub fn move_with_index(&mut self, idx: PlaneIndex, offset: Vec2)
        requires
            idx.0 < old(self)@.len(),
            v2_fits(crate::geom::v2_add(old(self)@[idx.0 as int].transform, offset@)),
        ensures
            final(self)@ == old(self)@.update(
                idx.0 as int,
                PlaneDataV {
                    plane: old(self)@[idx.0 as int].plane,
                    transform: crate::geom::v2_add(old(self)@[idx.0 as int].transform, offset@),
                },
            ),
    {
        let pd = &mut self.planes[idx.0];
        pd.transform = pd.transform.add(offset);
        proof {
            assert(final(self)@ =~= old(self)@.update(
                idx.0 as int,
                PlaneDataV {
                    plane: old(self)@[idx.0 as int].plane,
                    transform: crate::geom::v2_add(old(self)@[idx.0 as int].transform, offset@),
                },
            ));
        }
    }

    /// Lift a floating selection into its own movable plane: copy its
    /// appearance out of the merged stack at its declared size, cut its
    /// footprint out of every existing plane, and push the copy on top at
    /// the selection's own position. Callers must guarantee at least one
    /// plane exists and that the selection covers part of the merged
    /// stack; anything else is a programmer error upstream, not a
    /// recoverable condition.
    pub fn bind_selection(&mut self, sel: &Selection) -> (idx: PlaneIndex)
        requires
            bind_ok(old(self)@, sel@),
        ensures
            final(self)@ == bind_spec(old(self)@, sel@),
            idx.0 == old(self)@.len(),
            planes_wf(final(self)@),
    {
        let merged = match self.merged() {
            Some(m) => m,
            None => {
                proof {
                    assert(false);
                }
                vstd::pervasive::unreached()
            },
        };
        let cut = match sel.copy(&merged, CopyMode::Expand) {
            Some(c) => c,
            None => {
                proof {
                    assert(false);
                }
                vstd::pervasive::unreached()
            },
        };
        let n = self.planes.len();
        let mut i: usize = 0;
        while i < n
            invariant
                i <= n,
                n == old(self)@.len(),
                self@.len() == n,
                bind_ok(old(self)@, sel@),
                forall|j: int| 0 <= j < i ==> self@[j] == bind_cut_plane(old(self)@[j], sel@),
                forall|j: int| i <= j < n ==> self@[j] == old(self)@[j],
                forall|j: int| 0 <= j < n ==> img_wf(plane_img_v(#[trigger] self@[j].plane)),
            decreases n - i,
        {
            let ghost pre = self@;
            let ghost prep = self.planes@;
            proof {
                assert(self@[i as int] == self.planes@[i as int]@);
                assert(self@[i as int] == old(self)@[i as int]);
                assert(v2_fits(v2_neg(old(self)@[i as int].transform)) && rect_fits(
                    rect_translate(sel@, v2_neg(old(self)@[i as int].transform)),
                ));
            }
            let target = {
                let pd = &self.planes[i];
                sel.transform(pd.transform.neg())
            };
            let cut_plane = {
                let pd = &self.planes[i];
                target.cutout(pd.plane.img_ref())
            };
            if let Some(c) = cut_plane {
                let pd = &mut self.planes[i];
                pd.plane = Plane::Image(c);
            }
            proof {
                assert(self@[i as int] == self.planes@[i as int]@);
                assert(self@[i as int] == bind_cut_plane(old(self)@[i as int], sel@));
                assert forall|j: int| 0 <= j <= i implies self@[j] == bind_cut_plane(
                    old(self)@[j],
                    sel@,
                ) by {
                    assert(self@[j] == self.planes@[j]@);
                    if j < i {
                        assert(self.planes@[j] == prep[j]);
                        assert(pre[j] == prep[j]@);
                    }
                }
                assert forall|j: int| i + 1 <= j < n implies self@[j] == old(self)@[j] by {
                    assert(self@[j] == self.planes@[j]@);
                    assert(self.planes@[j] == prep[j]);
                    assert(pre[j] == prep[j]@);
                }
            }
            i += 1;
        }
        let pos = sel.position();
        let idx = self.planes.len();
        let ghost endv = self@;
        let ghost endp = self.planes@;
        let ghost newpd = PlaneDataV {
            plane: PlaneV::Image(cut@),
            transform: Vec2V { x: sel@.x0, y: sel@.y0 },
        };
        self.planes.push(PlaneData { plane: Plane::Image(cut), transform: pos });
        proof {
            let result = bind_spec(old(self)@, sel@);
            assert(result == old(self)@.map_values(|p: PlaneDataV| bind_cut_plane(p, sel@)).push(
                newpd,
            ));
            assert(final(self)@.len() == result.len());
            assert forall|k: int| 0 <= k < result.len() implies final(self)@[k] == result[k] by {
                assert(final(self)@[k] == self.planes@[k]@);
                if k < n {
                    assert(self.planes@[k] == endp[k]);
                    assert(endv[k] == endp[k]@);
                    assert(result[k] == old(self)@.map_values(
                        |p: PlaneDataV| bind_cut_plane(p, sel@),
                    )[k]);
                    assert(result[k] == bind_cut_plane(old(self)@[k], sel@));
                } else {
                    assert(result[k] == newpd);
                }
            }
            assert(final(self)@ =~= result);
        }
        PlaneIndex(idx)
    }

    /// Stamp brush points onto the top scratch plane, creating that plane
    /// lazily when the current top plane is a committed bitmap; points
    /// already stamped are skipped, so re-drawing the same point is
    /// idempotent. Nothing happens on an empty stack.
    pub fn draw_with_brush(&mut self, pos: &Vec<Vec2>)
        requires
            draw_ok(old(self)@, pts_view(pos@)),
        ensures
            final(self)@ == draw_spec(old(self)@, pts_view(pos@)),
            planes_wf(old(self)@) ==> planes_wf(final(self)@),
    {
        let n = self.planes.len();
        if n == 0 {
            proof {
                assert(final(self)@ =~= draw_spec(old(self)@, pts_view(pos@)));
            }
            return ;
        }
        let sz = match self.max_size() {
            Some(sz) => sz,
            None => {
                proof {
                    assert(false);
                }
                vstd::pervasive::unreached()
            },
        };
        proof {
            assert(self@[n - 1 as int] == self.planes@[n - 1 as int]@);
        }
        let is_image = {
            let pd = &self.planes[n - 1];
            match &pd.plane {
                Plane::Image(_) => true,
                Plane::Draw(_) => false,
            }
        };
        if is_image {
            self.push(Plane::Draw(DrawPlane::new(sz.width, sz.height)));
        }
        let ghost s1 = self@;
        let nn = self.planes.len();
        proof {
            assert(nn == s1.len());
            assert(nn >= 1);
            assert(s1[nn - 1 as int] == self.planes@[nn - 1 as int]@);
            assert(s1[nn - 1 as int].plane is Draw);
        }
        let li = nn - 1;
        let ghost d0 = s1[li as int].plane->Draw_0;
        let ghost t_li = s1[li as int].transform;
        proof {
            assert(img_wf(d0.img)) by {
                if is_image {
                } else {
                    assert(s1[li as int] == old(self)@[li as int]);
                    assert(img_wf(plane_img_v(old(self)@[li as int].plane)));
                }
            }
            assert(self@ =~= s1.update(
                li as int,
                PlaneDataV {
                    plane: PlaneV::Draw(stamp_points(d0, pts_view(pos@).subrange(0, 0))),
                    transform: t_li,
                },
            ));
        }
        let m = pos.len();
        let mut j: usize = 0;
        while j < m
            invariant
                j <= m,
                m == pos@.len(),
                li == s1.len() - 1,
                self@.len() == s1.len(),
                s1[li as int].plane is Draw,
                d0 == s1[li as int].plane->Draw_0,
                t_li == s1[li as int].transform,
                img_wf(d0.img),
                forall|k: int|
                    0 <= k < pos@.len() ==> -0x4000_0000 <= (#[trigger] pts_view(pos@)[k]).x
                        <= 0x4000_0000 && -0x4000_0000 <= pts_view(pos@)[k].y <= 0x4000_0000,
                img_wf(stamp_points(d0, pts_view(pos@).subrange(0, j as int)).img),
                self@ == s1.update(
                    li as int,
                    PlaneDataV {
                        plane: PlaneV::Draw(
                            stamp_points(d0, pts_view(pos@).subrange(0, j as int)),
                        ),
                        transform: t_li,
                    },
                ),
            decreases m - j,
        {
            let ghost prev = stamp_points(d0, pts_view(pos@).subrange(0, j as int));
            let ghost pre = self@;
            let ghost prep = self.planes@;
            let p = pos[j];
            proof {
                assert(self@[li as int] == self.planes@[li as int]@);
                assert(self@[li as int].plane == PlaneV::Draw(prev));
            }
            let dup = {
                let pd = &self.planes[li];
                match &pd.plane {
                    Plane::Draw(d) => contains_point(&d.brush, p),
                    Plane::Image(_) => {
                        proof {
                            assert(false);
                        }
                        false
                    },
                }
            };
            proof {
                assert(pts_view(pos@)[j as int] == p@);
                assert(dup == prev.brush.contains(p@));
            }
            if !dup {
                proof {
                    assert(prev.img == self.planes@[li as int]@.plane->Draw_0.img);
                }
                let pd = &mut self.planes[li];
                match &mut pd.plane {
                    Plane::Draw(d) => {
                        let stamped = stamp_circle(&d.img, p.x, p.y, BRUSH_RADIUS, yellow_color());
                        d.img = stamped;
                        d.brush.push(p);
                    },
                    Plane::Image(_) => {},
                }
            }
            proof {
                assert(pts_view(pos@).subrange(0, j + 1 as int).drop_last() =~= pts_view(
                    pos@,
                ).subrange(0, j as int));
                assert(pts_view(pos@).subrange(0, j + 1 as int).last() == p@);
                let cur = stamp_points(d0, pts_view(pos@).subrange(0, j + 1 as int));
                assert(self@[li as int] == self.planes@[li as int]@);
                if !dup {
                    assert(cur.img.pixels == stamp_of(
                        prev.img.pixels,
                        prev.img.width,
                        prev.img.height,
                        p@.x,
                        p@.y,
                        BRUSH_RADIUS as int,
                        yellow(),
                    ));
                    let exec_d = self.planes@[li as int]@.plane->Draw_0;
                    assert(exec_d.brush =~= prev.brush.push(p@));
                    assert(exec_d.img =~= cur.img);
                    assert(exec_d =~= cur);
                } else {
                    assert(cur == prev);
                }
                let target2 = s1.update(
                    li as int,
                    PlaneDataV { plane: PlaneV::Draw(cur), transform: t_li },
                );
                assert forall|k: int| 0 <= k < s1.len() implies self@[k] == target2[k] by {
                    assert(self@[k] == self.planes@[k]@);
                    if k != li as int {
                        assert(self.planes@[k] == prep[k]);
                        assert(pre[k] == prep[k]@);
                    }
                }
                assert(self@.len() == target2.len());
                assert(self@ =~= target2);
            }
            j += 1;
        }
        proof {
            assert(pts_view(pos@).subrange(0, m as int) =~= pts_view(pos@));
            assert(final(self)@ =~= draw_spec(old(self)@, pts_view(pos@)));
        }
    }
}

/// Whether `p` already occurs in the brush list.
fn contains_point(brush: &Vec<Vec2>, p: Vec2) -> (r: bool)
    ensures
        r == brush@.map_values(|q: Vec2| q@).contains(p@),
{
    let n = brush.len();
    let mut i: usize = 0;
    while i < n
        invariant
            i <= n,
            n == brush@.len(),
            forall|k: int| 0 <= k < i ==> (#[trigger] brush@[k])@ != p@,
        decreases n - i,
    {
        if brush[i].x == p.x && brush[i].y == p.y {
            proof {
                assert(brush@.map_values(|q: Vec2| q@)[i as int] == p@);
            }
            return true;
        }
        i += 1;
    }
    proof {
        let mapped = brush@.map_values(|q: Vec2| q@);
        assert forall|k: int| 0 <= k < n implies #[trigger] mapped[k] != p@ by {
            assert(mapped[k] == brush@[k]@);
        }
        assert(!mapped.contains(p@));
    }
    false
}

} // verus!
