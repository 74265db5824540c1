//! Owned RGBA8 raster images and pixel-blend compositing of one image onto
//! another at an offset.
//!
//! An [`Img`] is a width x height grid of [`Rgba`] pixels stored row-major.
//! Its ghost model [`ImgV`] carries the dimensions and the pixel sequence;
//! the pixel at `(x, y)` is entry `y * width + x`.
use vstd::pervasive::VecAdditionalExecFns;
use vstd::prelude::*;

verus! {

/// One RGBA8 pixel.
#[derive(Clone, Copy, PartialEq, Eq, Structural, Debug)]
pub struct Rgba {
    pub r: u8,
    pub g: u8,
    pub b: u8,
    pub a: u8,
}

impl Rgba {
    pub fn new(r: u8, g: u8, b: u8, a: u8) -> (c: Rgba)
        ensures
            c == (Rgba { r, g, b, a }),
    {
        Rgba { r, g, b, a }
    }
}

pub open spec fn transparent() -> Rgba {
    Rgba { r: 0, g: 0, b: 0, a: 0 }
}

pub open spec fn black() -> Rgba {
    Rgba { r: 0, g: 0, b: 0, a: 0xff }
}

pub open spec fn white() -> Rgba {
    Rgba { r: 0xff, g: 0xf0, b: 0xff, a: 0xff }
}

pub open spec fn yellow() -> Rgba {
    Rgba { r: 0xff, g: 0xc9, b: 0x22, a: 0xff }
}

pub fn transparent_color() -> (c: Rgba)
    ensures
        c == transparent(),
{
    Rgba { r: 0, g: 0, b: 0, a: 0 }
}

pub fn black_color() -> (c: Rgba)
    ensures
        c == black(),
{
    Rgba { r: 0, g: 0, b: 0, a: 0xff }
}

pub fn white_color() -> (c: Rgba)
    ensures
        c == white(),
{
    Rgba { r: 0xff, g: 0xf0, b: 0xff, a: 0xff }
}

pub fn yellow_color() -> (c: Rgba)
    ensures
        c == yellow(),
{
    Rgba { r: 0xff, g: 0xc9, b: 0x22, a: 0xff }
}

/// What `image`'s alpha-over compositing returns for one pixel: `src`
/// blended onto `dst`. The exact channel arithmetic is the codec
/// library's; the contracts rely on the two documented endpoints (fully
/// transparent and fully opaque `src`) stated on [`blend_rgba`].
pub uninterp spec fn blend_of(dst: Rgba, src: Rgba) -> Rgba;

/// Relies on `image::Pixel::blend` for `image::Rgba<u8>`: alpha-over
/// compositing of `src` onto `dst`. The result depends on the two pixels
/// alone; a fully transparent `src` keeps `dst` and a fully opaque `src`
/// replaces it, as the `Blend` impl in image's color module shows.
#[verifier::external_body]
pub(crate) fn blend_rgba(dst: Rgba, src: Rgba) -> (r: Rgba)
    ensures
        r == blend_of(dst, src),
        src.a == 0 ==> r == dst,
        src.a == 255 ==> r == src,
{
    let mut d = image::Rgba([dst.r, dst.g, dst.b, dst.a]);
    image::Pixel::blend(&mut d, &image::Rgba([src.r, src.g, src.b, src.a]));
    Rgba { r: d.0[0], g: d.0[1], b: d.0[2], a: d.0[3] }
}

/// Ghost model of an image: dimensions and the row-major pixel sequence.
#[verifier::ext_equal]
pub ghost struct ImgV {
    pub width: int,
    pub height: int,
    pub pixels: Seq<Rgba>,
}

pub open spec fn img_wf(v: ImgV) -> bool {
    &&& 0 <= v.width <= u32::MAX
    &&& 0 <= v.height <= u32::MAX
    &&& v.pixels.len() == v.width * v.height
}

/// The pixel of `v` at `(x, y)`.
pub open spec fn pix(v: ImgV, x: int, y: int) -> Rgba {
    v.pixels[y * v.width + x]
}

/// A `w` x `h` image with every pixel set to `c`.
pub open spec fn color_img(w: int, h: int, c: Rgba) -> ImgV {
    ImgV { width: w, height: h, pixels: Seq::new((w * h) as nat, |i: int| c) }
}

/// `src` alpha-blended onto `dst` with its top-left corner at `(tx, ty)`;
/// the parts of `src` that fall outside `dst` are clipped away.
pub open spec fn blend_img(dst: ImgV, src: ImgV, tx: int, ty: int) -> ImgV {
    ImgV {
        width: dst.width,
        height: dst.height,
        pixels: Seq::new(
            dst.pixels.len(),
            |i: int|
                {
                    let x = i % dst.width;
                    let y = i / dst.width;
                    if tx <= x < tx + src.width && ty <= y < ty + src.height {
                        blend_of(dst.pixels[i], pix(src, x - tx, y - ty))
                    } else {
                        dst.pixels[i]
                    }
                },
        ),
    }
}

/// Row-major flat indices: for in-bounds `(x, y)` the flat index
/// `y * w + x` is in range and decomposes back into `x` and `y`.
pub proof fn lemma_flat_index(w: int, h: int, x: int, y: int)
    requires
        0 <= x < w,
        0 <= y < h,
    ensures
        0 <= y * w + x < w * h,
        (y * w + x) % w == x,
        (y * w + x) / w == y,
{
    assert(0 <= y * w + x < w * h) by (nonlinear_arith)
        requires
            0 <= x < w,
            0 <= y < h,
    ;
    vstd::arithmetic::div_mod::lemma_fundamental_div_mod_converse_mod(y * w + x, w, y, x);
    vstd::arithmetic::div_mod::lemma_fundamental_div_mod_converse_div(y * w + x, w, y, x);
}

/// Splitting a flat row-major index `i` of a `w` x `h` grid into its
/// column `i % w` and row `i / w`.
pub proof fn lemma_flat_decompose(w: int, h: int, i: int)
    requires
        0 < w,
        0 <= i < w * h,
    ensures
        0 <= i % w < w,
        0 <= i / w < h,
        i == (i / w) * w + (i % w),
{
    vstd::arithmetic::div_mod::lemma_fundamental_div_mod(i, w);
    vstd::arithmetic::div_mod::lemma_mod_bound(i, w);
    let q = i / w;
    let r = i % w;
    assert(i == w * q + r);
    assert(w * q == q * w) by (nonlinear_arith);
    assert(q < h) by (nonlinear_arith)
        requires
            0 < w,
            i < w * h,
            i == w * q + r,
            0 <= r < w,
            0 <= i,
    ;
    assert(0 <= q) by (nonlinear_arith)
        requires
            0 < w,
            i == w * q + r,
            0 <= r < w,
            0 <= i,
    ;
}

/// An owned RGBA8 image.
#[derive(Debug)]
pub struct Img {
    pub width: u32,
    pub height: u32,
    pub pixels: Vec<Rgba>,
}

impl Clone for Img {
    /// Cloning an image keeps its dimensions and pixels.
    fn clone(&self) -> (r: Img)
        ensures
            r@ == self@,
    {
        let pixels = self.pixels.clone();
        proof {
            assert(pixels@ =~= self.pixels@);
        }
        Img { width: self.width, height: self.height, pixels }
    }
}

impl View for Img {
    type V = ImgV;

    open spec fn view(&self) -> ImgV {
        ImgV { width: self.width as int, height: self.height as int, pixels: self.pixels@ }
    }
}

impl Img {
    pub fn size_w(&self) -> (r: u32)
        ensures
            r as int == self@.width,
    {
        self.width
    }

    pub fn size_h(&self) -> (r: u32)
        ensures
            r as int == self@.height,
    {
        self.height
    }

    pub fn get_pixel(&self, x: u32, y: u32) -> (r: Rgba)
        requires
            img_wf(self@),
            x < self@.width,
            y < self@.height,
        ensures
            r == pix(self@, x as int, y as int),
    {
        // Reading the length makes its usize bound available here.
        let len: usize = self.pixels.len();
        proof {
            lemma_flat_index(self@.width, self@.height, x as int, y as int);
        }
        self.pixels[(y as usize) * (self.width as usize) + (x as usize)]
    }
}

/// A solid-color image of the given size.
pub fn make_color_img(w: u32, h: u32, color: Rgba) -> (r: Img)
    requires
        w * h <= usize::MAX,
    ensures
        r@ == color_img(w as int, h as int, color),
        img_wf(r@),
{
    let total: usize = (w as usize) * (h as usize);
    let mut pixels: Vec<Rgba> = Vec::new();
    let mut i: usize = 0;
    while i < total
        invariant
            i <= total,
            pixels@.len() == i,
            forall|j: int| 0 <= j < i ==> pixels@[j] == color,
        decreases total - i,
    {
        pixels.push(color);
        i += 1;
    }
    let r = Img { width: w, height: h, pixels };
    proof {
        assert(r@.pixels =~= color_img(w as int, h as int, color).pixels);
        assert(r@ =~= color_img(w as int, h as int, color));
    }
    r
}

/// A fully transparent image of the given size.
pub fn transparent_image(w: u32, h: u32) -> (r: Img)
    requires
        w * h <= usize::MAX,
    ensures
        r@ == color_img(w as int, h as int, transparent()),
        img_wf(r@),
{
    make_color_img(w, h, transparent_color())
}

/// Offsets at which planes can sit after any number of moves: sums of two
/// `i64` values always lie in this range.
pub open spec fn off_fits(t: int) -> bool {
    -0x1_0000_0000_0000_0000 <= t <= 0x1_0000_0000_0000_0000
}

/// Alpha-blend `src` onto `dest` with its top-left corner at `(tx, ty)`,
/// clipping the parts of `src` that fall outside `dest`.
pub fn merge_image(dest: &mut Img, src: &Img, tx: i128, ty: i128)
    requires
        img_wf(old(dest)@),
        img_wf(src@),
        off_fits(tx as int),
        off_fits(ty as int),
    ensures
        final(dest)@ == blend_img(old(dest)@, src@, tx as int, ty as int),
        img_wf(final(dest)@),
{
    let ghost target = blend_img(old(dest)@, src@, tx as int, ty as int);
    let len: usize = dest.pixels.len();
    let w: usize = dest.width as usize;
    let mut i: usize = 0;
    while i < len
        invariant
            i <= len,
            len == old(dest)@.pixels.len(),
            w == old(dest)@.width,
            img_wf(old(dest)@),
            img_wf(src@),
            off_fits(tx as int),
            off_fits(ty as int),
            target == blend_img(old(dest)@, src@, tx as int, ty as int),
            dest.width == old(dest).width,
            dest.height == old(dest).height,
            dest.pixels@.len() == len,
            forall|j: int| 0 <= j < i ==> dest.pixels@[j] == target.pixels[j],
            forall|j: int| i <= j < len ==> dest.pixels@[j] == old(dest)@.pixels[j],
        decreases len - i,
    {
        proof {
            let ow = old(dest)@.width;
            let oh = old(dest)@.height;
            assert(w > 0) by (nonlinear_arith)
                requires
                    i < len,
                    len == ow * oh,
                    w == ow,
                    0 <= ow,
            ;
        }
        let x: usize = i % w;
        let y: usize = i / w;
        let sx: i128 = (x as i128) - tx;
        let sy: i128 = (y as i128) - ty;
        if 0 <= sx && sx < src.width as i128 && 0 <= sy && sy < src.height as i128 {
            // Reading the length makes its usize bound available here.
            let src_len: usize = src.pixels.len();
            proof {
                lemma_flat_index(src@.width, src@.height, sx as int, sy as int);
            }
            let si: usize = (sy as usize) * (src.width as usize) + (sx as usize);
            let blended = blend_rgba(dest.pixels[i], src.pixels[si]);
            dest.pixels.set(i, blended);
        }
        i += 1;
    }
    proof {
        assert(dest.pixels@ =~= target.pixels);
        assert(dest@ =~= target);
    }
}

} // verus!
