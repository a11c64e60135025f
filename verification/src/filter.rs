//! Per-pixel transforms: the implicit format conversions and the
//! intensity filters (grayscale, brightness, contrast).
//!
//! Brightness and contrast take their factor in thousandths, so that a
//! factor of exactly one (1000) is an identity on the color channels.
use crate::pixel::{chan_of, lemma_cell_before, lemma_grid_index, Image, Pixel, PixelFormat};
use vstd::arithmetic::div_mod::lemma_div_multiples_vanish_fancy;
use vstd::prelude::*;

verus! {

/// Rec. 709 luma of the three color channels. The coefficients sum to
/// the divisor, so a gray value maps to itself.
pub open spec fn luma_chan(r: u8, g: u8, b: u8) -> u8 {
    ((2126 * r + 7152 * g + 722 * b) / 10000) as u8
}

/// Grayscale conversion of one pixel: all color channels become the
/// luma; alpha is untouched.
pub open spec fn gray_pix(p: Pixel) -> Pixel {
    let l = luma_chan(p.r, p.g, p.b);
    Pixel { r: l, g: l, b: l, a: p.a }
}

/// One color channel scaled by `factor_milli / 1000`, clamped to 255.
pub open spec fn bright_chan(c: u8, factor_milli: u32) -> u8 {
    let v = (c * factor_milli) / 1000;
    if v > 255 {
        255
    } else {
        v as u8
    }
}

/// Brightness scaling of one pixel: color channels scaled, alpha
/// untouched.
pub open spec fn bright_pix(p: Pixel, factor_milli: u32) -> Pixel {
    Pixel {
        r: bright_chan(p.r, factor_milli),
        g: bright_chan(p.g, factor_milli),
        b: bright_chan(p.b, factor_milli),
        a: p.a,
    }
}

/// One color channel stretched around the midpoint 128 by
/// `factor_milli / 1000` and clamped to `0 ..= 255`: the exact integer
/// value of `clamp((c - 128) * factor + 128, 0, 255)` rounded toward
/// minus infinity.
pub open spec fn contrast_chan(c: u8, factor_milli: u32) -> u8 {
    if c >= 128 {
        let v = 128 + ((c - 128) * factor_milli) / 1000;
        if v > 255 {
            255
        } else {
            v as u8
        }
    } else {
        let t = ((128 - c) * factor_milli + 999) / 1000;
        if t >= 128 {
            0
        } else {
            (128 - t) as u8
        }
    }
}

/// Contrast stretching of one pixel: color channels stretched, alpha
/// untouched.
pub open spec fn contrast_pix(p: Pixel, factor_milli: u32) -> Pixel {
    Pixel {
        r: contrast_chan(p.r, factor_milli),
        g: contrast_chan(p.g, factor_milli),
        b: contrast_chan(p.b, factor_milli),
        a: p.a,
    }
}

/// The per-pixel maps this module implements with one shared loop.
#[derive(Clone, Copy)]
enum PixelOp {
    ToRgba8,
    ToRgb8,
    Grayscale,
    Brightness(u32),
    Contrast(u32),
}

impl PixelOp {
    /// The format of the transform's output, given the input format.
    spec fn out_format(self, f: PixelFormat) -> PixelFormat {
        match self {
            PixelOp::ToRgb8 => PixelFormat::Rgb8,
            PixelOp::Grayscale => f,
            _ => PixelFormat::Rgba8,
        }
    }

    /// What the transform does to one pixel value.
    spec fn apply(self, p: Pixel) -> Pixel {
        match self {
            PixelOp::ToRgba8 => p,
            PixelOp::ToRgb8 => p,
            PixelOp::Grayscale => gray_pix(p),
            PixelOp::Brightness(f) => bright_pix(p, f),
            PixelOp::Contrast(f) => contrast_pix(p, f),
        }
    }

    fn out_format_exec(self, f: PixelFormat) -> (r: PixelFormat)
        ensures
            r == self.out_format(f),
    {
        match self {
            PixelOp::ToRgb8 => PixelFormat::Rgb8,
            PixelOp::Grayscale => f,
            _ => PixelFormat::Rgba8,
        }
    }

    fn apply_exec(self, p: Pixel) -> (r: Pixel)
        ensures
            r == self.apply(p),
    {
        match self {
            PixelOp::ToRgba8 => p,
            PixelOp::ToRgb8 => p,
            PixelOp::Grayscale => {
                let l = ((2126 * (p.r as u32) + 7152 * (p.g as u32) + 722 * (p.b as u32)) / 10000)
                    as u8;
                Pixel { r: l, g: l, b: l, a: p.a }
            },
            PixelOp::Brightness(f) => Pixel {
                r: bright_chan_exec(p.r, f),
                g: bright_chan_exec(p.g, f),
                b: bright_chan_exec(p.b, f),
                a: p.a,
            },
            PixelOp::Contrast(f) => Pixel {
                r: contrast_chan_exec(p.r, f),
                g: contrast_chan_exec(p.g, f),
                b: contrast_chan_exec(p.b, f),
                a: p.a,
            },
        }
    }
}

fn bright_chan_exec(c: u8, factor_milli: u32) -> (r: u8)
    ensures
        r == bright_chan(c, factor_milli),
{
    proof {
        assert((c as int) * (factor_milli as int) <= 255 * (u32::MAX as int)) by (nonlinear_arith)
            requires
                c <= 255,
                factor_milli <= u32::MAX,
        ;
    }
    let v = (c as u64) * (factor_milli as u64) / 1000;
    if v > 255 {
        255
    } else {
        v as u8
    }
}

fn contrast_chan_exec(c: u8, factor_milli: u32) -> (r: u8)
    ensures
        r == contrast_chan(c, factor_milli),
{
    proof {
        assert(255 * (factor_milli as int) <= 255 * (u32::MAX as int)) by (nonlinear_arith)
            requires
                factor_milli <= u32::MAX,
        ;
        assert((c as int) * (factor_milli as int) <= 255 * (factor_milli as int))
            by (nonlinear_arith)
            requires
                c <= 255,
        ;
        assert((128 - c as int) * (factor_milli as int) <= 255 * (factor_milli as int))
            by (nonlinear_arith)
            requires
                c <= 255,
                0 <= factor_milli,
        ;
        assert((c as int - 128) * (factor_milli as int) <= 255 * (factor_milli as int))
            by (nonlinear_arith)
            requires
                c <= 255,
                0 <= factor_milli,
        ;
    }
    if c >= 128 {
        let d = ((c - 128) as u64) * (factor_milli as u64) / 1000;
        if d > 127 {
            255
        } else {
            128 + (d as u8)
        }
    } else {
        let t = (((128 - c) as u64) * (factor_milli as u64) + 999) / 1000;
        if t >= 128 {
            0
        } else {
            128 - (t as u8)
        }
    }
}

/// One shared producer loop: build a new image of the same dimensions
/// whose every pixel is `op` applied to the source pixel, stored in the
/// transform's output format.
fn map_pixels(img: &Image, op: PixelOp) -> (r: Image)
    requires
        img.wf(),
        img.width * img.height * op.out_format(img.format).spec_bpp() <= usize::MAX,
    ensures
        r.wf(),
        r.width == img.width,
        r.height == img.height,
        r.format == op.out_format(img.format),
        forall|x: int, y: int|
            0 <= x < img.width && 0 <= y < img.height ==> r.spec_pix(x, y) == op.apply(
                img.spec_pix(x, y),
            ).stored(op.out_format(img.format)),
{
    let w = img.width;
    let h = img.height;
    let f2 = op.out_format_exec(img.format);
    let b2 = f2.bpp();
    let mut data: Vec<u8> = Vec::new();
    let mut y: u32 = 0;
    while y < h
        invariant
            img.wf(),
            w == img.width,
            h == img.height,
            f2 == op.out_format(img.format),
            b2 == f2.spec_bpp(),
            w * h * b2 <= usize::MAX,
            y <= h,
            data@.len() == y * w * b2,
            forall|i: int, j: int, c: int|
                0 <= i < w && 0 <= j < y && 0 <= c < b2 ==> data@[(j * w + i) * b2 + c] == chan_of(
                    op.apply(img.spec_pix(i, j)).stored(f2),
                    c,
                ),
        decreases h - y,
    {
        let mut x: u32 = 0;
        proof {
            assert(y * w * b2 == (y * w + 0) * b2) by (nonlinear_arith);
        }
        while x < w
            invariant
                img.wf(),
                w == img.width,
                h == img.height,
                f2 == op.out_format(img.format),
                b2 == f2.spec_bpp(),
                w * h * b2 <= usize::MAX,
                y < h,
                x <= w,
                data@.len() == (y * w + x) * b2,
                forall|i: int, j: int, c: int|
                    0 <= i < w && 0 <= c < b2 && ((0 <= j < y) || (j == y && 0 <= i < x))
                        ==> data@[(j * w + i) * b2 + c] == chan_of(
                        op.apply(img.spec_pix(i, j)).stored(f2),
                        c,
                    ),
            decreases w - x,
        {
            let ghost pre = data@;
            let p = img.get_pixel(x, y);
            let q = op.apply_exec(p);
            proof {
                lemma_grid_index(w as int, h as int, b2 as int, x as int, y as int, b2 - 1);
                assert((y * w + x + 1) * b2 == (y * w + x) * b2 + b2) by (nonlinear_arith);
                assert((y * w + x + 1) * b2 <= w * h * b2) by (nonlinear_arith)
                    requires
                        0 <= (y as int) < h as int,
                        0 <= (x as int) < w as int,
                        0 < b2,
                ;
            }
            data.push(q.r);
            data.push(q.g);
            data.push(q.b);
            if b2 == 4 {
                data.push(q.a);
            }
            proof {
                let wi = w as int;
                let xi = x as int;
                let yi = y as int;
                let bi = b2 as int;
                let base = (yi * wi + xi) * bi;
                assert forall|i: int, j: int, c: int|
                    0 <= i < wi && 0 <= c < bi && ((0 <= j < yi) || (j == yi && 0 <= i < xi
                        + 1)) implies data@[(j * wi + i) * bi + c] == chan_of(
                    op.apply(img.spec_pix(i, j)).stored(f2),
                    c,
                ) by {
                    if j < yi || (j == yi && i < xi) {
                        lemma_cell_before(wi, bi, i, j, xi, yi, c);
                    } else {
                        assert(i == xi && j == yi);
                        assert(data@[base + c] == chan_of(q.stored(f2), c));
                    }
                }
            }
            x += 1;
        }
        proof {
            assert(((y + 1) * w) * b2 == (y * w + w) * b2) by (nonlinear_arith);
        }
        y += 1;
    }
    let r = Image { width: w, height: h, format: f2, data };
    proof {
        assert(w * h * b2 == h * w * b2) by (nonlinear_arith);
        assert forall|x: int, y: int| 0 <= x < w && 0 <= y < h implies r.spec_pix(x, y)
            == op.apply(img.spec_pix(x, y)).stored(f2) by {
            lemma_grid_index(w as int, h as int, b2 as int, x, y, b2 - 1);
            let t = op.apply(img.spec_pix(x, y)).stored(f2);
            assert(r.chan(x, y, 0) == chan_of(t, 0));
            assert(r.chan(x, y, 1) == chan_of(t, 1));
            assert(r.chan(x, y, 2) == chan_of(t, 2));
            if b2 == 4 {
                assert(r.chan(x, y, 3) == chan_of(t, 3));
            }
        }
    }
    r
}

impl Image {
    /// A copy of this image carrying an alpha channel: an RGB image
    /// gains a fully opaque (255) alpha channel, an RGBA image is
    /// copied unchanged. No pixel value changes.
    pub fn to_rgba8(&self) -> (r: Image)
        requires
            self.wf(),
            self.width * self.height * 4 <= usize::MAX,
        ensures
            r.wf(),
            r.width == self.width,
            r.height == self.height,
            r.format == PixelFormat::Rgba8,
            forall|x: int, y: int|
                0 <= x < self.width && 0 <= y < self.height ==> r.spec_pix(x, y) == self.spec_pix(
                    x,
                    y,
                ),
    {
        map_pixels(self, PixelOp::ToRgba8)
    }

    /// A copy of this image without an alpha channel: color values are
    /// kept unchanged, alpha is dropped (and so reads back as 255).
    pub fn to_rgb8(&self) -> (r: Image)
        requires
            self.wf(),
        ensures
            r.wf(),
            r.width == self.width,
            r.height == self.height,
            r.format == PixelFormat::Rgb8,
            forall|x: int, y: int|
                0 <= x < self.width && 0 <= y < self.height ==> r.spec_pix(x, y) == self.spec_pix(
                    x,
                    y,
                ).stored(PixelFormat::Rgb8),
    {
        let n = self.data.len();
        proof {
            assert(n == self.width * self.height * self.format.spec_bpp());
            assert(self.width * self.height * 3 <= self.width * self.height
                * self.format.spec_bpp()) by (nonlinear_arith)
                requires
                    3 <= self.format.spec_bpp(),
                    0 < self.width,
                    0 < self.height,
            ;
        }
        map_pixels(self, PixelOp::ToRgb8)
    }
}

/// Grayscale filter: every pixel's color channels become their luma,
/// alpha and the pixel format are untouched. Applying it twice gives
/// the same image as applying it once.
pub fn apply_grayscale(img: &Image) -> (r: Image)
    requires
        img.wf(),
    ensures
        r.wf(),
        r.width == img.width,
        r.height == img.height,
        r.format == img.format,
        forall|x: int, y: int|
            0 <= x < img.width && 0 <= y < img.height ==> r.spec_pix(x, y) == gray_pix(
                img.spec_pix(x, y),
            ),
{
    let n = img.data.len();
    proof {
        assert(n == img.width * img.height * img.format.spec_bpp());
    }
    let r = map_pixels(img, PixelOp::Grayscale);
    proof {
        assert forall|x: int, y: int| 0 <= x < img.width && 0 <= y < img.height implies r.spec_pix(
            x,
            y,
        ) == gray_pix(img.spec_pix(x, y)) by {
            assert(img.spec_pix(x, y).a == 255 || img.format is Rgba8);
        }
    }
    r
}

/// Brightness filter: color channels scaled by `factor_milli / 1000`
/// and clamped to 255, alpha untouched; the result always carries an
/// alpha channel. A factor of 1000 changes no pixel value.
pub fn apply_brightness(img: &Image, factor_milli: u32) -> (r: Image)
    requires
        img.wf(),
        img.width * img.height * 4 <= usize::MAX,
    ensures
        r.wf(),
        r.width == img.width,
        r.height == img.height,
        r.format == PixelFormat::Rgba8,
        forall|x: int, y: int|
            0 <= x < img.width && 0 <= y < img.height ==> r.spec_pix(x, y) == bright_pix(
                img.spec_pix(x, y),
                factor_milli,
            ),
{
    map_pixels(img, PixelOp::Brightness(factor_milli))
}

/// Contrast filter: color channels stretched around 128 by
/// `factor_milli / 1000` and clamped, alpha untouched; the result
/// always carries an alpha channel. A factor of 1000 changes no pixel
/// value.
pub fn apply_contrast(img: &Image, factor_milli: u32) -> (r: Image)
    requires
        img.wf(),
        img.width * img.height * 4 <= usize::MAX,
    ensures
        r.wf(),
        r.width == img.width,
        r.height == img.height,
        r.format == PixelFormat::Rgba8,
        forall|x: int, y: int|
            0 <= x < img.width && 0 <= y < img.height ==> r.spec_pix(x, y) == contrast_pix(
                img.spec_pix(x, y),
                factor_milli,
            ),
{
    map_pixels(img, PixelOp::Contrast(factor_milli))
}

/// Grayscale is idempotent on whole images: when `g1` is the
/// grayscale of `img` and `g2` the grayscale of `g1` — the relation
/// `apply_grayscale` ensures — `g2` is the same image as `g1`, byte
/// for byte.
pub proof fn lemma_grayscale_idempotent(img: Image, g1: Image, g2: Image)
    requires
        img.wf(),
        g1.wf(),
        g2.wf(),
        g1.width == img.width,
        g1.height == img.height,
        g1.format == img.format,
        forall|x: int, y: int|
            0 <= x < img.width && 0 <= y < img.height ==> g1.spec_pix(x, y) == gray_pix(
                img.spec_pix(x, y),
            ),
        g2.width == g1.width,
        g2.height == g1.height,
        g2.format == g1.format,
        forall|x: int, y: int|
            0 <= x < g1.width && 0 <= y < g1.height ==> g2.spec_pix(x, y) == gray_pix(
                g1.spec_pix(x, y),
            ),
    ensures
        g2.width == g1.width,
        g2.height == g1.height,
        g2.format == g1.format,
        g2.data@ == g1.data@,
{
    assert forall|x: int, y: int| 0 <= x < g1.width && 0 <= y < g1.height implies g2.spec_pix(x, y)
        == g1.spec_pix(x, y) by {
        lemma_gray_pix_idempotent(img.spec_pix(x, y));
    }
    crate::pixel::lemma_pix_determines_data(g2, g1);
}

/// At factor 1000 the brightness filter leaves every pixel of the
/// image unchanged: its result — in the relation `apply_brightness`
/// ensures — reads pixel for pixel as the input does.
pub proof fn lemma_brightness_identity(img: Image, r: Image)
    requires
        img.wf(),
        r.wf(),
        r.width == img.width,
        r.height == img.height,
        forall|x: int, y: int|
            0 <= x < img.width && 0 <= y < img.height ==> r.spec_pix(x, y) == bright_pix(
                img.spec_pix(x, y),
                1000,
            ),
    ensures
        forall|x: int, y: int|
            0 <= x < img.width && 0 <= y < img.height ==> r.spec_pix(x, y) == img.spec_pix(x, y),
{
    assert forall|x: int, y: int| 0 <= x < img.width && 0 <= y < img.height implies r.spec_pix(
        x,
        y,
    ) == img.spec_pix(x, y) by {
        lemma_bright_pix_identity(img.spec_pix(x, y));
    }
}

/// At factor 1000 the contrast filter leaves every pixel of the image
/// unchanged: its result — in the relation `apply_contrast` ensures —
/// reads pixel for pixel as the input does.
pub proof fn lemma_contrast_identity(img: Image, r: Image)
    requires
        img.wf(),
        r.wf(),
        r.width == img.width,
        r.height == img.height,
        forall|x: int, y: int|
            0 <= x < img.width && 0 <= y < img.height ==> r.spec_pix(x, y) == contrast_pix(
                img.spec_pix(x, y),
                1000,
            ),
    ensures
        forall|x: int, y: int|
            0 <= x < img.width && 0 <= y < img.height ==> r.spec_pix(x, y) == img.spec_pix(x, y),
{
    assert forall|x: int, y: int| 0 <= x < img.width && 0 <= y < img.height implies r.spec_pix(
        x,
        y,
    ) == img.spec_pix(x, y) by {
        lemma_contrast_pix_identity(img.spec_pix(x, y));
    }
}

/// Grayscale conversion of a pixel is idempotent: the luma of a gray
/// pixel is its own gray value.
pub proof fn lemma_gray_pix_idempotent(p: Pixel)
    ensures
        gray_pix(gray_pix(p)) == gray_pix(p),
{
    let l = luma_chan(p.r, p.g, p.b) as int;
    lemma_div_multiples_vanish_fancy(l, 0, 10000);
    assert(2126 * l + 7152 * l + 722 * l == 10000 * l);
}

/// At factor 1000 the brightness filter is an identity on every pixel.
pub proof fn lemma_bright_pix_identity(p: Pixel)
    ensures
        bright_pix(p, 1000) == p,
{
    lemma_bright_chan_identity(p.r);
    lemma_bright_chan_identity(p.g);
    lemma_bright_chan_identity(p.b);
}

proof fn lemma_bright_chan_identity(c: u8)
    ensures
        bright_chan(c, 1000) == c,
{
    lemma_div_multiples_vanish_fancy(c as int, 0, 1000);
    assert(c * 1000 == 1000 * (c as int));
}

/// At factor 1000 the contrast filter is an identity on every pixel.
pub proof fn lemma_contrast_pix_identity(p: Pixel)
    ensures
        contrast_pix(p, 1000) == p,
{
    lemma_contrast_chan_identity(p.r);
    lemma_contrast_chan_identity(p.g);
    lemma_contrast_chan_identity(p.b);
}

proof fn lemma_contrast_chan_identity(c: u8)
    ensures
        contrast_chan(c, 1000) == c,
{
    if c >= 128 {
        lemma_div_multiples_vanish_fancy(c - 128, 0, 1000);
        assert((c - 128) * 1000 == 1000 * (c - 128));
    } else {
        lemma_div_multiples_vanish_fancy(128 - c, 999, 1000);
        assert((128 - c) * 1000 == 1000 * (128 - (c as int)));
    }
}

} // verus!
