//! Overlay blending and canvas stacking.
//!
//! Blending follows the source-over rule with 8-bit alpha arithmetic:
//! `out = (top * a + base * (255 - a)) / 255` per color channel and
//! `out_a = a + base_a * (255 - a) / 255`, rounding toward zero. A
//! pixel read from an RGB image takes part with alpha 255.
use crate::pixel::{has_alpha_channel, spec_any_alpha, Image, Pixel, PixelFormat};
use crate::MediaError;
use vstd::prelude::*;

verus! {

/// Source-over blend of one color channel under top alpha `a`.
pub open spec fn blend_chan(top: u8, base: u8, a: u8) -> u8 {
    ((top * a + base * (255 - a)) / 255) as u8
}

/// Source-over blend of the alpha channel.
pub open spec fn blend_alpha(top_a: u8, base_a: u8) -> u8 {
    (top_a + (base_a * (255 - top_a)) / 255) as u8
}

/// Source-over blend of `top` onto `base`.
pub open spec fn blend_pix(base: Pixel, top: Pixel) -> Pixel {
    Pixel {
        r: blend_chan(top.r, base.r, top.a),
        g: blend_chan(top.g, base.g, top.a),
        b: blend_chan(top.b, base.b, top.a),
        a: blend_alpha(top.a, base.a),
    }
}

fn blend_chan_exec(top: u8, base: u8, a: u8) -> (r: u8)
    ensures
        r == blend_chan(top, base, a),
{
    proof {
        assert(top * a + base * (255 - a) <= 255 * 255) by (nonlinear_arith)
            requires
                top <= 255,
                base <= 255,
                a <= 255,
        ;
    }
    let v = (top as u32) * (a as u32) + (base as u32) * (255 - a as u32);
    (v / 255) as u8
}

fn blend_pix_exec(base: Pixel, top: Pixel) -> (r: Pixel)
    ensures
        r == blend_pix(base, top),
{
    proof {
        assert(base.a * (255 - top.a) <= 255 * 255) by (nonlinear_arith)
            requires
                base.a <= 255,
                top.a <= 255,
        ;
        assert((base.a * (255 - top.a)) / 255 <= 255) by (nonlinear_arith)
            requires
                base.a * (255 - top.a) <= 255 * 255,
        ;
    }
    let rest = (base.a as u32) * (255 - top.a as u32) / 255;
    let a = (top.a as u32) + rest;
    Pixel {
        r: blend_chan_exec(top.r, base.r, top.a),
        g: blend_chan_exec(top.g, base.g, top.a),
        b: blend_chan_exec(top.b, base.b, top.a),
        a: a as u8,
    }
}

/// The pixel at `(ox, oy)` after overlaying `top` onto `base` with its
/// top-left corner at offset `(x, y)`: inside the overlap the
/// source-over blend, elsewhere the base pixel.
pub open spec fn overlay_pix(base: Image, top: Image, x: int, y: int, ox: int, oy: int) -> Pixel {
    if x <= ox < x + top.width && y <= oy < y + top.height {
        blend_pix(base.spec_pix(ox, oy), top.spec_pix(ox - x, oy - y))
    } else {
        base.spec_pix(ox, oy)
    }
}

/// The format a compositing result takes: RGBA as soon as any input
/// carries an alpha channel, RGB otherwise.
pub open spec fn combined_format(s: Seq<Image>) -> PixelFormat {
    if spec_any_alpha(s) {
        PixelFormat::Rgba8
    } else {
        PixelFormat::Rgb8
    }
}

/// Overlay `top` onto a copy of `base` with its top-left corner at
/// `(x, y)`, blending source-over per pixel. The offset may be negative
/// or reach past the base: only the overlapping part is blended, the
/// rest of `top` is discarded silently. The result has the dimensions
/// of `base`; it carries an alpha channel iff either input does.
pub fn overlay_images(base: &Image, top: &Image, x: i64, y: i64) -> (out: Image)
    requires
        base.wf(),
        top.wf(),
        base.spec_has_alpha() || top.spec_has_alpha() ==> base.width * base.height * 4
            <= usize::MAX,
    ensures
        out.wf(),
        out.width == base.width,
        out.height == base.height,
        out.format == combined_format(seq![*base, *top]),
        forall|ox: int, oy: int|
            0 <= ox < base.width && 0 <= oy < base.height ==> out.spec_pix(ox, oy) == overlay_pix(
                *base,
                *top,
                x as int,
                y as int,
                ox,
                oy,
            ),
{
    let w = base.width;
    let h = base.height;
    proof {
        assert(spec_any_alpha(seq![*base, *top]) <==> (base.spec_has_alpha()
            || top.spec_has_alpha()));
    }
    let mut out = if base.has_alpha() || top.has_alpha() {
        base.to_rgba8()
    } else {
        base.duplicate()
    };
    // Overlap entirely outside the base: nothing to blend.
    if x >= w as i64 || y >= h as i64 || x + (top.width as i64) <= 0 || y + (top.height as i64)
        <= 0 {
        return out;
    }
    let x0: u32 = if x > 0 {
        x as u32
    } else {
        0
    };
    let y0: u32 = if y > 0 {
        y as u32
    } else {
        0
    };
    let xe: i64 = x + top.width as i64;
    let ye: i64 = y + top.height as i64;
    let x1: u32 = if xe > w as i64 {
        w
    } else {
        xe as u32
    };
    let y1: u32 = if ye > h as i64 {
        h
    } else {
        ye as u32
    };
    let ghost xi = x as int;
    let ghost yi = y as int;
    let ghost start = out;
    let mut oy: u32 = y0;
    while oy < y1
        invariant
            base.wf(),
            top.wf(),
            out.wf(),
            out.width == w,
            out.height == h,
            w == base.width,
            h == base.height,
            out.format == start.format,
            start.format == combined_format(seq![*base, *top]),
            xi == x as int,
            yi == y as int,
            out.format is Rgba8 || !top.spec_has_alpha(),
            x0 <= x1 <= w,
            y0 <= oy,
            y0 <= y1 <= h,
            x0 == if xi > 0 {
                xi
            } else {
                0
            },
            y0 == if yi > 0 {
                yi
            } else {
                0
            },
            x1 == if xi + top.width > w {
                w as int
            } else {
                xi + top.width
            },
            y1 == if yi + top.height > h {
                h as int
            } else {
                yi + top.height
            },
            forall|i: int, j: int|
                0 <= i < w && 0 <= j < h ==> out.spec_pix(i, j) == (if x0 <= i < x1 && y0 <= j
                    < oy {
                    overlay_pix(*base, *top, xi, yi, i, j)
                } else {
                    base.spec_pix(i, j)
                }),
        decreases h - oy,
    {
        let mut ox: u32 = x0;
        while ox < x1
            invariant
                base.wf(),
                top.wf(),
                out.wf(),
                out.width == w,
                out.height == h,
                w == base.width,
                h == base.height,
                out.format == start.format,
                start.format == combined_format(seq![*base, *top]),
                xi == x as int,
                yi == y as int,
                out.format is Rgba8 || !top.spec_has_alpha(),
                x0 <= ox,
                x0 <= x1 <= w,
                y0 <= oy < y1 <= h,
                x0 == if xi > 0 {
                    xi
                } else {
                    0
                },
                y0 == if yi > 0 {
                    yi
                } else {
                    0
                },
                x1 == if xi + top.width > w {
                    w as int
                } else {
                    xi + top.width
                },
                y1 == if yi + top.height > h {
                    h as int
                } else {
                    yi + top.height
                },
                forall|i: int, j: int|
                    0 <= i < w && 0 <= j < h ==> out.spec_pix(i, j) == (if x0 <= i < x1 && (y0 <= j
                        < oy || (j == oy && x0 <= i < ox)) {
                        overlay_pix(*base, *top, xi, yi, i, j)
                    } else {
                        base.spec_pix(i, j)
                    }),
            decreases x1 - ox,
        {
            let cur = out.get_pixel(ox, oy);
            proof {
                assert(xi <= (ox as int) && (ox as int) < xi + top.width);
                assert(yi <= (oy as int) && (oy as int) < yi + top.height);
            }
            let tp = top.get_pixel((ox as i64 - x) as u32, (oy as i64 - y) as u32);
            let blended = blend_pix_exec(cur, tp);
            proof {
                if !(out.format is Rgba8) {
                    assert(!top.spec_has_alpha());
                    assert(tp.a == 255);
                    assert(blended.a == 255);
                }
                assert(blended.stored(out.format) == blended);
            }
            out.set_pixel(ox, oy, blended);
            ox += 1;
        }
        oy += 1;
    }
    out
}

/// Sum of the widths of the first `k` images.
pub open spec fn wsum(s: Seq<Image>, k: int) -> int
    decreases k,
{
    if k <= 0 {
        0
    } else {
        wsum(s, k - 1) + s[k - 1].width
    }
}

/// Sum of the heights of the first `k` images.
pub open spec fn hsum(s: Seq<Image>, k: int) -> int
    decreases k,
{
    if k <= 0 {
        0
    } else {
        hsum(s, k - 1) + s[k - 1].height
    }
}

/// Greatest width among the first `k` images (0 when `k <= 0`).
pub open spec fn wmax(s: Seq<Image>, k: int) -> int
    decreases k,
{
    if k <= 0 {
        0
    } else {
        let m = wmax(s, k - 1);
        if s[k - 1].width > m {
            s[k - 1].width as int
        } else {
            m
        }
    }
}

/// Greatest height among the first `k` images (0 when `k <= 0`).
pub open spec fn hmax(s: Seq<Image>, k: int) -> int
    decreases k,
{
    if k <= 0 {
        0
    } else {
        let m = hmax(s, k - 1);
        if s[k - 1].height > m {
            s[k - 1].height as int
        } else {
            m
        }
    }
}

/// Prefix sums of widths grow with the prefix.
pub proof fn lemma_wsum_mono(s: Seq<Image>, k1: int, k2: int)
    requires
        k1 <= k2,
    ensures
        wsum(s, k1) <= wsum(s, k2),
    decreases k2 - k1,
{
    if k1 < k2 {
        lemma_wsum_mono(s, k1, k2 - 1);
    }
}

/// Prefix sums of heights grow with the prefix.
pub proof fn lemma_hsum_mono(s: Seq<Image>, k1: int, k2: int)
    requires
        k1 <= k2,
    ensures
        hsum(s, k1) <= hsum(s, k2),
    decreases k2 - k1,
{
    if k1 < k2 {
        lemma_hsum_mono(s, k1, k2 - 1);
    }
}

/// Every image of a prefix fits under the prefix maxima.
pub proof fn lemma_max_bounds(s: Seq<Image>, k: int, n: int)
    requires
        0 <= k < n,
    ensures
        s[k].width <= wmax(s, n),
        s[k].height <= hmax(s, n),
    decreases n,
{
    if k < n - 1 {
        lemma_max_bounds(s, k, n - 1);
    }
}

/// The pixel at `(ox, oy)` of a horizontal stack canvas after the
/// first `k` images have been pasted left to right, top-aligned, each
/// blended source-over onto the fresh canvas.
pub open spec fn part_h(s: Seq<Image>, k: int, f: PixelFormat, ox: int, oy: int) -> Pixel
    decreases k,
{
    if k <= 0 {
        Pixel::spec_zero().stored(f)
    } else {
        let prev = part_h(s, k - 1, f, ox, oy);
        if wsum(s, k - 1) <= ox < wsum(s, k) && 0 <= oy < s[k - 1].height {
            blend_pix(prev, s[k - 1].spec_pix(ox - wsum(s, k - 1), oy))
        } else {
            prev
        }
    }
}

/// The pixel at `(ox, oy)` of a vertical stack canvas after the first
/// `k` images have been pasted top to bottom, left-aligned.
pub open spec fn part_v(s: Seq<Image>, k: int, f: PixelFormat, ox: int, oy: int) -> Pixel
    decreases k,
{
    if k <= 0 {
        Pixel::spec_zero().stored(f)
    } else {
        let prev = part_v(s, k - 1, f, ox, oy);
        if hsum(s, k - 1) <= oy < hsum(s, k) && 0 <= ox < s[k - 1].width {
            blend_pix(prev, s[k - 1].spec_pix(ox, oy - hsum(s, k - 1)))
        } else {
            prev
        }
    }
}

/// Stack the images side by side on a fresh canvas of width the sum of
/// the widths and height the greatest height, pasting left to right,
/// each top-aligned at `y = 0`. The canvas starts fully transparent
/// (RGBA) or black (RGB); rows a shorter image leaves uncovered keep
/// that initial value. Fails with `EmptyInput` on zero images.
pub fn combine_images_horizontal(images: &Vec<Image>) -> (r: Result<Image, MediaError>)
    requires
        forall|k: int| 0 <= k < images@.len() ==> images@[k].wf(),
        wsum(images@, images@.len() as int) <= u32::MAX,
        wsum(images@, images@.len() as int) * hmax(images@, images@.len() as int) * combined_format(
            images@,
        ).spec_bpp() <= usize::MAX,
    ensures
        images@.len() == 0 ==> r == Err::<Image, MediaError>(MediaError::EmptyInput),
        images@.len() > 0 ==> r is Ok,
        r is Ok ==> {
            let out = r->Ok_0;
            &&& out.wf()
            &&& out.width == wsum(images@, images@.len() as int)
            &&& out.height == hmax(images@, images@.len() as int)
            &&& out.format == combined_format(images@)
            &&& forall|ox: int, oy: int|
                0 <= ox < out.width && 0 <= oy < out.height ==> out.spec_pix(ox, oy) == part_h(
                    images@,
                    images@.len() as int,
                    combined_format(images@),
                    ox,
                    oy,
                )
        },
{
    let ghost s = images@;
    let ghost n = images@.len() as int;
    if images.len() == 0 {
        return Err(MediaError::EmptyInput);
    }
    let fmt = if has_alpha_channel(images) {
        PixelFormat::Rgba8
    } else {
        PixelFormat::Rgb8
    };
    let mut total: u32 = 0;
    let mut k: usize = 0;
    while k < images.len()
        invariant
            s == images@,
            k <= s.len(),
            total == wsum(s, k as int),
            wsum(s, s.len() as int) <= u32::MAX,
        decreases s.len() - k,
    {
        proof {
            lemma_wsum_mono(s, k as int + 1, s.len() as int);
        }
        total += images[k].width;
        k += 1;
    }
    let mut maxh: u32 = 0;
    let mut k2: usize = 0;
    while k2 < images.len()
        invariant
            s == images@,
            k2 <= s.len(),
            maxh == hmax(s, k2 as int),
        decreases s.len() - k2,
    {
        if images[k2].height > maxh {
            maxh = images[k2].height;
        }
        k2 += 1;
    }
    proof {
        lemma_wsum_mono(s, 1, n);
        lemma_max_bounds(s, 0, n);
        assert(wsum(s, 0) == 0);
        assert(wsum(s, 1) == s[0].width);
    }
    let mut canvas = Image::new_canvas(total, maxh, fmt);
    let mut xoff: u32 = 0;
    let mut i: usize = 0;
    while i < images.len()
        invariant
            s == images@,
            n == s.len() as int,
            0 < n,
            i <= s.len(),
            forall|k: int| 0 <= k < s.len() ==> s[k].wf(),
            fmt == combined_format(s),
            total == wsum(s, n),
            maxh == hmax(s, n),
            wsum(s, n) <= u32::MAX,
            wsum(s, n) * hmax(s, n) * fmt.spec_bpp() <= usize::MAX,
            xoff == wsum(s, i as int),
            canvas.wf(),
            canvas.width == total,
            canvas.height == maxh,
            canvas.format == fmt,
            forall|ox: int, oy: int|
                0 <= ox < total && 0 <= oy < maxh ==> canvas.spec_pix(ox, oy) == part_h(
                    s,
                    i as int,
                    fmt,
                    ox,
                    oy,
                ),
        decreases s.len() - i,
    {
        let ghost pre = canvas;
        let img = &images[i];
        proof {
            if img.spec_has_alpha() {
                assert(spec_any_alpha(s));
            }
            if canvas.spec_has_alpha() || img.spec_has_alpha() {
                assert(fmt == PixelFormat::Rgba8);
                assert(canvas.width * canvas.height * 4 <= usize::MAX);
            }
            lemma_max_bounds(s, i as int, n);
            lemma_wsum_mono(s, i as int + 1, n);
        }
        let next = overlay_images(&canvas, img, xoff as i64, 0);
        proof {
            assert(next.format == fmt) by {
                if fmt is Rgba8 {
                    assert(spec_any_alpha(seq![pre, s[i as int]]));
                } else {
                    assert(!pre.spec_has_alpha() && !s[i as int].spec_has_alpha());
                    assert(!spec_any_alpha(seq![pre, s[i as int]])) by {
                        assert forall|k: int| 0 <= k < 2 implies !seq![pre, s[i as int]][k].spec_has_alpha() by {}
                    }
                }
            }
            assert forall|ox: int, oy: int| 0 <= ox < total && 0 <= oy < maxh implies next.spec_pix(
                ox,
                oy,
            ) == part_h(s, i as int + 1, fmt, ox, oy) by {
                assert(next.spec_pix(ox, oy) == overlay_pix(pre, s[i as int], xoff as int, 0, ox, oy));
                assert(wsum(s, i as int + 1) == wsum(s, i as int) + s[i as int].width);
            }
        }
        canvas = next;
        xoff += img.width;
        i += 1;
    }
    Ok(canvas)
}

/// Stack the images top to bottom on a fresh canvas of height the sum
/// of the heights and width the greatest width, pasting top to bottom,
/// each left-aligned at `x = 0`. The canvas starts fully transparent
/// (RGBA) or black (RGB); columns a narrower image leaves uncovered
/// keep that initial value. Fails with `EmptyInput` on zero images.
pub fn combine_images_vertical(images: &Vec<Image>) -> (r: Result<Image, MediaError>)
    requires
        forall|k: int| 0 <= k < images@.len() ==> images@[k].wf(),
        hsum(images@, images@.len() as int) <= u32::MAX,
        wmax(images@, images@.len() as int) * hsum(images@, images@.len() as int) * combined_format(
            images@,
        ).spec_bpp() <= usize::MAX,
    ensures
        images@.len() == 0 ==> r == Err::<Image, MediaError>(MediaError::EmptyInput),
        images@.len() > 0 ==> r is Ok,
        r is Ok ==> {
            let out = r->Ok_0;
            &&& out.wf()
            &&& out.width == wmax(images@, images@.len() as int)
            &&& out.height == hsum(images@, images@.len() as int)
            &&& out.format == combined_format(images@)
            &&& forall|ox: int, oy: int|
                0 <= ox < out.width && 0 <= oy < out.height ==> out.spec_pix(ox, oy) == part_v(
                    images@,
                    images@.len() as int,
                    combined_format(images@),
                    ox,
                    oy,
                )
        },
{
    let ghost s = images@;
    let ghost n = images@.len() as int;
    if images.len() == 0 {
        return Err(MediaError::EmptyInput);
    }
    let fmt = if has_alpha_channel(images) {
        PixelFormat::Rgba8
    } else {
        PixelFormat::Rgb8
    };
    let mut total: u32 = 0;
    let mut k: usize = 0;
    while k < images.len()
        invariant
            s == images@,
            k <= s.len(),
            total == hsum(s, k as int),
            hsum(s, s.len() as int) <= u32::MAX,
        decreases s.len() - k,
    {
        proof {
            lemma_hsum_mono(s, k as int + 1, s.len() as int);
        }
        total += images[k].height;
        k += 1;
    }
    let mut maxw: u32 = 0;
    let mut k2: usize = 0;
    while k2 < images.len()
        invariant
            s == images@,
            k2 <= s.len(),
            maxw == wmax(s, k2 as int),
        decreases s.len() - k2,
    {
        if images[k2].width > maxw {
            maxw = images[k2].width;
        }
        k2 += 1;
    }
    proof {
        lemma_hsum_mono(s, 1, n);
        lemma_max_bounds(s, 0, n);
        assert(hsum(s, 0) == 0);
        assert(hsum(s, 1) == s[0].height);
    }
    let mut canvas = Image::new_canvas(maxw, total, fmt);
    let mut yoff: u32 = 0;
    let mut i: usize = 0;
    while i < images.len()
        invariant
            s == images@,
            n == s.len() as int,
            0 < n,
            i <= s.len(),
            forall|k: int| 0 <= k < s.len() ==> s[k].wf(),
            fmt == combined_format(s),
            total == hsum(s, n),
            maxw == wmax(s, n),
            hsum(s, n) <= u32::MAX,
            wmax(s, n) * hsum(s, n) * fmt.spec_bpp() <= usize::MAX,
            yoff == hsum(s, i as int),
            canvas.wf(),
            canvas.width == maxw,
            canvas.height == total,
            canvas.format == fmt,
            forall|ox: int, oy: int|
                0 <= ox < maxw && 0 <= oy < total ==> canvas.spec_pix(ox, oy) == part_v(
                    s,
                    i as int,
                    fmt,
                    ox,
                    oy,
                ),
        decreases s.len() - i,
    {
        let ghost pre = canvas;
        let img = &images[i];
        proof {
            if img.spec_has_alpha() {
                assert(spec_any_alpha(s));
            }
            if canvas.spec_has_alpha() || img.spec_has_alpha() {
                assert(fmt == PixelFormat::Rgba8);
                assert(canvas.width * canvas.height * 4 <= usize::MAX);
            }
            lemma_max_bounds(s, i as int, n);
            lemma_hsum_mono(s, i as int + 1, n);
        }
        let next = overlay_images(&canvas, img, 0, yoff as i64);
        proof {
            assert(next.format == fmt) by {
                if fmt is Rgba8 {
                    assert(spec_any_alpha(seq![pre, s[i as int]]));
                } else {
                    assert(!pre.spec_has_alpha() && !s[i as int].spec_has_alpha());
                    assert(!spec_any_alpha(seq![pre, s[i as int]])) by {
                        assert forall|k: int| 0 <= k < 2 implies !seq![pre, s[i as int]][k].spec_has_alpha() by {}
                    }
                }
            }
            assert forall|ox: int, oy: int| 0 <= ox < maxw && 0 <= oy < total implies next.spec_pix(
                ox,
                oy,
            ) == part_v(s, i as int + 1, fmt, ox, oy) by {
                assert(next.spec_pix(ox, oy) == overlay_pix(pre, s[i as int], 0, yoff as int, ox, oy));
                assert(hsum(s, i as int + 1) == hsum(s, i as int) + s[i as int].height);
            }
        }
        canvas = next;
        yoff += img.height;
        i += 1;
    }
    Ok(canvas)
}

} // verus!
