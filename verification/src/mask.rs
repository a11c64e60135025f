//! Shape-based alpha masking: circular crop, square center-crop, and
//! rounded-rectangle corners. Every reshape result carries an alpha
//! channel.
use crate::pixel::{chan_of, lemma_cell_before, lemma_grid_index, Image, Pixel, PixelFormat};
use vstd::arithmetic::div_mod::{
    lemma_div_nonincreasing, lemma_fundamental_div_mod, lemma_mod_division_less_than_divisor,
};
use vstd::prelude::*;

verus! {

/// Whether the pixel at `(x, y)` of a `size` by `size` square is kept
/// by the inscribed circular mask: its coordinate lies within distance
/// `size / 2` of the square's center, stated over integers after
/// scaling by two. The center pixel `(size / 2, size / 2)` is always
/// kept, so in particular a one-pixel crop stays opaque.
pub open spec fn in_circle(x: int, y: int, size: int) -> bool {
    ||| (2 * x - size) * (2 * x - size) + (2 * y - size) * (2 * y - size) <= size * size
    ||| (x == size / 2 && y == size / 2)
}

/// Whether the point `(cx, cy)` is within distance `radius` of the
/// anchor `(radius, radius)`, by squared Euclidean distance.
pub open spec fn corner_ok(cx: int, cy: int, radius: int) -> bool {
    (cx - radius) * (cx - radius) + (cy - radius) * (cy - radius) <= radius * radius
}

/// The rounded-rectangle rule: a pixel of a `w` by `h` image is kept
/// iff all four of its corner-mirrored coordinates are within `radius`
/// of the anchor `(radius, radius)`. The same test is applied in every
/// quadrant, whatever quadrant the pixel is actually in.
pub open spec fn rounded_keep(x: int, y: int, w: int, h: int, radius: int) -> bool {
    &&& corner_ok(x, y, radius)
    &&& corner_ok(x, h - 1 - y, radius)
    &&& corner_ok(w - 1 - x, y, radius)
    &&& corner_ok(w - 1 - x, h - 1 - y, radius)
}

/// The mask shapes a reshape can apply to the cropped source pixel.
#[derive(Clone, Copy)]
enum MaskShape {
    Square,
    Circle,
    Rounded(u32),
}

impl MaskShape {
    /// What a shape does to the source pixel at `(x, y)` of a `w` by
    /// `h` output.
    spec fn apply(self, src: Pixel, x: int, y: int, w: int, h: int) -> Pixel {
        match self {
            MaskShape::Square => src,
            MaskShape::Circle => Pixel {
                a: if in_circle(x, y, w) {
                    255
                } else {
                    0
                },
                ..src
            },
            MaskShape::Rounded(radius) => if rounded_keep(x, y, w, h, radius as int) {
                src
            } else {
                Pixel { a: 0, ..src }
            },
        }
    }
}

/// The pixel that lands at `(x, y)` of a crop of `img` at offset
/// `(ox, oy)` masked by `shape`.
spec fn masked_src(img: Image, shape: MaskShape, ox: int, oy: int, w: int, h: int, x: int, y: int) -> Pixel {
    shape.apply(img.spec_pix(x + ox, y + oy), x, y, w, h)
}

/// A square bounded in magnitude is bounded by the bound's square.
proof fn lemma_square_bound(v: int, m: int)
    requires
        -m <= v <= m,
        0 <= m,
    ensures
        0 <= v * v <= m * m,
{
    assert(0 <= v * v <= m * m) by (nonlinear_arith)
        requires
            -m <= v <= m,
            0 <= m,
    ;
}

fn in_circle_exec(x: u32, y: u32, size: u32) -> (r: bool)
    ensures
        r == in_circle(x as int, y as int, size as int),
{
    let dx: i128 = 2 * (x as i128) - (size as i128);
    let dy: i128 = 2 * (y as i128) - (size as i128);
    proof {
        lemma_square_bound(dx as int, 0x1000000000);
        lemma_square_bound(dy as int, 0x1000000000);
        lemma_square_bound(size as int, 0x100000000);
    }
    dx * dx + dy * dy <= (size as i128) * (size as i128) || (x == size / 2 && y == size / 2)
}

fn corner_ok_exec(cx: u32, cy: u32, radius: u32) -> (r: bool)
    ensures
        r == corner_ok(cx as int, cy as int, radius as int),
{
    let dx: i128 = (cx as i128) - (radius as i128);
    let dy: i128 = (cy as i128) - (radius as i128);
    proof {
        lemma_square_bound(dx as int, 0x100000000);
        lemma_square_bound(dy as int, 0x100000000);
        lemma_square_bound(radius as int, 0x100000000);
    }
    dx * dx + dy * dy <= (radius as i128) * (radius as i128)
}

impl MaskShape {
    fn apply_exec(self, src: Pixel, x: u32, y: u32, w: u32, h: u32) -> (r: Pixel)
        requires
            x < w,
            y < h,
        ensures
            r == self.apply(src, x as int, y as int, w as int, h as int),
    {
        match self {
            MaskShape::Square => src,
            MaskShape::Circle => {
                let a: u8 = if in_circle_exec(x, y, w) {
                    255
                } else {
                    0
                };
                Pixel { a, ..src }
            },
            MaskShape::Rounded(radius) => {
                let keep = corner_ok_exec(x, y, radius) && corner_ok_exec(x, h - 1 - y, radius)
                    && corner_ok_exec(w - 1 - x, y, radius) && corner_ok_exec(
                    w - 1 - x,
                    h - 1 - y,
                    radius,
                );
                if keep {
                    src
                } else {
                    Pixel { a: 0, ..src }
                }
            },
        }
    }
}

/// Extract the `out_w` by `out_h` sub-rectangle of `img` whose top-left
/// corner is at `(ox, oy)`, apply `shape` per pixel, and return it as
/// an RGBA image.
fn crop_masked(img: &Image, ox: u32, oy: u32, out_w: u32, out_h: u32, shape: MaskShape) -> (r:
    Image)
    requires
        img.wf(),
        0 < out_w,
        0 < out_h,
        ox + out_w <= img.width,
        oy + out_h <= img.height,
        out_w * out_h * 4 <= usize::MAX,
    ensures
        r.wf(),
        r.width == out_w,
        r.height == out_h,
        r.format == PixelFormat::Rgba8,
        forall|x: int, y: int|
            0 <= x < out_w && 0 <= y < out_h ==> r.spec_pix(x, y) == shape.apply(
                img.spec_pix(x + ox, y + oy),
                x,
                y,
                out_w as int,
                out_h as int,
            ),
{
    let w = out_w;
    let h = out_h;
    let mut data: Vec<u8> = Vec::new();
    let mut y: u32 = 0;
    while y < h
        invariant
            img.wf(),
            w == out_w,
            h == out_h,
            0 < w,
            0 < h,
            ox + w <= img.width,
            oy + h <= img.height,
            w * h * 4 <= usize::MAX,
            y <= h,
            data@.len() == y * w * 4,
            forall|i: int, j: int, c: int|
                0 <= i < w && 0 <= j < y && 0 <= c < 4 ==> data@[(j * w + i) * 4 + c] == chan_of(
                    masked_src(*img, shape, ox as int, oy as int, w as int, h as int, i, j),
                    c,
                ),
        decreases h - y,
    {
        let mut x: u32 = 0;
        proof {
            assert(y * w * 4 == (y * w + 0) * 4) by (nonlinear_arith);
        }
        while x < w
            invariant
                img.wf(),
                w == out_w,
                h == out_h,
                0 < w,
                0 < h,
                ox + w <= img.width,
                oy + h <= img.height,
                w * h * 4 <= usize::MAX,
                y < h,
                x <= w,
                data@.len() == (y * w + x) * 4,
                forall|i: int, j: int, c: int|
                    0 <= i < w && 0 <= c < 4 && ((0 <= j < y) || (j == y && 0 <= i < x))
                        ==> data@[(j * w + i) * 4 + c] == chan_of(
                        masked_src(*img, shape, ox as int, oy as int, w as int, h as int, i, j),
                        c,
                    ),
            decreases w - x,
        {
            let p = img.get_pixel(x + ox, y + oy);
            let q = shape.apply_exec(p, x, y, w, h);
            proof {
                lemma_grid_index(w as int, h as int, 4, x as int, y as int, 3);
                assert((y * w + x + 1) * 4 == (y * w + x) * 4 + 4) by (nonlinear_arith);
                assert((y * w + x + 1) * 4 <= w * h * 4) by (nonlinear_arith)
                    requires
                        0 <= (y as int) < h as int,
                        0 <= (x as int) < w as int,
                ;
            }
            data.push(q.r);
            data.push(q.g);
            data.push(q.b);
            data.push(q.a);
            proof {
                let wi = w as int;
                let xi = x as int;
                let yi = y as int;
                assert forall|i: int, j: int, c: int|
                    0 <= i < wi && 0 <= c < 4 && ((0 <= j < yi) || (j == yi && 0 <= i < xi
                        + 1)) implies data@[(j * wi + i) * 4 + c] == #[trigger] chan_of(
                    masked_src(*img, shape, ox as int, oy as int, wi, h as int, i, j),
                    c,
                ) by {
                    if j < yi || (j == yi && i < xi) {
                        lemma_cell_before(wi, 4, i, j, xi, yi, c);
                    } else {
                        assert(i == xi && j == yi);
                        assert(q == masked_src(*img, shape, ox as int, oy as int, wi, h as int, i, j));
                        assert(data@[(yi * wi + xi) * 4 + c] == chan_of(q, c));
                    }
                }
            }
            x += 1;
        }
        proof {
            assert(((y + 1) * w) * 4 == (y * w + w) * 4) by (nonlinear_arith);
        }
        y += 1;
    }
    let r = Image { width: w, height: h, format: PixelFormat::Rgba8, data };
    proof {
        assert(w * h * 4 == h * w * 4) by (nonlinear_arith);
        assert forall|x: int, y: int| 0 <= x < w && 0 <= y < h implies r.spec_pix(x, y)
            == shape.apply(img.spec_pix(x + ox, y + oy), x, y, w as int, h as int) by {
            lemma_grid_index(w as int, h as int, 4, x, y, 3);
            let t = masked_src(*img, shape, ox as int, oy as int, w as int, h as int, x, y);
            assert(r.chan(x, y, 0) == chan_of(t, 0));
            assert(r.chan(x, y, 1) == chan_of(t, 1));
            assert(r.chan(x, y, 2) == chan_of(t, 2));
            assert(r.chan(x, y, 3) == chan_of(t, 3));
        }
    }
    r
}

/// The side of the centered square a reshape crops to: the smaller of
/// the image's dimensions.
pub open spec fn crop_size(img: Image) -> int {
    if img.width < img.height {
        img.width as int
    } else {
        img.height as int
    }
}

/// Center-crop the image to a square whose side is the smaller of its
/// dimensions; a pure crop, no masking. The result carries an alpha
/// channel and its width always equals its height.
pub fn reshape_square(img: &Image) -> (r: Image)
    requires
        img.wf(),
        crop_size(*img) * crop_size(*img) * 4 <= usize::MAX,
    ensures
        r.wf(),
        r.width == crop_size(*img),
        r.height == crop_size(*img),
        r.format == PixelFormat::Rgba8,
        forall|x: int, y: int|
            0 <= x < r.width && 0 <= y < r.height ==> r.spec_pix(x, y) == img.spec_pix(
                x + (img.width - crop_size(*img)) / 2,
                y + (img.height - crop_size(*img)) / 2,
            ),
{
    let size = if img.width < img.height {
        img.width
    } else {
        img.height
    };
    let ox = (img.width - size) / 2;
    let oy = (img.height - size) / 2;
    proof {
        lemma_div_nonincreasing(img.width - size, 2);
        lemma_div_nonincreasing(img.height - size, 2);
    }
    crop_masked(img, ox, oy, size, size, MaskShape::Square)
}

/// Center-crop the image to a square whose side is the smaller of its
/// dimensions, then apply the inscribed circular mask: a pixel is kept
/// fully opaque (alpha 255) iff it lies in the circle, and made fully
/// transparent (alpha 0) otherwise; color channels are untouched. The
/// result carries an alpha channel.
pub fn reshape_circle(img: &Image) -> (r: Image)
    requires
        img.wf(),
        crop_size(*img) * crop_size(*img) * 4 <= usize::MAX,
    ensures
        r.wf(),
        r.width == crop_size(*img),
        r.height == crop_size(*img),
        r.format == PixelFormat::Rgba8,
        forall|x: int, y: int|
            #![trigger r.spec_pix(x, y)]
            0 <= x < r.width && 0 <= y < r.height ==> {
                let src = img.spec_pix(
                    x + (img.width - crop_size(*img)) / 2,
                    y + (img.height - crop_size(*img)) / 2,
                );
                r.spec_pix(x, y) == (Pixel {
                    a: if in_circle(x, y, crop_size(*img)) {
                        255u8
                    } else {
                        0u8
                    },
                    ..src
                })
            },
{
    let size = if img.width < img.height {
        img.width
    } else {
        img.height
    };
    let ox = (img.width - size) / 2;
    let oy = (img.height - size) / 2;
    proof {
        lemma_div_nonincreasing(img.width - size, 2);
        lemma_div_nonincreasing(img.height - size, 2);
    }
    crop_masked(img, ox, oy, size, size, MaskShape::Circle)
}

/// Round the image's corners on its full, uncropped dimensions: a
/// pixel is forced fully transparent when any of its four
/// corner-mirrored coordinates lies farther than `radius` from the
/// anchor `(radius, radius)`, and kept unchanged otherwise. The result
/// carries an alpha channel.
pub fn reshape_rounded(img: &Image, radius: u32) -> (r: Image)
    requires
        img.wf(),
        img.width * img.height * 4 <= usize::MAX,
    ensures
        r.wf(),
        r.width == img.width,
        r.height == img.height,
        r.format == PixelFormat::Rgba8,
        forall|x: int, y: int|
            0 <= x < r.width && 0 <= y < r.height ==> r.spec_pix(x, y) == (if rounded_keep(
                x,
                y,
                img.width as int,
                img.height as int,
                radius as int,
            ) {
                img.spec_pix(x, y)
            } else {
                Pixel { a: 0, ..img.spec_pix(x, y) }
            }),
{
    crop_masked(img, 0, 0, img.width, img.height, MaskShape::Rounded(radius))
}

/// The center pixel of a circle crop is always kept fully opaque: the
/// mask keeps the pixel at `(size / 2, size / 2)` for every positive
/// size.
pub proof fn lemma_circle_center(size: int)
    requires
        1 <= size,
    ensures
        in_circle(size / 2, size / 2, size),
{
}

/// Corner pixels of a circle crop are forced fully transparent: for
/// every size of at least 3 the three corners touching the top or
/// left edge lie outside the inscribed circle, and from size 7 on so
/// does the bottom-right corner. The circle is anchored at
/// `(size / 2, size / 2)` of the pixel coordinate grid, which leaves
/// the bottom-right corner pixel nearer the circle's center than the
/// other three; for sizes 3 to 6 it falls inside the circle and is
/// kept.
pub proof fn lemma_circle_corners(size: int)
    requires
        3 <= size,
    ensures
        !in_circle(0, 0, size),
        !in_circle(size - 1, 0, size),
        !in_circle(0, size - 1, size),
        7 <= size ==> !in_circle(size - 1, size - 1, size),
{
    lemma_fundamental_div_mod(size, 2);
    lemma_mod_division_less_than_divisor(size, 2);
    let c = size / 2;
    assert(1 <= c && c <= size - 2);
    assert((2 * 0 - size) * (2 * 0 - size) == size * size) by (nonlinear_arith);
    assert(size * size + size * size > size * size) by (nonlinear_arith)
        requires
            1 <= size,
    ;
    assert((2 * (size - 1) - size) * (2 * (size - 1) - size) == (size - 2) * (size - 2))
        by (nonlinear_arith);
    assert((size - 2) * (size - 2) >= 1) by (nonlinear_arith)
        requires
            3 <= size,
    ;
    if 7 <= size {
        assert((size - 2) * (size - 2) + (size - 2) * (size - 2) > size * size)
            by (nonlinear_arith)
            requires
                7 <= size,
        ;
    }
}

} // verus!
