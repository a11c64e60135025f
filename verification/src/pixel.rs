//! In-memory image representation: a fixed-size pixel grid held as a
//! contiguous row-major byte buffer, tagged with its pixel format.
use vstd::prelude::*;

verus! {

/// The two pixel formats an [`Image`] can carry: packed 8-bit RGB, or
/// 8-bit RGBA with an alpha channel.
#[derive(Clone, Copy, Debug, PartialEq, Eq, Structural)]
pub enum PixelFormat {
    Rgb8,
    Rgba8,
}

impl PixelFormat {
    /// Bytes per pixel of this format.
    pub open spec fn spec_bpp(self) -> int {
        match self {
            PixelFormat::Rgb8 => 3,
            PixelFormat::Rgba8 => 4,
        }
    }

    /// Bytes per pixel of this format.
    pub fn bpp(self) -> (n: usize)
        ensures
            n == self.spec_bpp(),
    {
        match self {
            PixelFormat::Rgb8 => 3,
            PixelFormat::Rgba8 => 4,
        }
    }
}

/// One pixel, as 8-bit red, green, blue and alpha components.
///
/// A pixel read from an RGB image reports alpha 255: an image without
/// an alpha channel is fully opaque.
#[derive(Clone, Copy, Debug, PartialEq, Eq, Structural)]
pub struct Pixel {
    pub r: u8,
    pub g: u8,
    pub b: u8,
    pub a: u8,
}

impl Pixel {
    /// The pixel value that actually lands in a buffer of format `f`:
    /// storing into an RGB buffer drops the alpha component, and a
    /// later read reports it as 255.
    pub open spec fn stored(self, f: PixelFormat) -> Pixel {
        match f {
            PixelFormat::Rgba8 => self,
            PixelFormat::Rgb8 => Pixel { a: 255, ..self },
        }
    }

    /// Fully transparent black.
    pub open spec fn spec_zero() -> Pixel {
        Pixel { r: 0, g: 0, b: 0, a: 0 }
    }
}

/// An owned image: dimensions (both at least 1), a format tag, and a
/// contiguous row-major buffer of 3 or 4 bytes per pixel matching the
/// tag. The coordinate origin is the top-left corner, with `x` growing
/// to the right and `y` growing down.
pub struct Image {
    pub width: u32,
    pub height: u32,
    pub format: PixelFormat,
    pub data: Vec<u8>,
}

/// The channel component `c` of a pixel value (0 red, 1 green, 2 blue,
/// 3 alpha).
pub open spec fn chan_of(p: Pixel, c: int) -> u8 {
    if c == 0 {
        p.r
    } else if c == 1 {
        p.g
    } else if c == 2 {
        p.b
    } else {
        p.a
    }
}

/// A cell strictly earlier in row-major order ends before the later
/// cell begins.
pub proof fn lemma_cell_before(w: int, b: int, i: int, j: int, x: int, y: int, c: int)
    requires
        0 <= i < w,
        0 <= x <= w,
        0 <= c < b,
        j < y || (j == y && i < x),
        0 <= j,
    ensures
        (j * w + i) * b + c < (y * w + x) * b,
{
    assert((j * w + i) * b + c < (y * w + x) * b) by (nonlinear_arith)
        requires
            0 <= i < w,
            0 <= x <= w,
            0 <= c < b,
            j < y || (j == y && i < x),
            0 <= j,
    ;
}

/// Bounds and ordering facts about the flat index of a channel byte in
/// a `w` by `h` grid with `b` bytes per cell.
pub proof fn lemma_grid_index(w: int, h: int, b: int, x: int, y: int, c: int)
    requires
        0 <= x < w,
        0 <= y < h,
        0 <= c < b,
    ensures
        0 <= y * w,
        y * w + x < w * h,
        0 <= (y * w + x) * b,
        (y * w + x) * b + c < w * h * b,
        w * h <= w * h * b,
{
    assert(0 <= y * w && y * w + x < w * h && 0 <= (y * w + x) * b && (y * w + x) * b + c < w * h
        * b && w * h <= w * h * b) by (nonlinear_arith)
        requires
            0 <= x < w,
            0 <= y < h,
            0 <= c < b,
    ;
}

/// Distinct channel positions of a grid occupy distinct flat indices.
pub proof fn lemma_grid_index_distinct(
    w: int,
    h: int,
    b: int,
    x1: int,
    y1: int,
    c1: int,
    x2: int,
    y2: int,
    c2: int,
)
    requires
        0 <= x1 < w,
        0 <= y1 < h,
        0 <= c1 < b,
        0 <= x2 < w,
        0 <= y2 < h,
        0 <= c2 < b,
        !(x1 == x2 && y1 == y2 && c1 == c2),
    ensures
        (y1 * w + x1) * b + c1 != (y2 * w + x2) * b + c2,
{
    let p1 = y1 * w + x1;
    let p2 = y2 * w + x2;
    assert(p1 * b + c1 == p2 * b + c2 ==> p1 == p2 && c1 == c2) by (nonlinear_arith)
        requires
            0 <= c1 < b,
            0 <= c2 < b,
    ;
    assert(p1 == p2 ==> y1 == y2 && x1 == x2) by (nonlinear_arith)
        requires
            0 <= x1 < w,
            0 <= x2 < w,
            p1 == y1 * w + x1,
            p2 == y2 * w + x2,
    ;
}

impl Image {
    /// Well-formedness: positive dimensions and a buffer of exactly
    /// `width * height` cells of `bpp` bytes.
    pub open spec fn wf(self) -> bool {
        &&& 0 < self.width
        &&& 0 < self.height
        &&& self.data@.len() == self.width * self.height * self.format.spec_bpp()
    }

    /// Whether this image carries an alpha channel.
    pub open spec fn spec_has_alpha(self) -> bool {
        self.format is Rgba8
    }

    /// Whether this image carries an alpha channel.
    pub fn has_alpha(&self) -> (r: bool)
        ensures
            r == self.spec_has_alpha(),
    {
        match self.format {
            PixelFormat::Rgba8 => true,
            PixelFormat::Rgb8 => false,
        }
    }

    /// The byte of channel `c` of the pixel at `(x, y)`.
    pub open spec fn chan(self, x: int, y: int, c: int) -> u8 {
        self.data@[(y * self.width + x) * self.format.spec_bpp() + c]
    }

    /// The pixel at `(x, y)`. For an RGB image the alpha component
    /// reads as 255.
    pub open spec fn spec_pix(self, x: int, y: int) -> Pixel {
        Pixel {
            r: self.chan(x, y, 0),
            g: self.chan(x, y, 1),
            b: self.chan(x, y, 2),
            a: if self.format is Rgba8 {
                self.chan(x, y, 3)
            } else {
                255
            },
        }
    }

    /// Flat index of the first byte of the pixel at `(x, y)`.
    fn pixel_base(&self, x: u32, y: u32) -> (i: usize)
        requires
            self.wf(),
            x < self.width,
            y < self.height,
        ensures
            i == (y * self.width + x) * self.format.spec_bpp(),
            i + self.format.spec_bpp() <= self.data@.len(),
            i + self.format.spec_bpp() <= usize::MAX,
    {
        let b = self.format.bpp();
        let len = self.data.len();
        proof {
            lemma_grid_index(
                self.width as int,
                self.height as int,
                b as int,
                x as int,
                y as int,
                b - 1,
            );
        }
        ((y as usize) * (self.width as usize) + (x as usize)) * b
    }

    /// Read the pixel at `(x, y)`.
    pub fn get_pixel(&self, x: u32, y: u32) -> (p: Pixel)
        requires
            self.wf(),
            x < self.width,
            y < self.height,
        ensures
            p == self.spec_pix(x as int, y as int),
    {
        let base = self.pixel_base(x, y);
        let a = match self.format {
            PixelFormat::Rgba8 => self.data[base + 3],
            PixelFormat::Rgb8 => 255,
        };
        Pixel { r: self.data[base], g: self.data[base + 1], b: self.data[base + 2], a }
    }

    /// Write the pixel at `(x, y)`; in an RGB image the alpha
    /// component of `p` is dropped. No other pixel changes.
    pub fn set_pixel(&mut self, x: u32, y: u32, p: Pixel)
        requires
            old(self).wf(),
            x < old(self).width,
            y < old(self).height,
        ensures
            final(self).wf(),
            final(self).width == old(self).width,
            final(self).height == old(self).height,
            final(self).format == old(self).format,
            final(self).spec_pix(x as int, y as int) == p.stored(old(self).format),
            forall|i: int, j: int|
                0 <= i < old(self).width && 0 <= j < old(self).height && !(i == x && j == y)
                    ==> final(self).spec_pix(i, j) == old(self).spec_pix(i, j),
    {
        let ghost pre = *self;
        let base = self.pixel_base(x, y);
        self.data[base] = p.r;
        self.data[base + 1] = p.g;
        self.data[base + 2] = p.b;
        if matches!(self.format, PixelFormat::Rgba8) {
            self.data[base + 3] = p.a;
        }
        proof {
            let w = pre.width as int;
            let h = pre.height as int;
            let b = pre.format.spec_bpp();
            assert forall|i: int, j: int|
                0 <= i < w && 0 <= j < h && !(i == x && j == y) implies self.spec_pix(i, j)
                == pre.spec_pix(i, j) by {
                assert forall|c: int| 0 <= c < b implies self.chan(i, j, c) == pre.chan(
                    i,
                    j,
                    c,
                ) by {
                    lemma_grid_index(w, h, b, i, j, c);
                    lemma_grid_index_distinct(w, h, b, i, j, c, x as int, y as int, 0);
                    lemma_grid_index_distinct(w, h, b, i, j, c, x as int, y as int, 1);
                    lemma_grid_index_distinct(w, h, b, i, j, c, x as int, y as int, 2);
                    if b == 4 {
                        lemma_grid_index_distinct(w, h, b, i, j, c, x as int, y as int, 3);
                    }
                }
            }
        }
    }

    /// A fresh all-zero canvas: fully transparent for RGBA, black for
    /// RGB.
    pub fn new_canvas(width: u32, height: u32, format: PixelFormat) -> (img: Image)
        requires
            0 < width,
            0 < height,
            width * height * format.spec_bpp() <= usize::MAX,
        ensures
            img.wf(),
            img.width == width,
            img.height == height,
            img.format == format,
            forall|x: int, y: int|
                0 <= x < width && 0 <= y < height ==> img.spec_pix(x, y) == Pixel::spec_zero().stored(
                    format,
                ),
    {
        let b = format.bpp();
        proof {
            lemma_grid_index(width as int, height as int, b as int, 0, 0, 0);
            assert((width * height) * b == width * height * b) by (nonlinear_arith);
        }
        let cells = (width as usize) * (height as usize);
        let n = cells * b;
        let mut data: Vec<u8> = Vec::new();
        let mut k: usize = 0;
        while k < n
            invariant
                data@.len() == k,
                k <= n,
                forall|j: int| 0 <= j < k ==> data@[j] == 0u8,
            decreases n - k,
        {
            data.push(0u8);
            k += 1;
        }
        let img = Image { width, height, format, data };
        proof {
            assert forall|x: int, y: int| 0 <= x < width && 0 <= y < height implies img.spec_pix(
                x,
                y,
            ) == Pixel::spec_zero().stored(format) by {
                lemma_grid_index(width as int, height as int, b as int, x, y, b - 1);
            }
        }
        img
    }

    /// Wrap a raw row-major buffer as an image. Returns `None` when a
    /// dimension is zero or the buffer length does not match
    /// `width * height` cells of `bpp` bytes.
    pub fn from_raw(width: u32, height: u32, format: PixelFormat, data: Vec<u8>) -> (r: Option<
        Image,
    >)
        ensures
            (r is Some) <==> (0 < width && 0 < height && data@.len() == width * height
                * format.spec_bpp()),
            r is Some ==> {
                let img = r->0;
                &&& img.wf()
                &&& img.width == width
                &&& img.height == height
                &&& img.format == format
                &&& img.data@ == data@
            },
    {
        let b = format.bpp();
        let len0 = data.len();
        if width == 0 || height == 0 {
            return None;
        }
        match (width as usize).checked_mul(height as usize) {
            Some(cells) => match cells.checked_mul(b) {
                Some(n) => {
                    proof {
                        assert((width * height) * b == width * height * b) by (nonlinear_arith);
                    }
                    if len0 == n {
                        Some(Image { width, height, format, data })
                    } else {
                        None
                    }
                },
                None => {
                    proof {
                        assert(len0 < width * height * b) by (nonlinear_arith)
                            requires
                                cells == width * height,
                                cells * b > usize::MAX,
                                len0 <= usize::MAX,
                        ;
                    }
                    None
                },
            },
            None => {
                proof {
                    assert(len0 < width * height * b) by (nonlinear_arith)
                        requires
                            width * height > usize::MAX,
                            b >= 3,
                            len0 <= usize::MAX,
                    ;
                }
                None
            },
        }
    }

    /// An independent copy of this image.
    pub fn duplicate(&self) -> (r: Image)
        ensures
            r.width == self.width,
            r.height == self.height,
            r.format == self.format,
            r.data@ == self.data@,
    {
        let data = self.data.clone();
        proof {
            assert forall|i: int| 0 <= i < self.data@.len() implies data@[i] == self.data@[i] by {
                assert(cloned(self.data@[i], data@[i]));
            }
            assert(data@ =~= self.data@);
        }
        Image { width: self.width, height: self.height, format: self.format, data }
    }
}

/// Two well-formed images of the same dimensions and format whose
/// every pixel reads equal hold equal buffers: the pixels determine
/// the bytes.
pub proof fn lemma_pix_determines_data(a: Image, b: Image)
    requires
        a.wf(),
        b.wf(),
        a.width == b.width,
        a.height == b.height,
        a.format == b.format,
        forall|x: int, y: int|
            0 <= x < a.width && 0 <= y < a.height ==> a.spec_pix(x, y) == b.spec_pix(x, y),
    ensures
        a.data@ == b.data@,
{
    let w = a.width as int;
    let h = a.height as int;
    let bp = a.format.spec_bpp();
    assert forall|i: int| 0 <= i < a.data@.len() implies a.data@[i] == b.data@[i] by {
        vstd::arithmetic::div_mod::lemma_fundamental_div_mod(i, bp);
        vstd::arithmetic::div_mod::lemma_mod_division_less_than_divisor(i, bp);
        let pi = i / bp;
        let c = i % bp;
        vstd::arithmetic::div_mod::lemma_fundamental_div_mod(pi, w);
        vstd::arithmetic::div_mod::lemma_mod_division_less_than_divisor(pi, w);
        let y = pi / w;
        let x = pi % w;
        assert(0 <= pi && pi < w * h) by (nonlinear_arith)
            requires
                0 <= i < w * h * bp,
                i == bp * pi + c,
                0 <= c < bp,
        ;
        assert(0 <= y && y < h) by (nonlinear_arith)
            requires
                0 <= pi < w * h,
                pi == w * y + x,
                0 <= x < w,
        ;
        assert((y * w + x) * bp + c == i) by (nonlinear_arith)
            requires
                pi == w * y + x,
                i == bp * pi + c,
        ;
        assert(a.spec_pix(x, y) == b.spec_pix(x, y));
        if c == 0 {
            assert(a.spec_pix(x, y).r == b.spec_pix(x, y).r);
        } else if c == 1 {
            assert(a.spec_pix(x, y).g == b.spec_pix(x, y).g);
        } else if c == 2 {
            assert(a.spec_pix(x, y).b == b.spec_pix(x, y).b);
        } else {
            assert(c == 3 && bp == 4);
            assert(a.spec_pix(x, y).a == b.spec_pix(x, y).a);
        }
    }
    assert(a.data@ =~= b.data@);
}

/// True iff any image of the set carries an alpha channel.
pub open spec fn spec_any_alpha(s: Seq<Image>) -> bool {
    exists|k: int| 0 <= k < s.len() && s[k].spec_has_alpha()
}

/// True iff any image of the set carries an alpha channel.
pub fn has_alpha_channel(images: &Vec<Image>) -> (r: bool)
    ensures
        r == spec_any_alpha(images@),
{
    let mut k: usize = 0;
    while k < images.len()
        invariant
            k <= images@.len(),
            forall|j: int| 0 <= j < k ==> !images@[j].spec_has_alpha(),
        decreases images@.len() - k,
    {
        if images[k].has_alpha() {
            return true;
        }
        k += 1;
    }
    false
}

} // verus!
