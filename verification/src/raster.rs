use vstd::prelude::*;
use image::imageops::FilterType as Filter;
use image::DynamicImage as Picture;
use image::ImageBuffer as Buffer;
use image::GenericImageView;

verus! {

/// `y * w + x` indexes a pixel of a `w` by `h` image when `x < w` and `y < h`.
pub proof fn lemma_pixel_index(x: int, y: int, w: int, h: int)
    requires
        0 <= x < w,
        0 <= y < h,
    ensures
        0 <= y * w + x,
        y * w + x + 1 <= w * h,
{
    assert(y * w + x + 1 <= w * h) by (nonlinear_arith)
        requires
            0 <= x < w,
            0 <= y < h,
    ;
    assert(0 <= y * w) by (nonlinear_arith)
        requires
            0 <= y,
            0 <= w,
    ;
}

pub proof fn lemma_dims_product(width: u32, height: u32)
    ensures
        0 <= width * height <= 0xFFFF_FFFE_0000_0001,
{
    assert(0 <= width * height <= 0xFFFF_FFFE_0000_0001) by (nonlinear_arith)
        requires
            width <= 0xFFFF_FFFF,
            height <= 0xFFFF_FFFF,
    ;
}

/// The four channels of the pixel in column `x` and row `y` of a `width`-wide
/// RGBA image whose bytes are `pixels`.
pub open spec fn rgba_pixel_of(pixels: Seq<u8>, width: int, x: int, y: int) -> Seq<u8> {
    let i = 4 * (y * width + x);
    pixels.subrange(i, i + 4)
}

/// A grey pixel.
#[derive(Debug, Clone, Copy, PartialEq, Eq)]
pub struct Luma(pub [u8; 1]);

/// A grey pixel with an alpha channel.
#[derive(Debug, Clone, Copy, PartialEq, Eq)]
pub struct LumaA(pub [u8; 2]);

/// A red, green, blue pixel.
#[derive(Debug, Clone, Copy, PartialEq, Eq)]
pub struct Rgb(pub [u8; 3]);

/// A red, green, blue, alpha pixel.
#[derive(Debug, Clone, Copy, PartialEq, Eq)]
pub struct Rgba(pub [u8; 4]);

/// An 8-bit greyscale image: `width * height` pixels stored row by row.
#[derive(Debug, Clone)]
pub struct GrayImage {
    width: u32,
    height: u32,
    data: Vec<u8>,
}

impl GrayImage {
    pub closed spec fn spec_width(&self) -> u32 {
        self.width
    }

    pub closed spec fn spec_height(&self) -> u32 {
        self.height
    }

    /// The pixels, row by row.
    pub closed spec fn pixels(&self) -> Seq<u8> {
        self.data@
    }

    /// The buffer holds exactly one byte per pixel.
    pub open spec fn wf(&self) -> bool {
        self.pixels().len() == self.spec_width() * self.spec_height()
    }

    /// The value of the pixel in column `x` and row `y`.
    pub open spec fn pixel_at(&self, x: int, y: int) -> u8 {
        self.pixels()[y * self.spec_width() + x]
    }

    /// Builds an image from its pixels, row by row; `None` when the buffer
    /// does not hold exactly `width * height` bytes.
    pub fn from_raw(width: u32, height: u32, data: Vec<u8>) -> (r: Option<GrayImage>)
        ensures
            r is Some <==> data@.len() == width * height,
            r matches Some(img) ==> img.wf() && img.spec_width() == width && img.spec_height()
                == height && img.pixels() == data@,
    {
        proof {
            lemma_dims_product(width, height);
        }
        if data.len() as u64 == width as u64 * height as u64 {
            Some(GrayImage { width, height, data })
        } else {
            None
        }
    }

    pub fn width(&self) -> (w: u32)
        ensures
            w == self.spec_width(),
    {
        self.width
    }

    pub fn height(&self) -> (h: u32)
        ensures
            h == self.spec_height(),
    {
        self.height
    }

    /// The pixels, row by row.
    pub fn as_raw(&self) -> (r: &Vec<u8>)
        ensures
            r@ == self.pixels(),
    {
        &self.data
    }

    /// The pixel in column `x` and row `y`.
    pub fn get_pixel(&self, x: u32, y: u32) -> (p: Luma)
        requires
            self.wf(),
            x < self.spec_width(),
            y < self.spec_height(),
        ensures
            p.0[0] == self.pixel_at(x as int, y as int),
    {
        proof {
            lemma_pixel_index(x as int, y as int, self.width as int, self.height as int);
        }
        let n = self.data.len();
        assert(y * self.width <= y * self.width + x < n);
        let i = y as usize * self.width as usize + x as usize;
        Luma([self.data[i]])
    }
}

/// An 8-bit RGBA image: `width * height` pixels of four bytes each, row by row.
#[derive(Debug, Clone)]
pub struct RgbaImage {
    width: u32,
    height: u32,
    data: Vec<u8>,
}

impl RgbaImage {
    pub closed spec fn spec_width(&self) -> u32 {
        self.width
    }

    pub closed spec fn spec_height(&self) -> u32 {
        self.height
    }

    /// The channels of the pixels, pixel after pixel, row by row.
    pub closed spec fn pixels(&self) -> Seq<u8> {
        self.data@
    }

    /// The buffer holds exactly four bytes per pixel.
    pub open spec fn wf(&self) -> bool {
        self.pixels().len() == 4 * (self.spec_width() * self.spec_height())
    }

    /// The four channels of the pixel in column `x` and row `y`.
    pub open spec fn pixel_at(&self, x: int, y: int) -> Seq<u8> {
        rgba_pixel_of(self.pixels(), self.spec_width() as int, x, y)
    }

    /// Builds an image from its channels; `None` when the buffer does not
    /// hold exactly `4 * width * height` bytes.
    pub fn from_raw(width: u32, height: u32, data: Vec<u8>) -> (r: Option<RgbaImage>)
        ensures
            r is Some <==> data@.len() == 4 * (width * height),
            r matches Some(img) ==> img.wf() && img.spec_width() == width && img.spec_height()
                == height && img.pixels() == data@,
    {
        proof {
            lemma_dims_product(width, height);
        }
        if data.len() as u128 == 4 * (width as u128 * height as u128) {
            Some(RgbaImage { width, height, data })
        } else {
            None
        }
    }

    pub fn width(&self) -> (w: u32)
        ensures
            w == self.spec_width(),
    {
        self.width
    }

    pub fn height(&self) -> (h: u32)
        ensures
            h == self.spec_height(),
    {
        self.height
    }

    /// The channels of the pixels, pixel after pixel, row by row.
    pub fn as_raw(&self) -> (r: &Vec<u8>)
        ensures
            r@ == self.pixels(),
    {
        &self.data
    }

    /// The pixel in column `x` and row `y`.
    pub fn get_pixel(&self, x: u32, y: u32) -> (p: Rgba)
        requires
            self.wf(),
            x < self.spec_width(),
            y < self.spec_height(),
        ensures
            p.0@ == self.pixel_at(x as int, y as int),
    {
        proof {
            lemma_pixel_index(x as int, y as int, self.width as int, self.height as int);
        }
        let n = self.data.len();
        assert(y * self.width <= y * self.width + x);
        assert(4 * (y * self.width + x) + 4 <= self.data@.len()) by (nonlinear_arith)
            requires
                y * self.width + x + 1 <= self.width * self.height,
                self.data@.len() == 4 * (self.width * self.height),
        ;
        let i = 4 * (y as usize * self.width as usize + x as usize);
        let p = Rgba([self.data[i], self.data[i + 1], self.data[i + 2], self.data[i + 3]]);
        assert(p.0@ =~= self.pixel_at(x as int, y as int));
        p
    }
}

/// An image in one of the pixel layouts the converters work on.
#[derive(Debug, Clone)]
pub enum DynamicImage {
    ImageLuma8(GrayImage),
    ImageRgba8(RgbaImage),
}

impl DynamicImage {
    pub open spec fn wf(&self) -> bool {
        match self {
            DynamicImage::ImageLuma8(g) => g.wf(),
            DynamicImage::ImageRgba8(c) => c.wf(),
        }
    }

    pub open spec fn spec_width(&self) -> u32 {
        match self {
            DynamicImage::ImageLuma8(g) => g.spec_width(),
            DynamicImage::ImageRgba8(c) => c.spec_width(),
        }
    }

    pub open spec fn spec_height(&self) -> u32 {
        match self {
            DynamicImage::ImageLuma8(g) => g.spec_height(),
            DynamicImage::ImageRgba8(c) => c.spec_height(),
        }
    }
}


impl DynamicImage {
    pub fn width(&self) -> (w: u32)
        ensures
            w == self.spec_width(),
    {
        match self {
            DynamicImage::ImageLuma8(g) => g.width(),
            DynamicImage::ImageRgba8(c) => c.width(),
        }
    }

    pub fn height(&self) -> (h: u32)
        ensures
            h == self.spec_height(),
    {
        match self {
            DynamicImage::ImageLuma8(g) => g.height(),
            DynamicImage::ImageRgba8(c) => c.height(),
        }
    }

    /// Whether the pixels are greyscale (one byte each) rather than RGBA.
    pub open spec fn is_luma8(&self) -> bool {
        self is ImageLuma8
    }

    /// The greyscale pixels that `to_luma8` gives.
    pub open spec fn luma8_pixels(&self) -> Seq<u8> {
        luma8_view(self.is_luma8(), self.spec_width(), self.spec_height(), self.raw_pixels())
    }

    /// The RGBA bytes that `to_rgba8` gives.
    pub open spec fn rgba8_pixels(&self) -> Seq<u8> {
        if self.is_luma8() {
            rgba8_from_luma8(self.raw_pixels())
        } else {
            self.raw_pixels()
        }
    }

    /// The bytes of the pixels, row by row.
    pub open spec fn raw_pixels(&self) -> Seq<u8> {
        match self {
            DynamicImage::ImageLuma8(g) => g.pixels(),
            DynamicImage::ImageRgba8(c) => c.pixels(),
        }
    }
}

/// Greyscale pixels of an image (greyscale when `luma8`, else RGBA) of the
/// given dimensions and bytes: its own bytes, or their conversion.
pub open spec fn luma8_view(luma8: bool, width: u32, height: u32, data: Seq<u8>) -> Seq<u8> {
    if luma8 {
        data
    } else {
        luma8_of_rgba8(width, height, data)
    }
}

/// The filter that resizing samples with.
#[derive(Debug, Clone, Copy, PartialEq, Eq, Structural)]
pub enum FilterType {
    Nearest,
    Triangle,
    CatmullRom,
    Gaussian,
    Lanczos3,
}

/// Sum of the pixels in columns `x0 ..= x1` of row `y` of a `width`-wide image.
pub open spec fn row_sum(pixels: Seq<u8>, width: int, y: int, x0: int, x1: int) -> int
    decreases x1 - x0 + 1,
{
    if x1 < x0 {
        0
    } else {
        row_sum(pixels, width, y, x0, x1 - 1) + pixels[y * width + x1] as int
    }
}

/// Sum of the pixels in columns `x0 ..= x1` and rows `y0 ..= y1`.
pub open spec fn block_sum(pixels: Seq<u8>, width: int, x0: int, x1: int, y0: int, y1: int) -> int
    decreases y1 - y0 + 1,
{
    if y1 < y0 {
        0
    } else {
        block_sum(pixels, width, x0, x1, y0, y1 - 1) + row_sum(pixels, width, y1, x0, x1)
    }
}

/// First index of the block of radius `r` round `v`, clipped at 0.
pub open spec fn block_low(v: int, r: int) -> int {
    if v - r < 0 {
        0
    } else {
        v - r
    }
}

/// Last index of the block of radius `r` round `v`, clipped at `size - 1`.
pub open spec fn block_high(v: int, r: int, size: int) -> int {
    if v + r < size - 1 {
        v + r
    } else {
        size - 1
    }
}

/// Mean, rounded down, of the pixels within `r` columns and `r` rows of
/// (`x`, `y`) in a `w` by `h` image, the block being clipped at the image's
/// edges.
pub open spec fn local_mean(pixels: Seq<u8>, w: int, h: int, x: int, y: int, r: int) -> int {
    let x0 = block_low(x, r);
    let x1 = block_high(x, r, w);
    let y0 = block_low(y, r);
    let y1 = block_high(y, r, h);
    block_sum(pixels, w, x0, x1, y0, y1) / ((x1 - x0 + 1) * (y1 - y0 + 1))
}

/// Adaptive thresholding of a `w` by `h` image: white where a pixel is at
/// least the mean of its block, black elsewhere.
pub open spec fn thresholded_pixel(pixels: Seq<u8>, w: int, h: int, x: int, y: int, r: int) -> u8 {
    if pixels[y * w + x] as int >= local_mean(pixels, w, h, x, y, r) {
        255
    } else {
        0
    }
}

/// Sum of the pixels in the first `cols` columns of the first `rows` rows.
pub open spec fn prefix_sum(pixels: Seq<u8>, width: int, cols: int, rows: int) -> int {
    block_sum(pixels, width, 0, cols - 1, 0, rows - 1)
}

/// Number of rows (or columns) that a block of radius `r` spans at most in
/// an image `n` rows (or columns) high.
pub open spec fn block_span(n: int, r: int) -> int {
    if n < 2 * r + 1 {
        n
    } else {
        2 * r + 1
    }
}

/// The local thresholding of a `width` by `height` image with the bytes
/// `pixels` runs with `block_radius` without overflow: the radius is positive
/// and fits an `i32`, so do both dimensions, the pixel count of a block fits a
/// `u32`, and so does the largest sum of two corners of the running sums that
/// it takes for a block (that of the last pixel: the whole image plus the part
/// above and left of its block).
pub open spec fn threshold_limits(pixels: Seq<u8>, width: u32, height: u32, block_radius: u32) -> bool {
    let w = width as int;
    let h = height as int;
    let r = block_radius as int;
    &&& 0 < r <= 0x7FFF_FFFF
    &&& w <= 0x7FFF_FFFF && h <= 0x7FFF_FFFF
    &&& block_span(w, r) * block_span(h, r) <= u32::MAX
    &&& prefix_sum(pixels, w, w, h) + prefix_sum(
        pixels,
        w,
        block_low(w - 1, r),
        block_low(h - 1, r),
    ) <= u32::MAX
}

proof fn lemma_row_sum_nonneg(pixels: Seq<u8>, width: int, y: int, x0: int, x1: int)
    ensures
        row_sum(pixels, width, y, x0, x1) >= 0,
    decreases x1 - x0 + 1,
{
    if x1 >= x0 {
        lemma_row_sum_nonneg(pixels, width, y, x0, x1 - 1);
    }
}

proof fn lemma_row_sum_mono(pixels: Seq<u8>, width: int, y: int, x0: int, a: int, b: int)
    requires
        a <= b,
    ensures
        row_sum(pixels, width, y, x0, a) <= row_sum(pixels, width, y, x0, b),
    decreases b - a,
{
    if a < b {
        lemma_row_sum_mono(pixels, width, y, x0, a, b - 1);
        if b >= x0 {
            lemma_row_sum_nonneg(pixels, width, y, x0, b - 1);
        }
    }
}

proof fn lemma_block_sum_nonneg(pixels: Seq<u8>, width: int, x0: int, x1: int, y0: int, y1: int)
    ensures
        block_sum(pixels, width, x0, x1, y0, y1) >= 0,
    decreases y1 - y0 + 1,
{
    if y1 >= y0 {
        lemma_block_sum_nonneg(pixels, width, x0, x1, y0, y1 - 1);
        lemma_row_sum_nonneg(pixels, width, y1, x0, x1);
    }
}

proof fn lemma_block_sum_mono(pixels: Seq<u8>, width: int, x0: int, x1: int, y0: int, a: int, b: int)
    requires
        a <= b,
    ensures
        block_sum(pixels, width, x0, x1, y0, a) <= block_sum(pixels, width, x0, x1, y0, b),
    decreases b - a,
{
    if a < b {
        lemma_block_sum_mono(pixels, width, x0, x1, y0, a, b - 1);
        if b >= y0 {
            lemma_row_sum_nonneg(pixels, width, b, x0, x1);
        }
    }
}

proof fn lemma_row_sum_bound(pixels: Seq<u8>, width: int, y: int, x0: int, x1: int)
    requires
        x0 <= x1 + 1,
    ensures
        row_sum(pixels, width, y, x0, x1) <= 255 * (x1 - x0 + 1),
    decreases x1 - x0 + 1,
{
    if x1 >= x0 {
        lemma_row_sum_bound(pixels, width, y, x0, x1 - 1);
    }
}

proof fn lemma_block_sum_bound(pixels: Seq<u8>, width: int, x0: int, x1: int, y0: int, y1: int)
    requires
        x0 <= x1 + 1,
        y0 <= y1 + 1,
    ensures
        block_sum(pixels, width, x0, x1, y0, y1) <= 255 * ((x1 - x0 + 1) * (y1 - y0 + 1)),
    decreases y1 - y0 + 1,
{
    if y1 >= y0 {
        lemma_block_sum_bound(pixels, width, x0, x1, y0, y1 - 1);
        lemma_row_sum_bound(pixels, width, y1, x0, x1);
        let n = x1 - x0 + 1;
        assert(n * (y1 - y0) + n == n * (y1 - y0 + 1)) by (nonlinear_arith);
    }
}

/// The local thresholding of any image of at most 8421504 pixels (so that
/// twice its largest pixel sum, `2 * 255 * 8421504`, fits a `u32`) runs
/// without overflow with any positive block radius that fits an `i32`.
pub proof fn lemma_threshold_limits_hold(
    pixels: Seq<u8>,
    width: u32,
    height: u32,
    block_radius: u32,
)
    requires
        0 < block_radius <= 0x7FFF_FFFF,
        0 < width,
        0 < height,
        width * height <= 8421504,
    ensures
        threshold_limits(pixels, width, height, block_radius),
{
    let w = width as int;
    let h = height as int;
    let r = block_radius as int;
    assert(w <= w * h && h <= w * h) by (nonlinear_arith)
        requires
            0 < w,
            0 < h,
    ;
    let sw = block_span(w, r);
    let sh = block_span(h, r);
    assert(sw * sh <= w * h) by (nonlinear_arith)
        requires
            0 < sw <= w,
            0 < sh <= h,
    ;
    lemma_block_sum_bound(pixels, w, 0, w - 1, 0, h - 1);
    let bx = block_low(w - 1, r);
    let by = block_low(h - 1, r);
    lemma_block_sum_bound(pixels, w, 0, bx - 1, 0, by - 1);
    assert(bx * by <= w * h) by (nonlinear_arith)
        requires
            0 <= bx <= w,
            0 <= by <= h,
    ;
}

impl GrayImage {
    /// Sum of the pixels in the first `cols` columns of the first `rows` rows,
    /// or `None` when it exceeds `limit`.
    fn prefix_sum_upto(&self, cols: u32, rows: u32, limit: u64) -> (r: Option<u64>)
        requires
            self.wf(),
            cols <= self.spec_width(),
            rows <= self.spec_height(),
            limit <= u32::MAX,
        ensures
            r is Some <==> prefix_sum(self.pixels(), self.spec_width() as int, cols as int, rows as int)
                <= limit,
            r matches Some(s) ==> s == prefix_sum(
                self.pixels(),
                self.spec_width() as int,
                cols as int,
                rows as int,
            ),
    {
        let ghost p = self.pixels();
        let ghost w = self.spec_width() as int;
        let mut acc: u64 = 0;
        let mut y: u32 = 0;
        while y < rows
            invariant
                self.wf(),
                p == self.pixels(),
                w == self.spec_width(),
                cols <= self.spec_width(),
                rows <= self.spec_height(),
                limit <= u32::MAX,
                y <= rows,
                acc == prefix_sum(p, w, cols as int, y as int),
                acc <= limit,
            decreases rows - y,
        {
            let mut x: u32 = 0;
            while x < cols
                invariant
                    self.wf(),
                    p == self.pixels(),
                    w == self.spec_width(),
                    cols <= self.spec_width(),
                    rows <= self.spec_height(),
                    limit <= u32::MAX,
                    y < rows,
                    x <= cols,
                    acc == prefix_sum(p, w, cols as int, y as int) + row_sum(p, w, y as int, 0, x - 1),
                    acc <= limit,
                decreases cols - x,
            {
                let v = self.get_pixel(x, y).0[0];
                acc = acc + v as u64;
                if acc > limit {
                    proof {
                        lemma_row_sum_mono(p, w, y as int, 0, x as int, cols - 1);
                        lemma_block_sum_mono(p, w, 0, cols - 1, 0, y as int, rows - 1);
                        lemma_row_sum_nonneg(p, w, y as int, 0, x as int);
                    }
                    return None;
                }
                x = x + 1;
            }
            y = y + 1;
        }
        Some(acc)
    }
}

/// Whether the local thresholding of `img` with `block_radius` runs without
/// overflow (see [`threshold_limits`]).
pub fn threshold_fits(img: &GrayImage, block_radius: u32) -> (b: bool)
    requires
        img.wf(),
    ensures
        b == threshold_limits(img.pixels(), img.spec_width(), img.spec_height(), block_radius),
{
    let w = img.width();
    let h = img.height();
    if block_radius == 0 || block_radius > 0x7FFF_FFFF || w > 0x7FFF_FFFF || h > 0x7FFF_FFFF {
        return false;
    }
    let side = 2 * block_radius as u64 + 1;
    let span_w = if (w as u64) < side {
        w as u64
    } else {
        side
    };
    let span_h = if (h as u64) < side {
        h as u64
    } else {
        side
    };
    assert(span_w * span_h <= 0x7FFF_FFFF * 0x7FFF_FFFF) by (nonlinear_arith)
        requires
            span_w <= 0x7FFF_FFFF,
            span_h <= 0x7FFF_FFFF,
    ;
    if span_w * span_h > u32::MAX as u64 {
        return false;
    }
    let total = match img.prefix_sum_upto(w, h, u32::MAX as u64) {
        Some(t) => t,
        None => {
            proof {
                lemma_block_sum_nonneg(
                    img.pixels(),
                    w as int,
                    0,
                    block_low(w - 1, block_radius as int) - 1,
                    0,
                    block_low(h - 1, block_radius as int) - 1,
                );
            }
            return false;
        },
    };
    let x0 = if w == 0 || w - 1 < block_radius {
        0
    } else {
        w - 1 - block_radius
    };
    let y0 = if h == 0 || h - 1 < block_radius {
        0
    } else {
        h - 1 - block_radius
    };
    match img.prefix_sum_upto(x0, y0, u32::MAX as u64 - total) {
        Some(_) => true,
        None => false,
    }
}

/// Calls `imageproc::contrast::adaptive_threshold`. Its source computes, for
/// every pixel, the mean (rounded down) of the block of radius
/// `block_radius` round it, clipped at the image's edges, and makes the pixel
/// white (255) when it is at least that mean, black (0) otherwise; the
/// result has the input's dimensions. It asserts `block_radius > 0`; it adds
/// 1 to each dimension, casts coordinates and the radius to `i32`, and keeps
/// block pixel counts and sums of corners of its running sums in `u32`, all
/// of which must not overflow ([`threshold_limits`]). Left unsaid: that a
/// very large image can exhaust memory while its running sums are allocated.
#[verifier::external_body]
pub(crate) fn adaptive_threshold(image: &GrayImage, block_radius: u32) -> (out: GrayImage)
    requires
        image.wf(),
        threshold_limits(image.pixels(), image.spec_width(), image.spec_height(), block_radius),
    ensures
        out.wf(),
        out.spec_width() == image.spec_width(),
        out.spec_height() == image.spec_height(),
        forall|x: int, y: int|
            0 <= x < image.spec_width() && 0 <= y < image.spec_height() ==> #[trigger] out.pixel_at(
                x,
                y,
            ) == thresholded_pixel(
                image.pixels(),
                image.spec_width() as int,
                image.spec_height() as int,
                x,
                y,
                block_radius as int,
            ),
{
    let buffer = image::GrayImage::from_raw(image.width, image.height, image.data.clone()).unwrap();
    let out = imageproc::contrast::adaptive_threshold(&buffer, block_radius);
    GrayImage { width: out.width(), height: out.height(), data: out.into_raw() }
}

/// What `image::DynamicImage::to_luma8` gives for an RGBA image of the given
/// dimensions and bytes: its greyscale pixels, row by row.
pub uninterp spec fn luma8_of_rgba8(width: u32, height: u32, data: Seq<u8>) -> Seq<u8>;

/// RGBA bytes of greyscale pixels: each grey level `l` becomes `[l, l, l, 255]`.
pub open spec fn rgba8_from_luma8(data: Seq<u8>) -> Seq<u8> {
    Seq::new(4 * data.len(), |i: int| if i % 4 == 3 { 255u8 } else { data[i / 4] })
}

/// What `image::DynamicImage::resize` gives for an image (greyscale when
/// `luma8`, else RGBA) of the given dimensions and bytes, resized to fit
/// `nwidth` by `nheight` with `filter`: the new width, height and bytes.
pub uninterp spec fn resized_image(
    luma8: bool,
    width: u32,
    height: u32,
    data: Seq<u8>,
    nwidth: u32,
    nheight: u32,
    filter: FilterType,
) -> (u32, u32, Seq<u8>);

impl DynamicImage {
    /// Calls `image::DynamicImage::to_luma8`. Its source returns a copy of a
    /// greyscale image, and converts any other image pixel by pixel, keeping
    /// its dimensions; the converted pixels are named, not stated.
    #[verifier::external_body]
    pub(crate) fn to_luma8(&self) -> (out: GrayImage)
        requires
            self.wf(),
        ensures
            out.wf(),
            out.spec_width() == self.spec_width(),
            out.spec_height() == self.spec_height(),
            self.is_luma8() ==> out.pixels() == self.raw_pixels(),
            !self.is_luma8() ==> out.pixels() == luma8_of_rgba8(
                self.spec_width(),
                self.spec_height(),
                self.raw_pixels(),
            ),
    {
        let out = match self {
            DynamicImage::ImageLuma8(g) => image::DynamicImage::ImageLuma8(
                image::GrayImage::from_raw(g.width, g.height, g.data.clone()).unwrap(),
            ),
            DynamicImage::ImageRgba8(c) => image::DynamicImage::ImageRgba8(
                image::RgbaImage::from_raw(c.width, c.height, c.data.clone()).unwrap(),
            ),
        }.to_luma8();
        GrayImage { width: out.width(), height: out.height(), data: out.into_raw() }
    }

    /// Calls `image::DynamicImage::to_rgba8`. Its source returns a copy of an
    /// RGBA image and keeps the dimensions; a grey level `l` becomes
    /// `[l, l, l, 255]` (it is scaled to `l / 255` in `f32` and back with
    /// rounding, which gives `l` again).
    #[verifier::external_body]
    pub(crate) fn to_rgba8(&self) -> (out: RgbaImage)
        requires
            self.wf(),
        ensures
            out.wf(),
            out.spec_width() == self.spec_width(),
            out.spec_height() == self.spec_height(),
            !self.is_luma8() ==> out.pixels() == self.raw_pixels(),
            self.is_luma8() ==> out.pixels() == rgba8_from_luma8(self.raw_pixels()),
    {
        let out = match self {
            DynamicImage::ImageLuma8(g) => image::DynamicImage::ImageLuma8(
                image::GrayImage::from_raw(g.width, g.height, g.data.clone()).unwrap(),
            ),
            DynamicImage::ImageRgba8(c) => image::DynamicImage::ImageRgba8(
                image::RgbaImage::from_raw(c.width, c.height, c.data.clone()).unwrap(),
            ),
        }.to_rgba8();
        RgbaImage { width: out.width(), height: out.height(), data: out.into_raw() }
    }

    /// Calls `image::DynamicImage::resize`, which keeps the pixel layout and
    /// the aspect ratio. Its source returns a copy when the requested size is
    /// the image's own size; otherwise the new size and pixels are named, not
    /// stated, except that the new size fits the requested one (its
    /// `resize_dimensions` scales both sides by the smaller of the two ratios
    /// and rounds, giving at least 1). Left unsaid: the exact new size, and
    /// that a very large requested size can exhaust memory while the new
    /// buffer is allocated.
    #[verifier::external_body]
    pub(crate) fn resize(&self, nwidth: u32, nheight: u32, filter: FilterType) -> (out: DynamicImage)
        requires
            self.wf(),
        ensures
            out.wf(),
            out.is_luma8() == self.is_luma8(),
            (out.spec_width(), out.spec_height(), out.raw_pixels()) == resized_image(
                self.is_luma8(),
                self.spec_width(),
                self.spec_height(),
                self.raw_pixels(),
                nwidth,
                nheight,
                filter,
            ),
            out.spec_width() <= if nwidth == 0 {
                1
            } else {
                nwidth
            },
            out.spec_height() <= if nheight == 0 {
                1
            } else {
                nheight
            },
            (nwidth == self.spec_width() && nheight == self.spec_height()) ==> (
            out.spec_width() == self.spec_width() && out.spec_height() == self.spec_height()
                && out.raw_pixels() == self.raw_pixels()),
    {
        let f = [Filter::Nearest, Filter::Triangle, Filter::CatmullRom, Filter::Gaussian, Filter::Lanczos3][filter as usize];
        let d = match self {
            DynamicImage::ImageLuma8(g) => Picture::ImageLuma8(Buffer::from_raw(g.width, g.height, g.data.clone()).unwrap()),
            DynamicImage::ImageRgba8(c) => Picture::ImageRgba8(Buffer::from_raw(c.width, c.height, c.data.clone()).unwrap()),
        };
        let o = d.resize(nwidth, nheight, f);
        let (width, height) = o.dimensions();
        match self {
            DynamicImage::ImageLuma8(_) => DynamicImage::ImageLuma8(GrayImage { width, height, data: o.into_bytes() }),
            DynamicImage::ImageRgba8(_) => DynamicImage::ImageRgba8(RgbaImage { width, height, data: o.into_bytes() }),
        }
    }
}

/// Luma of an sRGB colour as the `image` crate computes it for 8-bit
/// channels: `(2126 r + 7152 g + 722 b) / 10000`, rounded down.
pub open spec fn srgb_luma(r: u8, g: u8, b: u8) -> u8 {
    ((2126 * r + 7152 * g + 722 * b) / 10000) as u8
}

impl Rgb {
    /// Calls `image::Pixel::to_luma` on an `image::Rgb<u8>`; its source
    /// computes the luma in `u32` as `(2126 r + 7152 g + 722 b) / 10000`.
    #[verifier::external_body]
    pub(crate) fn to_luma(&self) -> (l: Luma)
        ensures
            l.0[0] == srgb_luma(self.0[0], self.0[1], self.0[2]),
    {
        Luma(image::Pixel::to_luma(&image::Rgb(self.0)).0)
    }
}

impl Rgba {
    /// Calls `image::Pixel::to_luma_alpha` on an `image::Rgba<u8>`; its source
    /// computes the luma of the colour channels as `to_luma` does and keeps
    /// the alpha channel.
    #[verifier::external_body]
    pub(crate) fn to_luma_alpha(&self) -> (l: LumaA)
        ensures
            l.0[0] == srgb_luma(self.0[0], self.0[1], self.0[2]),
            l.0[1] == self.0[3],
    {
        LumaA(image::Pixel::to_luma_alpha(&image::Rgba(self.0)).0)
    }
}

} // verus!
