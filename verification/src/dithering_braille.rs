use vstd::prelude::*;
use vstd::arithmetic::div_mod::lemma_fundamental_div_mod_converse;
use crate::art::{AsciiArt, AsciiArtPixel, SizeError};
use crate::braille::{
    boolean_array_to_braille, braille_code, calc_braille_pixels, dot_dx, dot_dy, lemma_braille_dot,
    lemma_cell_inside,
};
use crate::raster::{lemma_pixel_index, rgba_pixel_of, srgb_luma, DynamicImage, Luma, LumaA, Rgb, Rgba, RgbaImage};

verus! {

/// How a pixel is drawn by dithering braille art.
#[derive(Debug, Clone, Copy, PartialEq, Eq, Structural)]
pub enum DitheringBrailleThreshold {
    White,
    Gray,
    Black,
}

/// Threshold of a grey level: white above two thirds of 255 (170), grey above
/// one third (85), black otherwise.
pub open spec fn luma_threshold(l: int) -> DitheringBrailleThreshold {
    if l > 170 {
        DitheringBrailleThreshold::White
    } else if l > 85 {
        DitheringBrailleThreshold::Gray
    } else {
        DitheringBrailleThreshold::Black
    }
}

/// Threshold of a grey level `l` under alpha `a`: on `l * a`, white above two
/// thirds of `255 * 255` (43350), grey above one third (21675), black
/// otherwise.
pub open spec fn luma_alpha_threshold(l: int, a: int) -> DitheringBrailleThreshold {
    if l * a > 43350 {
        DitheringBrailleThreshold::White
    } else if l * a > 21675 {
        DitheringBrailleThreshold::Gray
    } else {
        DitheringBrailleThreshold::Black
    }
}

/// Rank of a class, from dark to light.
pub open spec fn threshold_rank(t: DitheringBrailleThreshold) -> int {
    match t {
        DitheringBrailleThreshold::Black => 0,
        DitheringBrailleThreshold::Gray => 1,
        DitheringBrailleThreshold::White => 2,
    }
}

/// A lighter grey level is never put in a darker class.
pub proof fn lemma_luma_threshold_monotone(a: int, b: int)
    requires
        a <= b,
    ensures
        threshold_rank(luma_threshold(a)) <= threshold_rank(luma_threshold(b)),
{
}

/// Under the same alpha, a lighter grey level is never put in a darker class.
pub proof fn lemma_luma_alpha_threshold_monotone(a: int, b: int, alpha: int)
    requires
        a <= b,
        0 <= alpha,
    ensures
        threshold_rank(luma_alpha_threshold(a, alpha)) <= threshold_rank(
            luma_alpha_threshold(b, alpha),
        ),
{
    assert(a * alpha <= b * alpha) by (nonlinear_arith)
        requires
            a <= b,
            0 <= alpha,
    ;
}

/// Threshold of an RGBA pixel given by its four channels.
pub open spec fn rgba_threshold(p: Seq<u8>) -> DitheringBrailleThreshold {
    luma_alpha_threshold(srgb_luma(p[0], p[1], p[2]) as int, p[3] as int)
}

/// Classifies a pixel for dithering braille art.
pub trait DitheringBraillePixel {
    /// The class of the pixel.
    spec fn threshold_of(&self) -> DitheringBrailleThreshold;

    fn dithering_braille_pixel(&self) -> (t: DitheringBrailleThreshold)
        ensures
            t == self.threshold_of(),
    ;
}

impl DitheringBraillePixel for Luma {
    open spec fn threshold_of(&self) -> DitheringBrailleThreshold {
        luma_threshold(self.0[0] as int)
    }

    fn dithering_braille_pixel(&self) -> (t: DitheringBrailleThreshold) {
        // 255 * 2 / 3 and 255 / 3 are whole: 170 and 85.
        if self.0[0] > 170 {
            return DitheringBrailleThreshold::White;
        } else if self.0[0] > 85 {
            return DitheringBrailleThreshold::Gray;
        }
        DitheringBrailleThreshold::Black
    }
}

impl DitheringBraillePixel for LumaA {
    open spec fn threshold_of(&self) -> DitheringBrailleThreshold {
        luma_alpha_threshold(self.0[0] as int, self.0[1] as int)
    }

    fn dithering_braille_pixel(&self) -> (t: DitheringBrailleThreshold) {
        assert(self.0[0] * self.0[1] <= 255 * 255) by (nonlinear_arith)
            requires
                self.0[0] <= 255,
                self.0[1] <= 255,
        ;
        let p = self.0[0] as u16 * self.0[1] as u16;
        // 255 * 255 * 2 / 3 and 255 * 255 / 3 are whole: 43350 and 21675.
        if p > 43350 {
            return DitheringBrailleThreshold::White;
        } else if p > 21675 {
            return DitheringBrailleThreshold::Gray;
        }
        DitheringBrailleThreshold::Black
    }
}

impl DitheringBraillePixel for Rgb {
    open spec fn threshold_of(&self) -> DitheringBrailleThreshold {
        luma_threshold(srgb_luma(self.0[0], self.0[1], self.0[2]) as int)
    }

    fn dithering_braille_pixel(&self) -> (t: DitheringBrailleThreshold) {
        self.to_luma().dithering_braille_pixel()
    }
}

impl DitheringBraillePixel for Rgba {
    open spec fn threshold_of(&self) -> DitheringBrailleThreshold {
        rgba_threshold(self.0@)
    }

    fn dithering_braille_pixel(&self) -> (t: DitheringBrailleThreshold) {
        self.to_luma_alpha().dithering_braille_pixel()
    }
}


/// A grey pixel is white above 170, grey above 85 and black otherwise.
pub proof fn lemma_luma_class(p: Luma)
    ensures
        (p.threshold_of() == DitheringBrailleThreshold::White) <==> p.0[0] > 170,
        (p.threshold_of() == DitheringBrailleThreshold::Gray) <==> 85 < p.0[0] <= 170,
        (p.threshold_of() == DitheringBrailleThreshold::Black) <==> p.0[0] <= 85,
{
}

/// The class of a grey pixel with alpha depends on the product of its grey
/// level and its alpha alone: white above 43350, grey above 21675, black
/// otherwise.
pub proof fn lemma_luma_alpha_class(p: LumaA)
    ensures
        (p.threshold_of() == DitheringBrailleThreshold::White) <==> p.0[0] * p.0[1] > 43350,
        (p.threshold_of() == DitheringBrailleThreshold::Gray) <==> 21675 < p.0[0] * p.0[1]
            <= 43350,
        (p.threshold_of() == DitheringBrailleThreshold::Black) <==> p.0[0] * p.0[1] <= 21675,
{
}

/// Two grey pixels with alpha whose grey level times alpha agree are put in
/// the same class.
pub proof fn lemma_luma_alpha_same_product(p: LumaA, q: LumaA)
    requires
        p.0[0] * p.0[1] == q.0[0] * q.0[1],
    ensures
        p.threshold_of() == q.threshold_of(),
{
}

/// An opaque grey pixel with alpha is put in the class of the same grey
/// pixel without alpha.
pub proof fn lemma_opaque_luma_alpha_is_luma(p: LumaA, q: Luma)
    requires
        p.0[1] == 255,
        p.0[0] == q.0[0],
    ensures
        p.threshold_of() == q.threshold_of(),
{
    let l = p.0[0] as int;
    assert(l * 255 > 43350 <==> l > 170) by (nonlinear_arith);
    assert(l * 255 > 21675 <==> l > 85) by (nonlinear_arith);
}

/// The sRGB luma `(2126 r + 7152 g + 722 b) / 10000` of three channels is at
/// most 255, so `srgb_luma` keeps it whole.
proof fn lemma_srgb_luma_exact(r: u8, g: u8, b: u8)
    ensures
        (2126 * r + 7152 * g + 722 * b) / 10000 <= 255,
        srgb_luma(r, g, b) as int == (2126 * r + 7152 * g + 722 * b) / 10000,
{
    assert(0 <= 2126 * r + 7152 * g + 722 * b <= 2550000);
    assert((2126 * r + 7152 * g + 722 * b) / 10000 <= 255);
}

/// An RGB pixel is put in the class of the grey pixel of its luma
/// `(2126 r + 7152 g + 722 b) / 10000`: white above 170, grey above 85,
/// black otherwise.
pub proof fn lemma_rgb_class(p: Rgb, q: Luma)
    requires
        q.0[0] == (2126 * p.0[0] + 7152 * p.0[1] + 722 * p.0[2]) / 10000,
    ensures
        p.threshold_of() == q.threshold_of(),
        (p.threshold_of() == DitheringBrailleThreshold::White) <==> (2126 * p.0[0] + 7152 * p.0[1]
            + 722 * p.0[2]) / 10000 > 170,
        (p.threshold_of() == DitheringBrailleThreshold::Black) <==> (2126 * p.0[0] + 7152 * p.0[1]
            + 722 * p.0[2]) / 10000 <= 85,
{
    lemma_srgb_luma_exact(p.0[0], p.0[1], p.0[2]);
}

/// An RGBA pixel is put in the class of the grey pixel with alpha made of its
/// luma `(2126 r + 7152 g + 722 b) / 10000` and its alpha: on luma times
/// alpha, white above 43350, grey above 21675, black otherwise.
pub proof fn lemma_rgba_class(p: Rgba, q: LumaA)
    requires
        q.0[0] == (2126 * p.0[0] + 7152 * p.0[1] + 722 * p.0[2]) / 10000,
        q.0[1] == p.0[3],
    ensures
        p.threshold_of() == q.threshold_of(),
        (p.threshold_of() == DitheringBrailleThreshold::White) <==> ((2126 * p.0[0] + 7152 * p.0[1]
            + 722 * p.0[2]) / 10000) * p.0[3] > 43350,
        (p.threshold_of() == DitheringBrailleThreshold::Black) <==> ((2126 * p.0[0] + 7152 * p.0[1]
            + 722 * p.0[2]) / 10000) * p.0[3] <= 21675,
{
    lemma_srgb_luma_exact(p.0[0], p.0[1], p.0[2]);
}


/// Whether the dot of a pixel in column `x` and row `y` is raised: always for
/// a white pixel, never for a black one, and for a grey one where `x` and `y`
/// have the same parity (a checkerboard).
pub open spec fn dither_dot(t: DitheringBrailleThreshold, x: int, y: int) -> bool {
    match t {
        DitheringBrailleThreshold::Gray => x % 2 == y % 2,
        DitheringBrailleThreshold::White => true,
        DitheringBrailleThreshold::Black => false,
    }
}

/// Dots of the cell in column `cx` and row `cy` of a `width`-wide RGBA image
/// whose bytes are `pixels`.
pub open spec fn dither_cell_dots(pixels: Seq<u8>, width: int, cx: int, cy: int) -> Seq<bool> {
    Seq::new(
        8,
        |i: int|
            {
                let x = 2 * cx + dot_dx(i);
                let y = 4 * cy + dot_dy(i);
                dither_dot(rgba_threshold(rgba_pixel_of(pixels, width, x, y)), x, y)
            },
    )
}

/// `art` is the dithering braille art of a `width` by `height` RGBA image whose
/// bytes are `pixels`: one character per whole 2 by 4 block, `width / 2`
/// columns by `height / 4` rows, row by row, each in the colour of the top-left
/// pixel of its block.
pub open spec fn is_dithering_art(
    art: AsciiArt,
    width: u32,
    height: u32,
    pixels: Seq<u8>,
    colored: bool,
) -> bool {
    let cols = (width / 2) as int;
    let rows = (height / 4) as int;
    &&& art.width == cols
    &&& art.height == rows
    &&& art.colored == colored
    &&& art.characters@.len() == cols * rows
    &&& forall|k: int|
        0 <= k < cols * rows ==> {
            let p = #[trigger] art.characters@[k];
            let top_left = rgba_pixel_of(pixels, width as int, 2 * (k % cols), 4 * (k / cols));
            &&& p.character as u32 == braille_code(
                dither_cell_dots(pixels, width as int, k % cols, k / cols),
            )
            &&& p.r == top_left[0] && p.g == top_left[1] && p.b == top_left[2] && p.a
                == top_left[3]
        }
}

/// In dithering braille art of a `width` by `height` RGBA image whose bytes are
/// `pixels`, dot `i` of the character of cell `k` lies on the pixel in column
/// `x` and row `y` (dots 0, 1, 2, 6 down the left column of the cell, dots 3,
/// 4, 5, 7 down the right one) and is raised exactly when that pixel's own
/// luma `(2126 r + 7152 g + 722 b) / 10000` times its alpha is above 43350
/// (white), or is above 21675 (grey) with `x` and `y` of the same parity; the
/// character has the colour of the top-left pixel of its cell.
pub proof fn lemma_dithering_dot(
    art: AsciiArt,
    width: u32,
    height: u32,
    pixels: Seq<u8>,
    colored: bool,
    k: int,
    i: u32,
)
    requires
        is_dithering_art(art, width, height, pixels, colored),
        pixels.len() == 4 * (width * height),
        0 <= k < art.characters@.len(),
        i < 8,
    ensures
        ({
            let cols = (width / 2) as int;
            let x = 2 * (k % cols) + seq![0int, 0, 0, 1, 1, 1, 0, 1][i as int];
            let y = 4 * (k / cols) + seq![0int, 1, 2, 0, 1, 2, 3, 3][i as int];
            let b = 4 * (y * width + x);
            let luma = (2126 * pixels[b] + 7152 * pixels[b + 1] + 722 * pixels[b + 2]) / 10000;
            let lit = luma * pixels[b + 3];
            let offset = (art.characters@[k].character as u32 - 0x2800) as u32;
            &&& 0 <= x < width
            &&& 0 <= y < height
            &&& ((offset >> i) & 1u32 == 1u32) == (lit > 43350 || (lit > 21675 && x % 2 == y
                % 2))
        }),
        ({
            let cols = (width / 2) as int;
            let c = 4 * ((4 * (k / cols)) * width + 2 * (k % cols));
            let p = art.characters@[k];
            p.r == pixels[c] && p.g == pixels[c + 1] && p.b == pixels[c + 2] && p.a == pixels[c
                + 3]
        }),
{
    let cols = (width / 2) as int;
    let rows = (height / 4) as int;
    let p = art.characters@[k];
    assert(cols > 0) by {
        if cols == 0 {
            assert(cols * rows == 0) by (nonlinear_arith)
                requires
                    cols == 0,
            ;
        }
    }
    lemma_cell_inside(width, height, k);
    let cx = k % cols;
    let cy = k / cols;
    let dots = dither_cell_dots(pixels, width as int, cx, cy);
    assert(p.character as u32 == braille_code(dots));
    lemma_braille_dot(dots, i);
    let ii = i as int;
    let x = 2 * cx + dot_dx(ii);
    let y = 4 * cy + dot_dy(ii);
    assert(dot_dx(ii) == seq![0int, 0, 0, 1, 1, 1, 0, 1][ii]);
    assert(dot_dy(ii) == seq![0int, 1, 2, 0, 1, 2, 3, 3][ii]);
    lemma_pixel_index(x, y, width as int, height as int);
    let b = 4 * (y * width + x);
    let q = rgba_pixel_of(pixels, width as int, x, y);
    assert(q[0] == pixels[b] && q[1] == pixels[b + 1] && q[2] == pixels[b + 2] && q[3]
        == pixels[b + 3]);
    lemma_srgb_luma_exact(q[0], q[1], q[2]);
    lemma_pixel_index(2 * cx, 4 * cy, width as int, height as int);
    let c = 4 * ((4 * cy) * width + 2 * cx);
    let t = rgba_pixel_of(pixels, width as int, 2 * cx, 4 * cy);
    assert(t[0] == pixels[c] && t[1] == pixels[c + 1] && t[2] == pixels[c + 2] && t[3]
        == pixels[c + 3]);
}

/// Converts an image into dithering braille art.
pub trait DitheringBrailleConverter {
    /// The image is well formed.
    spec fn is_convertible(&self) -> bool;

    /// Width of the RGBA image that is drawn.
    spec fn rgba_width(&self) -> u32;

    /// Height of the RGBA image that is drawn.
    spec fn rgba_height(&self) -> u32;

    /// Bytes, pixel after pixel and row by row, of the RGBA image that is drawn.
    spec fn rgba_pixels(&self) -> Seq<u8>;

    /// Too small an image (under 4 by 8) is refused; otherwise one braille
    /// character is drawn per 2 by 4 block of pixels, raising the dots of
    /// white pixels and a checkerboard of the dots of grey pixels, in the
    /// colour of the block's top-left pixel.
    fn dithering_braille_art(&self, colored: bool) -> (r: Result<AsciiArt, SizeError>)
        requires
            self.is_convertible(),
        ensures
            r is Err <==> (self.rgba_width() < 4 || self.rgba_height() < 8),
            r matches Ok(art) ==> is_dithering_art(
                art,
                self.rgba_width(),
                self.rgba_height(),
                self.rgba_pixels(),
                colored,
            ),
    ;
}

impl DitheringBrailleConverter for RgbaImage {
    open spec fn is_convertible(&self) -> bool {
        self.wf()
    }

    open spec fn rgba_width(&self) -> u32 {
        self.spec_width()
    }

    open spec fn rgba_height(&self) -> u32 {
        self.spec_height()
    }

    open spec fn rgba_pixels(&self) -> Seq<u8> {
        self.pixels()
    }

    fn dithering_braille_art(&self, colored: bool) -> (r: Result<AsciiArt, SizeError>) {
        let width = self.width();
        let height = self.height();
        if width < 4 || height < 8 {
            return Err(SizeError);
        }
        let cols = width / 2;
        let rows = height / 4;
        let ghost pixels = self.pixels();
        let mut characters: Vec<AsciiArtPixel> = Vec::new();
        let mut y: u32 = 0;
        while y < rows
            invariant
                self.wf(),
                pixels == self.pixels(),
                width == self.spec_width(),
                cols == width / 2,
                rows == self.spec_height() / 4,
                y <= rows,
                characters@.len() == y * cols,
                forall|k: int|
                    0 <= k < y * cols ==> {
                        let p = #[trigger] characters@[k];
                        let top_left = rgba_pixel_of(
                            pixels,
                            width as int,
                            2 * (k % (cols as int)),
                            4 * (k / (cols as int)),
                        );
                        &&& p.character as u32 == braille_code(
                            dither_cell_dots(pixels, width as int, k % (cols as int), k / (cols as int)),
                        )
                        &&& p.r == top_left[0] && p.g == top_left[1] && p.b == top_left[2] && p.a
                            == top_left[3]
                    },
            decreases rows - y,
        {
            let mut x: u32 = 0;
            while x < cols
                invariant
                    self.wf(),
                    pixels == self.pixels(),
                    width == self.spec_width(),
                    cols == width / 2,
                    rows == self.spec_height() / 4,
                    y < rows,
                    x <= cols,
                    characters@.len() == y * cols + x,
                    forall|k: int|
                        0 <= k < y * cols + x ==> {
                            let p = #[trigger] characters@[k];
                            let top_left = rgba_pixel_of(
                                pixels,
                                width as int,
                                2 * (k % (cols as int)),
                                4 * (k / (cols as int)),
                            );
                            &&& p.character as u32 == braille_code(
                                dither_cell_dots(
                                    pixels,
                                    width as int,
                                    k % (cols as int),
                                    k / (cols as int),
                                ),
                            )
                            &&& p.r == top_left[0] && p.g == top_left[1] && p.b == top_left[2]
                                && p.a == top_left[3]
                        },
                decreases cols - x,
            {
                let px = x * 2;
                let py = y * 4;
                // Top left pixel
                let tlpx = self.get_pixel(px, py);
                let cell = calc_braille_pixels(px, py);
                let mut dots = [false; 8];
                let mut i: usize = 0;
                while i < 8
                    invariant
                        self.wf(),
                        pixels == self.pixels(),
                        width == self.spec_width(),
                        cols == width / 2,
                        rows == self.spec_height() / 4,
                        x < cols,
                        y < rows,
                        px == 2 * x,
                        py == 4 * y,
                        i <= 8,
                        forall|j: int|
                            0 <= j < 8 ==> #[trigger] cell@[j].0 == px + dot_dx(j) && cell@[j].1
                                == py + dot_dy(j),
                        forall|j: int|
                            0 <= j < i ==> #[trigger] dots@[j] == dither_cell_dots(
                                pixels,
                                width as int,
                                x as int,
                                y as int,
                            )[j],
                    decreases 8 - i,
                {
                    let (cx, cy) = cell[i];
                    assert(cell@[i as int].0 == px + dot_dx(i as int));
                    let t = self.get_pixel(cx, cy).dithering_braille_pixel();
                    dots[i] = match t {
                        DitheringBrailleThreshold::Gray => cx % 2 == cy % 2,
                        DitheringBrailleThreshold::White => true,
                        DitheringBrailleThreshold::Black => false,
                    };
                    i = i + 1;
                }
                assert(dots@ =~= dither_cell_dots(pixels, width as int, x as int, y as int));
                let character = boolean_array_to_braille(&dots);
                let ghost k = y * cols + x;
                proof {
                    lemma_fundamental_div_mod_converse(
                        k,
                        cols as int,
                        y as int,
                        x as int,
                    );
                }
                characters.push(
                    AsciiArtPixel {
                        character,
                        r: tlpx.0[0],
                        g: tlpx.0[1],
                        b: tlpx.0[2],
                        a: tlpx.0[3],
                    },
                );
                x = x + 1;
            }
            assert((y + 1) * cols == y * cols + cols) by (nonlinear_arith);
            y = y + 1;
        }
        assert(y * cols == cols * rows) by (nonlinear_arith)
            requires
                y == rows,
        ;
        Ok(AsciiArt::new(characters, cols, rows, colored))
    }
}

impl DitheringBrailleConverter for DynamicImage {
    open spec fn is_convertible(&self) -> bool {
        self.wf()
    }

    open spec fn rgba_width(&self) -> u32 {
        self.spec_width()
    }

    open spec fn rgba_height(&self) -> u32 {
        self.spec_height()
    }

    open spec fn rgba_pixels(&self) -> Seq<u8> {
        self.rgba8_pixels()
    }

    fn dithering_braille_art(&self, colored: bool) -> (r: Result<AsciiArt, SizeError>) {
        self.to_rgba8().dithering_braille_art(colored)
    }
}

} // verus!
