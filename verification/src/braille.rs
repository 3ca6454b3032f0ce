use vstd::prelude::*;
use vstd::arithmetic::power2::{pow2, lemma2_to64, lemma_pow2_adds};
use vstd::bits::lemma_u32_shl_is_mul;
use vstd::arithmetic::div_mod::{
    lemma_fundamental_div_mod_converse, lemma_mod_pos_bound, lemma_multiply_divide_lt,
};
use crate::art::{AsciiArt, AsciiArtConverterError, AsciiArtPixel, SizeError};
use crate::raster::{adaptive_threshold, local_mean, threshold_limits, thresholded_pixel, DynamicImage, GrayImage};

verus! {

/// `char::from_u32` gives the character whose scalar value is `i`, and gives
/// one exactly when `i` is a Unicode scalar value (not a surrogate, at most
/// `0x10FFFF`), as the standard library documents.
pub assume_specification[ core::char::from_u32 ](i: u32) -> (r: Option<char>)
    ensures
        r is Some <==> (i < 0xD800 || (0xE000 <= i && i <= 0x10FFFF)),
        r matches Some(c) ==> c as u32 == i,
;

/// Weight of the dots `0 .. n` of a braille cell: dot `k`, when raised,
/// contributes `2^k`.
pub open spec fn dots_upto(dots: Seq<bool>, n: nat) -> nat
    decreases n,
{
    if n == 0 {
        0
    } else {
        dots_upto(dots, (n - 1) as nat) + if dots[n - 1] {
            pow2((n - 1) as nat)
        } else {
            0
        }
    }
}

/// Offset from U+2800 of the braille pattern whose raised dots are `dots`
/// (dot `k` is bit `k`).
pub open spec fn braille_dots(dots: Seq<bool>) -> nat {
    dots_upto(dots, 8)
}

/// Scalar value of the braille character with the raised dots `dots`.
pub open spec fn braille_code(dots: Seq<bool>) -> int {
    0x2800 + braille_dots(dots) as int
}

proof fn lemma_dots_upto_bound(dots: Seq<bool>, n: nat)
    ensures
        dots_upto(dots, n) < pow2(n),
    decreases n,
{
    if n > 0 {
        lemma_dots_upto_bound(dots, (n - 1) as nat);
        lemma_pow2_adds((n - 1) as nat, 1);
        lemma2_to64();
    } else {
        lemma2_to64();
    }
}

proof fn lemma_raise_dot(s: u32, k: u32)
    by (bit_vector)
    requires
        k < 8,
        s < (1u32 << k),
    ensures
        ((0x2800u32 + s) as u32) | (1u32 << k) == 0x2800u32 + s + (1u32 << k),
        s + (1u32 << k) < (1u32 << (k + 1)),
{
}

/// Convert array of booleans into braille character.
///
/// Grid of booleans placement:
///
/// |---|---|
/// | 0 | 3 |
/// | 1 | 4 |
/// | 2 | 5 |
/// | 6 | 7 |
pub fn boolean_array_to_braille(array: &[bool; 8]) -> (c: char)
    ensures
        c as u32 == braille_code(array@),
        0x2800 <= c as u32 <= 0x28FF,
{
    let mut codepoint: u32 = 0x2800;
    let mut i: u32 = 0;
    proof {
        lemma2_to64();
    }
    while i < 8
        invariant
            i <= 8,
            array@.len() == 8,
            codepoint == 0x2800 + dots_upto(array@, i as nat),
            dots_upto(array@, i as nat) < pow2(i as nat),
        decreases 8 - i,
    {
        proof {
            lemma2_to64();
            lemma_u32_shl_is_mul(1u32, i);
            lemma_u32_shl_is_mul(1u32, (i + 1) as u32);
            lemma_dots_upto_bound(array@, (i + 1) as nat);
        }
        if array[i as usize] {
            let ghost s: u32 = (codepoint - 0x2800) as u32;
            proof {
                lemma_raise_dot(s, i);
            }
            codepoint = codepoint | (1u32 << i);
        }
        i = i + 1;
    }
    proof {
        lemma2_to64();
    }
    match core::char::from_u32(codepoint) {
        Some(c) => c,
        None => ' ',
    }
}


/// Dot `k` is raised when bit `k` of the offset from U+2800 is set.
pub proof fn lemma_braille_dot(dots: Seq<bool>, k: u32)
    requires
        dots.len() == 8,
        k < 8,
    ensures
        ((braille_dots(dots) as u32 >> k) & 1u32 == 1u32) == dots[k as int],
{
    reveal_with_fuel(dots_upto, 9);
    lemma2_to64();
    let b0 = dots[0];
    let b1 = dots[1];
    let b2 = dots[2];
    let b3 = dots[3];
    let b4 = dots[4];
    let b5 = dots[5];
    let b6 = dots[6];
    let b7 = dots[7];
    let d: u32 = braille_dots(dots) as u32;
    assert(d == (if b0 { 1u32 } else { 0u32 }) + (if b1 { 2u32 } else { 0u32 }) + (if b2 {
        4u32
    } else {
        0u32
    }) + (if b3 { 8u32 } else { 0u32 }) + (if b4 { 16u32 } else { 0u32 }) + (if b5 {
        32u32
    } else {
        0u32
    }) + (if b6 { 64u32 } else { 0u32 }) + (if b7 { 128u32 } else { 0u32 }));
    assert(((d >> k) & 1u32 == 1u32) == (if k == 0 {
        b0
    } else if k == 1 {
        b1
    } else if k == 2 {
        b2
    } else if k == 3 {
        b3
    } else if k == 4 {
        b4
    } else if k == 5 {
        b5
    } else if k == 6 {
        b6
    } else {
        b7
    })) by (bit_vector)
        requires
            k < 8,
            d == (if b0 { 1u32 } else { 0u32 }) + (if b1 { 2u32 } else { 0u32 }) + (if b2 {
                4u32
            } else {
                0u32
            }) + (if b3 { 8u32 } else { 0u32 }) + (if b4 { 16u32 } else { 0u32 }) + (if b5 {
                32u32
            } else {
                0u32
            }) + (if b6 { 64u32 } else { 0u32 }) + (if b7 { 128u32 } else { 0u32 }),
    ;
}

/// Different dot patterns give different braille characters.
pub proof fn lemma_braille_code_injective(a: Seq<bool>, b: Seq<bool>)
    requires
        a.len() == 8,
        b.len() == 8,
        braille_code(a) == braille_code(b),
    ensures
        a == b,
{
    assert forall|k: int| 0 <= k < 8 implies a[k] == b[k] by {
        lemma_braille_dot(a, k as u32);
        lemma_braille_dot(b, k as u32);
    }
    assert(a =~= b);
}

/// Column offset of dot `i` within its 2 by 4 cell (see the grid of
/// [`boolean_array_to_braille`]).
pub open spec fn dot_dx(i: int) -> int {
    if i == 3 || i == 4 || i == 5 || i == 7 {
        1
    } else {
        0
    }
}

/// Row offset of dot `i` within its 2 by 4 cell.
pub open spec fn dot_dy(i: int) -> int {
    if i == 0 || i == 3 {
        0
    } else if i == 1 || i == 4 {
        1
    } else if i == 2 || i == 5 {
        2
    } else {
        3
    }
}

/// Coordinates of the eight pixels of the braille cell whose top-left pixel is
/// (`x`, `y`), in dot order.
pub fn calc_braille_pixels(x: u32, y: u32) -> (r: [(u32, u32); 8])
    requires
        x < u32::MAX,
        y <= u32::MAX - 3,
    ensures
        forall|i: int|
            0 <= i < 8 ==> #[trigger] r@[i].0 == x + dot_dx(i) && r@[i].1 == y + dot_dy(i),
        r@ == seq![
            (x, y),
            (x, (y + 1) as u32),
            (x, (y + 2) as u32),
            ((x + 1) as u32, y),
            ((x + 1) as u32, (y + 1) as u32),
            ((x + 1) as u32, (y + 2) as u32),
            (x, (y + 3) as u32),
            ((x + 1) as u32, (y + 3) as u32),
        ],
{
    [
        (x, y),
        (x, y + 1),
        (x, y + 2),
        (x + 1, y),
        (x + 1, y + 1),
        (x + 1, y + 2),
        (x, y + 3),
        (x + 1, y + 3),
    ]
}

/// Dots of the cell in column `cx` and row `cy` of an image whose pixel in
/// column `x` and row `y` is `pixel(x, y)`: a dot is raised where its pixel is
/// brighter than 123.
pub open spec fn cell_dots(pixel: spec_fn(int, int) -> u8, cx: int, cy: int) -> Seq<bool> {
    Seq::new(8, |i: int| pixel(2 * cx + dot_dx(i), 4 * cy + dot_dy(i)) > 123)
}

/// `art` is the braille art of a `width` by `height` image whose pixel in
/// column `x` and row `y` is `pixel(x, y)`: one white character per whole
/// 2 by 4 block, `width / 2` columns by `height / 4` rows, row by row.
pub open spec fn is_braille_grid(
    art: AsciiArt,
    width: u32,
    height: u32,
    pixel: spec_fn(int, int) -> u8,
) -> bool {
    let cols = (width / 2) as int;
    let rows = (height / 4) as int;
    &&& art.width == cols
    &&& art.height == rows
    &&& !art.colored
    &&& art.characters@.len() == cols * rows
    &&& forall|k: int|
        0 <= k < cols * rows ==> {
            let p = #[trigger] art.characters@[k];
            &&& p.character as u32 == braille_code(cell_dots(pixel, k % cols, k / cols))
            &&& p.r == 255 && p.g == 255 && p.b == 255 && p.a == 255
        }
}

/// Draws a thresholded image as braille art: each 2 by 4 block of pixels
/// becomes one character whose dots are raised where the pixel is brighter
/// than 123; pixels beyond the last whole block are left out.
pub fn braille_art_of_thresholded(img: &GrayImage) -> (art: AsciiArt)
    requires
        img.wf(),
    ensures
        is_braille_grid(art, img.spec_width(), img.spec_height(), |x: int, y: int| img.pixel_at(x, y)),
{
    let cols = img.width() / 2;
    let rows = img.height() / 4;
    let mut characters: Vec<AsciiArtPixel> = Vec::new();
    let mut y: u32 = 0;
    while y < rows
        invariant
            img.wf(),
            cols == img.spec_width() / 2,
            rows == img.spec_height() / 4,
            y <= rows,
            characters@.len() == y * cols,
            forall|k: int|
                0 <= k < y * cols ==> {
                    let p = #[trigger] characters@[k];
                    &&& p.character as u32 == braille_code(cell_dots(|x: int, y: int| img.pixel_at(x, y), k % (cols as int), k / (cols as int)))
                    &&& p.r == 255 && p.g == 255 && p.b == 255 && p.a == 255
                },
        decreases rows - y,
    {
        let mut x: u32 = 0;
        while x < cols
            invariant
                img.wf(),
                cols == img.spec_width() / 2,
                rows == img.spec_height() / 4,
                y < rows,
                x <= cols,
                characters@.len() == y * cols + x,
                forall|k: int|
                    0 <= k < y * cols + x ==> {
                        let p = #[trigger] characters@[k];
                        &&& p.character as u32 == braille_code(
                            cell_dots(|x: int, y: int| img.pixel_at(x, y), k % (cols as int), k / (cols as int)),
                        )
                        &&& p.r == 255 && p.g == 255 && p.b == 255 && p.a == 255
                    },
            decreases cols - x,
        {
            let px = x * 2;
            let py = y * 4;
            let cell = calc_braille_pixels(px, py);
            let mut dots = [false; 8];
            let mut i: usize = 0;
            while i < 8
                invariant
                    img.wf(),
                    cols == img.spec_width() / 2,
                    rows == img.spec_height() / 4,
                    x < cols,
                    y < rows,
                    px == 2 * x,
                    py == 4 * y,
                    i <= 8,
                    forall|j: int|
                        0 <= j < 8 ==> #[trigger] cell@[j].0 == px + dot_dx(j) && cell@[j].1 == py
                            + dot_dy(j),
                    forall|j: int|
                        0 <= j < i ==> #[trigger] dots@[j] == cell_dots(|x: int, y: int| img.pixel_at(x, y), x as int, y as int)[j],
                decreases 8 - i,
            {
                let (cx, cy) = cell[i];
                assert(cell@[i as int].0 == px + dot_dx(i as int));
                let p = img.get_pixel(cx, cy);
                dots[i] = p.0[0] > 123;
                i = i + 1;
            }
            assert(dots@ =~= cell_dots(|x: int, y: int| img.pixel_at(x, y), x as int, y as int));
            let character = boolean_array_to_braille(&dots);
            let ghost k = y * cols + x;
            proof {
                lemma_fundamental_div_mod_converse(k, cols as int, y as int, x as int);
            }
            characters.push(AsciiArtPixel { character, r: 255, g: 255, b: 255, a: 255 });
            x = x + 1;
        }
        assert((y + 1) * cols == y * cols + cols) by (nonlinear_arith);
        y = y + 1;
    }
    assert(y * cols == cols * rows) by (nonlinear_arith)
        requires
            y == rows,
    ;
    AsciiArt::new(characters, cols, rows, false)
}


/// In braille art of a `width` by `height` image whose pixel in column `x` and
/// row `y` is `pixel(x, y)`, dot `i` of the character of cell `k` lies on the
/// pixel in column `x` and row `y` (dots 0, 1, 2, 6 down the left column of
/// the cell, dots 3, 4, 5, 7 down the right one), inside the image, and is
/// raised exactly when that pixel is brighter than 123; every character is
/// white.
pub proof fn lemma_braille_grid_dot(
    art: AsciiArt,
    width: u32,
    height: u32,
    pixel: spec_fn(int, int) -> u8,
    k: int,
    i: u32,
)
    requires
        is_braille_grid(art, width, height, pixel),
        0 <= k < art.characters@.len(),
        i < 8,
    ensures
        ({
            let cols = (width / 2) as int;
            let x = 2 * (k % cols) + seq![0int, 0, 0, 1, 1, 1, 0, 1][i as int];
            let y = 4 * (k / cols) + seq![0int, 1, 2, 0, 1, 2, 3, 3][i as int];
            let offset = (art.characters@[k].character as u32 - 0x2800) as u32;
            &&& 0 <= x < width
            &&& 0 <= y < height
            &&& ((offset >> i) & 1u32 == 1u32) == (pixel(x, y) > 123)
        }),
        art.characters@[k].r == 255 && art.characters@[k].g == 255 && art.characters@[k].b == 255
            && art.characters@[k].a == 255,
{
    let cols = (width / 2) as int;
    let rows = (height / 4) as int;
    assert(cols > 0) by {
        if cols == 0 {
            assert(cols * rows == 0) by (nonlinear_arith)
                requires
                    cols == 0,
            ;
        }
    }
    lemma_cell_inside(width, height, k);
    let dots = cell_dots(pixel, k % cols, k / cols);
    assert(art.characters@[k].character as u32 == braille_code(dots));
    lemma_braille_dot(dots, i);
    assert(dot_dx(i as int) == seq![0int, 0, 0, 1, 1, 1, 0, 1][i as int]);
    assert(dot_dy(i as int) == seq![0int, 1, 2, 0, 1, 2, 3, 3][i as int]);
}

/// In braille art of a thresholded image, dot `i` of the character of cell
/// `k` lies on the pixel in column `x` and row `y` (dots 0, 1, 2, 6 down the
/// left column of the cell, dots 3, 4, 5, 7 down the right one) and is raised
/// exactly when that pixel is at least the mean of the block of radius
/// `block_radius` round it.
pub proof fn lemma_braille_art_local_contrast(
    art: AsciiArt,
    width: u32,
    height: u32,
    pixels: Seq<u8>,
    block_radius: u32,
    k: int,
    i: u32,
)
    requires
        is_braille_grid(
            art,
            width,
            height,
            |x: int, y: int|
                thresholded_pixel(pixels, width as int, height as int, x, y, block_radius as int),
        ),
        0 <= k < art.characters@.len(),
        i < 8,
    ensures
        ({
            let cols = (width / 2) as int;
            let x = 2 * (k % cols) + seq![0int, 0, 0, 1, 1, 1, 0, 1][i as int];
            let y = 4 * (k / cols) + seq![0int, 1, 2, 0, 1, 2, 3, 3][i as int];
            let offset = (art.characters@[k].character as u32 - 0x2800) as u32;
            ((offset >> i) & 1u32 == 1u32) == (pixels[y * width + x] as int >= local_mean(
                pixels,
                width as int,
                height as int,
                x,
                y,
                block_radius as int,
            ))
        }),
{
    let cols = (width / 2) as int;
    let thr = |x: int, y: int|
        thresholded_pixel(pixels, width as int, height as int, x, y, block_radius as int);
    let dots = cell_dots(thr, k % cols, k / cols);
    assert(art.characters@[k].character as u32 == braille_code(dots));
    lemma_dots_upto_bound(dots, 8);
    lemma2_to64();
    lemma_braille_dot(dots, i);
    assert(dot_dx(i as int) == seq![0int, 0, 0, 1, 1, 1, 0, 1][i as int]);
    assert(dot_dy(i as int) == seq![0int, 1, 2, 0, 1, 2, 3, 3][i as int]);
}

/// Converts an image into braille art.
pub trait BrailleArtConverter {
    /// The image is well formed.
    spec fn is_well_formed(&self) -> bool;

    /// Width of the greyscale image that is thresholded.
    spec fn gray_width(&self) -> u32;

    /// Height of the greyscale image that is thresholded.
    spec fn gray_height(&self) -> u32;

    /// Pixels, row by row, of the greyscale image that is thresholded.
    spec fn gray_pixels(&self) -> Seq<u8>;

    /// Too small an image (under 8 by 8) is refused; otherwise the image is
    /// thresholded against the mean of the block of radius `block_radius`
    /// round each pixel, and one white braille character is drawn per 2 by 4
    /// block of pixels, raising the dots of the white pixels.
    fn braille_art(&self, block_radius: u32) -> (r: Result<AsciiArt, AsciiArtConverterError>)
        requires
            self.is_well_formed(),
            self.gray_width() < 8 || self.gray_height() < 8 || threshold_limits(
                self.gray_pixels(),
                self.gray_width(),
                self.gray_height(),
                block_radius,
            ),
        ensures
            r is Err <==> (self.gray_width() < 8 || self.gray_height() < 8),
            r matches Err(e) ==> e == AsciiArtConverterError::SizeError(SizeError),
            r matches Ok(art) ==> is_braille_grid(
                art,
                self.gray_width(),
                self.gray_height(),
                |x: int, y: int|
                    thresholded_pixel(
                        self.gray_pixels(),
                        self.gray_width() as int,
                        self.gray_height() as int,
                        x,
                        y,
                        block_radius as int,
                    ),
            ),
    ;
}

/// A whole cell of a grid of `width / 2` by `height / 4` cells lies inside a
/// `width` by `height` image.
pub(crate) proof fn lemma_cell_inside(width: u32, height: u32, k: int)
    requires
        width >= 2,
        0 <= k < (width / 2) as int * (height / 4) as int,
    ensures
        0 <= 2 * (k % (width / 2) as int) && 2 * (k % (width / 2) as int) + 1 < width,
        0 <= 4 * (k / (width / 2) as int) && 4 * (k / (width / 2) as int) + 3 < height,
{
    let cols = (width / 2) as int;
    let rows = (height / 4) as int;
    lemma_mod_pos_bound(k, cols);
    lemma_multiply_divide_lt(k, cols, rows);
    assert(0 <= k / cols) by (nonlinear_arith)
        requires
            0 <= k,
            0 < cols,
    ;
}

impl BrailleArtConverter for GrayImage {
    open spec fn is_well_formed(&self) -> bool {
        self.wf()
    }

    open spec fn gray_width(&self) -> u32 {
        self.spec_width()
    }

    open spec fn gray_height(&self) -> u32 {
        self.spec_height()
    }

    open spec fn gray_pixels(&self) -> Seq<u8> {
        self.pixels()
    }

    fn braille_art(&self, block_radius: u32) -> (r: Result<AsciiArt, AsciiArtConverterError>) {
        if self.width() < 8 || self.height() < 8 {
            return Err(AsciiArtConverterError::SizeError(SizeError));
        }
        let img = adaptive_threshold(self, block_radius);
        let art = braille_art_of_thresholded(&img);
        proof {
            let w = self.spec_width();
            let h = self.spec_height();
            let cols = (w / 2) as int;
            let thr = |x: int, y: int|
                thresholded_pixel(self.pixels(), w as int, h as int, x, y, block_radius as int);
            let got = |x: int, y: int| img.pixel_at(x, y);
            assert forall|k: int| 0 <= k < cols * (h / 4) as int implies (#[trigger] art.characters@[k]).character as u32
                == braille_code(cell_dots(thr, k % cols, k / cols)) by {
                lemma_cell_inside(w, h, k);
                assert(cell_dots(got, k % cols, k / cols) =~= cell_dots(thr, k % cols, k / cols));
            }
        }
        Ok(art)
    }
}

impl BrailleArtConverter for DynamicImage {
    open spec fn is_well_formed(&self) -> bool {
        self.wf()
    }

    open spec fn gray_width(&self) -> u32 {
        self.spec_width()
    }

    open spec fn gray_height(&self) -> u32 {
        self.spec_height()
    }

    open spec fn gray_pixels(&self) -> Seq<u8> {
        self.luma8_pixels()
    }

    fn braille_art(&self, block_radius: u32) -> (r: Result<AsciiArt, AsciiArtConverterError>) {
        let gray = self.to_luma8();
        gray.braille_art(block_radius)
    }
}

} // verus!
