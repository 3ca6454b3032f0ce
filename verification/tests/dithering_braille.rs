use tapciify::dithering_braille::{
    DitheringBrailleConverter, DitheringBraillePixel, DitheringBrailleThreshold,
};
use tapciify::raster::{DynamicImage, GrayImage, Luma, LumaA, Rgb, Rgba, RgbaImage};
use tapciify::SizeError;

fn filled(width: u32, height: u32, pixel: [u8; 4]) -> RgbaImage {
    let mut px = Vec::new();
    for _ in 0..width * height {
        px.extend_from_slice(&pixel);
    }
    RgbaImage::from_raw(width, height, px).unwrap()
}

#[test]
fn luma_thresholds() {
    assert_eq!(Luma([255]).dithering_braille_pixel(), DitheringBrailleThreshold::White);
    assert_eq!(Luma([171]).dithering_braille_pixel(), DitheringBrailleThreshold::White);
    assert_eq!(Luma([170]).dithering_braille_pixel(), DitheringBrailleThreshold::Gray);
    assert_eq!(Luma([86]).dithering_braille_pixel(), DitheringBrailleThreshold::Gray);
    assert_eq!(Luma([85]).dithering_braille_pixel(), DitheringBrailleThreshold::Black);
    assert_eq!(Luma([0]).dithering_braille_pixel(), DitheringBrailleThreshold::Black);
}

#[test]
fn luma_alpha_thresholds() {
    // 255 * 171 = 43605 > 43350
    assert_eq!(LumaA([255, 171]).dithering_braille_pixel(), DitheringBrailleThreshold::White);
    // 170 * 255 = 43350
    assert_eq!(LumaA([170, 255]).dithering_braille_pixel(), DitheringBrailleThreshold::Gray);
    // 85 * 255 = 21675
    assert_eq!(LumaA([85, 255]).dithering_braille_pixel(), DitheringBrailleThreshold::Black);
    assert_eq!(LumaA([255, 0]).dithering_braille_pixel(), DitheringBrailleThreshold::Black);
}

#[test]
fn rgb_thresholds_go_through_luma() {
    assert_eq!(Rgb([255, 255, 255]).dithering_braille_pixel(), DitheringBrailleThreshold::White);
    assert_eq!(Rgb([128, 128, 128]).dithering_braille_pixel(), DitheringBrailleThreshold::Gray);
    // luma of pure red: 2126 * 255 / 10000 = 54
    assert_eq!(Rgb([255, 0, 0]).dithering_braille_pixel(), DitheringBrailleThreshold::Black);
    // luma of pure green: 7152 * 255 / 10000 = 182
    assert_eq!(Rgb([0, 255, 0]).dithering_braille_pixel(), DitheringBrailleThreshold::White);
}

#[test]
fn rgba_thresholds_go_through_luma_and_alpha() {
    // 182 * 255 = 46410
    assert_eq!(Rgba([0, 255, 0, 255]).dithering_braille_pixel(), DitheringBrailleThreshold::White);
    // 182 * 128 = 23296
    assert_eq!(Rgba([0, 255, 0, 128]).dithering_braille_pixel(), DitheringBrailleThreshold::Gray);
    assert_eq!(Rgba([255, 255, 255, 0]).dithering_braille_pixel(), DitheringBrailleThreshold::Black);
}

#[test]
fn lighter_is_never_darker() {
    let rank = |t: DitheringBrailleThreshold| match t {
        DitheringBrailleThreshold::Black => 0,
        DitheringBrailleThreshold::Gray => 1,
        DitheringBrailleThreshold::White => 2,
    };
    for l in 0..255u8 {
        assert!(rank(Luma([l]).dithering_braille_pixel()) <= rank(Luma([l + 1]).dithering_braille_pixel()));
    }
}

#[test]
fn white_image_raises_every_dot() {
    let art = filled(4, 8, [255, 255, 255, 255]).dithering_braille_art(true).unwrap();
    assert_eq!(art.width, 2);
    assert_eq!(art.height, 2);
    assert!(art.colored);
    for p in &art.characters {
        assert_eq!(p.character, '\u{28FF}');
        assert_eq!((p.r, p.g, p.b, p.a), (255, 255, 255, 255));
    }
}

#[test]
fn black_image_raises_no_dot() {
    let art = filled(4, 8, [0, 0, 0, 255]).dithering_braille_art(false).unwrap();
    assert!(!art.colored);
    for p in &art.characters {
        assert_eq!(p.character, '\u{2800}');
        assert_eq!((p.r, p.g, p.b, p.a), (0, 0, 0, 255));
    }
}

#[test]
fn grey_image_is_a_checkerboard() {
    let art = filled(4, 8, [128, 128, 128, 255]).dithering_braille_art(false).unwrap();
    // dots 0, 2, 4 and 7 lie on cells where x and y have the same parity
    for p in &art.characters {
        assert_eq!(p.character as u32, 0x2800 + 1 + 4 + 16 + 128);
    }
}

#[test]
fn colour_comes_from_the_top_left_pixel() {
    let mut px = Vec::new();
    for y in 0..8u32 {
        for x in 0..4u32 {
            px.extend_from_slice(&[x as u8 * 10, y as u8 * 10, 200, 255]);
        }
    }
    let art = RgbaImage::from_raw(4, 8, px).unwrap().dithering_braille_art(true).unwrap();
    let colours: Vec<(u8, u8, u8, u8)> =
        art.characters.iter().map(|p| (p.r, p.g, p.b, p.a)).collect();
    assert_eq!(
        colours,
        vec![(0, 0, 200, 255), (20, 0, 200, 255), (0, 40, 200, 255), (20, 40, 200, 255)]
    );
}

#[test]
fn odd_sizes_drop_the_partial_cells() {
    let art = filled(5, 9, [255, 255, 255, 255]).dithering_braille_art(false).unwrap();
    assert_eq!(art.width, 2);
    assert_eq!(art.height, 2);
    assert_eq!(art.characters.len(), 4);
}

#[test]
fn too_small_for_dithering() {
    assert_eq!(filled(3, 8, [0, 0, 0, 0]).dithering_braille_art(false).unwrap_err(), SizeError);
    assert!(filled(4, 7, [0, 0, 0, 0]).dithering_braille_art(false).is_err());
}

#[test]
fn dynamic_gray_image_is_dithered_through_rgba() {
    let dynamic = DynamicImage::ImageLuma8(GrayImage::from_raw(4, 8, vec![200; 32]).unwrap());
    let art = dynamic.dithering_braille_art(true).unwrap();
    assert_eq!(art.characters.len(), 4);
    for p in &art.characters {
        assert_eq!(p.character, '\u{28FF}');
        assert_eq!((p.r, p.g, p.b, p.a), (200, 200, 200, 255));
    }
}

#[test]
fn dynamic_rgba_image_is_dithered_as_is() {
    let dynamic = DynamicImage::ImageRgba8(filled(4, 8, [128, 128, 128, 255]));
    let art = dynamic.dithering_braille_art(false).unwrap();
    for p in &art.characters {
        assert_eq!(p.character as u32, 0x2895);
    }
}
