use tapciify::braille::{boolean_array_to_braille, calc_braille_pixels, BrailleArtConverter};
use tapciify::raster::{DynamicImage, GrayImage, RgbaImage};
use tapciify::{AsciiArtConverterError, SizeError};

fn gradient() -> Vec<u8> {
    let mut px = Vec::new();
    for y in 0..8u32 {
        for x in 0..8u32 {
            px.push(((x * 30 + y * 7) % 256) as u8);
        }
    }
    px
}

fn codes(art: &tapciify::AsciiArt) -> Vec<u32> {
    art.characters.iter().map(|p| p.character as u32).collect()
}

#[test]
fn no_dots_is_blank_braille() {
    assert_eq!(boolean_array_to_braille(&[false; 8]), '\u{2800}');
}

#[test]
fn all_dots_is_full_braille() {
    assert_eq!(boolean_array_to_braille(&[true; 8]), '\u{28FF}');
}

#[test]
fn each_dot_is_its_own_bit() {
    for k in 0..8 {
        let mut a = [false; 8];
        a[k] = true;
        let c = boolean_array_to_braille(&a);
        assert_eq!(c as u32, 0x2800 + (1u32 << k));
    }
}

#[test]
fn grid_placement_follows_the_braille_dots() {
    // left column top to bottom: dots 0, 1, 2, 6
    assert_eq!(boolean_array_to_braille(&[true, true, true, false, false, false, true, false]), '⡇');
    // right column top to bottom: dots 3, 4, 5, 7
    assert_eq!(boolean_array_to_braille(&[false, false, false, true, true, true, false, true]), '⢸');
}

#[test]
fn different_dots_give_different_characters() {
    let a = [true, false, true, false, false, true, false, false];
    let b = [true, false, true, false, false, true, false, true];
    assert_ne!(boolean_array_to_braille(&a), boolean_array_to_braille(&b));
}

#[test]
fn cell_pixels_in_dot_order() {
    assert_eq!(
        calc_braille_pixels(2, 4),
        [(2, 4), (2, 5), (2, 6), (3, 4), (3, 5), (3, 6), (2, 7), (3, 7)]
    );
}

#[test]
fn gray_image_too_small() {
    let img = GrayImage::from_raw(7, 8, vec![0; 56]).unwrap();
    assert_eq!(
        img.braille_art(1).unwrap_err(),
        AsciiArtConverterError::SizeError(SizeError)
    );
    let img = GrayImage::from_raw(8, 7, vec![0; 56]).unwrap();
    assert!(img.braille_art(1).is_err());
}

#[test]
fn small_image_is_refused_whatever_the_radius() {
    let img = GrayImage::from_raw(4, 4, vec![0; 16]).unwrap();
    assert_eq!(img.braille_art(0).unwrap_err(), AsciiArtConverterError::SizeError(SizeError));
}

#[test]
fn uniform_image_raises_every_dot() {
    let img = GrayImage::from_raw(8, 8, vec![90; 64]).unwrap();
    let art = img.braille_art(1).unwrap();
    assert_eq!(art.width, 4);
    assert_eq!(art.height, 2);
    assert!(!art.colored);
    assert_eq!(codes(&art), vec![0x28FF; 8]);
    for p in &art.characters {
        assert_eq!((p.r, p.g, p.b, p.a), (255, 255, 255, 255));
    }
}

#[test]
fn gradient_braille_art() {
    let img = GrayImage::from_raw(8, 8, gradient()).unwrap();
    let art = img.braille_art(1).unwrap();
    assert_eq!(
        codes(&art),
        vec![0x28b0, 0x28f6, 0x28f6, 0x28fe, 0x28b8, 0x28ff, 0x28ff, 0x287f]
    );
}

#[test]
fn dots_follow_local_contrast() {
    let mut px = Vec::new();
    for y in 0..8u32 {
        for x in 0..8u32 {
            px.push(if (x / 2 + y / 4) % 2 == 0 { 255 } else { 0 });
        }
    }
    let img = GrayImage::from_raw(8, 8, px).unwrap();
    let art = img.braille_art(2).unwrap();
    assert_eq!(
        codes(&art),
        vec![0x28ff, 0x2800, 0x28ff, 0x2800, 0x2800, 0x28ff, 0x2800, 0x28ff]
    );
}

#[test]
fn incomplete_cells_are_left_out() {
    let img = GrayImage::from_raw(9, 11, vec![10; 99]).unwrap();
    let art = img.braille_art(3).unwrap();
    assert_eq!(art.width, 4);
    assert_eq!(art.height, 2);
    assert_eq!(art.characters.len(), 8);
}

#[test]
fn dynamic_gray_image_is_converted_as_is() {
    let dynamic = DynamicImage::ImageLuma8(GrayImage::from_raw(8, 8, gradient()).unwrap());
    let art = dynamic.braille_art(1).unwrap();
    assert_eq!(
        codes(&art),
        vec![0x28b0, 0x28f6, 0x28f6, 0x28fe, 0x28b8, 0x28ff, 0x28ff, 0x287f]
    );
}

#[test]
fn dynamic_rgba_image_is_converted_through_its_luma() {
    // Left half bright green (luma 182), right half dark red (luma 54).
    let mut px = Vec::new();
    for _y in 0..8 {
        for x in 0..8 {
            if x < 4 {
                px.extend_from_slice(&[0, 255, 0, 255]);
            } else {
                px.extend_from_slice(&[255, 0, 0, 255]);
            }
        }
    }
    let dynamic = DynamicImage::ImageRgba8(RgbaImage::from_raw(8, 8, px).unwrap());
    let art = dynamic.braille_art(1).unwrap();
    // Columns 0..=3 are at least their local mean; columns 4..=7 are below it
    // only where the block reaches over the edge (column 4).
    assert_eq!(art.width, 4);
    assert_eq!(codes(&art)[0], 0x28FF);
    assert_eq!(codes(&art)[1], 0x28FF);
    assert_eq!(codes(&art)[2], 0x28B8);
    assert_eq!(codes(&art)[3], 0x28FF);
}

#[test]
fn dynamic_image_too_small() {
    let dynamic = DynamicImage::ImageRgba8(RgbaImage::from_raw(4, 4, vec![0; 64]).unwrap());
    assert!(dynamic.braille_art(1).is_err());
}
