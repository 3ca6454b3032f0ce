use tapciify::dithering_braille::DitheringBrailleConverter;
use tapciify::raster::{threshold_fits, DynamicImage, GrayImage, RgbaImage};

#[test]
fn gray_image_needs_one_byte_per_pixel() {
    assert!(GrayImage::from_raw(3, 2, vec![0; 6]).is_some());
    assert!(GrayImage::from_raw(3, 2, vec![0; 5]).is_none());
    assert!(GrayImage::from_raw(3, 2, vec![0; 7]).is_none());
}

#[test]
fn rgba_image_needs_four_bytes_per_pixel() {
    assert!(RgbaImage::from_raw(3, 2, vec![0; 24]).is_some());
    assert!(RgbaImage::from_raw(3, 2, vec![0; 6]).is_none());
}

#[test]
fn pixels_are_stored_row_by_row() {
    let img = GrayImage::from_raw(3, 2, vec![1, 2, 3, 4, 5, 6]).unwrap();
    assert_eq!(img.get_pixel(2, 0).0, [3]);
    assert_eq!(img.get_pixel(0, 1).0, [4]);
    assert_eq!((img.width(), img.height()), (3, 2));
    let img = RgbaImage::from_raw(2, 1, vec![1, 2, 3, 4, 5, 6, 7, 8]).unwrap();
    assert_eq!(img.get_pixel(1, 0).0, [5, 6, 7, 8]);
}

#[test]
fn thresholding_limits() {
    let img = GrayImage::from_raw(8, 8, vec![200; 64]).unwrap();
    assert!(threshold_fits(&img, 1));
    assert!(!threshold_fits(&img, 0));
    assert!(!threshold_fits(&img, 0x8000_0000));
    // 3000 * 3000 * 255 is about 2.3e9: the whole image and the part above and
    // left of the last block do not fit a u32 together.
    let bright = GrayImage::from_raw(3000, 3000, vec![255; 3000 * 3000]).unwrap();
    assert!(!threshold_fits(&bright, 5));
    // With a radius covering the whole image, the part above and left is empty.
    assert!(threshold_fits(&bright, 3000));
    let dark = GrayImage::from_raw(2900, 2900, vec![1; 2900 * 2900]).unwrap();
    assert!(threshold_fits(&dark, 5));
}

#[test]
fn grey_levels_become_rgba_unchanged() {
    for offset in 0..2u32 {
        let mut px = Vec::new();
        for _y in 0..8u32 {
            for x in 0..256u32 {
                px.push(((x + offset) % 256) as u8);
            }
        }
        let img = DynamicImage::ImageLuma8(GrayImage::from_raw(256, 8, px).unwrap());
        let art = img.dithering_braille_art(true).unwrap();
        for (cx, p) in art.characters.iter().take(128).enumerate() {
            let l = ((2 * cx as u32 + offset) % 256) as u8;
            assert_eq!((p.r, p.g, p.b, p.a), (l, l, l, 255));
        }
    }
}
