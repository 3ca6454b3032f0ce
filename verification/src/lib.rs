//! Conversion of images into braille-character art, with a verified core.
//!
//! Images are held as plain pixel buffers ([`raster::GrayImage`], [`raster::RgbaImage`],
//! [`raster::DynamicImage`]). The pixel arithmetic, the grouping of pixels into
//! braille cells and the encoding of cells as characters are proved
//! against their specifications; the colour conversions, resizing and
//! local thresholding are delegated to the `image` and `imageproc` crates.

pub mod art;
pub mod braille;
pub mod dithering_braille;
pub mod player;
pub mod raster;

pub use art::{AsciiArt, AsciiArtConverterError, AsciiArtPixel, SizeError};
