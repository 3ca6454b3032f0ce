use vstd::prelude::*;

verus! {

/// One character of an art, with the colour it is drawn in.
#[derive(Debug, Clone, Copy, PartialEq, Eq, Structural)]
pub struct AsciiArtPixel {
    pub character: char,
    pub r: u8,
    pub g: u8,
    pub b: u8,
    pub a: u8,
}

/// A grid of characters, `width` columns by `height` rows, stored row by row.
#[derive(Debug, Clone)]
pub struct AsciiArt {
    pub characters: Vec<AsciiArtPixel>,
    pub width: u32,
    pub height: u32,
    pub colored: bool,
}

impl AsciiArt {
    /// Builds an art from its characters (row by row) and its dimensions.
    pub fn new(characters: Vec<AsciiArtPixel>, width: u32, height: u32, colored: bool) -> (art:
        AsciiArt)
        ensures
            art.characters@ == characters@,
            art.width == width,
            art.height == height,
            art.colored == colored,
    {
        AsciiArt { characters, width, height, colored }
    }
}

/// The image is too small to be converted.
#[derive(Debug, Clone, Copy, PartialEq, Eq, Structural)]
pub struct SizeError;

/// Errors of the art converters.
#[derive(Debug, Clone, Copy, PartialEq, Eq, Structural)]
pub enum AsciiArtConverterError {
    SizeError(SizeError),
}

} // verus!
