use vstd::prelude::*;

verus! {

/// Everything that can go wrong while preparing or rendering glyphs.
#[derive(Debug)]
pub enum AppError {
    /// A color argument that is not of the form `#rrggbb`.
    ColorParseError(String),
    /// A range argument that is not of the form `START..END`.
    InvalidRange(),
    /// A scalar value argument whose digits are not whole pairs of hex digits.
    HexStringError(hex_string::HexStringError),
    /// A scalar value argument with no digits, or one that names no Unicode
    /// scalar value.
    OutOfRangeUnicode(String),
    /// The font data could not be decoded.
    FontDecodeError(String),
    /// The font maps the code point to its placeholder glyph.
    GlyphNotDefined(char),
    /// The glyph has no usable outline box at unit scale.
    GlyphGeometryError(char),
    /// The pixel budget is too small for the glyph: the scale came out as zero.
    InvalidScale(char),
    /// The glyph covers no pixel at the chosen scale.
    NoBoundingBox(char),
    /// A path has no final segment to take a name from.
    PathError(String),
    /// Reading, creating or writing a file failed.
    Io(String),
}

} // verus!
