use vstd::prelude::*;
use font8x8::UnicodeFonts;

verus! {

/// The 8x8 bitmap that font8x8's basic table holds for the character with code
/// `code`: one byte per row, top row first, bit `n` set for a foreground pixel
/// in column `n`.
pub uninterp spec fn basic_glyph(code: u8) -> Option<[u8; 8]>;

/// Relies on font8x8's `BASIC_FONTS.get`: a lookup in a table with one entry for
/// each character U+0000..=U+007F and none for any other character.
#[verifier::external_body]
fn basic_font_get(code: u8) -> (r: Option<[u8; 8]>)
    ensures
        r == basic_glyph(code),
        r is Some <==> code < 128,
{
    font8x8::BASIC_FONTS.get(code as char)
}

/// The code of the fallback character `?`.
pub const FALLBACK_CHAR: u8 = 0x3F;

/// The glyph drawn for a byte: its own bitmap, or that of `?` when the font has none.
pub open spec fn glyph_of(code: u8) -> [u8; 8] {
    match basic_glyph(code) {
        Some(g) => g,
        None => basic_glyph(FALLBACK_CHAR)->Some_0,
    }
}

/// Whether the pixel in column `col` of a glyph row is foreground.
pub open spec fn glyph_bit(row: u8, col: u8) -> bool {
    row & (1u8 << col) != 0
}

/// Looks up the glyph for a byte, substituting the one for `?` when it has none.
pub fn glyph_for(code: u8) -> (r: [u8; 8])
    ensures
        r == glyph_of(code),
        code < 128 ==> basic_glyph(code) == Some(r),
        code >= 128 ==> r == glyph_of(FALLBACK_CHAR),
{
    match basic_font_get(code) {
        Some(g) => g,
        None => match basic_font_get(FALLBACK_CHAR) {
            Some(g) => g,
            None => [0u8; 8],
        },
    }
}

} // verus!
