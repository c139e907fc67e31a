//! The glyph alphabet: printable ASCII and half-width katakana.

use vstd::prelude::*;

verus! {

/// The first printable ASCII glyph, `!`.
pub const ASCII_FIRST: u32 = 0x21;

/// One past the last ASCII glyph in the alphabet (`~` is left out).
pub const ASCII_END: u32 = 0x7E;

/// The first half-width katakana glyph, `ｦ`.
pub const KANA_FIRST: u32 = 0xFF66;

/// One past the last half-width katakana glyph in the alphabet.
pub const KANA_END: u32 = 0xFF9D;

/// The code point at place `i` of the alphabet: the ASCII range first, then
/// the katakana range.
pub open spec fn code_at(i: int) -> int {
    if i < ASCII_END - ASCII_FIRST {
        ASCII_FIRST + i
    } else {
        KANA_FIRST + (i - (ASCII_END - ASCII_FIRST))
    }
}

/// The number of glyphs in the alphabet.
pub open spec fn alphabet_len() -> int {
    (ASCII_END - ASCII_FIRST) + (KANA_END - KANA_FIRST)
}

/// Relies on std's `char::from_u32`: a code point outside the surrogate range
/// and at most `0x10FFFF` gives the char with that code.
#[verifier::external_body]
fn char_from_code(c: u32) -> (r: char)
    requires
        c < 0xD800 || (0xE000 <= c <= 0x10FFFF),
    ensures
        r as u32 == c,
{
    char::from_u32(c).unwrap()
}

/// The glyphs that droplets draw from.
pub fn get_matrix_codes() -> (r: Vec<char>)
    ensures
        r@.len() == alphabet_len(),
        forall|i: int| 0 <= i < r@.len() ==> #[trigger] r@[i] as int == code_at(i),
{
    let mut codes: Vec<char> = Vec::new();
    let mut c: u32 = ASCII_FIRST;
    while c < ASCII_END
        invariant
            ASCII_FIRST <= c <= ASCII_END,
            codes@.len() == c - ASCII_FIRST,
            forall|i: int| 0 <= i < codes@.len() ==> #[trigger] codes@[i] as int == code_at(i),
        decreases ASCII_END - c,
    {
        codes.push(char_from_code(c));
        c = c + 1;
    }
    let mut c: u32 = KANA_FIRST;
    while c < KANA_END
        invariant
            KANA_FIRST <= c <= KANA_END,
            codes@.len() == (ASCII_END - ASCII_FIRST) + (c - KANA_FIRST),
            forall|i: int| 0 <= i < codes@.len() ==> #[trigger] codes@[i] as int == code_at(i),
        decreases KANA_END - c,
    {
        codes.push(char_from_code(c));
        c = c + 1;
    }
    codes
}

} // verus!
