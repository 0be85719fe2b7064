//! One slot of the buffer and the three glyphs it is displayed with.

use vstd::prelude::*;
use vstd::std_specs::convert::FromSpecImpl;

verus! {

/// The glyph shown for both nybbles of a slot that holds no byte yet.
pub const UNWRITTEN_HEX: char = '~';

/// The glyph shown in the ASCII gutter for a slot that holds no byte yet.
pub const UNWRITTEN_ASCII: char = ' ';

/// The glyph shown in the ASCII gutter for a byte that is not printable.
pub const UNPRINTABLE: char = '.';

/// Which 4-bit half of a byte is meant.
#[derive(Clone, Copy, Debug, PartialEq, Eq, Structural)]
pub enum Nybble {
    /// The high four bits.
    Upper,
    /// The low four bits.
    Lower,
}

/// One logical byte position: a concrete byte, or a placeholder that pads the
/// last rows and holds no data until it is written.
#[derive(Clone, Copy, Debug, PartialEq, Eq, Structural)]
pub enum ByteCell {
    /// A byte with a value.
    Present(u8),
    /// A padding slot that was never written.
    Unwritten,
}

/// The three glyphs of one slot: its two hex digits and its ASCII rendition.
#[derive(Clone, Copy, Debug, PartialEq, Eq, Structural)]
pub struct CharPrintingInfo {
    /// Glyph of the low nybble.
    pub lower: char,
    /// Glyph of the high nybble.
    pub upper: char,
    /// Glyph in the ASCII gutter.
    pub text: char,
}

/// The lowercase hexadecimal digit for a value below sixteen.
pub open spec fn hex_digit(n: nat) -> char
    recommends
        n < 16,
{
    if n < 10 {
        (n + 0x30) as char
    } else {
        (n + 0x57) as char
    }
}

/// The value of a lowercase hexadecimal digit; zero for any other character.
pub open spec fn hex_value(c: char) -> nat {
    if 0x30 <= c as int <= 0x39 {
        (c as int - 0x30) as nat
    } else if 0x61 <= c as int <= 0x66 {
        (c as int - 0x57) as nat
    } else {
        0
    }
}

/// The high nybble of a byte.
pub open spec fn upper_nybble(v: u8) -> nat {
    (v as nat) / 16
}

/// The low nybble of a byte.
pub open spec fn lower_nybble(v: u8) -> nat {
    (v as nat) % 16
}

/// Whether a byte is a printable, non-blank ASCII character.
pub open spec fn is_graphic(v: u8) -> bool {
    0x21 <= v <= 0x7e
}

/// The glyph of a byte in the ASCII gutter.
pub open spec fn ascii_glyph(v: u8) -> char {
    if is_graphic(v) {
        v as char
    } else {
        UNPRINTABLE
    }
}

/// The glyphs of a slot.
pub open spec fn cell_glyphs(cell: ByteCell) -> CharPrintingInfo {
    match cell {
        ByteCell::Present(v) => CharPrintingInfo {
            lower: hex_digit(lower_nybble(v)),
            upper: hex_digit(upper_nybble(v)),
            text: ascii_glyph(v),
        },
        ByteCell::Unwritten => CharPrintingInfo {
            lower: UNWRITTEN_HEX,
            upper: UNWRITTEN_HEX,
            text: UNWRITTEN_ASCII,
        },
    }
}

/// A slot read as an optional byte.
pub open spec fn cell_of(val: Option<u8>) -> ByteCell {
    match val {
        Some(v) => ByteCell::Present(v),
        None => ByteCell::Unwritten,
    }
}

/// The hex digits of a byte recombine to the byte:
/// sixteen times the value of the upper glyph plus the value of the lower
/// glyph is the byte itself.
pub proof fn lemma_hex_digits_recombine(v: u8)
    ensures
        hex_value(cell_glyphs(ByteCell::Present(v)).upper) * 16 + hex_value(
            cell_glyphs(ByteCell::Present(v)).lower,
        ) == v,
        hex_value(cell_glyphs(ByteCell::Present(v)).upper) == upper_nybble(v),
        hex_value(cell_glyphs(ByteCell::Present(v)).lower) == lower_nybble(v),
{
    lemma_hex_value_of_digit(upper_nybble(v));
    lemma_hex_value_of_digit(lower_nybble(v));
}

/// `hex_value` undoes `hex_digit`.
pub proof fn lemma_hex_value_of_digit(n: nat)
    requires
        n < 16,
    ensures
        hex_value(hex_digit(n)) == n,
{
}

/// The lowercase hexadecimal digit of a nybble.
pub fn nybble_to_hex(n: u8) -> (c: char)
    requires
        n < 16,
    ensures
        c == hex_digit(n as nat),
{
    if n < 10 {
        (n + 0x30) as char
    } else {
        (n - 9 + 0x60) as char
    }
}

impl ByteCell {
    /// The byte held, if any.
    pub fn value(self) -> (val: Option<u8>)
        ensures
            cell_of(val) == self,
    {
        match self {
            ByteCell::Present(v) => Some(v),
            ByteCell::Unwritten => None,
        }
    }

    /// The three glyphs this slot is displayed with.
    pub fn render(self) -> (info: CharPrintingInfo)
        ensures
            info == cell_glyphs(self),
    {
        match self {
            ByteCell::Present(v) => {
                assert(v >> 4 == v / 16 && v & 0xf == v % 16) by (bit_vector);
                CharPrintingInfo {
                    lower: nybble_to_hex(v & 0xf),
                    upper: nybble_to_hex(v >> 4),
                    text: if v >= 0x21 && v <= 0x7e {
                        v as char
                    } else {
                        UNPRINTABLE
                    },
                }
            },
            ByteCell::Unwritten => CharPrintingInfo {
                lower: UNWRITTEN_HEX,
                upper: UNWRITTEN_HEX,
                text: UNWRITTEN_ASCII,
            },
        }
    }
}

impl From<Option<u8>> for ByteCell {
    fn from(val: Option<u8>) -> (cell: ByteCell) {
        match val {
            Some(v) => ByteCell::Present(v),
            None => ByteCell::Unwritten,
        }
    }
}

impl FromSpecImpl<Option<u8>> for ByteCell {
    open spec fn obeys_from_spec() -> bool {
        true
    }

    open spec fn from_spec(val: Option<u8>) -> ByteCell {
        cell_of(val)
    }
}

impl From<Option<u8>> for CharPrintingInfo {
    fn from(val: Option<u8>) -> (info: CharPrintingInfo) {
        ByteCell::from(val).render()
    }
}

impl FromSpecImpl<Option<u8>> for CharPrintingInfo {
    open spec fn obeys_from_spec() -> bool {
        true
    }

    open spec fn from_spec(val: Option<u8>) -> CharPrintingInfo {
        cell_glyphs(cell_of(val))
    }
}

impl CharPrintingInfo {
    /// The hex column's text for one slot: upper digit, lower digit, a space.
    pub fn byte(&self) -> (s: String)
        ensures
            s@ == seq![self.upper, self.lower, ' '],
    {
        let mut s = String::new();
        s.push(self.upper);
        s.push(self.lower);
        s.push(' ');
        s
    }

    /// The ASCII gutter's text for one slot: its single glyph.
    pub fn ascii(&self) -> (s: String)
        ensures
            s@ == seq![self.text],
    {
        let mut s = String::new();
        s.push(self.text);
        s
    }
}

} // verus!
