//! The text of one row of the grid: offset, hex column, ASCII gutter, with
//! the cell under the cursor marked.

use vstd::prelude::*;
use crate::cell::{ByteCell, CharPrintingInfo, cell_glyphs, hex_digit, nybble_to_hex};
use crate::cursor::{Cursor, CursorView};

verus! {

/// The fewest digits an offset is written with.
pub const OFFSET_DIGITS: usize = 8;

/// How a glyph stands out from the rest of its line.
#[derive(Clone, Copy, Debug, PartialEq, Eq, Structural)]
pub enum Emphasis {
    /// An ordinary glyph.
    Plain,
    /// The nybble under the cursor that the next edit leaves alone.
    Inactive,
    /// The nybble that the next edit replaces, or the ASCII glyph of the
    /// byte under the cursor.
    Emphasized,
}

/// One character of a line together with its mark.
#[derive(Clone, Copy, Debug, PartialEq, Eq, Structural)]
pub struct Glyph {
    /// The character.
    pub ch: char,
    /// Its mark.
    pub tag: Emphasis,
}

/// The character `ch` with the mark `tag`.
pub open spec fn marked(ch: char, tag: Emphasis) -> Glyph {
    Glyph { ch, tag }
}

impl Glyph {
    /// The character `ch` with the mark `tag`.
    pub fn new(ch: char, tag: Emphasis) -> (glyph: Glyph)
        ensures
            glyph == marked(ch, tag),
    {
        Glyph { ch, tag }
    }
}

/// A line of marked characters. It belongs to no terminal library: the mark
/// says what a glyph means, not how it is painted.
#[derive(Clone, Debug)]
pub struct StyledLine {
    /// The characters of the line, left to right.
    pub glyphs: Vec<Glyph>,
}

impl View for StyledLine {
    type V = Seq<Glyph>;

    open spec fn view(&self) -> Seq<Glyph> {
        self.glyphs@
    }
}

/// The characters of a line, without their marks.
pub open spec fn glyph_chars(glyphs: Seq<Glyph>) -> Seq<char> {
    Seq::new(glyphs.len(), |i: int| glyphs[i].ch)
}

/// The lowercase hexadecimal digits of a number, most significant first,
/// without leading zeros (a single `0` for zero).
pub open spec fn hex_digits(n: nat) -> Seq<char>
    decreases n,
{
    if n < 16 {
        seq![hex_digit(n)]
    } else {
        hex_digits(n / 16).push(hex_digit(n % 16))
    }
}

/// A text with zeros put in front until it is `width` characters long.
pub open spec fn zero_padded(s: Seq<char>, width: nat) -> Seq<char> {
    if s.len() >= width {
        s
    } else {
        Seq::new((width - s.len()) as nat, |i: int| '0') + s
    }
}

/// An offset as it stands at the start of a row: lowercase hexadecimal,
/// eight digits, more only where eight cannot hold it.
pub open spec fn hex_offset(n: nat) -> Seq<char> {
    zero_padded(hex_digits(n), OFFSET_DIGITS as nat)
}

/// The hex column of a row: for each slot its upper digit, its lower digit
/// and a space.
pub open spec fn hex_column(row: Seq<ByteCell>) -> Seq<char> {
    Seq::new(
        3 * row.len(),
        |i: int|
            if i % 3 == 0 {
                cell_glyphs(row[i / 3]).upper
            } else if i % 3 == 1 {
                cell_glyphs(row[i / 3]).lower
            } else {
                ' '
            },
    )
}

/// The ASCII gutter of a row: for each slot its one glyph.
pub open spec fn ascii_column(row: Seq<ByteCell>) -> Seq<char> {
    Seq::new(row.len(), |i: int| cell_glyphs(row[i]).text)
}

/// The characters of a row, left to right: the offset of its first slot, a
/// colon and a space, the hex column, a bar and a space, the ASCII gutter.
pub open spec fn row_text(row: Seq<ByteCell>, row_index: nat) -> Seq<char> {
    hex_offset(row_index * row.len()) + seq![':', ' '] + hex_column(row) + seq!['|', ' ']
        + ascii_column(row)
}

/// Whether the cursor stands in the row `row_index` of a grid whose rows are
/// `row_len` slots wide.
pub open spec fn on_cursor_row(row_len: nat, row_index: nat, cursor: CursorView) -> bool {
    row_len > 0 && cursor.index / row_len == row_index
}

/// Where the hex column of a row starts in its text.
pub open spec fn hex_start(row_len: nat, row_index: nat) -> nat {
    hex_offset(row_index * row_len).len() + 2
}

/// Where the ASCII gutter of a row starts in its text.
pub open spec fn ascii_start(row_len: nat, row_index: nat) -> nat {
    hex_start(row_len, row_index) + 3 * row_len + 2
}

/// The mark of the character at `pos` in a row. Off the cursor's row every
/// character is plain. On it, the two digits of the byte under the cursor
/// are marked, the active one as emphasized and the other as inactive, and
/// so is that byte's ASCII glyph, always as emphasized.
pub open spec fn tag_at(row_len: nat, row_index: nat, cursor: CursorView, pos: int) -> Emphasis {
    if !on_cursor_row(row_len, row_index, cursor) {
        Emphasis::Plain
    } else {
        let col = cursor.index % row_len;
        let upper_pos = hex_start(row_len, row_index) + 3 * col;
        if pos == upper_pos {
            if cursor.on_lower {
                Emphasis::Inactive
            } else {
                Emphasis::Emphasized
            }
        } else if pos == upper_pos + 1 {
            if cursor.on_lower {
                Emphasis::Emphasized
            } else {
                Emphasis::Inactive
            }
        } else if pos == ascii_start(row_len, row_index) + col {
            Emphasis::Emphasized
        } else {
            Emphasis::Plain
        }
    }
}

/// A row as a line of marked characters.
pub open spec fn row_glyphs(row: Seq<ByteCell>, row_index: nat, cursor: CursorView) -> Seq<Glyph> {
    Seq::new(
        row_text(row, row_index).len(),
        |p: int| marked(row_text(row, row_index)[p], tag_at(row.len(), row_index, cursor, p)),
    )
}

/// An offset is written with eight digits at least.
pub proof fn lemma_hex_offset_len(n: nat)
    ensures
        hex_offset(n).len() >= OFFSET_DIGITS,
        hex_digits(n).len() >= 1,
        hex_offset(n).len() == if hex_digits(n).len() >= OFFSET_DIGITS {
            hex_digits(n).len()
        } else {
            OFFSET_DIGITS as nat
        },
    decreases n,
{
    if n >= 16 {
        lemma_hex_offset_len(n / 16);
    }
}

/// A row's text is as long as its parts: the offset, two separators of two
/// characters each, three characters per slot in the hex column and one per
/// slot in the gutter.
pub proof fn lemma_row_text_len(row: Seq<ByteCell>, row_index: nat, cursor: CursorView)
    ensures
        row_text(row, row_index).len() == hex_offset(row_index * row.len()).len() + 4 + 4
            * row.len(),
        row_glyphs(row, row_index, cursor).len() == row_text(row, row_index).len(),
{
}

/// A row that the cursor is not in carries no mark at all.
pub proof fn lemma_no_mark_off_cursor_row(row: Seq<ByteCell>, row_index: nat, cursor: CursorView)
    requires
        !on_cursor_row(row.len(), row_index, cursor),
    ensures
        forall|p: int|
            0 <= p < row_glyphs(row, row_index, cursor).len() ==> (#[trigger] row_glyphs(
                row,
                row_index,
                cursor,
            )[p]).tag == Emphasis::Plain,
{
}

/// On the cursor's row exactly three characters are marked, and they are the
/// glyphs of the byte under the cursor: its upper digit, its lower digit and
/// its ASCII glyph. Of the two digits the active one is emphasized and the
/// other inactive; the ASCII glyph is emphasized whichever nybble is active.
pub proof fn lemma_marks_on_cursor_row(row: Seq<ByteCell>, row_index: nat, cursor: CursorView)
    requires
        on_cursor_row(row.len(), row_index, cursor),
    ensures
        ({
            let line = row_glyphs(row, row_index, cursor);
            let col = (cursor.index % row.len()) as int;
            let upper_pos = hex_start(row.len(), row_index) + 3 * col;
            let ascii_pos = ascii_start(row.len(), row_index) + col;
            &&& 0 <= col < row.len()
            &&& upper_pos + 1 < ascii_pos < line.len()
            &&& line[upper_pos].ch == cell_glyphs(row[col]).upper
            &&& line[upper_pos + 1].ch == cell_glyphs(row[col]).lower
            &&& line[ascii_pos].ch == cell_glyphs(row[col]).text
            &&& line[upper_pos].tag == if cursor.on_lower {
                Emphasis::Inactive
            } else {
                Emphasis::Emphasized
            }
            &&& line[upper_pos + 1].tag == if cursor.on_lower {
                Emphasis::Emphasized
            } else {
                Emphasis::Inactive
            }
            &&& line[ascii_pos].tag == Emphasis::Emphasized
            &&& forall|p: int|
                0 <= p < line.len() && p != upper_pos && p != upper_pos + 1 && p != ascii_pos
                    ==> (#[trigger] line[p]).tag == Emphasis::Plain
        }),
{
    let w = row.len() as int;
    let col = (cursor.index % row.len()) as int;
    lemma_row_text_len(row, row_index, cursor);
    let d = hex_offset(row_index * row.len()).len() as int;
    let text = row_text(row, row_index);
    let upper_pos = d + 2 + 3 * col;
    let ascii_pos = d + 2 + 3 * w + 2 + col;
    assert(hex_column(row)[3 * col] == cell_glyphs(row[col]).upper);
    assert(hex_column(row)[3 * col + 1] == cell_glyphs(row[col]).lower);
    assert(text[upper_pos] == hex_column(row)[3 * col]);
    assert(text[upper_pos + 1] == hex_column(row)[3 * col + 1]);
    assert(text[ascii_pos] == ascii_column(row)[col]);
}

/// Appends the digits of `n`, most significant first.
fn push_hex_digits(out: &mut Vec<char>, n: u128)
    ensures
        final(out)@ == old(out)@ + hex_digits(n as nat),
    decreases n,
{
    if n >= 16 {
        push_hex_digits(out, n / 16);
    }
    out.push(nybble_to_hex((n % 16) as u8));
}

/// The offset `n` as it stands at the start of a row.
pub fn format_offset(n: u128) -> (digits: Vec<char>)
    ensures
        digits@ == hex_offset(n as nat),
{
    let mut raw: Vec<char> = Vec::new();
    push_hex_digits(&mut raw, n);
    let mut digits: Vec<char> = Vec::new();
    let mut k: usize = raw.len();
    while k < OFFSET_DIGITS
        invariant
            raw@.len() <= k,
            k <= OFFSET_DIGITS || k == raw@.len(),
            digits@.len() == k - raw@.len(),
            forall|j: int| 0 <= j < digits@.len() ==> digits@[j] == '0',
        decreases OFFSET_DIGITS - k,
    {
        digits.push('0');
        k += 1;
    }
    let ghost zeros = digits@;
    let mut i: usize = 0;
    while i < raw.len()
        invariant
            i <= raw@.len(),
            digits@ == zeros + raw@.subrange(0, i as int),
        decreases raw@.len() - i,
    {
        digits.push(raw[i]);
        i += 1;
    }
    assert(raw@.subrange(0, raw@.len() as int) == raw@);
    assert(digits@ == hex_offset(n as nat));
    digits
}

/// The mark of one digit of the slot in column `column`.
fn digit_tag(marked: bool, column: usize, col: usize, on_lower: bool, lower: bool) -> (tag: Emphasis)
    ensures
        tag == if marked && column == col {
            if on_lower == lower {
                Emphasis::Emphasized
            } else {
                Emphasis::Inactive
            }
        } else {
            Emphasis::Plain
        },
{
    if marked && column == col {
        if on_lower == lower {
            Emphasis::Emphasized
        } else {
            Emphasis::Inactive
        }
    } else {
        Emphasis::Plain
    }
}

/// Renders one row of the grid as a line of marked characters.
///
/// `row` holds the slots of the row, `row_index` is its number in the
/// grid, and the row's width is the number of slots given. The line shows
/// the offset of the row's first slot, the hex column and the ASCII gutter;
/// when the cursor stands in this row, the glyphs of the byte under it are
/// marked.
pub fn render_row(row: &Vec<ByteCell>, row_index: usize, cursor: &Cursor) -> (line: StyledLine)
    ensures
        line@ == row_glyphs(row@, row_index as nat, cursor@),
{
    let w: usize = row.len();
    let on_lower: bool = cursor.on_lower_nybble();
    let marked: bool = w > 0 && cursor.byte_index() / w == row_index;
    let col: usize = if marked {
        cursor.byte_index() % w
    } else {
        0
    };
    assert((row_index as u128) * (w as u128) <= u128::MAX) by (nonlinear_arith)
        requires
            row_index <= u64::MAX,
            w <= u64::MAX,
    ;
    let offset: u128 = (row_index as u128) * (w as u128);
    let digits: Vec<char> = format_offset(offset);
    let ghost target = row_glyphs(row@, row_index as nat, cursor@);
    let ghost text = row_text(row@, row_index as nat);
    let ghost d = digits@.len() as int;
    proof {
        lemma_hex_offset_len(offset as nat);
        lemma_row_text_len(row@, row_index as nat, cursor@);
        assert(digits@ == hex_offset((row_index as nat) * row@.len()));
        assert(target.len() == d + 4 + 4 * w);
    }
    let mut glyphs: Vec<Glyph> = Vec::new();
    let mut i: usize = 0;
    while i < digits.len()
        invariant
            i <= digits@.len(),
            d == digits@.len(),
            glyphs@.len() == i,
            target == row_glyphs(row@, row_index as nat, cursor@),
            text == row_text(row@, row_index as nat),
            digits@ == hex_offset((row_index as nat) * row@.len()),
            target.len() == d + 4 + 4 * row@.len(),
            forall|j: int| 0 <= j < i ==> glyphs@[j] == target[j],
        decreases digits@.len() - i,
    {
        assert(text[i as int] == digits@[i as int]);
        glyphs.push(Glyph::new(digits[i], Emphasis::Plain));
        i += 1;
    }
    assert(text[d] == ':' && text[d + 1] == ' ');
    glyphs.push(Glyph::new(':', Emphasis::Plain));
    glyphs.push(Glyph::new(' ', Emphasis::Plain));
    let mut k: usize = 0;
    while k < w
        invariant
            k <= w,
            w == row@.len(),
            d == digits@.len(),
            d >= OFFSET_DIGITS,
            glyphs@.len() == d + 2 + 3 * k,
            target == row_glyphs(row@, row_index as nat, cursor@),
            text == row_text(row@, row_index as nat),
            digits@ == hex_offset((row_index as nat) * row@.len()),
            target.len() == d + 4 + 4 * w,
            marked == on_cursor_row(row@.len(), row_index as nat, cursor@),
            marked ==> col == cursor@.index % row@.len(),
            on_lower == cursor@.on_lower,
            forall|j: int| 0 <= j < glyphs@.len() ==> glyphs@[j] == target[j],
        decreases w - k,
    {
        let info: CharPrintingInfo = row[k].render();
        let upper_tag: Emphasis = digit_tag(marked, k, col, on_lower, false);
        let lower_tag: Emphasis = digit_tag(marked, k, col, on_lower, true);
        proof {
            let base = d + 2 + 3 * k;
            assert(hex_column(row@)[3 * k] == info.upper);
            assert(hex_column(row@)[3 * k + 1] == info.lower);
            assert(hex_column(row@)[3 * k + 2] == ' ');
            assert(text[base] == hex_column(row@)[3 * k]);
            assert(text[base + 1] == hex_column(row@)[3 * k + 1]);
            assert(text[base + 2] == hex_column(row@)[3 * k + 2]);
        }
        glyphs.push(Glyph::new(info.upper, upper_tag));
        glyphs.push(Glyph::new(info.lower, lower_tag));
        glyphs.push(Glyph::new(' ', Emphasis::Plain));
        k += 1;
    }
    assert(text[d + 2 + 3 * w] == '|' && text[d + 2 + 3 * w + 1] == ' ');
    glyphs.push(Glyph::new('|', Emphasis::Plain));
    glyphs.push(Glyph::new(' ', Emphasis::Plain));
    let mut m: usize = 0;
    while m < w
        invariant
            m <= w,
            w == row@.len(),
            d == digits@.len(),
            d >= OFFSET_DIGITS,
            glyphs@.len() == d + 4 + 3 * w + m,
            target == row_glyphs(row@, row_index as nat, cursor@),
            text == row_text(row@, row_index as nat),
            digits@ == hex_offset((row_index as nat) * row@.len()),
            target.len() == d + 4 + 4 * w,
            marked == on_cursor_row(row@.len(), row_index as nat, cursor@),
            marked ==> col == cursor@.index % row@.len(),
            forall|j: int| 0 <= j < glyphs@.len() ==> glyphs@[j] == target[j],
        decreases w - m,
    {
        let info: CharPrintingInfo = row[m].render();
        let tag: Emphasis = if marked && m == col {
            Emphasis::Emphasized
        } else {
            Emphasis::Plain
        };
        proof {
            assert(text[d + 4 + 3 * w + m] == ascii_column(row@)[m as int]);
        }
        glyphs.push(Glyph::new(info.text, tag));
        m += 1;
    }
    assert(glyphs@ =~= target);
    StyledLine { glyphs }
}

impl StyledLine {
    /// The characters of the line, without their marks.
    pub fn text(&self) -> (s: String)
        ensures
            s@ == glyph_chars(self@),
    {
        let mut s: String = String::new();
        let mut i: usize = 0;
        while i < self.glyphs.len()
            invariant
                i <= self.glyphs@.len(),
                s@ == glyph_chars(self@).subrange(0, i as int),
            decreases self.glyphs@.len() - i,
        {
            s.push(self.glyphs[i].ch);
            i += 1;
        }
        assert(glyph_chars(self@).subrange(0, self.glyphs@.len() as int) == glyph_chars(self@));
        s
    }
}

} // verus!
