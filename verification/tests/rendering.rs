use zestien::buffer::Buffer;
use zestien::cell::ByteCell;
use zestien::cursor::Cursor;
use zestien::render::{format_offset, render_row, Emphasis, Glyph, StyledLine};

fn text_of(chars: &[char]) -> String {
    chars.iter().collect()
}

fn marks(line: &StyledLine) -> Vec<(usize, char, Emphasis)> {
    line.glyphs
        .iter()
        .enumerate()
        .filter(|(_, g)| g.tag != Emphasis::Plain)
        .map(|(i, g)| (i, g.ch, g.tag))
        .collect()
}

fn ab_buffer() -> Buffer {
    Buffer::load(&[0x41, 0x42], 16).unwrap()
}

#[test]
fn offset_is_eight_lowercase_hex_digits() {
    assert_eq!(text_of(&format_offset(0)), "00000000");
    assert_eq!(text_of(&format_offset(16)), "00000010");
    assert_eq!(text_of(&format_offset(0xabc)), "00000abc");
    assert_eq!(text_of(&format_offset(0xdeadbeef)), "deadbeef");
    assert_eq!(text_of(&format_offset(0xffff_ffff)), "ffffffff");
}

#[test]
fn offset_grows_where_eight_digits_cannot_hold_it() {
    assert_eq!(text_of(&format_offset(0x1_0000_0000)), "100000000");
    assert_eq!(text_of(&format_offset(u64::MAX as u128)), "ffffffffffffffff");
    assert_eq!(text_of(&format_offset(u128::MAX)), "f".repeat(32));
}

#[test]
fn offset_agrees_with_the_standard_formatting() {
    for n in [0u128, 1, 9, 10, 15, 16, 255, 256, 4095, 4096, 65535, 0x7fff_ffff, 0x1234_5678_9abc] {
        assert_eq!(text_of(&format_offset(n)), format!("{:08x}", n));
    }
}

#[test]
fn row_of_ab_shows_hex_column_and_gutter() {
    let buffer = ab_buffer();
    let cursor = Cursor::new(&buffer);
    let row = buffer.row_of(0).unwrap();
    let line = render_row(&row, 0, &cursor);
    let text = line.text();
    let want = format!("00000000: 41 42 {}| AB{}", "~~ ".repeat(14), " ".repeat(14));
    assert_eq!(text, want);
    assert_eq!(text.len(), 76);
    assert!(text[10..].starts_with("41 42 ~~ ~~ "));
    assert_eq!(&text[60..], "AB              ");
}

#[test]
fn on_the_upper_nybble_the_upper_digit_is_emphasized() {
    let buffer = ab_buffer();
    let cursor = Cursor::new(&buffer);
    let line = render_row(&buffer.row_of(0).unwrap(), 0, &cursor);
    assert_eq!(
        marks(&line),
        vec![
            (10, '4', Emphasis::Emphasized),
            (11, '1', Emphasis::Inactive),
            (60, 'A', Emphasis::Emphasized),
        ]
    );
}

#[test]
fn on_the_lower_nybble_the_lower_digit_is_emphasized() {
    let buffer = ab_buffer();
    let mut cursor = Cursor::new(&buffer);
    cursor.move_by(1);
    cursor.move_nybble(true);
    let line = render_row(&buffer.row_of(0).unwrap(), 0, &cursor);
    assert_eq!(
        marks(&line),
        vec![
            (13, '4', Emphasis::Inactive),
            (14, '2', Emphasis::Emphasized),
            (61, 'B', Emphasis::Emphasized),
        ]
    );
}

#[test]
fn the_cursor_on_an_unwritten_cell_marks_its_placeholders() {
    let buffer = ab_buffer();
    let mut cursor = Cursor::new(&buffer);
    cursor.move_by(15);
    let line = render_row(&buffer.row_of(0).unwrap(), 0, &cursor);
    assert_eq!(
        marks(&line),
        vec![
            (55, '~', Emphasis::Emphasized),
            (56, '~', Emphasis::Inactive),
            (75, ' ', Emphasis::Emphasized),
        ]
    );
}

#[test]
fn a_row_without_the_cursor_carries_no_mark() {
    let bytes: Vec<u8> = (0x30..0x50).collect();
    let buffer = Buffer::load(&bytes, 16).unwrap();
    let cursor = Cursor::new(&buffer);
    let line = render_row(&buffer.row_of(1).unwrap(), 1, &cursor);
    assert!(marks(&line).is_empty());
    assert_eq!(
        line.text(),
        "00000010: 40 41 42 43 44 45 46 47 48 49 4a 4b 4c 4d 4e 4f | @ABCDEFGHIJKLMNO"
    );
}

#[test]
fn marks_appear_on_the_row_of_the_cursor_only() {
    let bytes: Vec<u8> = (0..40).collect();
    let buffer = Buffer::load(&bytes, 16).unwrap();
    let mut cursor = Cursor::new(&buffer);
    cursor.move_by(16 + 3);
    for r in 0..buffer.row_count() {
        let line = render_row(&buffer.row_of(r).unwrap(), r, &cursor);
        let found = marks(&line);
        if r == 1 {
            assert_eq!(
                found,
                vec![
                    (19, '1', Emphasis::Emphasized),
                    (20, '3', Emphasis::Inactive),
                    (63, '.', Emphasis::Emphasized),
                ]
            );
        } else {
            assert!(found.is_empty());
        }
    }
}

#[test]
fn every_row_has_two_emphasized_glyphs_or_none() {
    let bytes: Vec<u8> = (0..40).collect();
    let buffer = Buffer::load(&bytes, 16).unwrap();
    let mut cursor = Cursor::new(&buffer);
    for _ in 0..(2 * buffer.len()) {
        let mut rows_with_marks = 0;
        for r in 0..buffer.row_count() {
            let line = render_row(&buffer.row_of(r).unwrap(), r, &cursor);
            let emphasized = line.glyphs.iter().filter(|g| g.tag == Emphasis::Emphasized).count();
            let inactive = line.glyphs.iter().filter(|g| g.tag == Emphasis::Inactive).count();
            if r == cursor.byte_index() / 16 {
                assert_eq!((emphasized, inactive), (2, 1));
                rows_with_marks += 1;
            } else {
                assert_eq!((emphasized, inactive), (0, 0));
            }
        }
        assert_eq!(rows_with_marks, 1);
        cursor.move_nybble(true);
    }
}

#[test]
fn the_row_width_is_the_number_of_cells_given() {
    let buffer = Buffer::load(&[0xde, 0xad, 0xbe, 0xef, 0x21], 4).unwrap();
    let mut cursor = Cursor::new(&buffer);
    cursor.move_by(4);
    let first = render_row(&buffer.row_of(0).unwrap(), 0, &cursor);
    assert_eq!(first.text(), "00000000: de ad be ef | ....");
    assert!(marks(&first).is_empty());
    let second = render_row(&buffer.row_of(1).unwrap(), 1, &cursor);
    assert_eq!(second.text(), "00000004: 21 ~~ ~~ ~~ | !   ");
    assert_eq!(
        marks(&second),
        vec![
            (10, '2', Emphasis::Emphasized),
            (11, '1', Emphasis::Inactive),
            (24, '!', Emphasis::Emphasized),
        ]
    );
}

#[test]
fn an_empty_row_is_offset_and_separators() {
    let buffer = ab_buffer();
    let cursor = Cursor::new(&buffer);
    let row: Vec<ByteCell> = Vec::new();
    let line = render_row(&row, 7, &cursor);
    assert_eq!(line.text(), "00000000: | ");
    assert!(marks(&line).is_empty());
}

#[test]
fn a_glyph_is_a_character_and_its_mark() {
    let glyph = Glyph::new('x', Emphasis::Inactive);
    assert_eq!(glyph, Glyph { ch: 'x', tag: Emphasis::Inactive });
}
