use zestien::cell::{nybble_to_hex, ByteCell, CharPrintingInfo};

#[test]
fn nybble_to_hex_gives_the_sixteen_lowercase_digits() {
    let expected = "0123456789abcdef";
    for (n, want) in expected.chars().enumerate() {
        assert_eq!(nybble_to_hex(n as u8), want);
    }
}

#[test]
fn present_byte_renders_as_two_digits_and_its_character() {
    let info = ByteCell::Present(0x41).render();
    assert_eq!(info.upper, '4');
    assert_eq!(info.lower, '1');
    assert_eq!(info.text, 'A');
}

#[test]
fn high_digits_are_lowercase_letters() {
    let info = ByteCell::Present(0xaf).render();
    assert_eq!(info.upper, 'a');
    assert_eq!(info.lower, 'f');
    assert_eq!(info.text, '.');
}

#[test]
fn unwritten_cell_renders_as_placeholders() {
    let info = ByteCell::Unwritten.render();
    assert_eq!(info.upper, '~');
    assert_eq!(info.lower, '~');
    assert_eq!(info.text, ' ');
}

#[test]
fn only_graphic_ascii_is_shown_in_the_gutter() {
    assert_eq!(ByteCell::Present(0x00).render().text, '.');
    assert_eq!(ByteCell::Present(0x1f).render().text, '.');
    assert_eq!(ByteCell::Present(0x20).render().text, '.');
    assert_eq!(ByteCell::Present(0x21).render().text, '!');
    assert_eq!(ByteCell::Present(0x7e).render().text, '~');
    assert_eq!(ByteCell::Present(0x7f).render().text, '.');
    assert_eq!(ByteCell::Present(0x80).render().text, '.');
    assert_eq!(ByteCell::Present(0xff).render().text, '.');
}

#[test]
fn gutter_agrees_with_is_ascii_graphic_for_every_byte() {
    for v in 0..=255u8 {
        let want = if v.is_ascii_graphic() { v as char } else { '.' };
        assert_eq!(ByteCell::Present(v).render().text, want);
    }
}

#[test]
fn hex_digits_recombine_to_the_byte_for_every_byte() {
    for v in 0..=255u8 {
        let info = ByteCell::Present(v).render();
        let upper = info.upper.to_digit(16).unwrap();
        let lower = info.lower.to_digit(16).unwrap();
        assert_eq!(upper * 16 + lower, v as u32);
        assert!(!info.upper.is_ascii_uppercase());
        assert!(!info.lower.is_ascii_uppercase());
    }
}

#[test]
fn rendering_is_total_over_all_cells() {
    for v in 0..=255u8 {
        let info = ByteCell::Present(v).render();
        assert!(info.upper.is_ascii_hexdigit());
        assert!(info.lower.is_ascii_hexdigit());
    }
    let info = ByteCell::Unwritten.render();
    assert_eq!((info.upper, info.lower, info.text), ('~', '~', ' '));
}

#[test]
fn printing_info_from_an_optional_byte() {
    let some = CharPrintingInfo::from(Some(0x4bu8));
    assert_eq!(some, ByteCell::Present(0x4b).render());
    assert_eq!((some.upper, some.lower, some.text), ('4', 'b', 'K'));
    let none = CharPrintingInfo::from(None);
    assert_eq!(none, ByteCell::Unwritten.render());
}

#[test]
fn byte_text_is_both_digits_and_a_space() {
    assert_eq!(CharPrintingInfo::from(Some(0xc5u8)).byte(), "c5 ");
    assert_eq!(CharPrintingInfo::from(None).byte(), "~~ ");
}

#[test]
fn ascii_text_is_the_single_glyph() {
    assert_eq!(CharPrintingInfo::from(Some(0x42u8)).ascii(), "B");
    assert_eq!(CharPrintingInfo::from(Some(0x0au8)).ascii(), ".");
    assert_eq!(CharPrintingInfo::from(None).ascii(), " ");
}

#[test]
fn cell_and_optional_byte_convert_both_ways() {
    assert_eq!(ByteCell::from(Some(7u8)), ByteCell::Present(7));
    assert_eq!(ByteCell::from(None), ByteCell::Unwritten);
    assert_eq!(ByteCell::Present(7).value(), Some(7));
    assert_eq!(ByteCell::Unwritten.value(), None);
}
