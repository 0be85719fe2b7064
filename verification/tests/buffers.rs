use zestien::buffer::{Buffer, ROW_WIDTH};
use zestien::cell::{ByteCell, Nybble};
use zestien::error::HexError;

fn cells_of(buffer: &Buffer) -> Vec<ByteCell> {
    (0..buffer.len()).map(|i| buffer.get(i).unwrap()).collect()
}

#[test]
fn load_pads_two_bytes_to_one_row() {
    let buffer = Buffer::load(&[0x41, 0x42], 16).unwrap();
    assert_eq!(buffer.len(), 16);
    assert_eq!(buffer.row_width(), 16);
    assert_eq!(buffer.row_count(), 1);
    assert_eq!(buffer.get(0), Some(ByteCell::Present(0x41)));
    assert_eq!(buffer.get(1), Some(ByteCell::Present(0x42)));
    for i in 2..16 {
        assert_eq!(buffer.get(i), Some(ByteCell::Unwritten));
    }
    assert_eq!(buffer.get(16), None);
}

#[test]
fn load_of_an_empty_file_is_one_unwritten_row() {
    let buffer = Buffer::load(&[], 16).unwrap();
    assert_eq!(buffer.len(), 16);
    assert!(cells_of(&buffer).iter().all(|c| *c == ByteCell::Unwritten));
}

#[test]
fn load_adds_a_whole_row_after_an_exact_multiple() {
    let bytes: Vec<u8> = (0..16).collect();
    let buffer = Buffer::load(&bytes, 16).unwrap();
    assert_eq!(buffer.len(), 32);
    assert_eq!(buffer.row_count(), 2);
    for i in 0..16 {
        assert_eq!(buffer.get(i), Some(ByteCell::Present(i as u8)));
    }
    for i in 16..32 {
        assert_eq!(buffer.get(i), Some(ByteCell::Unwritten));
    }
}

#[test]
fn load_fills_the_last_row_when_one_slot_is_missing() {
    let bytes: Vec<u8> = (0..15).collect();
    let buffer = Buffer::load(&bytes, 16).unwrap();
    assert_eq!(buffer.len(), 16);
    assert_eq!(buffer.get(14), Some(ByteCell::Present(14)));
    assert_eq!(buffer.get(15), Some(ByteCell::Unwritten));
}

#[test]
fn loaded_length_is_a_positive_multiple_and_the_tail_is_unwritten() {
    for width in [1usize, 3, 16, 17] {
        for len in 0..70usize {
            let bytes: Vec<u8> = (0..len).map(|i| (i * 7) as u8).collect();
            let buffer = Buffer::load(&bytes, width).unwrap();
            assert!(buffer.len() > len);
            assert!(buffer.len() <= len + width);
            assert_eq!(buffer.len() % width, 0);
            assert_eq!(buffer.len(), (len / width + 1) * width);
            for i in 0..buffer.len() {
                let want = if i < len { ByteCell::Present(bytes[i]) } else { ByteCell::Unwritten };
                assert_eq!(buffer.get(i), Some(want));
            }
        }
    }
}

#[test]
fn load_refuses_a_row_width_of_zero() {
    assert_eq!(Buffer::load(&[1, 2, 3], 0).err(), Some(HexError::InvalidInput));
    assert_eq!(Buffer::load(&[], 0).err(), Some(HexError::InvalidInput));
}

#[test]
fn from_cells_keeps_full_rows_as_they_are() {
    let cells: Vec<ByteCell> = (0..32).map(|i| ByteCell::Present(i as u8)).collect();
    let buffer = Buffer::from_cells(cells.clone(), 16).unwrap();
    assert_eq!(cells_of(&buffer), cells);
}

#[test]
fn from_cells_fills_a_short_last_row() {
    let cells = vec![ByteCell::Present(1), ByteCell::Unwritten, ByteCell::Present(3)];
    let buffer = Buffer::from_cells(cells, 4).unwrap();
    assert_eq!(
        cells_of(&buffer),
        vec![ByteCell::Present(1), ByteCell::Unwritten, ByteCell::Present(3), ByteCell::Unwritten]
    );
}

#[test]
fn from_cells_of_nothing_is_one_unwritten_row() {
    let buffer = Buffer::from_cells(Vec::new(), 16).unwrap();
    assert_eq!(cells_of(&buffer), vec![ByteCell::Unwritten; 16]);
}

#[test]
fn from_cells_refuses_a_row_width_of_zero() {
    assert_eq!(Buffer::from_cells(vec![ByteCell::Unwritten], 0).err(), Some(HexError::InvalidInput));
}

#[test]
fn write_upper_nybble_keeps_the_lower_one() {
    let mut buffer = Buffer::load(&[0x41], 16).unwrap();
    assert_eq!(buffer.write_nybble(0, Nybble::Upper, 0xc), Ok(()));
    assert_eq!(buffer.get(0), Some(ByteCell::Present(0xc1)));
}

#[test]
fn write_lower_nybble_keeps_the_upper_one() {
    let mut buffer = Buffer::load(&[0xc1], 16).unwrap();
    assert_eq!(buffer.write_nybble(0, Nybble::Lower, 0x5), Ok(()));
    assert_eq!(buffer.get(0), Some(ByteCell::Present(0xc5)));
}

#[test]
fn write_is_a_masked_read_modify_write_for_every_byte() {
    for old in 0..=255u8 {
        for value in 0..16u8 {
            let mut buffer = Buffer::load(&[old], 16).unwrap();
            buffer.write_nybble(0, Nybble::Upper, value).unwrap();
            assert_eq!(buffer.get(0), Some(ByteCell::Present((old & 0x0f) | (value << 4))));
            let mut buffer = Buffer::load(&[old], 16).unwrap();
            buffer.write_nybble(0, Nybble::Lower, value).unwrap();
            assert_eq!(buffer.get(0), Some(ByteCell::Present((old & 0xf0) | value)));
        }
    }
}

#[test]
fn write_promotes_an_unwritten_cell_with_the_other_nybble_zero() {
    let mut buffer = Buffer::load(&[], 16).unwrap();
    buffer.write_nybble(3, Nybble::Upper, 0xa).unwrap();
    assert_eq!(buffer.get(3), Some(ByteCell::Present(0xa0)));
    buffer.write_nybble(4, Nybble::Lower, 0xa).unwrap();
    assert_eq!(buffer.get(4), Some(ByteCell::Present(0x0a)));
    assert_eq!(buffer.get(5), Some(ByteCell::Unwritten));
}

#[test]
fn write_touches_no_other_cell_and_keeps_the_length() {
    let bytes: Vec<u8> = (0..20).collect();
    let mut buffer = Buffer::load(&bytes, 16).unwrap();
    let before = cells_of(&buffer);
    buffer.write_nybble(7, Nybble::Lower, 0xf).unwrap();
    let after = cells_of(&buffer);
    assert_eq!(after.len(), before.len());
    for i in 0..before.len() {
        if i == 7 {
            assert_eq!(after[i], ByteCell::Present(0x0f));
        } else {
            assert_eq!(after[i], before[i]);
        }
    }
}

#[test]
fn write_outside_the_buffer_is_out_of_range_and_changes_nothing() {
    let mut buffer = Buffer::load(&[1, 2], 16).unwrap();
    let before = cells_of(&buffer);
    assert_eq!(buffer.write_nybble(16, Nybble::Upper, 1), Err(HexError::OutOfRange));
    assert_eq!(buffer.write_nybble(usize::MAX, Nybble::Lower, 1), Err(HexError::OutOfRange));
    assert_eq!(cells_of(&buffer), before);
}

#[test]
fn row_of_returns_exactly_one_full_row() {
    let bytes: Vec<u8> = (0..20).collect();
    let buffer = Buffer::load(&bytes, 16).unwrap();
    let first = buffer.row_of(0).unwrap();
    assert_eq!(first, (0..16).map(ByteCell::Present).collect::<Vec<_>>());
    let second = buffer.row_of(1).unwrap();
    assert_eq!(second.len(), 16);
    assert_eq!(&second[..4], &[16, 17, 18, 19].map(ByteCell::Present));
    assert!(second[4..].iter().all(|c| *c == ByteCell::Unwritten));
}

#[test]
fn row_of_a_missing_row_is_out_of_range() {
    let buffer = Buffer::load(&[1, 2, 3], 16).unwrap();
    assert_eq!(buffer.row_of(1).err(), Some(HexError::OutOfRange));
    assert_eq!(buffer.row_of(usize::MAX).err(), Some(HexError::OutOfRange));
}

#[test]
fn the_editor_row_width_is_sixteen() {
    assert_eq!(ROW_WIDTH, 16);
}
