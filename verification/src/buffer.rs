//! The editable bytes: a fixed-length sequence of slots cut into full rows.

use vstd::prelude::*;
use vstd::arithmetic::div_mod::{lemma_fundamental_div_mod, lemma_mod_multiples_basic};
use crate::cell::{ByteCell, Nybble, lower_nybble, upper_nybble};
use crate::error::HexError;

verus! {

/// The row width of the editor's own grid.
pub const ROW_WIDTH: usize = 16;

/// What a buffer holds: its slots in order, and how many of them make a row.
pub struct BufferView {
    /// The slots, first to last.
    pub cells: Seq<ByteCell>,
    /// The number of slots in a row.
    pub row_width: nat,
}

/// An ordered sequence of slots with a fixed row width. Its length never
/// changes after it is built; only single nybbles are overwritten.
pub struct Buffer {
    cells: Vec<ByteCell>,
    row_width: usize,
}

impl View for Buffer {
    type V = BufferView;

    closed spec fn view(&self) -> BufferView {
        BufferView { cells: self.cells@, row_width: self.row_width as nat }
    }
}

/// The length of a buffer built from `len` bytes: the smallest multiple of
/// the row width that is strictly greater than `len`.
pub open spec fn padded_len(len: nat, row_width: nat) -> nat
    recommends
        row_width > 0,
{
    (len / row_width + 1) * row_width
}

/// The slots of a buffer built from `bytes`: every byte present, in order,
/// followed by unwritten slots up to the padded length.
pub open spec fn loaded_cells(bytes: Seq<u8>, row_width: nat) -> Seq<ByteCell> {
    Seq::new(
        padded_len(bytes.len(), row_width),
        |i: int|
            if i < bytes.len() {
                ByteCell::Present(bytes[i])
            } else {
                ByteCell::Unwritten
            },
    )
}

/// The length of a buffer that holds `len` given slots in full rows: `len`
/// itself where that is a positive multiple of the row width, and the next
/// multiple of it otherwise.
pub open spec fn full_rows_len(len: nat, row_width: nat) -> nat
    recommends
        row_width > 0,
{
    if len > 0 && len % row_width == 0 {
        len
    } else {
        padded_len(len, row_width)
    }
}

/// The given slots, followed by unwritten slots up to the end of the last
/// row.
pub open spec fn filled_cells(cells: Seq<ByteCell>, row_width: nat) -> Seq<ByteCell> {
    Seq::new(
        full_rows_len(cells.len(), row_width),
        |i: int|
            if i < cells.len() {
                cells[i]
            } else {
                ByteCell::Unwritten
            },
    )
}

/// The slots of one row of a buffer.
pub open spec fn row_cells(buffer: BufferView, row_index: int) -> Seq<ByteCell> {
    buffer.cells.subrange(
        row_index * buffer.row_width,
        row_index * buffer.row_width + buffer.row_width,
    )
}

/// The byte that an edit starts from: the slot's byte, or zero for a slot
/// that was never written.
pub open spec fn base_byte(cell: ByteCell) -> u8 {
    match cell {
        ByteCell::Present(v) => v,
        ByteCell::Unwritten => 0,
    }
}

/// A byte with one nybble replaced by `value` and the other kept.
pub open spec fn with_nybble(byte: u8, half: Nybble, value: u8) -> u8
    recommends
        value < 16,
{
    match half {
        Nybble::Upper => (value * 16 + lower_nybble(byte)) as u8,
        Nybble::Lower => (upper_nybble(byte) * 16 + value) as u8,
    }
}

/// A slot after `value` was written into one of its nybbles. The slot is
/// present afterwards, whatever it was before.
pub open spec fn written_cell(cell: ByteCell, half: Nybble, value: u8) -> ByteCell
    recommends
        value < 16,
{
    ByteCell::Present(with_nybble(base_byte(cell), half, value))
}

/// Replacing a nybble is a masked read-modify-write: the kept half is
/// selected by a mask, the new half is shifted into place.
pub proof fn lemma_with_nybble_is_masked_write(byte: u8, value: u8)
    requires
        value < 16,
    ensures
        with_nybble(byte, Nybble::Upper, value) == (byte & 0x0f) | (value << 4),
        with_nybble(byte, Nybble::Lower, value) == (byte & 0xf0) | value,
        upper_nybble(with_nybble(byte, Nybble::Upper, value)) == value,
        lower_nybble(with_nybble(byte, Nybble::Upper, value)) == lower_nybble(byte),
        lower_nybble(with_nybble(byte, Nybble::Lower, value)) == value,
        upper_nybble(with_nybble(byte, Nybble::Lower, value)) == upper_nybble(byte),
{
    assert((byte & 0x0f) | (value << 4) == value * 16 + byte % 16) by (bit_vector)
        requires
            value < 16,
    ;
    assert((byte & 0xf0) | value == (byte / 16) * 16 + value) by (bit_vector)
        requires
            value < 16,
    ;
}

/// Writing into a slot that was never written yields a present byte whose
/// other nybble is zero.
pub proof fn lemma_write_promotes_unwritten(half: Nybble, value: u8)
    requires
        value < 16,
    ensures
        written_cell(ByteCell::Unwritten, half, value) is Present,
        half == Nybble::Upper ==> written_cell(ByteCell::Unwritten, half, value)
            == ByteCell::Present((value * 16) as u8),
        half == Nybble::Lower ==> written_cell(ByteCell::Unwritten, half, value)
            == ByteCell::Present(value),
        half == Nybble::Upper ==> lower_nybble(
            written_cell(ByteCell::Unwritten, half, value)->Present_0,
        ) == 0,
        half == Nybble::Lower ==> upper_nybble(
            written_cell(ByteCell::Unwritten, half, value)->Present_0,
        ) == 0,
{
}

/// The padded length is a multiple of the row width. It is greater than
/// the length it pads, by one row at most.
pub proof fn lemma_padded_len(len: nat, row_width: nat)
    requires
        row_width > 0,
    ensures
        len < padded_len(len, row_width) <= len + row_width,
        padded_len(len, row_width) % row_width == 0,
{
    let n = len as int;
    let w = row_width as int;
    lemma_fundamental_div_mod(n, w);
    assert((n / w + 1) * w == w * (n / w) + w) by (nonlinear_arith);
    lemma_mod_multiples_basic(n / w + 1, w);
}

/// A loaded buffer has a positive number of full rows, keeps the bytes it
/// was given, and holds nothing but unwritten slots after them.
pub proof fn lemma_loaded_cells(bytes: Seq<u8>, row_width: nat)
    requires
        row_width > 0,
    ensures
        loaded_cells(bytes, row_width).len() > 0,
        loaded_cells(bytes, row_width).len() % row_width == 0,
        loaded_cells(bytes, row_width).len() == padded_len(bytes.len(), row_width),
        forall|i: int|
            0 <= i < bytes.len() ==> #[trigger] loaded_cells(bytes, row_width)[i]
                == ByteCell::Present(bytes[i]),
        forall|i: int|
            bytes.len() <= i < padded_len(bytes.len(), row_width) ==> #[trigger] loaded_cells(
                bytes,
                row_width,
            )[i] == ByteCell::Unwritten,
{
    lemma_padded_len(bytes.len(), row_width);
}

impl Buffer {
    /// The invariant of every buffer: a positive row width and a positive
    /// number of full rows, no more than the machine can index.
    pub open spec fn wf(&self) -> bool {
        &&& self@.row_width > 0
        &&& 0 < self@.cells.len() <= usize::MAX
        &&& self@.cells.len() % self@.row_width == 0
    }

    /// The number of rows.
    pub open spec fn spec_row_count(&self) -> nat {
        self@.cells.len() / self@.row_width
    }

    /// Builds a buffer from a file's bytes. Each byte becomes a present slot;
    /// unwritten slots follow up to the next multiple of `row_width` that is
    /// strictly greater than the number of bytes, so that there is always
    /// room behind the last byte.
    ///
    /// Refused with `InvalidInput` when `row_width` is zero, or when the
    /// padded length does not fit the machine's address range.
    pub fn load(bytes: &[u8], row_width: usize) -> (res: Result<Buffer, HexError>)
        ensures
            match res {
                Ok(buffer) => {
                    &&& row_width > 0
                    &&& buffer.wf()
                    &&& buffer@.row_width == row_width
                    &&& buffer@.cells == loaded_cells(bytes@, row_width as nat)
                    &&& padded_len(bytes@.len(), row_width as nat) <= usize::MAX
                },
                Err(e) => {
                    &&& e == HexError::InvalidInput
                    &&& (row_width == 0 || padded_len(bytes@.len(), row_width as nat) > usize::MAX)
                },
            },
    {
        if row_width == 0 {
            return Err(HexError::InvalidInput);
        }
        let len: usize = bytes.len();
        let rows: usize = match (len / row_width).checked_add(1) {
            Some(rows) => rows,
            None => {
                proof {
                    assert((len / row_width + 1) * row_width >= len / row_width + 1)
                        by (nonlinear_arith)
                        requires
                            row_width >= 1,
                    ;
                }
                return Err(HexError::InvalidInput);
            },
        };
        let total: usize = match rows.checked_mul(row_width) {
            Some(total) => total,
            None => {
                return Err(HexError::InvalidInput);
            },
        };
        proof {
            lemma_padded_len(bytes@.len(), row_width as nat);
        }
        let mut cells: Vec<ByteCell> = Vec::with_capacity(total);
        let mut i: usize = 0;
        while i < total
            invariant
                i <= total,
                len == bytes@.len(),
                len < total,
                total == padded_len(bytes@.len(), row_width as nat),
                cells@.len() == i,
                forall|j: int|
                    0 <= j < i ==> #[trigger] cells@[j] == loaded_cells(
                        bytes@,
                        row_width as nat,
                    )[j],
            decreases total - i,
        {
            if i < len {
                cells.push(ByteCell::Present(bytes[i]));
            } else {
                cells.push(ByteCell::Unwritten);
            }
            i += 1;
        }
        assert(cells@ =~= loaded_cells(bytes@, row_width as nat));
        Ok(Buffer { cells, row_width })
    }

    /// Builds a buffer from slots that may already hold padding. Unwritten
    /// slots are added only as far as the last row is short of its width, or
    /// a whole row of them where no slot is given at all.
    ///
    /// Refused with `InvalidInput` when `row_width` is zero, or when the
    /// length in full rows does not fit the machine's address range.
    pub fn from_cells(cells: Vec<ByteCell>, row_width: usize) -> (res: Result<Buffer, HexError>)
        ensures
            match res {
                Ok(buffer) => {
                    &&& row_width > 0
                    &&& buffer.wf()
                    &&& buffer@.row_width == row_width
                    &&& buffer@.cells == filled_cells(cells@, row_width as nat)
                    &&& full_rows_len(cells@.len(), row_width as nat) <= usize::MAX
                },
                Err(e) => {
                    &&& e == HexError::InvalidInput
                    &&& (row_width == 0 || full_rows_len(cells@.len(), row_width as nat)
                        > usize::MAX)
                },
            },
    {
        if row_width == 0 {
            return Err(HexError::InvalidInput);
        }
        let len: usize = cells.len();
        proof {
            lemma_padded_len(len as nat, row_width as nat);
        }
        let total: usize = if len > 0 && len % row_width == 0 {
            len
        } else {
            let rows: usize = match (len / row_width).checked_add(1) {
                Some(rows) => rows,
                None => {
                    proof {
                        assert((len / row_width + 1) * row_width >= len / row_width + 1)
                            by (nonlinear_arith)
                            requires
                                row_width >= 1,
                        ;
                    }
                    return Err(HexError::InvalidInput);
                },
            };
            match rows.checked_mul(row_width) {
                Some(total) => total,
                None => {
                    return Err(HexError::InvalidInput);
                },
            }
        };
        let ghost given = cells@;
        let mut cells = cells;
        let mut i: usize = len;
        while i < total
            invariant
                len <= i <= total,
                len == given.len(),
                cells@.len() == i,
                forall|j: int| 0 <= j < len ==> #[trigger] cells@[j] == given[j],
                forall|j: int| len <= j < i ==> #[trigger] cells@[j] == ByteCell::Unwritten,
            decreases total - i,
        {
            cells.push(ByteCell::Unwritten);
            i += 1;
        }
        assert(cells@ =~= filled_cells(given, row_width as nat));
        Ok(Buffer { cells, row_width })
    }

    /// The number of slots, padding included.
    pub fn len(&self) -> (n: usize)
        ensures
            n == self@.cells.len(),
    {
        self.cells.len()
    }

    /// How many slots make a row.
    pub fn row_width(&self) -> (w: usize)
        ensures
            w == self@.row_width,
    {
        self.row_width
    }

    /// The number of rows.
    pub fn row_count(&self) -> (n: usize)
        requires
            self.wf(),
        ensures
            n == self.spec_row_count(),
            n > 0,
            n * self@.row_width == self@.cells.len(),
    {
        proof {
            let len = self@.cells.len() as int;
            let w = self@.row_width as int;
            lemma_fundamental_div_mod(len, w);
            assert(len / w > 0) by (nonlinear_arith)
                requires
                    len == w * (len / w),
                    len > 0,
                    w > 0,
            ;
            assert((len / w) * w == w * (len / w)) by (nonlinear_arith);
        }
        self.cells.len() / self.row_width
    }

    /// The slot at `index`, or nothing when `index` lies outside the buffer.
    pub fn get(&self, index: usize) -> (cell: Option<ByteCell>)
        ensures
            index < self@.cells.len() ==> cell == Some(self@.cells[index as int]),
            index >= self@.cells.len() ==> cell is None,
    {
        if index < self.cells.len() {
            Some(self.cells[index])
        } else {
            None
        }
    }

    /// Overwrites one nybble of the slot at `index` with `value` and keeps
    /// the other nybble. A slot that was never written counts as zero before
    /// the write and is present after it.
    ///
    /// Refused with `OutOfRange`, and without any change, when `index` lies
    /// outside the buffer.
    pub fn write_nybble(&mut self, index: usize, half: Nybble, value: u8) -> (res: Result<
        (),
        HexError,
    >)
        requires
            old(self).wf(),
            value < 16,
        ensures
            final(self).wf(),
            final(self)@.row_width == old(self)@.row_width,
            final(self)@.cells.len() == old(self)@.cells.len(),
            match res {
                Ok(()) => {
                    &&& index < old(self)@.cells.len()
                    &&& final(self)@.cells == old(self)@.cells.update(
                        index as int,
                        written_cell(old(self)@.cells[index as int], half, value),
                    )
                },
                Err(e) => {
                    &&& e == HexError::OutOfRange
                    &&& index >= old(self)@.cells.len()
                    &&& final(self)@ == old(self)@
                },
            },
    {
        if index >= self.cells.len() {
            return Err(HexError::OutOfRange);
        }
        let current: u8 = match self.cells[index] {
            ByteCell::Present(v) => v,
            ByteCell::Unwritten => 0,
        };
        proof {
            lemma_with_nybble_is_masked_write(current, value);
        }
        let replaced: u8 = match half {
            Nybble::Upper => (current & 0x0f) | (value << 4),
            Nybble::Lower => (current & 0xf0) | value,
        };
        self.cells.set(index, ByteCell::Present(replaced));
        Ok(())
    }

    /// The slots of one row, exactly `row_width` of them.
    ///
    /// Refused with `OutOfRange` when the buffer has no such row.
    pub fn row_of(&self, row_index: usize) -> (res: Result<Vec<ByteCell>, HexError>)
        requires
            self.wf(),
        ensures
            match res {
                Ok(row) => {
                    &&& row_index < self.spec_row_count()
                    &&& row@ == row_cells(self@, row_index as int)
                    &&& row@.len() == self@.row_width
                },
                Err(e) => {
                    &&& e == HexError::OutOfRange
                    &&& row_index >= self.spec_row_count()
                },
            },
    {
        let rows: usize = self.row_count();
        if row_index >= rows {
            return Err(HexError::OutOfRange);
        }
        let w: usize = self.row_width;
        let len: usize = self.cells.len();
        proof {
            assert(rows * w == len);
            assert(row_index * w + w <= rows * w) by (nonlinear_arith)
                requires
                    row_index < rows,
                    w > 0,
            ;
        }
        let start: usize = row_index * w;
        let mut row: Vec<ByteCell> = Vec::with_capacity(w);
        let mut k: usize = 0;
        while k < w
            invariant
                k <= w,
                w == self.row_width,
                start + w <= self.cells@.len() <= usize::MAX,
                row@.len() == k,
                forall|j: int| 0 <= j < k ==> #[trigger] row@[j] == self.cells@[start + j],
            decreases w - k,
        {
            row.push(self.cells[start + k]);
            k += 1;
        }
        assert(row@ =~= self@.cells.subrange(start as int, start + w));
        Ok(row)
    }
}

} // verus!
