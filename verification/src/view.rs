//! The editor's state as one value: buffer, cursor and viewport, moved
//! together by each input event and drawn as styled text.

use vstd::prelude::*;
use vstd::pervasive::unreached;
use cursive::event::{Event, EventResult};
use cursive::theme::Style;
use cursive::utils::span::SpannedString;
use cursive::XY;
use crate::buffer::{Buffer, BufferView, ROW_WIDTH, filled_cells, loaded_cells, row_cells, written_cell};
use crate::cell::{ByteCell, cell_of};
use crate::error::HexError;
use crate::cursor::{Cursor, CursorView, active_half, in_bounds, moved_by, nybble_moved};
use crate::event::{InputEvent, decode_event, decoded};
use crate::render::{Glyph, StyledLine, render_row, row_glyphs};
use crate::styling::{paints, styled_spans, to_styled_string};
use crate::viewport::{Viewport, ViewportView, reconciled, row_visible};

verus! {

/// Blank cells left free on each side of the grid.
pub const PADDING: usize = 2;

/// The width of one line of the grid in characters: the offset, a colon and
/// a space, three characters per byte, a bar and a space, one character per
/// byte.
pub const ROW_LENGTH: usize = 8 + 2 + 3 * ROW_WIDTH + 2 + ROW_WIDTH;

/// The number of rows shown by a view over a file.
pub const DEFAULT_VISIBLE_ROWS: usize = 16;

/// What a view holds.
pub struct ViewModel {
    /// The bytes.
    pub buffer: BufferView,
    /// Where the cursor stands.
    pub cursor: CursorView,
    /// Which rows are on screen.
    pub viewport: ViewportView,
}

/// A hex editor's view of one file: the bytes, where the cursor is, and
/// which rows are on screen.
pub struct ZestienView {
    buffer: Buffer,
    cursor: Cursor,
    viewport: Viewport,
}

impl View for ZestienView {
    type V = ViewModel;

    closed spec fn view(&self) -> ViewModel {
        ViewModel { buffer: self.buffer@, cursor: self.cursor@, viewport: self.viewport@ }
    }
}

/// The invariant of every view: a buffer of full rows of the editor's row
/// width, a cursor inside that buffer, and a window of at least one row.
pub open spec fn model_wf(m: ViewModel) -> bool {
    &&& m.buffer.row_width == ROW_WIDTH
    &&& m.buffer.cells.len() > 0
    &&& m.buffer.cells.len() % (ROW_WIDTH as nat) == 0
    &&& m.buffer.cells.len() <= usize::MAX
    &&& in_bounds(m.cursor)
    &&& m.cursor.len == m.buffer.cells.len()
    &&& m.viewport.rows > 0
    &&& m.viewport.offset + m.viewport.rows + 2 * PADDING <= usize::MAX
}

/// The row that the cursor stands in.
pub open spec fn cursor_row(m: ViewModel) -> nat {
    m.cursor.index / m.buffer.row_width
}

/// The column that the cursor stands in.
pub open spec fn cursor_column(m: ViewModel) -> nat {
    m.cursor.index % m.buffer.row_width
}

/// Whether the cursor's row is on screen.
pub open spec fn cursor_visible(m: ViewModel) -> bool {
    row_visible(m.viewport, cursor_row(m) as int)
}

/// The view once the cursor has gone to `cursor` and the viewport has
/// followed it.
pub open spec fn settled(m: ViewModel, cursor: CursorView) -> ViewModel {
    ViewModel {
        cursor,
        viewport: reconciled(m.viewport, cursor.index / m.buffer.row_width),
        ..m
    }
}

/// The view after the cursor has moved by `delta` bytes.
pub open spec fn after_move(m: ViewModel, delta: int) -> ViewModel {
    settled(m, moved_by(m.cursor, delta))
}

/// The view after the cursor has moved by one nybble.
pub open spec fn after_nybble_move(m: ViewModel, forward: bool) -> ViewModel {
    settled(m, nybble_moved(m.cursor, forward))
}

/// The view after `value` was typed: the active nybble of the byte under
/// the cursor is replaced, and the cursor has moved one nybble forward.
pub open spec fn after_edit(m: ViewModel, value: u8) -> ViewModel {
    let cells = m.buffer.cells.update(
        m.cursor.index as int,
        written_cell(m.buffer.cells[m.cursor.index as int], active_half(m.cursor), value),
    );
    after_nybble_move(ViewModel { buffer: BufferView { cells, ..m.buffer }, ..m }, true)
}

/// The view after one input event.
pub open spec fn after_input(m: ViewModel, input: InputEvent) -> ViewModel {
    match input {
        InputEvent::Left => after_nybble_move(m, false),
        InputEvent::Right => after_nybble_move(m, true),
        InputEvent::Up => after_move(m, -(ROW_WIDTH as int)),
        InputEvent::Down => after_move(m, ROW_WIDTH as int),
        InputEvent::Digit(value) => after_edit(m, value),
        InputEvent::Unrecognized => m,
    }
}

/// How many lines are drawn when `rows` lines are asked for: as many as
/// asked, but none past the last row of the buffer.
pub open spec fn shown_rows(m: ViewModel, rows: nat) -> nat {
    let total = m.buffer.cells.len() / m.buffer.row_width;
    if m.viewport.offset >= total {
        0
    } else if rows <= total - m.viewport.offset {
        rows
    } else {
        (total - m.viewport.offset) as nat
    }
}

/// The `k`-th line on screen: the row `k` rows below the first visible one.
pub open spec fn shown_line(m: ViewModel, k: int) -> Seq<Glyph> {
    row_glyphs(
        row_cells(m.buffer, m.viewport.offset + k),
        (m.viewport.offset + k) as nat,
        m.cursor,
    )
}

/// Every input event keeps a view well-formed and never changes the length
/// of its buffer, its row width or the height of its window.
pub proof fn lemma_input_keeps_wf(m: ViewModel, input: InputEvent)
    requires
        model_wf(m),
        input.wf(),
    ensures
        model_wf(after_input(m, input)),
        after_input(m, input).buffer.cells.len() == m.buffer.cells.len(),
        after_input(m, input).viewport.rows == m.viewport.rows,
{
}

/// When the cursor goes to a row next to the one it was in, or stays in its
/// row, and its row was on screen, the viewport that has followed it shows
/// its new row.
pub proof fn lemma_settled_shows_cursor(m: ViewModel, cursor: CursorView)
    requires
        model_wf(m),
        cursor_visible(m),
        cursor_row(m) - 1 <= cursor.index / m.buffer.row_width <= cursor_row(m) + 1,
    ensures
        cursor_visible(settled(m, cursor)),
{
}

/// Every input event moves the window by one row at most, and when the
/// cursor's row was on screen before the event, it is on screen after it.
pub proof fn lemma_input_keeps_cursor_visible(m: ViewModel, input: InputEvent)
    requires
        model_wf(m),
        input.wf(),
    ensures
        m.viewport.offset - 1 <= after_input(m, input).viewport.offset <= m.viewport.offset + 1,
        cursor_visible(m) ==> cursor_visible(after_input(m, input)),
{
    if cursor_visible(m) {
        let w = m.buffer.row_width;
        assert(w == 16);
        match input {
            InputEvent::Left => {
                lemma_settled_shows_cursor(m, nybble_moved(m.cursor, false));
            },
            InputEvent::Right => {
                lemma_settled_shows_cursor(m, nybble_moved(m.cursor, true));
            },
            InputEvent::Up => {
                lemma_move_keeps_cursor_visible(m, -(ROW_WIDTH as int));
            },
            InputEvent::Down => {
                lemma_move_keeps_cursor_visible(m, ROW_WIDTH as int);
            },
            InputEvent::Digit(value) => {
                let cells = m.buffer.cells.update(
                    m.cursor.index as int,
                    written_cell(
                        m.buffer.cells[m.cursor.index as int],
                        active_half(m.cursor),
                        value,
                    ),
                );
                let written = ViewModel { buffer: BufferView { cells, ..m.buffer }, ..m };
                assert(model_wf(written));
                assert(cursor_visible(written));
                lemma_settled_shows_cursor(written, nybble_moved(written.cursor, true));
            },
            InputEvent::Unrecognized => {},
        }
    }
}

/// A move by whole bytes keeps the cursor's row on screen when it crosses
/// one row at most.
pub proof fn lemma_move_keeps_cursor_visible(m: ViewModel, delta: int)
    requires
        model_wf(m),
        cursor_visible(m),
        -(ROW_WIDTH as int) <= delta <= ROW_WIDTH as int,
    ensures
        cursor_visible(after_move(m, delta)),
{
    lemma_settled_shows_cursor(m, moved_by(m.cursor, delta));
}

impl ZestienView {
    /// The invariant of every view.
    pub open spec fn wf(&self) -> bool {
        model_wf(self@)
    }

    /// Puts a cursor and a viewport of `visible_rows` rows on a buffer.
    fn over(buffer: Buffer, visible_rows: usize) -> (view: ZestienView)
        requires
            buffer.wf(),
            buffer@.row_width == ROW_WIDTH,
            0 < visible_rows <= DEFAULT_VISIBLE_ROWS,
        ensures
            view.wf(),
            view@.buffer == buffer@,
            view@.cursor == (CursorView { index: 0, on_lower: false, len: buffer@.cells.len() }),
            view@.viewport == (ViewportView { offset: 0, rows: visible_rows as nat }),
            cursor_visible(view@),
    {
        let cursor: Cursor = Cursor::new(&buffer);
        let viewport: Viewport = match Viewport::new(visible_rows) {
            Ok(viewport) => viewport,
            Err(_) => unreached(),
        };
        ZestienView { buffer, cursor, viewport }
    }

    /// A view over a buffer that was built before: the cursor on its first
    /// nybble, and a window on its first sixteen rows.
    ///
    /// Refused with `InvalidInput` when the buffer's rows are not of the
    /// editor's row width.
    pub fn with_buffer(buffer: Buffer) -> (res: Result<ZestienView, HexError>)
        requires
            buffer.wf(),
        ensures
            match res {
                Ok(view) => {
                    &&& buffer@.row_width == ROW_WIDTH
                    &&& view.wf()
                    &&& view@.buffer == buffer@
                    &&& view@.cursor == (CursorView {
                        index: 0,
                        on_lower: false,
                        len: buffer@.cells.len(),
                    })
                    &&& view@.viewport == (ViewportView {
                        offset: 0,
                        rows: DEFAULT_VISIBLE_ROWS as nat,
                    })
                    &&& cursor_visible(view@)
                },
                Err(e) => e == HexError::InvalidInput && buffer@.row_width != ROW_WIDTH,
            },
    {
        if buffer.row_width() != ROW_WIDTH {
            Err(HexError::InvalidInput)
        } else {
            Ok(ZestienView::over(buffer, DEFAULT_VISIBLE_ROWS))
        }
    }

    /// A view over an empty file: one row of unwritten slots, the cursor on
    /// its first nybble, and a window of a single row.
    pub fn new() -> (view: ZestienView)
        ensures
            view.wf(),
            view@.buffer.cells == loaded_cells(Seq::<u8>::empty(), ROW_WIDTH as nat),
            view@.buffer.cells.len() == ROW_WIDTH,
            view@.cursor == (CursorView { index: 0, on_lower: false, len: ROW_WIDTH as nat }),
            view@.viewport == (ViewportView { offset: 0, rows: 1 }),
            cursor_visible(view@),
    {
        let bytes: Vec<u8> = Vec::new();
        assert(bytes@.len() / (ROW_WIDTH as nat) == 0);
        let buffer: Buffer = match Buffer::load(bytes.as_slice(), ROW_WIDTH) {
            Ok(buffer) => buffer,
            Err(_) => unreached(),
        };
        ZestienView::over(buffer, 1)
    }

    /// A view over the given slots, `None` standing for a slot that was
    /// never written. Unwritten slots are added where the last row is short,
    /// so that every row is full. The cursor starts on the first nybble and
    /// the window shows the first sixteen rows.
    pub fn with_data(data: Vec<Option<u8>>) -> (view: ZestienView)
        requires
            data@.len() + ROW_WIDTH <= usize::MAX,
        ensures
            view.wf(),
            view@.buffer.cells == filled_cells(
                Seq::new(data@.len(), |i: int| cell_of(data@[i])),
                ROW_WIDTH as nat,
            ),
            view@.cursor == (CursorView {
                index: 0,
                on_lower: false,
                len: view@.buffer.cells.len(),
            }),
            view@.viewport == (ViewportView { offset: 0, rows: DEFAULT_VISIBLE_ROWS as nat }),
            cursor_visible(view@),
    {
        let mut cells: Vec<ByteCell> = Vec::with_capacity(data.len());
        let mut i: usize = 0;
        while i < data.len()
            invariant
                i <= data@.len(),
                cells@.len() == i,
                forall|j: int| 0 <= j < i ==> #[trigger] cells@[j] == cell_of(data@[j]),
            decreases data@.len() - i,
        {
            cells.push(ByteCell::from(data[i]));
            i += 1;
        }
        assert(cells@ =~= Seq::new(data@.len(), |i: int| cell_of(data@[i])));
        let buffer: Buffer = match Buffer::from_cells(cells, ROW_WIDTH) {
            Ok(buffer) => buffer,
            Err(_) => unreached(),
        };
        ZestienView::over(buffer, DEFAULT_VISIBLE_ROWS)
    }

    /// The bytes of the view.
    pub fn buffer(&self) -> (buffer: &Buffer)
        ensures
            buffer@ == self@.buffer,
    {
        &self.buffer
    }

    /// The cursor of the view.
    pub fn cursor(&self) -> (cursor: &Cursor)
        ensures
            cursor@ == self@.cursor,
    {
        &self.cursor
    }

    /// The viewport of the view.
    pub fn viewport(&self) -> (viewport: &Viewport)
        ensures
            viewport@ == self@.viewport,
    {
        &self.viewport
    }

    /// Where the cursor stands in the grid: its column, then its row.
    pub fn get_cursor_pos(&self) -> (pos: (usize, usize))
        requires
            self.wf(),
        ensures
            pos.0 == cursor_column(self@),
            pos.1 == cursor_row(self@),
    {
        let index: usize = self.cursor.byte_index();
        (index % ROW_WIDTH, index / ROW_WIDTH)
    }

    /// Lets the viewport follow the cursor by one row.
    fn settle(&mut self)
        requires
            old(self).buffer.wf(),
            old(self).cursor.wf(),
            old(self).cursor.fits(&old(self).buffer),
            old(self).viewport.wf(),
            old(self)@.buffer.row_width == ROW_WIDTH,
        ensures
            final(self)@ == settled(old(self)@, old(self)@.cursor),
    {
        let row: usize = self.cursor.byte_index() / ROW_WIDTH;
        self.viewport.reconcile(row);
    }

    /// Moves the cursor by `offset` bytes, stopping at either end of the
    /// buffer, and lets the viewport follow by one row.
    pub fn move_cursor(&mut self, offset: isize)
        requires
            old(self).wf(),
        ensures
            final(self).wf(),
            final(self)@ == after_move(old(self)@, offset as int),
    {
        self.cursor.move_by(offset);
        self.settle();
    }

    /// Moves the cursor by one nybble, forward or backward, and lets the
    /// viewport follow. At the first and at the last nybble of the buffer
    /// nothing changes.
    pub fn nybble_move(&mut self, forward: bool)
        requires
            old(self).wf(),
        ensures
            final(self).wf(),
            final(self)@ == after_nybble_move(old(self)@, forward),
    {
        self.cursor.move_nybble(forward);
        self.settle();
    }

    /// Types the hexadecimal digit `val` over the active nybble, then moves
    /// one nybble forward.
    pub fn edit_data(&mut self, val: u8)
        requires
            old(self).wf(),
            val < 16,
        ensures
            final(self).wf(),
            final(self)@ == after_edit(old(self)@, val),
    {
        self.cursor.write_and_advance(val, &mut self.buffer);
        self.settle();
    }

    /// Applies one input event. Says whether the event was recognized; an
    /// event that was not changes nothing.
    pub fn handle(&mut self, input: InputEvent) -> (recognized: bool)
        requires
            old(self).wf(),
            input.wf(),
        ensures
            final(self).wf(),
            final(self)@ == after_input(old(self)@, input),
            recognized == (input != InputEvent::Unrecognized),
    {
        match input {
            InputEvent::Left => {
                self.nybble_move(false);
                true
            },
            InputEvent::Right => {
                self.nybble_move(true);
                true
            },
            InputEvent::Up => {
                self.move_cursor(-(ROW_WIDTH as isize));
                true
            },
            InputEvent::Down => {
                self.move_cursor(ROW_WIDTH as isize);
                true
            },
            InputEvent::Digit(value) => {
                self.edit_data(value);
                true
            },
            InputEvent::Unrecognized => false,
        }
    }

    /// Applies one event of the terminal library. The arrow keys move the
    /// cursor and a lowercase hexadecimal digit is typed into the buffer;
    /// any other event changes nothing. The view never keeps an event to
    /// itself: the host is always told that it may act on it too.
    pub fn on_event(&mut self, event: Event) -> (result: EventResult)
        requires
            old(self).wf(),
        ensures
            final(self).wf(),
            final(self)@ == after_input(old(self)@, decoded(event)),
            result is Ignored,
    {
        let input: InputEvent = decode_event(&event);
        let _ = self.handle(input);
        EventResult::Ignored
    }

    /// The lines on screen as marked characters: up to `rows` rows, from the
    /// first visible row on.
    pub fn visible_lines(&self, rows: usize) -> (lines: Vec<StyledLine>)
        requires
            self.wf(),
        ensures
            lines@.len() == shown_rows(self@, rows as nat),
            forall|k: int| 0 <= k < lines@.len() ==> (#[trigger] lines@[k])@ == shown_line(self@, k),
    {
        let total: usize = self.buffer.row_count();
        let first: usize = self.viewport.scroll_row_offset();
        let count: usize = if first >= total {
            0
        } else if rows <= total - first {
            rows
        } else {
            total - first
        };
        let mut lines: Vec<StyledLine> = Vec::new();
        let mut k: usize = 0;
        while k < count
            invariant
                k <= count,
                self.wf(),
                total == self.buffer.spec_row_count(),
                first == self@.viewport.offset,
                count == shown_rows(self@, rows as nat),
                count == 0 || first + count <= total,
                lines@.len() == k,
                forall|j: int| 0 <= j < k ==> (#[trigger] lines@[j])@ == shown_line(self@, j),
            decreases count - k,
        {
            let row: Vec<ByteCell> = match self.buffer.row_of(first + k) {
                Ok(row) => row,
                Err(_) => unreached(),
            };
            let line: StyledLine = render_row(&row, first + k, &self.cursor);
            lines.push(line);
            k += 1;
        }
        lines
    }

    /// The lines on screen as styled strings: up to `rows` rows, from the
    /// first visible row on. Each string shows its row's text; the glyphs of
    /// the byte under the cursor are set off in bold on dark blue.
    pub fn generate_text(&self, rows: usize) -> (text: Vec<SpannedString<Style>>)
        requires
            self.wf(),
        ensures
            text@.len() == shown_rows(self@, rows as nat),
            forall|k: int|
                0 <= k < text@.len() ==> paints(
                    styled_spans(#[trigger] text@[k]),
                    shown_line(self@, k),
                ),
    {
        let lines: Vec<StyledLine> = self.visible_lines(rows);
        let mut text: Vec<SpannedString<Style>> = Vec::new();
        let mut k: usize = 0;
        while k < lines.len()
            invariant
                k <= lines@.len(),
                text@.len() == k,
                forall|j: int| 0 <= j < lines@.len() ==> (#[trigger] lines@[j])@ == shown_line(self@, j),
                forall|j: int|
                    0 <= j < k ==> paints(styled_spans(#[trigger] text@[j]), shown_line(self@, j)),
            decreases lines@.len() - k,
        {
            let styled: SpannedString<Style> = to_styled_string(&lines[k]);
            text.push(styled);
            k += 1;
        }
        text
    }

    /// The size the view asks of its host, in character cells: the width of
    /// a line and the height of the window, with the padding on all sides.
    /// What the host offers makes no difference, and the view stays as it
    /// is.
    pub fn required_size(&mut self, _constraint: XY<usize>) -> (size: XY<usize>)
        requires
            old(self).wf(),
        ensures
            final(self)@ == old(self)@,
            size.x == ROW_LENGTH + 2 * PADDING,
            size.y == old(self)@.viewport.rows + 2 * PADDING,
    {
        XY { x: ROW_LENGTH + 2 * PADDING, y: self.viewport.visible_row_count() + 2 * PADDING }
    }
}

} // verus!
