//! The viewport: which rows are on screen.

use vstd::prelude::*;
use crate::error::HexError;

verus! {

/// What a viewport holds: the first visible row and the number of visible
/// rows.
pub struct ViewportView {
    /// The first visible row.
    pub offset: nat,
    /// The number of visible rows.
    pub rows: nat,
}

/// The window of rows that is currently shown. It follows the cursor one row
/// at a time and is never moved on its own.
#[derive(Clone, Copy, Debug)]
pub struct Viewport {
    scroll_row_offset: usize,
    visible_row_count: usize,
}

impl View for Viewport {
    type V = ViewportView;

    closed spec fn view(&self) -> ViewportView {
        ViewportView {
            offset: self.scroll_row_offset as nat,
            rows: self.visible_row_count as nat,
        }
    }
}

/// Whether `row` is one of the visible rows.
pub open spec fn row_visible(v: ViewportView, row: int) -> bool {
    v.offset <= row < v.offset + v.rows
}

/// The viewport after it has followed the cursor to `cursor_row`: scrolled
/// down by one row when the cursor is below the window, up by one row when
/// it is above, and otherwise unchanged.
pub open spec fn reconciled(v: ViewportView, cursor_row: nat) -> ViewportView {
    if cursor_row >= v.offset + v.rows {
        ViewportView { offset: v.offset + 1, ..v }
    } else if cursor_row < v.offset {
        ViewportView { offset: (v.offset - 1) as nat, ..v }
    } else {
        v
    }
}

/// Following the cursor moves the window by one row at most, and never
/// resizes it.
pub proof fn lemma_reconcile_scrolls_one_row_at_most(v: ViewportView, cursor_row: nat)
    ensures
        reconciled(v, cursor_row).rows == v.rows,
        v.offset - 1 <= reconciled(v, cursor_row).offset <= v.offset + 1,
        row_visible(v, cursor_row as int) ==> reconciled(v, cursor_row) == v,
{
}

/// When the cursor was visible and has moved by one row at most, following
/// it once makes it visible again.
pub proof fn lemma_reconcile_restores_visibility(v: ViewportView, before: nat, after: nat)
    requires
        v.rows > 0,
        row_visible(v, before as int),
        before - 1 <= after <= before + 1,
    ensures
        row_visible(reconciled(v, after), after as int),
{
}

impl Viewport {
    /// The invariant of every viewport: at least one row is visible, and the
    /// end of the window is a representable row number.
    pub open spec fn wf(&self) -> bool {
        &&& self@.rows > 0
        &&& self@.offset + self@.rows <= usize::MAX
    }

    /// A viewport of `visible_row_count` rows that starts at the first row.
    ///
    /// Refused with `InvalidInput` when no row would be visible.
    pub fn new(visible_row_count: usize) -> (res: Result<Viewport, HexError>)
        ensures
            match res {
                Ok(viewport) => {
                    &&& visible_row_count > 0
                    &&& viewport.wf()
                    &&& viewport@ == (ViewportView { offset: 0, rows: visible_row_count as nat })
                },
                Err(e) => e == HexError::InvalidInput && visible_row_count == 0,
            },
    {
        if visible_row_count == 0 {
            Err(HexError::InvalidInput)
        } else {
            Ok(Viewport { scroll_row_offset: 0, visible_row_count })
        }
    }

    /// The first visible row.
    pub fn scroll_row_offset(&self) -> (offset: usize)
        ensures
            offset == self@.offset,
    {
        self.scroll_row_offset
    }

    /// The number of visible rows.
    pub fn visible_row_count(&self) -> (rows: usize)
        ensures
            rows == self@.rows,
    {
        self.visible_row_count
    }

    /// Follows the cursor to `cursor_row`, scrolling by a single row in its
    /// direction when it lies outside the window.
    pub fn reconcile(&mut self, cursor_row: usize)
        requires
            old(self).wf(),
            cursor_row < usize::MAX,
        ensures
            final(self).wf(),
            final(self)@ == reconciled(old(self)@, cursor_row as nat),
    {
        if cursor_row < self.scroll_row_offset {
            self.scroll_row_offset = self.scroll_row_offset - 1;
        } else if cursor_row - self.scroll_row_offset >= self.visible_row_count {
            self.scroll_row_offset = self.scroll_row_offset + 1;
        }
    }

    /// The visible rows as a half-open range: the first visible row, and the
    /// row after the last visible one.
    pub fn visible_row_range(&self) -> (range: (usize, usize))
        requires
            self.wf(),
        ensures
            range.0 == self@.offset,
            range.1 == self@.offset + self@.rows,
    {
        (self.scroll_row_offset, self.scroll_row_offset + self.visible_row_count)
    }
}

} // verus!
