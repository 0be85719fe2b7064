//! The cursor: which byte is selected, and which of its nybbles is active.

use vstd::prelude::*;
use crate::buffer::{Buffer, written_cell};
use crate::cell::Nybble;

verus! {

/// What a cursor holds: the selected byte, whether its low nybble is the
/// active one, and the length of the buffer it moves in.
pub struct CursorView {
    /// The index of the selected byte.
    pub index: nat,
    /// Whether the low nybble of that byte is the active one.
    pub on_lower: bool,
    /// The length of the buffer.
    pub len: nat,
}

/// A position in a buffer, at nybble granularity. A cursor is made for one
/// buffer and never leaves its bounds.
#[derive(Clone, Copy, Debug)]
pub struct Cursor {
    byte_index: usize,
    on_lower_nybble: bool,
    len: usize,
}

impl View for Cursor {
    type V = CursorView;

    closed spec fn view(&self) -> CursorView {
        CursorView {
            index: self.byte_index as nat,
            on_lower: self.on_lower_nybble,
            len: self.len as nat,
        }
    }
}

/// Whether a cursor addresses a slot of its buffer.
pub open spec fn in_bounds(c: CursorView) -> bool {
    c.index < c.len
}

/// The nybble that the next edit replaces.
pub open spec fn active_half(c: CursorView) -> Nybble {
    if c.on_lower {
        Nybble::Lower
    } else {
        Nybble::Upper
    }
}

/// The cursor after a move by `delta` bytes: the index saturates at both
/// ends of the buffer, the active nybble stays.
pub open spec fn moved_by(c: CursorView, delta: int) -> CursorView {
    let target = c.index + delta;
    let index = if target < 0 {
        0
    } else if target > c.len - 1 {
        c.len - 1
    } else {
        target
    };
    CursorView { index: index as nat, ..c }
}

/// The cursor after a move by one nybble. Stepping forward off the low
/// nybble enters the next byte's high nybble; stepping backward off the high
/// nybble enters the previous byte's low nybble. At the very first and the
/// very last nybble of the buffer the step is dropped altogether.
pub open spec fn nybble_moved(c: CursorView, forward: bool) -> CursorView {
    if forward {
        if !c.on_lower {
            CursorView { on_lower: true, ..c }
        } else if c.index + 1 < c.len {
            CursorView { index: c.index + 1, on_lower: false, ..c }
        } else {
            c
        }
    } else {
        if c.on_lower {
            CursorView { on_lower: false, ..c }
        } else if c.index > 0 {
            CursorView { index: (c.index - 1) as nat, on_lower: true, ..c }
        } else {
            c
        }
    }
}

/// The cursor after `times` moves by one nybble in the same direction.
pub open spec fn nybble_moved_times(c: CursorView, forward: bool, times: nat) -> CursorView
    decreases times,
{
    if times == 0 {
        c
    } else {
        nybble_moved(nybble_moved_times(c, forward, (times - 1) as nat), forward)
    }
}

/// Moves keep the cursor inside its buffer.
pub proof fn lemma_moves_stay_in_bounds(c: CursorView, delta: int, forward: bool)
    requires
        in_bounds(c),
    ensures
        in_bounds(moved_by(c, delta)),
        in_bounds(nybble_moved(c, forward)),
        moved_by(c, delta).len == c.len,
        nybble_moved(c, forward).len == c.len,
        moved_by(c, delta).on_lower == c.on_lower,
{
}

/// A step forward followed by a step backward returns to where it started,
/// from every position but the last nybble of the buffer, where the step
/// forward is dropped.
pub proof fn lemma_forward_then_backward(c: CursorView)
    requires
        in_bounds(c),
        !(c.index == c.len - 1 && c.on_lower),
    ensures
        nybble_moved(nybble_moved(c, true), false) == c,
{
}

/// A step backward followed by a step forward returns to where it started,
/// from every position but the first nybble of the buffer, where the step
/// backward is dropped.
pub proof fn lemma_backward_then_forward(c: CursorView)
    requires
        in_bounds(c),
        !(c.index == 0 && !c.on_lower),
    ensures
        nybble_moved(nybble_moved(c, false), true) == c,
{
}

/// On the first nybble of the buffer, stepping backward any number of times
/// changes nothing.
pub proof fn lemma_no_bounce_at_start(c: CursorView, times: nat)
    requires
        c.index == 0,
        !c.on_lower,
    ensures
        nybble_moved_times(c, false, times) == c,
    decreases times,
{
    if times > 0 {
        lemma_no_bounce_at_start(c, (times - 1) as nat);
    }
}

/// On the last nybble of the buffer, stepping forward any number of times
/// changes nothing.
pub proof fn lemma_no_bounce_at_end(c: CursorView, times: nat)
    requires
        in_bounds(c),
        c.index == c.len - 1,
        c.on_lower,
    ensures
        nybble_moved_times(c, true, times) == c,
    decreases times,
{
    if times > 0 {
        lemma_no_bounce_at_end(c, (times - 1) as nat);
    }
}

impl Cursor {
    /// The invariant of every cursor: it addresses a slot of its buffer.
    pub open spec fn wf(&self) -> bool {
        in_bounds(self@)
    }

    /// Whether this cursor was made for a buffer of `buffer`'s length.
    pub open spec fn fits(&self, buffer: &Buffer) -> bool {
        self@.len == buffer@.cells.len()
    }

    /// A cursor on the high nybble of the first byte of `buffer`.
    pub fn new(buffer: &Buffer) -> (cursor: Cursor)
        requires
            buffer.wf(),
        ensures
            cursor.wf(),
            cursor.fits(buffer),
            cursor@.index == 0,
            !cursor@.on_lower,
    {
        Cursor { byte_index: 0, on_lower_nybble: false, len: buffer.len() }
    }

    /// The index of the selected byte.
    pub fn byte_index(&self) -> (index: usize)
        ensures
            index == self@.index,
    {
        self.byte_index
    }

    /// Whether the low nybble of the selected byte is the active one.
    pub fn on_lower_nybble(&self) -> (lower: bool)
        ensures
            lower == self@.on_lower,
    {
        self.on_lower_nybble
    }

    /// The nybble that the next edit replaces.
    pub fn half(&self) -> (half: Nybble)
        ensures
            half == active_half(self@),
    {
        if self.on_lower_nybble {
            Nybble::Lower
        } else {
            Nybble::Upper
        }
    }

    /// Moves by `delta_bytes` bytes, stopping at the first and at the last
    /// byte of the buffer. The active nybble stays as it is.
    pub fn move_by(&mut self, delta_bytes: isize)
        requires
            old(self).wf(),
        ensures
            final(self).wf(),
            final(self)@ == moved_by(old(self)@, delta_bytes as int),
    {
        let last: usize = self.len - 1;
        if delta_bytes >= 0 {
            let step: usize = delta_bytes as usize;
            if step >= last - self.byte_index {
                self.byte_index = last;
            } else {
                self.byte_index = self.byte_index + step;
            }
        } else {
            let step: usize = (-(delta_bytes + 1)) as usize + 1;
            if step >= self.byte_index {
                self.byte_index = 0;
            } else {
                self.byte_index = self.byte_index - step;
            }
        }
    }

    /// Moves by one nybble, forward or backward, crossing into the
    /// neighbouring byte where needed. At either end of the buffer the cursor
    /// stays exactly where it is.
    pub fn move_nybble(&mut self, forward: bool)
        requires
            old(self).wf(),
        ensures
            final(self).wf(),
            final(self)@ == nybble_moved(old(self)@, forward),
    {
        if forward {
            if !self.on_lower_nybble {
                self.on_lower_nybble = true;
            } else if self.byte_index < self.len - 1 {
                self.byte_index = self.byte_index + 1;
                self.on_lower_nybble = false;
            }
        } else {
            if self.on_lower_nybble {
                self.on_lower_nybble = false;
            } else if self.byte_index > 0 {
                self.byte_index = self.byte_index - 1;
                self.on_lower_nybble = true;
            }
        }
    }

    /// Writes `value` into the active nybble of the selected byte, then
    /// moves one nybble forward.
    pub fn write_and_advance(&mut self, value: u8, buffer: &mut Buffer)
        requires
            old(self).wf(),
            old(buffer).wf(),
            old(self).fits(old(buffer)),
            value < 16,
        ensures
            final(self).wf(),
            final(buffer).wf(),
            final(self).fits(final(buffer)),
            final(self)@ == nybble_moved(old(self)@, true),
            final(buffer)@.row_width == old(buffer)@.row_width,
            final(buffer)@.cells == old(buffer)@.cells.update(
                old(self)@.index as int,
                written_cell(
                    old(buffer)@.cells[old(self)@.index as int],
                    active_half(old(self)@),
                    value,
                ),
            ),
    {
        let half: Nybble = self.half();
        let _ = buffer.write_nybble(self.byte_index, half, value);
        self.move_nybble(true);
    }
}

} // verus!
