use zestien::error::HexError;
use zestien::viewport::Viewport;

#[test]
fn a_new_viewport_starts_at_the_first_row() {
    let viewport = Viewport::new(16).unwrap();
    assert_eq!(viewport.scroll_row_offset(), 0);
    assert_eq!(viewport.visible_row_count(), 16);
    assert_eq!(viewport.visible_row_range(), (0, 16));
}

#[test]
fn a_viewport_without_rows_is_invalid_input() {
    assert_eq!(Viewport::new(0).err(), Some(HexError::InvalidInput));
}

#[test]
fn reconcile_scrolls_down_by_one_row_when_the_cursor_is_below() {
    let mut viewport = Viewport::new(4).unwrap();
    viewport.reconcile(4);
    assert_eq!(viewport.visible_row_range(), (1, 5));
    viewport.reconcile(100);
    assert_eq!(viewport.visible_row_range(), (2, 6));
}

#[test]
fn reconcile_scrolls_up_by_one_row_when_the_cursor_is_above() {
    let mut viewport = Viewport::new(4).unwrap();
    for row in 4..10 {
        viewport.reconcile(row);
    }
    assert_eq!(viewport.visible_row_range(), (6, 10));
    viewport.reconcile(5);
    assert_eq!(viewport.visible_row_range(), (5, 9));
    viewport.reconcile(0);
    assert_eq!(viewport.visible_row_range(), (4, 8));
}

#[test]
fn reconcile_leaves_the_window_when_the_cursor_is_inside() {
    let mut viewport = Viewport::new(4).unwrap();
    for row in 0..4 {
        viewport.reconcile(row);
        assert_eq!(viewport.visible_row_range(), (0, 4));
    }
}

#[test]
fn reconcile_changes_the_offset_by_one_at_most() {
    let mut viewport = Viewport::new(3).unwrap();
    let rows = [0usize, 5, 9, 2, 2, 7, 0, 0, 0, 1, 30, 31, 29];
    for row in rows {
        let before = viewport.scroll_row_offset();
        viewport.reconcile(row);
        let after = viewport.scroll_row_offset();
        assert!(after.abs_diff(before) <= 1);
        assert_eq!(viewport.visible_row_count(), 3);
    }
}

#[test]
fn the_cursor_stays_visible_when_it_moves_one_row_at_a_time() {
    let mut viewport = Viewport::new(3).unwrap();
    let mut row = 0usize;
    let steps = [1i64, 1, 1, 1, 1, 0, -1, -1, -1, -1, -1, -1, 1, 1, 1, 1, 1, 1, 1, -1];
    for step in steps {
        row = (row as i64 + step).max(0) as usize;
        viewport.reconcile(row);
        let (start, end) = viewport.visible_row_range();
        assert!(start <= row && row < end);
    }
}
