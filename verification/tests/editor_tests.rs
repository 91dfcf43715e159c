//! Scenario tests for the document model: edit operations, cursor movement,
//! boundary no-ops and scroll adjustment.

use kiro::editor::{Cursor, Kiro};

fn type_str(ed: &mut Kiro, s: &str) {
    for c in s.chars() {
        ed.insert(c);
    }
}

fn lines_of(ed: &Kiro) -> Vec<Vec<char>> {
    let mut out: Vec<Vec<char>> = Vec::new();
    let n = ed.line_count();
    for i in 0..n {
        out.push(ed.line(i).clone());
    }
    out
}

#[test]
fn insert_appends_at_end_of_line() {
    let mut ed = Kiro::default();
    type_str(&mut ed, "abc");
    assert_eq!(ed.cursor(), Cursor { row: 0, column: 3 });
    ed.insert('d');
    assert_eq!(lines_of(&ed), vec![vec!['a', 'b', 'c', 'd']]);
    assert_eq!(ed.cursor(), Cursor { row: 0, column: 4 });
}

#[test]
fn delete_at_column_zero_joins_lines() {
    let mut ed = Kiro::default();
    type_str(&mut ed, "ab\ncd");
    ed.cursor_left();
    ed.cursor_left();
    assert_eq!(ed.cursor(), Cursor { row: 1, column: 0 });
    ed.delete();
    assert_eq!(lines_of(&ed), vec![vec!['a', 'b', 'c', 'd']]);
    assert_eq!(ed.cursor(), Cursor { row: 0, column: 2 });
}

#[test]
fn newline_at_end_of_line_adds_empty_line() {
    let mut ed = Kiro::default();
    type_str(&mut ed, "hello");
    assert_eq!(ed.cursor(), Cursor { row: 0, column: 5 });
    ed.insert('\n');
    assert_eq!(lines_of(&ed), vec![vec!['h', 'e', 'l', 'l', 'o'], vec![]]);
    assert_eq!(ed.cursor(), Cursor { row: 1, column: 0 });
}

#[test]
fn newline_in_middle_splits_line() {
    let mut ed = Kiro::default();
    type_str(&mut ed, "abcd");
    ed.cursor_left();
    ed.cursor_left();
    ed.insert('\n');
    assert_eq!(lines_of(&ed), vec![vec!['a', 'b'], vec!['c', 'd']]);
    assert_eq!(ed.cursor(), Cursor { row: 1, column: 0 });
}

#[test]
fn left_at_column_zero_is_noop() {
    let mut ed = Kiro::default();
    type_str(&mut ed, "ab\ncd");
    ed.cursor_left();
    ed.cursor_left();
    let before = (lines_of(&ed), ed.cursor(), ed.row_offset());
    ed.cursor_left();
    assert_eq!((lines_of(&ed), ed.cursor(), ed.row_offset()), before);
}

#[test]
fn up_at_first_row_is_noop() {
    let mut ed = Kiro::default();
    type_str(&mut ed, "ab");
    let before = (lines_of(&ed), ed.cursor(), ed.row_offset());
    ed.cursor_up();
    assert_eq!((lines_of(&ed), ed.cursor(), ed.row_offset()), before);
}

#[test]
fn right_at_end_of_line_is_noop() {
    let mut ed = Kiro::default();
    type_str(&mut ed, "ab");
    let before = (lines_of(&ed), ed.cursor(), ed.row_offset());
    ed.cursor_right();
    assert_eq!((lines_of(&ed), ed.cursor(), ed.row_offset()), before);
}

#[test]
fn down_at_last_row_is_noop() {
    let mut ed = Kiro::default();
    type_str(&mut ed, "ab\ncd");
    let before = (lines_of(&ed), ed.cursor(), ed.row_offset());
    ed.cursor_down();
    assert_eq!((lines_of(&ed), ed.cursor(), ed.row_offset()), before);
}

#[test]
fn delete_at_document_start_is_noop() {
    let mut ed = Kiro::default();
    type_str(&mut ed, "ab");
    ed.cursor_left();
    ed.cursor_left();
    let before = (lines_of(&ed), ed.cursor(), ed.row_offset());
    ed.delete();
    assert_eq!((lines_of(&ed), ed.cursor(), ed.row_offset()), before);
}

#[test]
fn insert_then_delete_restores_state() {
    let mut ed = Kiro::default();
    type_str(&mut ed, "ab\ncd");
    ed.cursor_left();
    let before = (lines_of(&ed), ed.cursor(), ed.row_offset());
    ed.insert('x');
    ed.delete();
    assert_eq!((lines_of(&ed), ed.cursor(), ed.row_offset()), before);
}

#[test]
fn newline_then_delete_restores_state() {
    let mut ed = Kiro::default();
    type_str(&mut ed, "hello");
    ed.cursor_left();
    ed.cursor_left();
    ed.cursor_left();
    let before = (lines_of(&ed), ed.cursor(), ed.row_offset());
    ed.insert('\n');
    assert_eq!(ed.cursor(), Cursor { row: 1, column: 0 });
    ed.delete();
    assert_eq!((lines_of(&ed), ed.cursor(), ed.row_offset()), before);
}

#[test]
fn control_character_is_ignored() {
    let mut ed = Kiro::default();
    type_str(&mut ed, "ab");
    let before = (lines_of(&ed), ed.cursor(), ed.row_offset());
    ed.insert('\u{7}');
    assert_eq!((lines_of(&ed), ed.cursor(), ed.row_offset()), before);
    ed.insert('\t');
    assert_eq!((lines_of(&ed), ed.cursor(), ed.row_offset()), before);
}

#[test]
fn vertical_move_clamps_column() {
    let mut ed = Kiro::default();
    type_str(&mut ed, "abcd\nx");
    ed.cursor_up();
    assert_eq!(ed.cursor(), Cursor { row: 0, column: 1 });
    ed.cursor_right();
    ed.cursor_right();
    ed.cursor_right();
    assert_eq!(ed.cursor(), Cursor { row: 0, column: 4 });
    ed.cursor_down();
    assert_eq!(ed.cursor(), Cursor { row: 1, column: 1 });
}

#[test]
fn scroll_moves_offset_to_keep_cursor_visible() {
    let mut ed = Kiro::default();
    type_str(&mut ed, "\n\n\n\n");
    assert_eq!(ed.line_count(), 5);
    assert_eq!(ed.cursor(), Cursor { row: 4, column: 0 });
    ed.scroll(2);
    assert_eq!(ed.row_offset(), 3);
}

#[test]
fn scroll_caps_offset_at_cursor_row() {
    let mut ed = Kiro::default();
    type_str(&mut ed, "\n\n\n\n");
    ed.scroll(2);
    assert_eq!(ed.row_offset(), 3);
    ed.cursor_up();
    ed.cursor_up();
    ed.cursor_up();
    ed.cursor_up();
    assert_eq!(ed.cursor(), Cursor { row: 0, column: 0 });
    ed.scroll(2);
    assert_eq!(ed.row_offset(), 0);
}

#[test]
fn scroll_leaves_offset_alone_when_cursor_visible() {
    let mut ed = Kiro::default();
    type_str(&mut ed, "a\nb\nc");
    ed.cursor_up();
    ed.scroll(10);
    assert_eq!(ed.row_offset(), 0);
}
