//! Tests for the viewport: soft wrap, screen cutoff, scroll interaction and
//! the recorded cursor paint position (including the documented case where
//! the cursor is off screen and no position is produced).

use kiro::editor::{Cursor, Kiro};

fn type_str(ed: &mut Kiro, s: &str) {
    for c in s.chars() {
        ed.insert(c);
    }
}

fn rows_as_strings(screen: &[Vec<char>]) -> Vec<String> {
    screen.iter().map(|r| r.iter().collect()).collect()
}

#[test]
fn render_single_line_and_cursor() {
    let mut ed = Kiro::default();
    type_str(&mut ed, "ab");
    let (screen, cur) = ed.render(4, 80);
    assert_eq!(rows_as_strings(&screen), vec!["ab".to_string(), "".to_string()]);
    assert_eq!(cur, Some(Cursor { row: 0, column: 2 }));
}

#[test]
fn render_wraps_long_line() {
    let mut ed = Kiro::default();
    type_str(&mut ed, "abcd");
    let (screen, cur) = ed.render(10, 2);
    assert_eq!(
        rows_as_strings(&screen),
        vec!["ab".to_string(), "cd".to_string(), "".to_string(), "".to_string()],
    );
    // The cursor sits one past the end of the line, which the wrap carried
    // to the start of the next screen row.
    assert_eq!(cur, Some(Cursor { row: 2, column: 0 }));
}

#[test]
fn render_wrap_at_exact_multiple_leaves_empty_row() {
    let mut ed = Kiro::default();
    type_str(&mut ed, "ab");
    let (screen, _) = ed.render(5, 2);
    assert_eq!(
        rows_as_strings(&screen),
        vec!["ab".to_string(), "".to_string(), "".to_string()],
    );
}

#[test]
fn render_stops_when_screen_is_full() {
    let mut ed = Kiro::default();
    type_str(&mut ed, "a\nb");
    ed.cursor_up();
    let (screen, cur) = ed.render(1, 80);
    assert_eq!(rows_as_strings(&screen), vec!["a".to_string()]);
    assert_eq!(cur, Some(Cursor { row: 0, column: 1 }));
}

#[test]
fn render_cursor_below_cutoff_yields_no_position() {
    // The scroll approximation can leave the cursor's buffer row outside
    // the rendered band; the mapping then records no paint position.
    let mut ed = Kiro::default();
    type_str(&mut ed, "a\nb");
    let (screen, cur) = ed.render(1, 80);
    assert_eq!(rows_as_strings(&screen), vec!["a".to_string()]);
    assert_eq!(cur, None);
}

#[test]
fn render_starts_at_row_offset() {
    let mut ed = Kiro::default();
    type_str(&mut ed, "a\nb\nc");
    ed.scroll(2);
    assert_eq!(ed.row_offset(), 1);
    let (screen, cur) = ed.render(2, 80);
    assert_eq!(
        rows_as_strings(&screen),
        vec!["b".to_string(), "c".to_string()],
    );
    assert_eq!(cur, Some(Cursor { row: 1, column: 1 }));
}

#[test]
fn render_empty_document_is_one_blank_row() {
    let ed = Kiro::default();
    let (screen, cur) = ed.render(3, 80);
    assert_eq!(rows_as_strings(&screen), vec!["".to_string(), "".to_string()]);
    assert_eq!(cur, Some(Cursor { row: 0, column: 0 }));
}
