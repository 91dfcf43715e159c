//! Tests for loading and saving: line splitting, trailing-whitespace
//! trimming on read, and the save/load round trip with its documented
//! normalization.

use kiro::editor::Kiro;

fn chars(s: &str) -> Vec<char> {
    s.chars().collect()
}

fn text(v: &[char]) -> String {
    v.iter().collect()
}

fn lines_as_strings(ed: &Kiro) -> Vec<String> {
    let mut out: Vec<String> = Vec::new();
    for i in 0..ed.line_count() {
        out.push(ed.line(i).iter().collect());
    }
    out
}

#[test]
fn open_splits_lines_and_trims_trailing_whitespace() {
    let mut ed = Kiro::default();
    let content = chars("ab \ncd\r\n");
    ed.open(Some(&content));
    assert_eq!(lines_as_strings(&ed), vec!["ab".to_string(), "cd".to_string()]);
    assert_eq!(ed.cursor().row, 0);
    assert_eq!(ed.cursor().column, 0);
    assert_eq!(ed.row_offset(), 0);
}

#[test]
fn open_missing_file_starts_empty_document() {
    let mut ed = Kiro::default();
    ed.open(None);
    assert_eq!(lines_as_strings(&ed), vec!["".to_string()]);
}

#[test]
fn open_empty_text_gives_single_empty_line() {
    let mut ed = Kiro::default();
    let content = chars("");
    ed.open(Some(&content));
    assert_eq!(lines_as_strings(&ed), vec!["".to_string()]);
}

#[test]
fn open_without_trailing_newline_keeps_last_line() {
    let mut ed = Kiro::default();
    let content = chars("ab\ncd");
    ed.open(Some(&content));
    assert_eq!(lines_as_strings(&ed), vec!["ab".to_string(), "cd".to_string()]);
}

#[test]
fn open_trailing_newline_adds_no_extra_line() {
    let mut ed = Kiro::default();
    let content = chars("ab\n");
    ed.open(Some(&content));
    assert_eq!(lines_as_strings(&ed), vec!["ab".to_string()]);
}

#[test]
fn open_blank_lines_are_kept() {
    let mut ed = Kiro::default();
    let content = chars("\n\n");
    ed.open(Some(&content));
    assert_eq!(lines_as_strings(&ed), vec!["".to_string(), "".to_string()]);
}

#[test]
fn save_writes_every_line_with_newline() {
    let mut ed = Kiro::default();
    for c in "ab\ncd".chars() {
        ed.insert(c);
    }
    assert_eq!(text(&ed.save_text()), "ab\ncd\n");
}

#[test]
fn save_empty_document_writes_single_newline() {
    let ed = Kiro::default();
    assert_eq!(text(&ed.save_text()), "\n");
}

#[test]
fn round_trip_reproduces_normal_file() {
    let mut ed = Kiro::default();
    let content = chars("ab\ncd\n\nef\n");
    ed.open(Some(&content));
    assert_eq!(text(&ed.save_text()), "ab\ncd\n\nef\n");
}

#[test]
fn round_trip_normalizes_trailing_whitespace_once() {
    // A file with trailing spaces differs after one save/load cycle: the
    // spaces are stripped on load, and a second cycle changes nothing more.
    let mut ed = Kiro::default();
    let content = chars("ab \ncd\t\n");
    ed.open(Some(&content));
    let first = ed.save_text();
    assert_eq!(text(&first), "ab\ncd\n");
    let mut ed2 = Kiro::default();
    ed2.open(Some(&first));
    assert_eq!(text(&ed2.save_text()), "ab\ncd\n");
}

#[test]
fn save_keeps_trailing_whitespace_typed_into_buffer() {
    // Saving performs no trimming of its own: only loading trims.
    let mut ed = Kiro::default();
    for c in "ab ".chars() {
        ed.insert(c);
    }
    assert_eq!(text(&ed.save_text()), "ab \n");
}
