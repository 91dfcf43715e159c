//! The mathematical model of the editor: an abstract state (lines, cursor,
//! scroll offset) and one spec-level transition per edit, movement and scroll
//! operation. The executable operations promise exactly these transitions.

use vstd::prelude::*;
use crate::chars::is_control_spec;

verus! {

/// Abstract editor state: the document as a sequence of lines (each a
/// sequence of characters, none of them a newline), the cursor as a
/// (row, column) pair, and the viewport's row offset.
#[verifier::ext_equal]
pub struct EditorState {
    pub lines: Seq<Seq<char>>,
    pub row: int,
    pub col: int,
    pub row_offset: int,
}

/// A single line is well formed when it contains no newline character.
pub open spec fn line_ok(l: Seq<char>) -> bool {
    forall|j: int| 0 <= j < l.len() ==> l[j] != '\n'
}

/// A document is well formed when it has at least one line and every line is
/// free of newline characters.
pub open spec fn lines_ok(ls: Seq<Seq<char>>) -> bool {
    &&& ls.len() >= 1
    &&& forall|i: int| 0 <= i < ls.len() ==> line_ok(#[trigger] ls[i])
}

/// The editor invariant: the document is well formed, the cursor row indexes
/// an existing line, and the cursor column is a valid insertion point into
/// that line.
pub open spec fn state_wf(s: EditorState) -> bool {
    &&& lines_ok(s.lines)
    &&& 0 <= s.row < s.lines.len()
    &&& 0 <= s.col <= s.lines[s.row].len()
    &&& 0 <= s.row_offset
}

/// Cursor up: move to the previous row, clamping the column to that row's
/// length; a no-op on the first row.
pub open spec fn move_up_spec(s: EditorState) -> EditorState {
    if s.row > 0 {
        let len = s.lines[s.row - 1].len() as int;
        EditorState {
            lines: s.lines,
            row: s.row - 1,
            col: if s.col <= len { s.col } else { len },
            row_offset: s.row_offset,
        }
    } else {
        s
    }
}

/// Cursor down: move to the next row, clamping the column to that row's
/// length; a no-op on the last row.
pub open spec fn move_down_spec(s: EditorState) -> EditorState {
    if s.row + 1 < s.lines.len() {
        let len = s.lines[s.row + 1].len() as int;
        EditorState {
            lines: s.lines,
            row: s.row + 1,
            col: if s.col <= len { s.col } else { len },
            row_offset: s.row_offset,
        }
    } else {
        s
    }
}

/// Cursor left: move one column back; a no-op at column 0. Horizontal
/// movement does not wrap across line boundaries.
pub open spec fn move_left_spec(s: EditorState) -> EditorState {
    if s.col > 0 {
        EditorState { lines: s.lines, row: s.row, col: s.col - 1, row_offset: s.row_offset }
    } else {
        s
    }
}

/// Cursor right: move one column forward, never past the end of the current
/// line; a no-op at end of line. No cross-line wrap.
pub open spec fn move_right_spec(s: EditorState) -> EditorState {
    if s.col < s.lines[s.row].len() {
        EditorState { lines: s.lines, row: s.row, col: s.col + 1, row_offset: s.row_offset }
    } else {
        s
    }
}

/// The document after the line at `row` is cut at `col`: the prefix stays in
/// place, the suffix becomes a new line immediately after it.
pub open spec fn split_lines_spec(ls: Seq<Seq<char>>, row: int, col: int) -> Seq<Seq<char>> {
    ls.update(row, ls[row].subrange(0, col)).insert(
        row + 1,
        ls[row].subrange(col, ls[row].len() as int),
    )
}

/// The document after the line at `row` is removed and appended to the line
/// before it.
pub open spec fn join_lines_spec(ls: Seq<Seq<char>>, row: int) -> Seq<Seq<char>> {
    ls.update(row - 1, ls[row - 1] + ls[row]).remove(row)
}

/// Insert: a newline splits the current line and moves the cursor to the
/// start of the new line; any other control character is ignored; a printable
/// character is inserted before the cursor, which advances past it.
pub open spec fn insert_spec(s: EditorState, c: char) -> EditorState {
    if c == '\n' {
        EditorState {
            lines: split_lines_spec(s.lines, s.row, s.col),
            row: s.row + 1,
            col: 0,
            row_offset: s.row_offset,
        }
    } else if is_control_spec(c) {
        s
    } else {
        EditorState {
            lines: s.lines.update(s.row, s.lines[s.row].insert(s.col, c)),
            row: s.row,
            col: s.col + 1,
            row_offset: s.row_offset,
        }
    }
}

/// Delete (backspace): removes the character before the cursor; at column 0
/// it joins the current line onto the previous one, placing the cursor at the
/// join point; at the start of the document it is a no-op.
pub open spec fn delete_spec(s: EditorState) -> EditorState {
    if s.col > 0 {
        EditorState {
            lines: s.lines.update(s.row, s.lines[s.row].remove(s.col - 1)),
            row: s.row,
            col: s.col - 1,
            row_offset: s.row_offset,
        }
    } else if s.row > 0 {
        EditorState {
            lines: join_lines_spec(s.lines, s.row),
            row: s.row - 1,
            col: s.lines[s.row - 1].len() as int,
            row_offset: s.row_offset,
        }
    } else {
        s
    }
}

/// Scroll adjustment for a terminal of `rows` screen rows: the row offset is
/// first capped at the cursor row, then raised just enough that the cursor
/// row falls within the displayed band (single-line granularity; soft-wrap
/// expansion is deliberately not accounted for).
pub open spec fn scroll_spec(s: EditorState, rows: int) -> EditorState {
    let capped = if s.row_offset <= s.row { s.row_offset } else { s.row };
    let adjusted = if s.row + 1 >= rows {
        if capped >= s.row + 1 - rows { capped } else { s.row + 1 - rows }
    } else {
        capped
    };
    EditorState { lines: s.lines, row: s.row, col: s.col, row_offset: adjusted }
}

} // verus!
