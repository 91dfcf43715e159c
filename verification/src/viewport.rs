//! The viewport: the mapping from document state to screen content for a
//! terminal of a given size. Starting at the scroll offset, buffer lines are
//! laid out row by row with soft wrap at the column limit; layout stops as
//! soon as the screen is exhausted. Alongside the visible characters the
//! mapping records at most one screen position: where the terminal cursor is
//! to be painted, absent when the document cursor lies outside the rendered
//! band.

use vstd::prelude::*;
use crate::editor::Cursor;
use crate::model::EditorState;

verus! {

/// A position in screen cell coordinates.
pub struct ScreenPos {
    pub row: int,
    pub col: int,
}

/// The layout state: the screen rows produced so far (the last of them still
/// being filled), the position the next character would occupy, the recorded
/// cursor paint target, and whether the screen has been exhausted.
#[verifier::ext_equal]
pub struct ScreenState {
    pub screen: Seq<Seq<char>>,
    pub row: int,
    pub col: int,
    pub cursor: Option<ScreenPos>,
    pub done: bool,
}

/// Layout starts with a single empty screen row at the origin.
pub open spec fn sp_init() -> ScreenState {
    ScreenState {
        screen: seq![Seq::<char>::empty()],
        row: 0,
        col: 0,
        cursor: None,
        done: false,
    }
}

/// Emits one character into the current screen row.
pub open spec fn sp_emit(st: ScreenState, c: char) -> ScreenState {
    ScreenState {
        screen: st.screen.update(st.screen.len() - 1, st.screen.last().push(c)),
        row: st.row,
        col: st.col + 1,
        cursor: st.cursor,
        done: st.done,
    }
}

/// Moves to the next screen row; when none is left the layout is done.
pub open spec fn sp_advance(st: ScreenState, rows: int) -> ScreenState {
    if st.row + 1 >= rows {
        ScreenState { screen: st.screen, row: st.row + 1, col: 0, cursor: st.cursor, done: true }
    } else {
        ScreenState {
            screen: st.screen.push(Seq::<char>::empty()),
            row: st.row + 1,
            col: 0,
            cursor: st.cursor,
            done: st.done,
        }
    }
}

/// Records the current screen position as the cursor paint target when the
/// document cursor sits at the position being visited.
pub open spec fn sp_mark(st: ScreenState, at_cursor: bool) -> ScreenState {
    if at_cursor {
        ScreenState {
            screen: st.screen,
            row: st.row,
            col: st.col,
            cursor: Some(ScreenPos { row: st.row, col: st.col }),
            done: st.done,
        }
    } else {
        st
    }
}

/// Visits position `j` of a buffer line: records the cursor target if the
/// document cursor sits here, then emits the character at `j` (positions run
/// one past the end of the line, to allow the cursor there, so the last
/// position emits nothing), wrapping to the next screen row when the column
/// limit is reached. Once the layout is done, visiting changes nothing.
pub open spec fn sp_visit(
    st: ScreenState,
    line: Seq<char>,
    at_cursor: bool,
    j: int,
    rows: int,
    cols: int,
) -> ScreenState {
    if st.done {
        st
    } else {
        let marked = sp_mark(st, at_cursor);
        if 0 <= j < line.len() {
            let emitted = sp_emit(marked, line[j]);
            if emitted.col >= cols {
                sp_advance(emitted, rows)
            } else {
                emitted
            }
        } else {
            marked
        }
    }
}

/// Visits positions `0 .. j` of the buffer line at index `i`. `cr`/`cc` is
/// the document cursor.
pub open spec fn sp_line_upto(
    st0: ScreenState,
    line: Seq<char>,
    cr: int,
    cc: int,
    i: int,
    j: int,
    rows: int,
    cols: int,
) -> ScreenState
    decreases j,
{
    if j <= 0 {
        st0
    } else {
        let prev = sp_line_upto(st0, line, cr, cc, i, j - 1, rows, cols);
        sp_visit(prev, line, cr == i && cc == j - 1, j - 1, rows, cols)
    }
}

/// Lays out one whole buffer line: every character position, the one-past-
/// the-end position, then the hard break to the next screen row (skipped
/// when the screen was exhausted on the way).
pub open spec fn sp_line_full(
    st0: ScreenState,
    line: Seq<char>,
    cr: int,
    cc: int,
    i: int,
    rows: int,
    cols: int,
) -> ScreenState {
    let chars_done = sp_line_upto(st0, line, cr, cc, i, line.len() as int, rows, cols);
    let end_pos = sp_visit(
        chars_done,
        line,
        cr == i && cc == line.len(),
        line.len() as int,
        rows,
        cols,
    );
    if end_pos.done {
        end_pos
    } else {
        sp_advance(end_pos, rows)
    }
}

/// Lays out the buffer lines `start .. i` in order.
pub open spec fn sp_upto(
    lines: Seq<Seq<char>>,
    cr: int,
    cc: int,
    start: int,
    i: int,
    rows: int,
    cols: int,
) -> ScreenState
    decreases i - start,
{
    if i <= start {
        sp_init()
    } else {
        sp_line_full(
            sp_upto(lines, cr, cc, start, i - 1, rows, cols),
            lines[i - 1],
            cr,
            cc,
            i - 1,
            rows,
            cols,
        )
    }
}

/// The full viewport mapping for a document state and a terminal size: all
/// buffer lines from the scroll offset on, until the screen is exhausted.
pub open spec fn render_spec(s: EditorState, rows: int, cols: int) -> ScreenState {
    sp_upto(s.lines, s.row, s.col, s.row_offset, s.lines.len() as int, rows, cols)
}

/// The recorded cursor paint target of an executable render result, as the
/// spec-level layout states it.
pub open spec fn cursor_view(c: Option<Cursor>) -> Option<ScreenPos> {
    match c {
        Some(p) => Some(ScreenPos { row: p.row as int, col: p.column as int }),
        None => None,
    }
}

/// The layout state that a render in progress has reached: the completed
/// screen rows plus the row still being filled.
pub open spec fn st_of(
    completed: Seq<Seq<char>>,
    cur_row: Seq<char>,
    row: int,
    col: int,
    cursor: Option<ScreenPos>,
    done: bool,
) -> ScreenState {
    ScreenState { screen: completed.push(cur_row), row, col, cursor, done }
}

} // verus!
