//! The document and its edit state machine: a line buffer, a cursor and the
//! viewport's row offset, with one operation per decoded input event. Every
//! operation re-establishes the editor invariant and performs exactly the
//! transition stated by its spec-level counterpart in `model`.

use vstd::prelude::*;
use crate::buffer::LineBuffer;
use crate::chars::is_control_char;
use crate::model::{
    EditorState, state_wf, move_up_spec, move_down_spec, move_left_spec, move_right_spec,
    insert_spec, delete_spec, scroll_spec,
};
use crate::text::{parse_spec, parse_text, serialize_spec, serialize_lines};
use crate::viewport::{
    render_spec, sp_init, sp_upto, sp_line_upto, sp_line_full, sp_visit, sp_mark, sp_emit,
    sp_advance, cursor_view, st_of,
};

verus! {

/// A cursor position in buffer coordinates: `row` indexes a line, `column`
/// an insertion point within that line.
#[derive(Clone, Copy, PartialEq, Eq, Structural, Debug)]
pub struct Cursor {
    pub row: usize,
    pub column: usize,
}

/// The editor: a document (line buffer plus cursor) and the scroll offset of
/// its viewport.
pub struct Kiro {
    buffer: LineBuffer,
    cursor: Cursor,
    row_offset: usize,
}

impl View for Kiro {
    type V = EditorState;

    closed spec fn view(&self) -> EditorState {
        EditorState {
            lines: self.buffer@,
            row: self.cursor.row as int,
            col: self.cursor.column as int,
            row_offset: self.row_offset as int,
        }
    }
}

impl Default for Kiro {
    /// The empty document: one empty line, cursor at the origin, no scroll.
    fn default() -> (k: Kiro)
        ensures
            k.wf(),
            k@.lines =~~= seq![Seq::<char>::empty()],
            k@.row == 0,
            k@.col == 0,
            k@.row_offset == 0,
    {
        Kiro {
            buffer: LineBuffer::new_empty(),
            cursor: Cursor { row: 0, column: 0 },
            row_offset: 0,
        }
    }
}

impl Kiro {
    /// The editor invariant (see `model::state_wf`).
    pub open spec fn wf(self) -> bool {
        state_wf(self@)
    }

    /// The current cursor position.
    pub fn cursor(&self) -> (c: Cursor)
        ensures
            c.row == self@.row,
            c.column == self@.col,
    {
        self.cursor
    }

    /// The current scroll offset.
    pub fn row_offset(&self) -> (o: usize)
        ensures
            o == self@.row_offset,
    {
        self.row_offset
    }

    /// The number of lines in the document.
    pub fn line_count(&self) -> (n: usize)
        ensures
            n == self@.lines.len(),
    {
        self.buffer.line_count()
    }

    /// A borrowed view of the line at `row`.
    pub fn line(&self, row: usize) -> (l: &Vec<char>)
        requires
            row < self@.lines.len(),
        ensures
            l@ == self@.lines[row as int],
    {
        self.buffer.line(row)
    }

    /// Resets the editor to the given file content: `Some` text is split into
    /// lines with trailing whitespace trimmed, `None` (an unreadable or
    /// missing file) starts an empty document. The cursor and the scroll
    /// offset return to the origin.
    pub fn open(&mut self, text: Option<&Vec<char>>)
        ensures
            final(self).wf(),
            final(self)@.row == 0,
            final(self)@.col == 0,
            final(self)@.row_offset == 0,
            match text {
                Some(t) => final(self)@.lines == parse_spec(t@),
                None => final(self)@.lines =~~= seq![Seq::<char>::empty()],
            },
    {
        self.buffer = match text {
            Some(t) => parse_text(t),
            None => LineBuffer::new_empty(),
        };
        self.cursor = Cursor { row: 0, column: 0 };
        self.row_offset = 0;
    }

    /// The document serialized for saving: every line followed by a newline.
    pub fn save_text(&self) -> (out: Vec<char>)
        ensures
            out@ == serialize_spec(self@.lines),
    {
        serialize_lines(&self.buffer)
    }

    /// Cursor up; at the first row a no-op.
    pub fn cursor_up(&mut self)
        requires
            old(self).wf(),
        ensures
            final(self).wf(),
            final(self)@ == move_up_spec(old(self)@),
            old(self)@.row == 0 ==> *final(self) == *old(self),
    {
        if self.cursor.row > 0 {
            self.cursor.row = self.cursor.row - 1;
            let len = self.buffer.line_len(self.cursor.row);
            if self.cursor.column > len {
                self.cursor.column = len;
            }
        }
    }

    /// Cursor down; at the last row a no-op.
    pub fn cursor_down(&mut self)
        requires
            old(self).wf(),
        ensures
            final(self).wf(),
            final(self)@ == move_down_spec(old(self)@),
            old(self)@.row + 1 == old(self)@.lines.len() ==> *final(self) == *old(self),
    {
        let count = self.buffer.line_count();
        if self.cursor.row + 1 < count {
            self.cursor.row = self.cursor.row + 1;
            let len = self.buffer.line_len(self.cursor.row);
            if self.cursor.column > len {
                self.cursor.column = len;
            }
        }
    }

    /// Cursor left; at column 0 a no-op (no wrap to the previous line).
    pub fn cursor_left(&mut self)
        requires
            old(self).wf(),
        ensures
            final(self).wf(),
            final(self)@ == move_left_spec(old(self)@),
            old(self)@.col == 0 ==> *final(self) == *old(self),
    {
        if self.cursor.column > 0 {
            self.cursor.column = self.cursor.column - 1;
        }
    }

    /// Cursor right; at the end of the line a no-op (no wrap to the next
    /// line).
    pub fn cursor_right(&mut self)
        requires
            old(self).wf(),
        ensures
            final(self).wf(),
            final(self)@ == move_right_spec(old(self)@),
            old(self)@.col == old(self)@.lines[old(self)@.row].len()
                ==> *final(self) == *old(self),
    {
        let len = self.buffer.line_len(self.cursor.row);
        if self.cursor.column < len {
            self.cursor.column = self.cursor.column + 1;
        }
    }

    /// Applies one decoded character: a newline splits the current line and
    /// the cursor moves to the start of the new line; any other control
    /// character is ignored; a printable character is inserted before the
    /// cursor, which advances past it.
    pub fn insert(&mut self, c: char)
        requires
            old(self).wf(),
        ensures
            final(self).wf(),
            final(self)@ == insert_spec(old(self)@, c),
    {
        if c == '\n' {
            let count = self.buffer.line_count();
            proof {
                assert(self.cursor.row < count);
            }
            self.buffer.split_line(self.cursor.row, self.cursor.column);
            self.cursor.row = self.cursor.row + 1;
            self.cursor.column = 0;
        } else if !is_control_char(c) {
            self.buffer.insert_char(self.cursor.row, self.cursor.column, c);
            self.cursor_right();
        }
    }

    /// Backspace: removes the character before the cursor; at column 0 it
    /// joins the current line onto the previous one, the cursor landing at
    /// the join point; at the start of the document a no-op.
    pub fn delete(&mut self)
        requires
            old(self).wf(),
        ensures
            final(self).wf(),
            final(self)@ == delete_spec(old(self)@),
            old(self)@.row == 0 && old(self)@.col == 0 ==> *final(self) == *old(self),
    {
        if self.cursor.column > 0 {
            self.buffer.delete_char(self.cursor.row, self.cursor.column);
            self.cursor.column = self.cursor.column - 1;
        } else if self.cursor.row > 0 {
            let prev_len = self.buffer.line_len(self.cursor.row - 1);
            self.buffer.join_line(self.cursor.row);
            self.cursor.row = self.cursor.row - 1;
            self.cursor.column = prev_len;
        }
    }

    /// Adjusts the scroll offset for a terminal of `rows` screen rows so that
    /// the cursor's buffer row lies within the displayed band (single-line
    /// granularity; soft-wrap expansion is deliberately not accounted for).
    pub fn scroll(&mut self, rows: usize)
        requires
            old(self).wf(),
        ensures
            final(self).wf(),
            final(self)@ == scroll_spec(old(self)@, rows as int),
            rows >= 1 ==> final(self)@.row_offset <= final(self)@.row
                < final(self)@.row_offset + rows,
    {
        let count = self.buffer.line_count();
        proof {
            assert(self.cursor.row < count);
        }
        if self.row_offset > self.cursor.row {
            self.row_offset = self.cursor.row;
        }
        if self.cursor.row + 1 >= rows {
            let floor = self.cursor.row + 1 - rows;
            if self.row_offset < floor {
                self.row_offset = floor;
            }
        }
    }

    /// Computes the full-screen repaint for a terminal of `rows` by `cols`
    /// cells: the screen rows to paint in order (soft-wrapped at the column
    /// limit, cut off once the screen is exhausted) and, when the document
    /// cursor lies within the rendered band, the screen position where the
    /// terminal cursor is to be placed.
    pub fn render(&self, rows: usize, cols: usize) -> (r: (Vec<Vec<char>>, Option<Cursor>))
        requires
            self.wf(),
        ensures
            ({
                let st = render_spec(self@, rows as int, cols as int);
                &&& r.0.deep_view() == st.screen
                &&& cursor_view(r.1) == st.cursor
            }),
    {
        let n = self.buffer.line_count();
        let mut completed: Vec<Vec<char>> = Vec::new();
        let mut cur_row: Vec<char> = Vec::new();
        let mut srow: usize = 0;
        let mut scol: usize = 0;
        let mut cur: Option<Cursor> = None;
        let mut done: bool = false;
        let mut i: usize = if self.row_offset < n {
            self.row_offset
        } else {
            n
        };
        proof {
            assert(st_of(completed.deep_view(), cur_row@, 0, 0, cursor_view(cur), false)
                =~~= sp_init());
        }
        while i < n
            invariant
                self.wf(),
                n == self@.lines.len(),
                i <= n,
                self@.row_offset <= i as int || i as int == n,
                st_of(
                    completed.deep_view(),
                    cur_row@,
                    srow as int,
                    scol as int,
                    cursor_view(cur),
                    done,
                ) == sp_upto(
                    self@.lines,
                    self@.row,
                    self@.col,
                    self@.row_offset,
                    i as int,
                    rows as int,
                    cols as int,
                ),
                !done ==> srow < rows || srow == 0,
                !done ==> scol < cols || scol == 0,
            decreases n - i,
        {
            let ghost st_line0 = sp_upto(
                self@.lines,
                self@.row,
                self@.col,
                self@.row_offset,
                i as int,
                rows as int,
                cols as int,
            );
            let ghost line = self@.lines[i as int];
            let line_len = self.buffer.line_len(i);
            let mut j: usize = 0;
            while j < line_len
                invariant
                    self.wf(),
                    n == self@.lines.len(),
                    i < n,
                    j <= line_len,
                    line == self@.lines[i as int],
                    line_len == line.len(),
                    st_of(
                        completed.deep_view(),
                        cur_row@,
                        srow as int,
                        scol as int,
                        cursor_view(cur),
                        done,
                    ) == sp_line_upto(
                        st_line0,
                        line,
                        self@.row,
                        self@.col,
                        i as int,
                        j as int,
                        rows as int,
                        cols as int,
                    ),
                    !done ==> srow < rows || srow == 0,
                    !done ==> scol < cols || scol == 0,
                decreases line_len - j,
            {
                let ghost st_before = st_of(
                    completed.deep_view(),
                    cur_row@,
                    srow as int,
                    scol as int,
                    cursor_view(cur),
                    done,
                );
                let ghost at_cursor = self@.row == i as int && self@.col == j as int;
                if !done {
                    if self.cursor.row == i && self.cursor.column == j {
                        cur = Some(Cursor { row: srow, column: scol });
                    }
                    let ghost st_marked = st_of(
                        completed.deep_view(),
                        cur_row@,
                        srow as int,
                        scol as int,
                        cursor_view(cur),
                        done,
                    );
                    proof {
                        assert(st_marked =~~= sp_mark(st_before, at_cursor));
                    }
                    let c = self.buffer.char_at(i, j);
                    let ghost dv_completed = completed.deep_view();
                    let ghost row_before = cur_row@;
                    cur_row.push(c);
                    scol = scol + 1;
                    let ghost st_emitted = st_of(
                        completed.deep_view(),
                        cur_row@,
                        srow as int,
                        scol as int,
                        cursor_view(cur),
                        done,
                    );
                    proof {
                        assert(st_emitted =~~= sp_emit(st_marked, line[j as int]));
                    }
                    if scol >= cols {
                        srow = srow + 1;
                        scol = 0;
                        if srow >= rows {
                            done = true;
                            proof {
                                assert(st_of(
                                    completed.deep_view(),
                                    cur_row@,
                                    srow as int,
                                    scol as int,
                                    cursor_view(cur),
                                    done,
                                ) =~~= sp_advance(st_emitted, rows as int));
                            }
                        } else {
                            let ghost dv_before = completed.deep_view();
                            let ghost moved = cur_row@;
                            completed.push(cur_row);
                            cur_row = Vec::new();
                            proof {
                                assert(completed.deep_view() =~~= dv_before.push(moved));
                                assert(st_of(
                                    completed.deep_view(),
                                    cur_row@,
                                    srow as int,
                                    scol as int,
                                    cursor_view(cur),
                                    done,
                                ) =~~= sp_advance(st_emitted, rows as int));
                            }
                        }
                    }
                }
                proof {
                    assert(st_of(
                        completed.deep_view(),
                        cur_row@,
                        srow as int,
                        scol as int,
                        cursor_view(cur),
                        done,
                    ) == sp_visit(st_before, line, at_cursor, j as int, rows as int, cols as int));
                    assert(sp_line_upto(
                        st_line0,
                        line,
                        self@.row,
                        self@.col,
                        i as int,
                        j as int + 1,
                        rows as int,
                        cols as int,
                    ) == sp_visit(st_before, line, at_cursor, j as int, rows as int, cols as int));
                }
                j = j + 1;
            }
            let ghost chars_done = st_of(
                completed.deep_view(),
                cur_row@,
                srow as int,
                scol as int,
                cursor_view(cur),
                done,
            );
            let ghost at_end = self@.row == i as int && self@.col == line_len as int;
            if !done {
                if self.cursor.row == i && self.cursor.column == line_len {
                    cur = Some(Cursor { row: srow, column: scol });
                }
                let ghost end_pos = st_of(
                    completed.deep_view(),
                    cur_row@,
                    srow as int,
                    scol as int,
                    cursor_view(cur),
                    done,
                );
                proof {
                    assert(end_pos =~~= sp_visit(
                        chars_done,
                        line,
                        at_end,
                        line_len as int,
                        rows as int,
                        cols as int,
                    ));
                }
                srow = srow + 1;
                scol = 0;
                if srow >= rows {
                    done = true;
                    proof {
                        assert(st_of(
                            completed.deep_view(),
                            cur_row@,
                            srow as int,
                            scol as int,
                            cursor_view(cur),
                            done,
                        ) =~~= sp_advance(end_pos, rows as int));
                    }
                } else {
                    let ghost dv_before = completed.deep_view();
                    let ghost moved = cur_row@;
                    completed.push(cur_row);
                    cur_row = Vec::new();
                    proof {
                        assert(completed.deep_view() =~~= dv_before.push(moved));
                        assert(st_of(
                            completed.deep_view(),
                            cur_row@,
                            srow as int,
                            scol as int,
                            cursor_view(cur),
                            done,
                        ) =~~= sp_advance(end_pos, rows as int));
                    }
                }
            }
            proof {
                assert(st_of(
                    completed.deep_view(),
                    cur_row@,
                    srow as int,
                    scol as int,
                    cursor_view(cur),
                    done,
                ) == sp_line_full(
                    st_line0,
                    line,
                    self@.row,
                    self@.col,
                    i as int,
                    rows as int,
                    cols as int,
                ));
                assert(sp_upto(
                    self@.lines,
                    self@.row,
                    self@.col,
                    self@.row_offset,
                    i as int + 1,
                    rows as int,
                    cols as int,
                ) == sp_line_full(
                    st_line0,
                    line,
                    self@.row,
                    self@.col,
                    i as int,
                    rows as int,
                    cols as int,
                ));
            }
            i = i + 1;
        }
        let ghost dv_before = completed.deep_view();
        let ghost moved = cur_row@;
        completed.push(cur_row);
        proof {
            assert(completed.deep_view() =~~= dv_before.push(moved));
        }
        (completed, cur)
    }
}

} // verus!
