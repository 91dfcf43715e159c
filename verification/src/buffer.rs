//! The line buffer: an ordered sequence of text lines, each an ordered
//! sequence of characters. It is never empty — an empty document is exactly
//! one empty line — and no line contains a newline character.

use vstd::prelude::*;
use crate::model::{line_ok, lines_ok, split_lines_spec, join_lines_spec};

verus! {

/// The document's text, one `Vec<char>` per line. The abstraction is a
/// `Seq<Seq<char>>`; `LineBuffer::wf` states the construction invariant.
pub struct LineBuffer {
    lines: Vec<Vec<char>>,
}

impl View for LineBuffer {
    type V = Seq<Seq<char>>;

    closed spec fn view(&self) -> Seq<Seq<char>> {
        self.lines.deep_view()
    }
}

impl LineBuffer {
    /// The buffer invariant: at least one line, and no line holds a newline.
    pub open spec fn wf(self) -> bool {
        lines_ok(self@)
    }

    /// A buffer holding exactly one empty line: the empty document.
    pub fn new_empty() -> (b: LineBuffer)
        ensures
            b.wf(),
            b@ =~~= seq![Seq::<char>::empty()],
    {
        let mut lines: Vec<Vec<char>> = Vec::new();
        lines.push(Vec::new());
        LineBuffer { lines }
    }

    /// Wraps already-split lines; the caller has established the invariant.
    pub fn from_lines(lines: Vec<Vec<char>>) -> (b: LineBuffer)
        requires
            lines_ok(lines.deep_view()),
        ensures
            b.wf(),
            b@ == lines.deep_view(),
    {
        LineBuffer { lines }
    }

    /// The number of lines.
    pub fn line_count(&self) -> (n: usize)
        ensures
            n == self@.len(),
    {
        self.lines.len()
    }

    /// The length of the line at `row`.
    pub fn line_len(&self, row: usize) -> (n: usize)
        requires
            row < self@.len(),
        ensures
            n == self@[row as int].len(),
    {
        self.lines[row].len()
    }

    /// The character at position `col` of the line at `row`.
    pub fn char_at(&self, row: usize, col: usize) -> (c: char)
        requires
            row < self@.len(),
            col < self@[row as int].len(),
        ensures
            c == self@[row as int][col as int],
    {
        self.lines[row][col]
    }

    /// A borrowed view of the line at `row`.
    pub fn line(&self, row: usize) -> (l: &Vec<char>)
        requires
            row < self@.len(),
        ensures
            l@ == self@[row as int],
    {
        &self.lines[row]
    }

    /// Cuts the line at `row` at position `col`; the suffix becomes a new
    /// line inserted immediately after `row`.
    pub fn split_line(&mut self, row: usize, col: usize)
        requires
            old(self).wf(),
            row < old(self)@.len(),
            col <= old(self)@[row as int].len(),
        ensures
            final(self).wf(),
            final(self)@ =~~= split_lines_spec(old(self)@, row as int, col as int),
            final(self)@.len() == old(self)@.len() + 1,
    {
        proof {
            assert(old(self).lines.len() == old(self)@.len());
        }
        let mut line = self.lines.remove(row);
        let rest = line.split_off(col);
        self.lines.insert(row, line);
        self.lines.insert(row + 1, rest);
        proof {
            let o = old(self)@;
            let f = self.lines.deep_view();
            assert(f =~~= split_lines_spec(o, row as int, col as int));
            let sp = split_lines_spec(o, row as int, col as int);
            assert forall|i: int| 0 <= i < sp.len() implies line_ok(#[trigger] sp[i]) by {
                if i < row {
                    assert(sp[i] == o[i]);
                } else if i == row {
                    assert(forall|j: int| 0 <= j < sp[i].len() ==> sp[i][j] == o[row as int][j]);
                } else if i == row + 1 {
                    assert(forall|j: int|
                        0 <= j < sp[i].len() ==> sp[i][j] == o[row as int][j + col]);
                } else {
                    assert(sp[i] == o[i - 1]);
                }
            }
        }
    }

    /// Removes the line at `row` and appends its contents to the line before
    /// it.
    pub fn join_line(&mut self, row: usize)
        requires
            old(self).wf(),
            0 < row < old(self)@.len(),
        ensures
            final(self).wf(),
            final(self)@ =~~= join_lines_spec(old(self)@, row as int),
            final(self)@.len() == old(self)@.len() - 1,
    {
        let mut removed = self.lines.remove(row);
        let mut prev = self.lines.remove(row - 1);
        prev.append(&mut removed);
        self.lines.insert(row - 1, prev);
        proof {
            let o = old(self)@;
            let f = self.lines.deep_view();
            let jn = join_lines_spec(o, row as int);
            assert(f =~~= jn);
            assert forall|i: int| 0 <= i < jn.len() implies line_ok(#[trigger] jn[i]) by {
                if i < row - 1 {
                    assert(jn[i] == o[i]);
                } else if i == row - 1 {
                    assert(jn[i] == o[row - 1] + o[row as int]);
                    assert(forall|j: int|
                        0 <= j < o[row - 1].len() ==> jn[i][j] == o[row - 1][j]);
                    assert(forall|j: int|
                        o[row - 1].len() <= j < jn[i].len()
                            ==> jn[i][j] == o[row as int][j - o[row - 1].len()]);
                } else {
                    assert(jn[i] == o[i + 1]);
                }
            }
        }
    }

    /// Inserts a character at position `col` of the line at `row`, shifting
    /// the rest of the line right. The caller has already excluded control
    /// characters.
    pub fn insert_char(&mut self, row: usize, col: usize, c: char)
        requires
            old(self).wf(),
            row < old(self)@.len(),
            col <= old(self)@[row as int].len(),
            c != '\n',
        ensures
            final(self).wf(),
            final(self)@ =~~= old(self)@.update(
                row as int,
                old(self)@[row as int].insert(col as int, c),
            ),
    {
        let mut line = self.lines.remove(row);
        line.insert(col, c);
        self.lines.insert(row, line);
        proof {
            let o = old(self)@;
            let f = self.lines.deep_view();
            let up = o.update(row as int, o[row as int].insert(col as int, c));
            assert(f =~~= up);
            assert forall|i: int| 0 <= i < up.len() implies line_ok(#[trigger] up[i]) by {
                if i == row {
                    assert(forall|j: int| 0 <= j < col ==> up[i][j] == o[row as int][j]);
                    assert(up[i][col as int] == c);
                    assert(forall|j: int|
                        col < j < up[i].len() ==> up[i][j] == o[row as int][j - 1]);
                } else {
                    assert(up[i] == o[i]);
                }
            }
        }
    }

    /// Removes the character at position `col - 1` of the line at `row`,
    /// shifting the rest of the line left.
    pub fn delete_char(&mut self, row: usize, col: usize)
        requires
            old(self).wf(),
            row < old(self)@.len(),
            0 < col <= old(self)@[row as int].len(),
        ensures
            final(self).wf(),
            final(self)@ =~~= old(self)@.update(
                row as int,
                old(self)@[row as int].remove(col - 1),
            ),
    {
        let mut line = self.lines.remove(row);
        line.remove(col - 1);
        self.lines.insert(row, line);
        proof {
            let o = old(self)@;
            let f = self.lines.deep_view();
            let up = o.update(row as int, o[row as int].remove(col - 1));
            assert(f =~~= up);
            assert forall|i: int| 0 <= i < up.len() implies line_ok(#[trigger] up[i]) by {
                if i == row {
                    assert(forall|j: int| 0 <= j < col - 1 ==> up[i][j] == o[row as int][j]);
                    assert(forall|j: int|
                        col - 1 <= j < up[i].len() ==> up[i][j] == o[row as int][j + 1]);
                } else {
                    assert(up[i] == o[i]);
                }
            }
        }
    }
}

} // verus!
