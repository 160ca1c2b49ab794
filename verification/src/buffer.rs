//! The multi-line command buffer and its two-dimensional cursor. Edits are
//! applied at the cursor; the cursor always stays on a line of the buffer
//! and within that line's length. Every mutation marks the buffer dirty so
//! the next wait redraws it.

use vstd::prelude::*;
use crate::text::push_char;
use vstd::pervasive::VecAdditionalExecFns;
use vstd::string::StrSliceExecFns;

verus! {

/// The character rows of a sequence of lines.
pub open spec fn views_of(s: Seq<String>) -> Seq<Seq<char>> {
    s.map_values(|t: String| t@)
}

/// The abstract state of a command buffer: its lines and the cursor's
/// column and row.
pub struct BufView {
    pub lines: Seq<Seq<char>>,
    pub col: int,
    pub row: int,
}

impl BufView {
    /// At least one line; the cursor on a line and within it.
    pub open spec fn wf(self) -> bool {
        &&& self.lines.len() >= 1
        &&& 0 <= self.row < self.lines.len()
        &&& 0 <= self.col <= self.lines[self.row].len()
    }

    /// The cursor's line.
    pub open spec fn cur_line(self) -> Seq<char> {
        self.lines[self.row]
    }

    /// Split the cursor's line at the cursor; the cursor moves to the start
    /// of the new line.
    pub open spec fn insert_break(self) -> BufView {
        let l = self.cur_line();
        BufView {
            lines: self.lines.update(self.row, l.subrange(0, self.col)).insert(
                self.row + 1,
                l.subrange(self.col, l.len() as int),
            ),
            col: 0,
            row: self.row + 1,
        }
    }

    /// Insert one character at the cursor; the cursor moves past it.
    pub open spec fn insert_at(self, c: char) -> BufView {
        BufView {
            lines: self.lines.update(self.row, self.cur_line().insert(self.col, c)),
            col: self.col + 1,
            row: self.row,
        }
    }

    /// What typing `c` does: a carriage return is ignored, a line feed
    /// splits the line, anything else is inserted.
    pub open spec fn apply_char(self, c: char) -> BufView {
        if c == '\r' {
            self
        } else if c == '\n' {
            self.insert_break()
        } else {
            self.insert_at(c)
        }
    }

    /// Delete leftward: remove the character left of the cursor, or join
    /// this line onto the previous one at the start of a line, or nothing
    /// at the start of the buffer.
    pub open spec fn delete_backward(self) -> BufView {
        if self.col > 0 {
            BufView {
                lines: self.lines.update(self.row, self.cur_line().remove(self.col - 1)),
                col: self.col - 1,
                row: self.row,
            }
        } else if self.row > 0 {
            let prev = self.lines[self.row - 1];
            BufView {
                lines: self.lines.update(self.row - 1, prev + self.cur_line()).remove(self.row),
                col: prev.len() as int,
                row: self.row - 1,
            }
        } else {
            self
        }
    }

    /// The column clamped to the length of the line at `row`.
    pub open spec fn clamped_col(self, row: int) -> int {
        if self.col <= self.lines[row].len() {
            self.col
        } else {
            self.lines[row].len() as int
        }
    }

    /// One column leftward, stopping at the start of the line.
    pub open spec fn move_left(self) -> BufView {
        if self.col > 0 {
            BufView { col: self.col - 1, ..self }
        } else {
            self
        }
    }

    /// One column rightward; at the end of a line, wrap to the start of the
    /// next line only when asked to.
    pub open spec fn move_right(self, wrapping: bool) -> BufView {
        if self.col < self.cur_line().len() {
            BufView { col: self.col + 1, ..self }
        } else if wrapping && self.row < self.lines.len() - 1 {
            BufView { col: 0, row: self.row + 1, ..self }
        } else {
            self
        }
    }

    /// One line upward, the column clamped to the target line.
    pub open spec fn move_up(self) -> BufView {
        if self.row > 0 {
            BufView { col: self.clamped_col(self.row - 1), row: self.row - 1, ..self }
        } else {
            self
        }
    }

    /// One line downward, the column clamped to the target line.
    pub open spec fn move_down(self) -> BufView {
        if self.row < self.lines.len() - 1 {
            BufView { col: self.clamped_col(self.row + 1), row: self.row + 1, ..self }
        } else {
            self
        }
    }
}

/// The lines joined with a line feed between them.
pub open spec fn joined(lines: Seq<Seq<char>>) -> Seq<char>
    decreases lines.len(),
{
    if lines.len() == 0 {
        Seq::empty()
    } else if lines.len() == 1 {
        lines[0]
    } else {
        joined(lines.drop_last()) + seq!['\n'] + lines.last()
    }
}

/// The command under edit: its text lines, the cursor as (column, row) in
/// characters, and whether the screen is stale.
pub struct Command {
    pub cmd: Vec<String>,
    pub cursor: (usize, usize),
    pub redraw: bool,
}

impl View for Command {
    type V = BufView;

    open spec fn view(&self) -> BufView {
        BufView { lines: views_of(self.cmd@), col: self.cursor.0 as int, row: self.cursor.1 as int }
    }
}

impl Command {
    /// A fresh buffer: one empty line, cursor at its start, needing a draw.
    pub fn new() -> (r: Self)
        ensures
            r@.lines =~= seq![Seq::<char>::empty()],
            r@.col == 0,
            r@.row == 0,
            r@.wf(),
            r.redraw,
    {
        let mut cmd: Vec<String> = Vec::new();
        cmd.push(String::new());
        let r = Command { cmd, cursor: (0, 0), redraw: true };
        proof {
            assert(r@.lines =~= seq![Seq::<char>::empty()]);
        }
        r
    }

    /// Whether the buffer changed since it was last drawn.
    pub fn needs_redraw(&self) -> (r: bool)
        ensures
            r == self.redraw,
    {
        self.redraw
    }

    /// Record that the screen must be redrawn, as after an evaluation error
    /// moved the anchor.
    pub fn mark_dirty(&mut self)
        ensures
            final(self)@ == old(self)@,
            final(self).redraw,
    {
        self.redraw = true;
    }

    /// Record that the buffer was just drawn.
    pub fn mark_drawn(&mut self)
        ensures
            final(self)@ == old(self)@,
            !final(self).redraw,
    {
        self.redraw = false;
    }

    /// The buffer's text: its lines joined with line feeds.
    pub fn code(&self) -> (r: String)
        requires
            self@.wf(),
        ensures
            r@ == joined(self@.lines),
    {
        let mut r = String::new();
        let mut i: usize = 0;
        while i < self.cmd.len()
            invariant
                i <= self.cmd@.len(),
                r@ == joined(self@.lines.subrange(0, i as int)),
            decreases self.cmd@.len() - i,
        {
            if i > 0 {
                push_char(&mut r, '\n');
            }
            r.append(self.cmd[i].as_str());
            i = i + 1;
            proof {
                let pfx = self@.lines.subrange(0, i as int);
                assert(pfx.drop_last() =~= self@.lines.subrange(0, i - 1));
                assert(pfx.last() == self@.lines[i - 1]);
            }
        }
        proof {
            assert(self@.lines.subrange(0, self.cmd@.len() as int) =~= self@.lines);
        }
        r
    }

    /// Type one character at the cursor. A line feed splits the line; a
    /// carriage return is ignored; anything else is inserted.
    pub fn add_char(&mut self, c: char)
        requires
            old(self)@.wf(),
            c != '\n' && c != '\r' ==> old(self)@.cur_line().len() < usize::MAX,
        ensures
            final(self)@ == old(self)@.apply_char(c),
            final(self)@.wf(),
            final(self).redraw,
    {
        let row = self.cursor.1;
        let col = self.cursor.0;
        if c == '\r' {
            // Ignored, as a terminal's Enter may send it before the line feed.
        } else if c == '\n' {
            let nrows = self.cmd.len();
            proof {
                assert(row < nrows);
            }
            let n = self.cmd[row].as_str().unicode_len();
            let prefix = self.cmd[row].as_str().substring_char(0, col).to_owned();
            let suffix = self.cmd[row].as_str().substring_char(col, n).to_owned();
            self.cmd.set(row, prefix);
            self.cmd.insert(row + 1, suffix);
            self.cursor = (0, row + 1);
            proof {
                assert(self@.lines =~= old(self)@.insert_break().lines);
            }
        } else {
            let n = self.cmd[row].as_str().unicode_len();
            let mut s = self.cmd[row].as_str().substring_char(0, col).to_owned();
            push_char(&mut s, c);
            s.append(self.cmd[row].as_str().substring_char(col, n));
            self.cmd.set(row, s);
            self.cursor = (col + 1, row);
            proof {
                assert(s@ =~= old(self)@.cur_line().insert(col as int, c));
                assert(self@.lines =~= old(self)@.insert_at(c).lines);
            }
        }
        self.redraw = true;
    }

    /// Delete leftward from the cursor; see [`BufView::delete_backward`].
    pub fn remove_char(&mut self)
        requires
            old(self)@.wf(),
        ensures
            final(self)@ == old(self)@.delete_backward(),
            final(self)@.wf(),
            final(self).redraw == (old(self).redraw || old(self)@.col > 0 || old(self)@.row > 0),
    {
        let row = self.cursor.1;
        let col = self.cursor.0;
        if col > 0 {
            let n = self.cmd[row].as_str().unicode_len();
            let mut s = self.cmd[row].as_str().substring_char(0, col - 1).to_owned();
            s.append(self.cmd[row].as_str().substring_char(col, n));
            self.cmd.set(row, s);
            self.cursor = (col - 1, row);
            self.redraw = true;
            proof {
                assert(s@ =~= old(self)@.cur_line().remove(col - 1));
                assert(self@.lines =~= old(self)@.delete_backward().lines);
            }
        } else if row > 0 {
            let cur = self.cmd.remove(row);
            let prevlen = self.cmd[row - 1].as_str().unicode_len();
            let mut joined_line = self.cmd[row - 1].clone();
            joined_line.append(cur.as_str());
            self.cmd.set(row - 1, joined_line);
            self.cursor = (prevlen, row - 1);
            self.redraw = true;
            proof {
                assert(self@.lines =~= old(self)@.delete_backward().lines);
            }
        } else {
            // Start of the buffer: nothing to delete.
        }
    }

    /// One column leftward; reports whether the cursor moved.
    pub fn left(&mut self) -> (r: bool)
        requires
            old(self)@.wf(),
        ensures
            final(self)@ == old(self)@.move_left(),
            final(self)@.wf(),
            r == (old(self)@.col > 0),
            final(self).redraw == (old(self).redraw || r),
    {
        if self.cursor.0 == 0 {
            false
        } else {
            self.cursor = (self.cursor.0 - 1, self.cursor.1);
            self.redraw = true;
            true
        }
    }

    /// One column rightward, wrapping to the next line's start only when
    /// `wrapping` is set; reports whether the cursor moved.
    pub fn right(&mut self, wrapping: bool) -> (r: bool)
        requires
            old(self)@.wf(),
        ensures
            final(self)@ == old(self)@.move_right(wrapping),
            final(self)@.wf(),
            r == (old(self)@.col < old(self)@.cur_line().len() || (wrapping && old(self)@.row < old(
                self,
            )@.lines.len() - 1)),
            final(self).redraw == (old(self).redraw || r),
    {
        let row = self.cursor.1;
        let n = self.cmd[row].as_str().unicode_len();
        if self.cursor.0 < n {
            self.cursor = (self.cursor.0 + 1, row);
            self.redraw = true;
            true
        } else if wrapping && row < self.cmd.len() - 1 {
            self.cursor = (0, row + 1);
            self.redraw = true;
            true
        } else {
            false
        }
    }

    /// One line upward, the column clamped to the target line; reports
    /// whether the cursor moved.
    pub fn up(&mut self) -> (r: bool)
        requires
            old(self)@.wf(),
        ensures
            final(self)@ == old(self)@.move_up(),
            final(self)@.wf(),
            r == (old(self)@.row > 0),
            final(self).redraw == (old(self).redraw || r),
    {
        if self.cursor.1 == 0 {
            false
        } else {
            let row = self.cursor.1 - 1;
            let n = self.cmd[row].as_str().unicode_len();
            let col = if self.cursor.0 < n {
                self.cursor.0
            } else {
                n
            };
            self.cursor = (col, row);
            self.redraw = true;
            true
        }
    }

    /// One line downward, the column clamped to the target line; reports
    /// whether the cursor moved.
    pub fn down(&mut self) -> (r: bool)
        requires
            old(self)@.wf(),
        ensures
            final(self)@ == old(self)@.move_down(),
            final(self)@.wf(),
            r == (old(self)@.row < old(self)@.lines.len() - 1),
            final(self).redraw == (old(self).redraw || r),
    {
        if self.cursor.1 < self.cmd.len() - 1 {
            let row = self.cursor.1 + 1;
            let n = self.cmd[row].as_str().unicode_len();
            let col = if self.cursor.0 < n {
                self.cursor.0
            } else {
                n
            };
            self.cursor = (col, row);
            self.redraw = true;
            true
        } else {
            false
        }
    }
}

impl Default for Command {
    /// Same as [`Command::new`].
    fn default() -> (r: Self)
        ensures
            r@.lines =~= seq![Seq::<char>::empty()],
            r@.col == 0,
            r@.row == 0,
            r@.wf(),
            r.redraw,
    {
        Command::new()
    }
}

/// Splitting a line at the cursor and deleting backward restores the
/// buffer: the lines and the cursor end exactly where they began.
pub proof fn lemma_break_then_delete_restores(b: BufView)
    requires
        b.wf(),
    ensures
        b.apply_char('\n').delete_backward().lines =~~= b.lines,
        b.apply_char('\n').delete_backward().col == b.col,
        b.apply_char('\n').delete_backward().row == b.row,
{
    let l = b.cur_line();
    let pre = l.subrange(0, b.col);
    let suf = l.subrange(b.col, l.len() as int);
    let b1 = b.apply_char('\n');
    assert(b1 == b.insert_break());
    assert(b1.lines[b.row] == pre);
    assert(b1.lines[b.row + 1] == suf);
    let b2 = b1.delete_backward();
    assert(pre + suf =~= l);
    assert(b2.lines =~~= b.lines);
    assert(b2.col == b.col);
    assert(b2.row == b.row);
}

} // verus!
