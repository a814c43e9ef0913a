//! Moving the cursor.

use vstd::prelude::*;
use crate::state::{Editor, EditorView};

verus! {

/// The lesser of two numbers.
pub open spec fn lesser(a: int, b: int) -> int {
    if a <= b {
        a
    } else {
        b
    }
}

/// The lesser of two numbers.
pub fn lesser_of(a: usize, b: usize) -> (m: usize)
    ensures
        m == lesser(a as int, b as int),
{
    if a <= b {
        a
    } else {
        b
    }
}

impl EditorView {
    /// One line up, at the same column if the line is long enough.
    pub open spec fn move_up(self) -> EditorView {
        if self.row > 0 {
            EditorView {
                row: self.row - 1,
                col: lesser(self.col, self.lines[self.row - 1].len() as int),
                top: lesser(self.top, self.row - 1),
                ..self
            }
        } else {
            self
        }
    }

    /// One line down, at the same column if the line is long enough. The
    /// screen follows by one line where the cursor would leave it.
    pub open spec fn move_down(self) -> EditorView {
        if self.row + 1 < self.lines.len() {
            EditorView {
                row: self.row + 1,
                col: lesser(self.col, self.lines[self.row + 1].len() as int),
                top: if self.row + 1 >= self.top + self.text_rows() {
                    self.top + 1
                } else {
                    self.top
                },
                ..self
            }
        } else {
            self
        }
    }

    /// One character back, over the start of the line.
    pub open spec fn move_left(self) -> EditorView {
        if self.col > 0 {
            EditorView { col: self.col - 1, ..self }
        } else if self.row > 0 {
            EditorView {
                row: self.row - 1,
                col: self.lines[self.row - 1].len() as int,
                top: lesser(self.top, self.row - 1),
                ..self
            }
        } else {
            self
        }
    }

    /// One character on, over the end of the line.
    pub open spec fn move_right(self) -> EditorView {
        if self.col < self.lines[self.row].len() {
            EditorView { col: self.col + 1, ..self }
        } else if self.row + 1 < self.lines.len() {
            EditorView {
                row: self.row + 1,
                col: 0,
                top: if self.row + 1 >= self.top + self.text_rows() {
                    self.top + 1
                } else {
                    self.top
                },
                ..self
            }
        } else {
            self
        }
    }

    /// To the start of the line.
    pub open spec fn move_home(self) -> EditorView {
        EditorView { col: 0, ..self }
    }

    /// To the end of the line.
    pub open spec fn move_end(self) -> EditorView {
        EditorView { col: self.lines[self.row].len() as int, ..self }
    }

    /// One screen up; the cursor goes to the top of the screen.
    pub open spec fn page_up(self) -> EditorView {
        let top = if self.top > self.text_rows() {
            self.top - self.text_rows()
        } else {
            0
        };
        EditorView { top, row: top, col: lesser(self.col, self.lines[top].len() as int), ..self }
    }

    /// One screen down, as far as there is text; the cursor goes to the bottom
    /// of the screen.
    pub open spec fn page_down(self) -> EditorView {
        let tr = self.text_rows();
        let max_top = if self.lines.len() > tr {
            self.lines.len() - tr
        } else {
            0
        };
        let top = lesser(self.top + tr, max_top);
        let row = lesser(top + tr - 1, self.lines.len() - 1);
        EditorView { top, row, col: lesser(self.col, self.lines[row].len() as int), ..self }
    }
}

impl Editor {
    pub fn move_up(&mut self)
        requires
            old(self)@.wf(),
        ensures
            final(self)@ == old(self)@.move_up(),
            final(self)@.wf(),
    {
        if self.row > 0 {
            self.row = self.row - 1;
            self.col = lesser_of(self.col, self.lines[self.row].len());
            if self.row < self.top {
                self.top = self.row;
            }
        }
    }

    pub fn move_down(&mut self)
        requires
            old(self)@.wf(),
            old(self)@.fits(),
        ensures
            final(self)@ == old(self)@.move_down(),
            final(self)@.wf(),
    {
        if self.row + 1 < self.lines.len() {
            self.row = self.row + 1;
            self.col = lesser_of(self.col, self.lines[self.row].len());
            if self.row >= self.top + self.text_rows() {
                self.top = self.top + 1;
            }
        }
    }

    pub fn move_left(&mut self)
        requires
            old(self)@.wf(),
        ensures
            final(self)@ == old(self)@.move_left(),
            final(self)@.wf(),
    {
        if self.col > 0 {
            self.col = self.col - 1;
        } else if self.row > 0 {
            self.row = self.row - 1;
            self.col = self.lines[self.row].len();
            if self.row < self.top {
                self.top = self.row;
            }
        }
    }

    pub fn move_right(&mut self)
        requires
            old(self)@.wf(),
            old(self)@.fits(),
        ensures
            final(self)@ == old(self)@.move_right(),
            final(self)@.wf(),
    {
        let line_len = self.lines[self.row].len();
        if self.col < line_len {
            self.col = self.col + 1;
        } else if self.row + 1 < self.lines.len() {
            self.row = self.row + 1;
            self.col = 0;
            if self.row >= self.top + self.text_rows() {
                self.top = self.top + 1;
            }
        }
    }

    pub fn move_home(&mut self)
        requires
            old(self)@.wf(),
        ensures
            final(self)@ == old(self)@.move_home(),
            final(self)@.wf(),
    {
        self.col = 0;
    }

    pub fn move_end(&mut self)
        requires
            old(self)@.wf(),
        ensures
            final(self)@ == old(self)@.move_end(),
            final(self)@.wf(),
    {
        self.col = self.lines[self.row].len();
    }

    pub fn page_up(&mut self)
        requires
            old(self)@.wf(),
        ensures
            final(self)@ == old(self)@.page_up(),
            final(self)@.wf(),
    {
        let tr = self.text_rows();
        self.top = self.top.saturating_sub(tr);
        self.row = self.top;
        self.col = lesser_of(self.col, self.lines[self.row].len());
    }

    /// With no row for text, a cursor that can go up stays above the screen.
    pub fn page_down(&mut self)
        requires
            old(self)@.wf(),
            old(self)@.fits(),
            old(self)@.top > 0 || old(self)@.text_rows() > 0,
        ensures
            final(self)@ == old(self)@.page_down(),
            final(self)@.doc_ok(),
            final(self)@.col <= final(self)@.lines[final(self)@.row].len(),
            old(self)@.text_rows() > 0 ==> final(self)@.wf(),
    {
        let tr = self.text_rows();
        let max_top = self.lines.len().saturating_sub(tr);
        self.top = lesser_of(self.top + tr, max_top);
        self.row = lesser_of(self.top + tr - 1, self.lines.len() - 1);
        self.col = lesser_of(self.col, self.lines[self.row].len());
    }
}

} // verus!
