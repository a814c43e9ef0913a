//! Changing the text at the cursor.

use vstd::prelude::*;
use crate::state::{Editor, EditorView};
use crate::text::{break_line, insert_in_line, join_next, remove_char};

verus! {

impl EditorView {
    /// The line of the cursor.
    pub open spec fn line(self) -> Seq<char> {
        self.lines[self.row]
    }

    /// A character is inserted before the cursor.
    pub open spec fn insert_char(self, ch: char) -> EditorView {
        EditorView {
            lines: self.lines.update(self.row, self.line().insert(self.col, ch)),
            col: self.col + 1,
            selection: None,
            modified: true,
            ..self.push_undo()
        }
    }

    /// The line is broken at the cursor, which goes to the new line. The screen
    /// follows by one line where the cursor would leave it.
    pub open spec fn insert_newline(self) -> EditorView {
        EditorView {
            lines: self.lines.update(self.row, self.line().take(self.col)).insert(
                self.row + 1,
                self.line().skip(self.col),
            ),
            row: self.row + 1,
            col: 0,
            top: if self.row + 1 >= self.top + self.text_rows() {
                self.top + 1
            } else {
                self.top
            },
            selection: None,
            modified: true,
            ..self.push_undo()
        }
    }

    /// The character before the cursor goes; at the start of a line, the line
    /// is joined to the one above.
    pub open spec fn backspace(self) -> EditorView {
        if self.col > 0 {
            EditorView {
                lines: self.lines.update(self.row, self.line().remove(self.col - 1)),
                col: self.col - 1,
                selection: None,
                modified: true,
                ..self.push_undo()
            }
        } else if self.row > 0 {
            let above = self.lines[self.row - 1];
            EditorView {
                lines: self.lines.remove(self.row).update(self.row - 1, above + self.line()),
                row: self.row - 1,
                col: above.len() as int,
                top: if self.top > self.row - 1 {
                    self.row - 1
                } else {
                    self.top
                },
                selection: None,
                modified: true,
                ..self.push_undo()
            }
        } else {
            EditorView { selection: None, ..self }
        }
    }

    /// The character at the cursor goes; at the end of a line, the next line is
    /// joined to it.
    pub open spec fn delete(self) -> EditorView {
        if self.col < self.line().len() {
            EditorView {
                lines: self.lines.update(self.row, self.line().remove(self.col)),
                selection: None,
                modified: true,
                ..self.push_undo()
            }
        } else if self.row + 1 < self.lines.len() {
            EditorView {
                lines: self.lines.remove(self.row + 1).update(
                    self.row,
                    self.line() + self.lines[self.row + 1],
                ),
                selection: None,
                modified: true,
                ..self.push_undo()
            }
        } else {
            EditorView { selection: None, ..self }
        }
    }
}

impl Editor {
    /// Inserts a character before the cursor.
    pub fn insert_char(&mut self, ch: char)
        requires
            old(self)@.wf(),
            old(self)@.fits(),
        ensures
            final(self)@ == old(self)@.insert_char(ch),
            final(self)@.wf(),
    {
        let ghost start = self@;
        self.selection = None;
        self.push_undo();
        insert_in_line(&mut self.lines, self.row, self.col, ch);
        self.col = self.col + 1;
        self.modified = true;
        assert(self@ =~= start.insert_char(ch));
    }

    /// Inserts a tab before the cursor.
    pub fn insert_tab(&mut self)
        requires
            old(self)@.wf(),
            old(self)@.fits(),
        ensures
            final(self)@ == old(self)@.insert_char('\t'),
            final(self)@.wf(),
    {
        self.insert_char('\t');
    }

    /// Breaks the line at the cursor.
    pub fn insert_newline(&mut self)
        requires
            old(self)@.wf(),
            old(self)@.fits(),
        ensures
            final(self)@ == old(self)@.insert_newline(),
            final(self)@.wf(),
    {
        let ghost start = self@;
        self.selection = None;
        self.push_undo();
        break_line(&mut self.lines, self.row, self.col);
        self.row = self.row + 1;
        self.col = 0;
        self.modified = true;
        if self.row >= self.top + self.text_rows() {
            self.top = self.top + 1;
        }
        assert(self@ =~= start.insert_newline());
    }

    /// Deletes the character before the cursor.
    pub fn backspace(&mut self)
        requires
            old(self)@.wf(),
            old(self)@.fits(),
        ensures
            final(self)@ == old(self)@.backspace(),
            final(self)@.wf(),
    {
        let ghost start = self@;
        self.selection = None;
        if self.col > 0 || self.row > 0 {
            self.push_undo();
        }
        if self.col > 0 {
            self.col = self.col - 1;
            remove_char(&mut self.lines, self.row, self.col);
            self.modified = true;
        } else if self.row > 0 {
            self.row = self.row - 1;
            self.col = self.lines[self.row].len();
            join_next(&mut self.lines, self.row);
            self.modified = true;
            if self.top > self.row {
                self.top = self.row;
            }
        }
        assert(self@ =~= start.backspace());
    }

    /// Deletes the character at the cursor.
    pub fn delete(&mut self)
        requires
            old(self)@.wf(),
            old(self)@.fits(),
        ensures
            final(self)@ == old(self)@.delete(),
            final(self)@.wf(),
    {
        let ghost start = self@;
        self.selection = None;
        let line_len = self.lines[self.row].len();
        let count = self.lines.len();
        if self.col < line_len || self.row + 1 < count {
            self.push_undo();
            let ghost mid = EditorView { selection: None, ..start.push_undo() };
            assert(self@ == mid);
            if self.col < line_len {
                remove_char(&mut self.lines, self.row, self.col);
            } else {
                join_next(&mut self.lines, self.row);
            }
            self.modified = true;
            assert(self@.wf());
        }
    }
}

} // verus!
