//! What the terminal shows.

use vstd::prelude::*;
use vstd::string::{StrSliceExecFns, StringExecFns};
use vstd::utf8::encode_utf8;
use crate::draw::{begin_row, blanks, put_blanks, put_text, puts, start_row, Draw};
use crate::layout::{cell_count, cells};
use crate::message::{decimal, push_number};
use crate::screen::lemma_rows_fit;
use crate::state::{Editor, EditorView, Prompt, PromptView, ReplaceStep, HELP_ROWS};
use crate::text::{chars_of, push_chars, rows};

verus! {

// ── Help panel ───────────────────────────────────────────────────────────

/// The lines of the help panel.
pub open spec fn help_text(i: int) -> Seq<char> {
    if i == 0 {
        "─── Help (Ctrl+H to close) ──────────────────────────────────────────"@
    } else if i == 1 {
        " Ctrl+S: Save / Ctrl+W: Save As / Ctrl+Z: Undo / Ctrl+A: Select All"@
    } else if i == 2 {
        " Ctrl+C: Start & end copy selection / Ctrl+V: Paste"@
    } else if i == 3 {
        " Ctrl+X: Start & end cut  selection / Esc: Cancel selection"@
    } else if i == 4 {
        " Tab: Insert tab (>) / Ctrl+E: Change encoding (UTF8,SJIS,EUC)"@
    } else if i == 5 {
        " Ctrl+F: Search / Ctrl+R: Replace all / Ctrl+B: Toggle word wrap"@
    } else if i == 6 {
        " Ctrl+Q: Quit / Ctrl+H: Toggle this help"@
    } else {
        " Arrow keys / Home / End / PageUp / PageDown: Move cursor"@
    }
}

/// The first `n` rows of the help panel, below `first` rows of text.
pub open spec fn help_rows(first: int, n: int) -> Seq<Draw>
    decreases n,
{
    if n <= 0 {
        Seq::empty()
    } else {
        help_rows(first, n - 1) + start_row(first + n - 1) + seq![Draw::Dim] + puts(
            help_text(n - 1),
        ) + seq![Draw::ResetAttributes]
    }
}

fn help_line(i: usize) -> (text: &'static str)
    requires
        i < HELP_ROWS,
    ensures
        text@ == help_text(i as int),
{
    if i == 0 {
        "─── Help (Ctrl+H to close) ──────────────────────────────────────────"
    } else if i == 1 {
        " Ctrl+S: Save / Ctrl+W: Save As / Ctrl+Z: Undo / Ctrl+A: Select All"
    } else if i == 2 {
        " Ctrl+C: Start & end copy selection / Ctrl+V: Paste"
    } else if i == 3 {
        " Ctrl+X: Start & end cut  selection / Esc: Cancel selection"
    } else if i == 4 {
        " Tab: Insert tab (>) / Ctrl+E: Change encoding (UTF8,SJIS,EUC)"
    } else if i == 5 {
        " Ctrl+F: Search / Ctrl+R: Replace all / Ctrl+B: Toggle word wrap"
    } else if i == 6 {
        " Ctrl+Q: Quit / Ctrl+H: Toggle this help"
    } else {
        " Arrow keys / Home / End / PageUp / PageDown: Move cursor"
    }
}

// ── Status bar ───────────────────────────────────────────────────────────

/// A text moved to the right end of a field.
pub open spec fn right_aligned(text: Seq<char>, width: int) -> Seq<char> {
    if text.len() < width {
        blanks((width - text.len()) as nat) + text
    } else {
        text
    }
}

/// A text followed by blanks up to a width.
pub open spec fn left_aligned(text: Seq<char>, width: int) -> Seq<char> {
    if text.len() < width {
        text + blanks((width - text.len()) as nat)
    } else {
        text
    }
}

impl EditorView {
    /// File name, mark of unsaved changes, encoding and line ending.
    pub open spec fn status_left(self) -> Seq<char> {
        let name = match self.path {
            Some(path) => path.name,
            None => "[New File]"@,
        };
        let dirty = if self.modified {
            " [+]"@
        } else {
            ""@
        };
        " "@ + name + dirty + "  "@ + self.file_encoding.label_text() + "  "@
            + self.line_ending.label_text()
    }

    /// The position of the cursor, counted from one.
    pub open spec fn status_pos(self) -> Seq<char> {
        " "@ + decimal((self.row + 1) as nat) + ":"@ + decimal((self.col + 1) as nat) + " "@
    }

    /// The columns that the position is moved to the right in.
    pub open spec fn status_pad(self) -> int {
        let bytes = encode_utf8(self.status_left()).len() + encode_utf8(self.status_pos()).len();
        if bytes < self.term_cols {
            self.term_cols - bytes
        } else {
            0
        }
    }

    /// The text of the status bar.
    pub open spec fn status_line(self) -> Seq<char> {
        left_aligned(
            self.status_left() + right_aligned(self.status_pos(), self.status_pad()),
            self.term_cols,
        )
    }

    /// The help panel, if it is shown.
    pub open spec fn help_panel(self) -> Seq<Draw> {
        if self.show_help {
            help_rows(self.text_rows(), HELP_ROWS as int)
        } else {
            Seq::empty()
        }
    }

    /// The status bar and, below it, the message bar.
    pub open spec fn bars(self) -> Seq<Draw> {
        start_row(self.term_rows - 2) + seq![Draw::Reverse] + puts(self.status_line())
            + seq![Draw::ResetAttributes] + start_row(self.term_rows - 1) + puts(self.status)
    }
}

// ── Cursor ───────────────────────────────────────────────────────────────

/// The columns of a text that holds no tabs.
pub open spec fn width(text: Seq<char>) -> nat
    decreases text.len(),
{
    if text.len() == 0 {
        0
    } else {
        width(text.drop_last()) + cells(text.last())
    }
}

impl PromptView {
    /// The column of the cursor in an input field; for a prompt without one,
    /// none.
    pub open spec fn field_col(self) -> Option<nat> {
        match self {
            PromptView::SaveAs { buf, cur } => Some(
                encode_utf8("Save as: "@).len() + width(buf.take(cur)),
            ),
            PromptView::Search { buf, cur } => Some(
                encode_utf8("Search: "@).len() + width(buf.take(cur)),
            ),
            PromptView::Replace { search_buf, replace_buf, search_cur, replace_cur, step } =>
                match step {
                ReplaceStep::SearchInput => Some(
                    encode_utf8("Replace — Search: "@).len() + width(search_buf.take(search_cur)),
                ),
                ReplaceStep::ReplaceInput => Some(
                    width("Replace \""@ + search_buf + "\" with: "@) + width(
                        replace_buf.take(replace_cur),
                    ),
                ),
            },
            _ => None,
        }
    }
}

impl EditorView {
    /// Row and column of the cursor in the text on the screen.
    pub open spec fn text_cursor(self) -> (int, int) {
        if self.word_wrap {
            let at = self.wrap_cursor();
            ((self.heights(self.top, self.row) + at.0) as int, at.1 as int)
        } else {
            let x = self.cursor_col() as int;
            (
                self.row - self.top,
                if x > self.left {
                    x - self.left
                } else {
                    0
                },
            )
        }
    }

    /// Moving the cursor to the input field or to the text, as a terminal
    /// counts its columns and rows.
    pub open spec fn place_cursor(self) -> Draw {
        match self.prompt.field_col() {
            Some(col) => Draw::MoveTo { col: col as u16, row: (self.term_rows - 1) as u16 },
            None => {
                let at = self.text_cursor();
                Draw::MoveTo { col: (at.1 % 0x1_0000) as u16, row: (at.0 % 0x1_0000) as u16 }
            },
        }
    }

    /// Everything on the screen.
    pub open spec fn frame(self) -> Seq<Draw> {
        seq![Draw::HideCursor] + self.text_area() + self.help_panel() + self.bars() + seq![
            self.place_cursor(),
            Draw::ShowCursor,
        ]
    }

    /// Whether there is room for the bars, and the cursor stands where the
    /// screen can show it.
    pub open spec fn renderable(self) -> bool {
        &&& 0 <= self.row < self.lines.len()
        &&& self.fits()
        &&& self.prompt.ok()
        &&& self.term_rows >= 2
        &&& 0 <= self.col < usize::MAX
        &&& self.word_wrap || self.top + self.text_rows() <= usize::MAX
        &&& match self.prompt.field_col() {
            Some(col) => col <= u16::MAX,
            None => {
                &&& self.col <= self.lines[self.row].len()
                &&& self.word_wrap || self.top <= self.row
            },
        }
    }
}

/// The columns of the first `n` characters of a text without tabs, counted no
/// further than one above the largest column.
fn width_before(text: &Vec<char>, n: usize) -> (w: u32)
    requires
        n <= text@.len(),
    ensures
        w <= 0x1_0000,
        w == width(text@.take(n as int)) || (w == 0x1_0000 && width(text@.take(n as int)) >= w),
{
    let mut w: u32 = 0;
    let mut i: usize = 0;
    while i < n
        invariant
            i <= n <= text@.len(),
            w <= 0x1_0000,
            w == width(text@.take(i as int)) || (w == 0x1_0000 && width(text@.take(i as int))
                >= w),
        decreases n - i,
    {
        assert(text@.take(i + 1).drop_last() =~= text@.take(i as int));
        let next = w + cell_count(text[i]) as u32;
        w = if next <= 0x1_0000 {
            next
        } else {
            0x1_0000
        };
        i = i + 1;
    }
    w
}

/// A sum, counted no further than one above the largest column.
fn capped_sum(a: usize, b: u32) -> (sum: u32)
    requires
        b <= 0x1_0000,
    ensures
        sum <= 0x1_0000,
        sum == a + b || (sum == 0x1_0000 && a + b >= sum),
{
    if a > 0x1_0000 || a as u32 + b > 0x1_0000 {
        0x1_0000
    } else {
        a as u32 + b
    }
}

impl Prompt {
    /// The column of the cursor in an input field, counted no further than one
    /// above the largest column.
    fn field_col(&self) -> (col: Option<u32>)
        requires
            self@.ok(),
        ensures
            match self@.field_col() {
                Some(c) => col is Some && (col->Some_0 == c || (col->Some_0 == 0x1_0000 && c
                    >= 0x1_0000)),
                None => col is None,
            },
    {
        match self {
            Prompt::SaveAs { buf, cur } => Some(
                capped_sum("Save as: ".as_bytes().len(), width_before(buf, *cur)),
            ),
            Prompt::Search { buf, cur } => Some(
                capped_sum("Search: ".as_bytes().len(), width_before(buf, *cur)),
            ),
            Prompt::Replace { search_buf, replace_buf, search_cur, replace_cur, step } => match step {
                ReplaceStep::SearchInput => Some(
                    capped_sum(
                        "Replace — Search: ".as_bytes().len(),
                        width_before(search_buf, *search_cur),
                    ),
                ),
                ReplaceStep::ReplaceInput => {
                    let mut prefix = "Replace \"".to_owned();
                    push_chars(&mut prefix, search_buf);
                    prefix.append("\" with: ");
                    let chars = chars_of(prefix.as_str());
                    let prefix_w = width_before(&chars, chars.len());
                    assert(chars@.take(chars@.len() as int) =~= chars@);
                    Some(capped_sum(prefix_w as usize, width_before(replace_buf, *replace_cur)))
                },
            },
            _ => None,
        }
    }
}

impl Editor {
    /// Whether the screen can be shown.
    pub fn can_render(&self) -> (ok: bool)
        requires
            self@.prompt.ok(),
        ensures
            ok == self@.renderable(),
    {
        if self.row >= self.lines.len() || !self.fits() || self.term_rows < 2 || self.col
            == usize::MAX {
            return false;
        }
        if !self.word_wrap && self.top > usize::MAX - self.text_rows() {
            return false;
        }
        match self.prompt.field_col() {
            Some(col) => col <= 0xffff,
            None => self.col <= self.lines[self.row].len() && (self.word_wrap || self.top
                <= self.row),
        }
    }

    /// The help panel.
    fn draw_help(&self, out: &mut Vec<Draw>)
        ensures
            final(out)@ == old(out)@ + self@.help_panel(),
    {
        if !self.show_help {
            return ;
        }
        let ghost start = out@;
        let first = self.text_rows();
        let mut i: usize = 0;
        while i < HELP_ROWS
            invariant
                i <= HELP_ROWS,
                first == self@.text_rows(),
                first + HELP_ROWS <= u16::MAX,
                out@ == start + help_rows(first as int, i as int),
            decreases HELP_ROWS - i,
        {
            begin_row(out, (first + i) as u16);
            out.push(Draw::Dim);
            put_text(out, help_line(i));
            out.push(Draw::ResetAttributes);
            i = i + 1;
            assert(out@ =~= start + help_rows(first as int, i as int));
        }
    }

    /// The left part of the status bar.
    fn status_left(&self) -> (text: String)
        ensures
            text@ == self@.status_left(),
    {
        let mut text = " ".to_owned();
        match &self.path {
            Some(path) => text.append(path.name.as_str()),
            None => text.append("[New File]"),
        }
        text.append(
            if self.modified {
                " [+]"
            } else {
                ""
            },
        );
        text.append("  ");
        text.append(self.file_encoding.label());
        text.append("  ");
        text.append(self.line_ending.label());
        text
    }

    /// The position of the cursor, counted from one.
    fn status_pos(&self) -> (text: String)
        requires
            self@.row < usize::MAX,
            self@.col < usize::MAX,
        ensures
            text@ == self@.status_pos(),
    {
        let mut text = " ".to_owned();
        push_number(&mut text, (self.row + 1) as u64);
        text.append(":");
        push_number(&mut text, (self.col + 1) as u64);
        text.append(" ");
        text
    }

    /// The status bar and the message bar.
    fn draw_bars(&self, out: &mut Vec<Draw>)
        requires
            self@.term_rows >= 2,
            self@.row < usize::MAX,
            self@.col < usize::MAX,
        ensures
            final(out)@ == old(out)@ + self@.bars(),
    {
        let ghost start = out@;
        let cols = self.term_cols as usize;
        let left = self.status_left();
        let pos = self.status_pos();
        let pad = match left.as_str().as_bytes().len().checked_add(
            pos.as_str().as_bytes().len(),
        ) {
            Some(bytes) => cols.saturating_sub(bytes),
            None => 0,
        };
        assert(pad == self@.status_pad());
        begin_row(out, self.term_rows - 2);
        out.push(Draw::Reverse);
        put_status(out, left.as_str(), pos.as_str(), pad, cols);
        out.push(Draw::ResetAttributes);
        begin_row(out, self.term_rows - 1);
        put_text(out, self.status.as_str());
        assert(out@ =~= start + self@.bars());
    }
}

/// Writes the text of the status bar.
fn put_status(out: &mut Vec<Draw>, left: &str, pos: &str, pad: usize, cols: usize)
    ensures
        final(out)@ == old(out)@ + puts(
            left_aligned(left@ + right_aligned(pos@, pad as int), cols as int),
        ),
{
    let ghost start = out@;
    let ghost goal = left_aligned(left@ + right_aligned(pos@, pad as int), cols as int);
    let from = out.len();
    put_text(out, left);
    let pos_len = pos.unicode_len();
    if pos_len < pad {
        put_blanks(out, pad - pos_len);
    }
    put_text(out, pos);
    let len = out.len() - from;
    assert(len == (left@ + right_aligned(pos@, pad as int)).len());
    if len < cols {
        put_blanks(out, cols - len);
    }
    assert(out@ =~= start + puts(goal));
}

impl Editor {
    /// Row and column of the cursor in the text on the screen, as a terminal
    /// counts them.
    fn text_cursor(&self) -> (at: (u16, u16))
        requires
            self@.fits(),
            self@.row < self@.lines.len(),
            self@.col <= self@.lines[self@.row].len(),
            self@.word_wrap || self@.top <= self@.row,
        ensures
            at.0 == self@.text_cursor().0 % 0x1_0000,
            at.1 == self@.text_cursor().1 % 0x1_0000,
    {
        let row: usize;
        let col: usize;
        if self.word_wrap {
            let rows_before = self.rows_before_cursor();
            let (vis_row, vis_col) = self.wrap_render_pos(self.row, self.col);
            proof {
                if self@.top <= self@.row {
                    lemma_rows_fit(self@, self@.top);
                } else {
                    lemma_rows_fit(self@, self@.row);
                }
            }
            row = rows_before + vis_row;
            col = vis_col;
        } else {
            row = self.row - self.top;
            col = (self.display_col(self.row, self.col) as usize).saturating_sub(self.left);
        }
        assert(row as u16 == row % 0x1_0000) by (bit_vector);
        assert(col as u16 == col % 0x1_0000) by (bit_vector);
        (row as u16, col as u16)
    }

    /// What the terminal has to do to show the editor.
    pub fn render(&self) -> (out: Vec<Draw>)
        requires
            self@.renderable(),
        ensures
            out@ == self@.frame(),
    {
        let mut out: Vec<Draw> = Vec::new();
        out.push(Draw::HideCursor);
        self.paint_text(&mut out);
        self.draw_help(&mut out);
        self.draw_bars(&mut out);
        match self.prompt.field_col() {
            Some(col) => {
                out.push(Draw::MoveTo { col: col as u16, row: self.term_rows - 1 });
            },
            None => {
                let (row, col) = self.text_cursor();
                out.push(Draw::MoveTo { col, row });
            },
        }
        out.push(Draw::ShowCursor);
        assert(out@ =~= self@.frame());
        out
    }

    /// What the terminal has to do to show the editor, where the screen can be
    /// shown.
    pub fn try_render(&self) -> (out: Option<Vec<Draw>>)
        requires
            self@.prompt.ok(),
        ensures
            match out {
                Some(ops) => self@.renderable() && ops@ == self@.frame(),
                None => !self@.renderable(),
            },
    {
        if self.can_render() {
            Some(self.render())
        } else {
            None
        }
    }

    /// Scrolls to the cursor and tells what the terminal has to do to show the
    /// editor, where the screen can be shown.
    pub fn show(&mut self) -> (out: Option<Vec<Draw>>)
        requires
            old(self)@.doc_ok(),
        ensures
            match out {
                Some(ops) => {
                    &&& old(self)@.scrollable()
                    &&& old(self)@.scrolled_to(final(self)@)
                    &&& final(self)@.renderable()
                    &&& ops@ == final(self)@.frame()
                },
                None => {
                    ||| !old(self)@.scrollable() && final(self)@ == old(self)@
                    ||| {
                        &&& old(self)@.scrollable()
                        &&& old(self)@.scrolled_to(final(self)@)
                        &&& !final(self)@.renderable()
                    }
                },
            },
            final(self)@.doc_ok(),
            old(self)@.search_ok() ==> final(self)@.search_ok(),
            out is Some && old(self)@.search_ok() && (old(self)@.inv() || old(self)@.prompt
                is Closed) ==> final(self)@.inv(),
    {
        if !self.fits() || !(self.word_wrap || self.col <= self.lines[self.row].len()) {
            return None;
        }
        self.adjust_left();
        self.try_render()
    }
}

} // verus!
