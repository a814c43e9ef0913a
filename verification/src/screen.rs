//! Which part of the text the screen shows.

use vstd::prelude::*;
use crate::layout::{
    boundary_ge, boundary_le, columns, columns_before, is_boundary_ge, is_boundary_le,
    lemma_wrapped_bound, wrap_pos, wrap_pos_of, wrapped, wrapped_before,
};
use crate::state::{Editor, EditorView};
use crate::text::{lemma_text_mem_line, lemma_text_mem_take, rows, text_mem};

verus! {

impl EditorView {
    /// The column of a position in a row without wrapping, as a terminal counts
    /// it.
    pub open spec fn display_col(self, row: int, col: int) -> nat {
        columns(self.lines[row].take(col)) % 0x1_0000
    }

    /// The rows of the screen that a line takes.
    pub open spec fn visual_height(self, row: int) -> nat {
        if !self.word_wrap || self.term_cols == 0 {
            1
        } else {
            wrapped(self.term_cols as nat, self.lines[row]).0 + 1
        }
    }

    /// The rows of the screen that the lines from one up to another take.
    pub open spec fn heights(self, from: int, to: int) -> nat
        decreases to - from,
    {
        if from >= to {
            0
        } else {
            self.visual_height(from) + self.heights(from + 1, to)
        }
    }

    /// Where the cursor stands in its line on a wrapping screen.
    pub open spec fn wrap_cursor(self) -> (nat, nat) {
        wrap_pos(self.term_cols as nat, self.lines[self.row], self.col as nat)
    }

    /// The first line to be shown: the first from `top` on with which the
    /// cursor is on the screen, and the line of the cursor if there is none.
    pub open spec fn first_showing(self, top: int) -> int
        decreases self.row - top,
    {
        if top >= self.row || self.heights(top, self.row) + self.wrap_cursor().0
            < self.text_rows() {
            top
        } else {
            self.first_showing(top + 1)
        }
    }

    /// The screen is scrolled to the cursor, with lines wrapped.
    pub open spec fn adjust_scroll_wrap(self) -> EditorView {
        EditorView {
            top: if self.row < self.top {
                self.row
            } else {
                self.first_showing(self.top)
            },
            ..self
        }
    }

    /// The column of the cursor, without wrapping.
    pub open spec fn cursor_col(self) -> nat {
        self.display_col(self.row, self.col)
    }

    /// Whether `left` is the first column to be shown: as before while the
    /// cursor is on the screen, else the nearest boundary between characters
    /// with which it is.
    pub open spec fn is_left(self, left: int) -> bool {
        let line = self.lines[self.row];
        let x = self.cursor_col() as int;
        let w = self.term_cols;
        if w == 0 {
            left == self.left
        } else if x < self.left {
            0 <= left && is_boundary_le(line, x as nat, left as nat)
        } else if x >= self.left + w {
            0 <= left && is_boundary_ge(
                line,
                if x >= w {
                    (x - (w - 1)) as nat
                } else {
                    0
                },
                left as nat,
            )
        } else {
            left == self.left
        }
    }
}

impl EditorView {
    /// Whether the screen can be scrolled to the cursor.
    pub open spec fn scrollable(self) -> bool {
        self.fits() && (self.word_wrap || self.col <= self.lines[self.row].len())
    }

    /// Whether a state is this one, scrolled to the cursor: sideways, or, where
    /// lines are wrapped, down.
    pub open spec fn scrolled_to(self, after: EditorView) -> bool {
        if self.word_wrap {
            after == (EditorView { left: 0, ..self.adjust_scroll_wrap() })
        } else {
            after == (EditorView { left: after.left, ..self }) && self.is_left(after.left)
        }
    }
}

/// The memory of lines without the first.
pub proof fn lemma_text_mem_first(lines: Seq<Seq<char>>)
    requires
        lines.len() > 0,
    ensures
        text_mem(lines) == 4 * lines[0].len() + text_mem(lines.drop_first()),
    decreases lines.len(),
{
    if lines.len() == 1 {
        assert(lines.drop_last() =~= Seq::<Seq<char>>::empty());
        assert(lines.drop_first() =~= Seq::<Seq<char>>::empty());
    } else {
        lemma_text_mem_first(lines.drop_last());
        assert(lines.drop_last().drop_first() =~= lines.drop_first().drop_last());
        assert(lines.drop_first().last() == lines.last());
    }
}

/// Lines take at most one row of the screen for each line and character.
pub proof fn lemma_heights_bound(e: EditorView, from: int, to: int)
    requires
        0 <= from <= to <= e.lines.len(),
    ensures
        4 * e.heights(from, to) <= 4 * (to - from) + text_mem(e.lines.subrange(from, to)),
    decreases to - from,
{
    if from < to {
        lemma_heights_bound(e, from + 1, to);
        let part = e.lines.subrange(from, to);
        lemma_text_mem_first(part);
        assert(part.drop_first() =~= e.lines.subrange(from + 1, to));
        assert(part[0] == e.lines[from]);
        lemma_wrapped_bound(e.term_cols as nat, e.lines[from]);
    }
}

/// The memory of a part of the lines.
pub proof fn lemma_text_mem_subrange(lines: Seq<Seq<char>>, from: int, to: int)
    requires
        0 <= from <= to <= lines.len(),
    ensures
        text_mem(lines.subrange(from, to)) <= text_mem(lines),
    decreases from,
{
    if from == 0 {
        assert(lines.subrange(0, to) =~= lines.take(to));
        lemma_text_mem_take(lines, to);
    } else {
        lemma_text_mem_first(lines);
        lemma_text_mem_subrange(lines.drop_first(), from - 1, to - 1);
        assert(lines.drop_first().subrange(from - 1, to - 1) =~= lines.subrange(from, to));
    }
}

/// In a text that fits, screen rows can be counted.
pub proof fn lemma_rows_fit(e: EditorView, from: int)
    requires
        e.fits(),
        0 <= from <= e.row < e.lines.len(),
        0 <= e.col,
    ensures
        e.heights(from, e.row) + e.wrap_cursor().0 + 1 <= usize::MAX,
{
    lemma_heights_bound(e, from, e.row);
    lemma_text_mem_subrange(e.lines, from, e.row);
    lemma_text_mem_line(e.lines, e.row);
    let line = e.lines[e.row];
    lemma_wrapped_bound(e.term_cols as nat, line);
    if e.col < line.len() {
        lemma_wrapped_bound(e.term_cols as nat, line.take(e.col));
    }
}

impl Editor {
    /// The column of a position in a row without wrapping.
    pub fn display_col(&self, row: usize, col: usize) -> (x: u16)
        requires
            self@.fits(),
            row < self@.lines.len(),
            col <= self@.lines[row as int].len(),
        ensures
            x == self@.display_col(row as int, col as int),
    {
        proof {
            lemma_text_mem_line(self@.lines, row as int);
        }
        let x = columns_before(&self.lines[row], col);
        assert(x as u16 == x % 0x1_0000) by (bit_vector);
        x as u16
    }

    /// The rows of the screen that a line takes.
    pub fn visual_height(&self, row: usize) -> (n: usize)
        requires
            self@.fits(),
            row < self@.lines.len(),
        ensures
            n == self@.visual_height(row as int),
    {
        if !self.word_wrap {
            return 1;
        }
        let tw = self.term_cols as usize;
        if tw == 0 {
            return 1;
        }
        proof {
            lemma_text_mem_line(self@.lines, row as int);
            lemma_wrapped_bound(tw as nat, self@.lines[row as int]);
        }
        let len = self.lines[row].len();
        let (vis_row, _) = wrapped_before(tw, &self.lines[row], len);
        assert(self.lines[row as int]@.take(len as int) =~= self.lines[row as int]@);
        vis_row + 1
    }

    /// Where a character stands in its line on a wrapping screen.
    pub fn wrap_render_pos(&self, row: usize, col: usize) -> (at: (usize, usize))
        requires
            self@.fits(),
            row < self@.lines.len(),
        ensures
            (at.0 as nat, at.1 as nat) == wrap_pos(
                self@.term_cols as nat,
                self@.lines[row as int],
                col as nat,
            ),
    {
        proof {
            lemma_text_mem_line(self@.lines, row as int);
        }
        wrap_pos_of(self.term_cols as usize, &self.lines[row], col)
    }

    /// The rows of the screen from the first line shown to the cursor's line.
    pub fn rows_before_cursor(&self) -> (n: usize)
        requires
            self@.fits(),
            self@.row < self@.lines.len(),
        ensures
            n == self@.heights(self@.top, self@.row),
    {
        let mut n: usize = 0;
        let mut r: usize = self.row;
        if self.top >= self.row {
            return 0;
        }
        while r > self.top
            invariant
                self.top <= r <= self.row,
                self@.row < self@.lines.len(),
                self@.fits(),
                n == self@.heights(r as int, self@.row),
            decreases r - self.top,
        {
            proof {
                lemma_rows_fit(self@, r - 1);
            }
            r = r - 1;
            n = n + self.visual_height(r);
        }
        n
    }

    /// Scrolls to the cursor, with lines wrapped.
    pub fn adjust_scroll_wrap(&mut self)
        requires
            old(self)@.doc_ok(),
            old(self)@.fits(),
        ensures
            final(self)@ == old(self)@.adjust_scroll_wrap(),
            final(self)@.doc_ok(),
            final(self)@.top <= final(self)@.row,
    {
        let text_rows = self.text_rows();
        if self.row < self.top {
            self.top = self.row;
            return ;
        }
        let ghost start = self@;
        let mut rows_before = self.rows_before_cursor();
        let (cursor_vis, _) = self.wrap_render_pos(self.row, self.col);
        loop
            invariant_except_break
                start.first_showing(start.top) == start.first_showing(self.top as int),
            invariant
                start.top <= self.top <= self.row,
                start.doc_ok(),
                start.fits(),
                self@ == (EditorView { top: self.top as int, ..start }),
                rows_before == self@.heights(self@.top, self@.row),
                rows_before == start.heights(self@.top, self@.row),
                cursor_vis == start.wrap_cursor().0,
                text_rows == start.text_rows(),
            ensures
                self.top == start.first_showing(start.top),
            decreases self.row - self.top,
        {
            proof {
                lemma_rows_fit(start, self.top as int);
            }
            if rows_before + cursor_vis < text_rows {
                break;
            }
            if self.top >= self.row {
                break;
            }
            let h = self.visual_height(self.top);
            let ghost before = self@;
            self.top = self.top + 1;
            rows_before = rows_before - h;
            proof {
                lemma_heights_same(before, self@, self@.top, self@.row);
                lemma_heights_same(start, self@, self@.top, self@.row);
            }
        }
    }

    /// The last boundary between characters at or before a column.
    pub fn char_boundary_le(&self, row: usize, target: usize) -> (x: usize)
        requires
            self@.fits(),
            row < self@.lines.len(),
        ensures
            is_boundary_le(self@.lines[row as int], target as nat, x as nat),
    {
        proof {
            lemma_text_mem_line(self@.lines, row as int);
        }
        boundary_le(&self.lines[row], target)
    }

    /// The first boundary between characters at or behind a column, or the end
    /// of the line.
    pub fn char_boundary_ge(&self, row: usize, target: usize) -> (x: usize)
        requires
            self@.fits(),
            row < self@.lines.len(),
        ensures
            is_boundary_ge(self@.lines[row as int], target as nat, x as nat),
    {
        proof {
            lemma_text_mem_line(self@.lines, row as int);
        }
        boundary_ge(&self.lines[row], target)
    }

    /// Scrolls to the cursor: sideways, or, where lines are wrapped, down.
    pub fn adjust_left(&mut self)
        requires
            old(self)@.doc_ok(),
            old(self)@.scrollable(),
        ensures
            old(self)@.scrolled_to(final(self)@),
            final(self)@.doc_ok(),
            old(self)@.word_wrap || old(self)@.top <= old(self)@.row ==> final(self)@.top
                <= final(self)@.row,
            old(self)@.search_ok() ==> final(self)@.search_ok(),
    {
        if self.word_wrap {
            let ghost start = self@;
            self.left = 0;
            let ghost reset = self@;
            self.adjust_scroll_wrap();
            proof {
                lemma_first_showing_same(start, reset, start.top);
            }
            return ;
        }
        let cursor_disp = self.display_col(self.row, self.col) as usize;
        let screen_w = self.term_cols as usize;
        if screen_w == 0 {
            return ;
        }
        if cursor_disp < self.left {
            self.left = self.char_boundary_le(self.row, cursor_disp);
        } else if cursor_disp - self.left >= screen_w {
            let min_left = cursor_disp.saturating_sub(screen_w - 1);
            self.left = self.char_boundary_ge(self.row, min_left);
        }
    }
}

/// The rows of lines depend on the text and the screen alone.
proof fn lemma_heights_same(a: EditorView, b: EditorView, from: int, to: int)
    requires
        a.lines == b.lines,
        a.word_wrap == b.word_wrap,
        a.term_cols == b.term_cols,
    ensures
        a.heights(from, to) == b.heights(from, to),
    decreases to - from,
{
    if from < to {
        lemma_heights_same(a, b, from + 1, to);
    }
}

/// The first line to be shown depends on the text, the cursor and the screen
/// alone.
proof fn lemma_first_showing_same(a: EditorView, b: EditorView, top: int)
    requires
        b == (EditorView { left: b.left, ..a }),
    ensures
        a.first_showing(top) == b.first_showing(top),
    decreases a.row - top,
{
    lemma_heights_same(a, b, top, a.row);
    if top < a.row {
        lemma_first_showing_same(a, b, top + 1);
    }
}

} // verus!
