//! What holds of what the terminal is told to show.

use vstd::prelude::*;
use crate::area::{inscribe, least, tab_text, then_stroke, Pen};
use crate::draw::{
    blanks, colour, lemma_puts_push, put, puts, restyle, start_row, unstyle, Draw, Style,
};
use crate::laws_screen::{
    law_cursor_between_edges, law_wrap_goes_down, law_wrap_within_screen, lemma_roomy_take, roomy,
};
use crate::layout::{
    cells, columns, lemma_columns_next, lemma_wrapped_next, span, wrap_next, wrapped,
};
use crate::render::width;
use crate::state::EditorView;

verus! {

// ── Where a terminal writes ──────────────────────────────────────────────

/// Row and column at which a terminal writes after some instructions, if it
/// wrote at `at` before them. A character moves it on by the columns that the
/// character takes.
pub open spec fn tip(at: (int, int), ops: Seq<Draw>) -> (int, int)
    decreases ops.len(),
{
    if ops.len() == 0 {
        at
    } else {
        let before = tip(at, ops.drop_last());
        match ops.last() {
            Draw::MoveTo { col, row } => (row as int, col as int),
            Draw::Put(c) => (before.0, before.1 + cells(c)),
            _ => before,
        }
    }
}

/// Instructions are carried out one after the other.
pub proof fn lemma_tip_concat(at: (int, int), a: Seq<Draw>, b: Seq<Draw>)
    ensures
        tip(at, a + b) == tip(tip(at, a), b),
    decreases b.len(),
{
    if b.len() == 0 {
        assert(a + b =~= a);
    } else {
        lemma_tip_concat(at, a, b.drop_last());
        assert((a + b).drop_last() =~= a + b.drop_last());
    }
}

/// A text moves a terminal on by its columns.
proof fn lemma_tip_puts(at: (int, int), text: Seq<char>)
    ensures
        tip(at, puts(text)) == (at.0, at.1 + width(text)),
    decreases text.len(),
{
    if text.len() > 0 {
        let front = text.drop_last();
        lemma_tip_puts(at, front);
        lemma_puts_push(front, text.last());
        assert(front.push(text.last()) =~= text);
        assert(puts(text).drop_last() =~= puts(front));
        assert(puts(text).last() == put(text.last()));
    } else {
        assert(puts(text).len() == 0);
    }
}

/// Styles do not move a terminal.
pub proof fn lemma_tip_restyle(at: (int, int), from: Style, to: Style)
    ensures
        tip(at, restyle(from, to)) == at,
        tip(at, unstyle(from)) == at,
{
    reveal_with_fuel(tip, 3);
    let ops = restyle(from, to);
    if from != to {
        if colour(to).len() == 0 {
            assert(ops =~= seq![Draw::ResetStyle]);
            assert(ops.drop_last() =~= Seq::empty());
        } else {
            assert(ops =~= seq![Draw::ResetStyle, colour(to)[0]]);
            assert(ops.drop_last() =~= seq![Draw::ResetStyle]);
            assert(ops.drop_last().drop_last() =~= Seq::empty());
        }
    }
    assert(unstyle(from).len() == 0 || unstyle(from).drop_last() =~= Seq::empty());
}

/// The start of a row.
pub proof fn lemma_tip_start_row(at: (int, int), row: int)
    requires
        0 <= row <= u16::MAX,
    ensures
        tip(at, start_row(row)) == (row, 0int),
{
    reveal_with_fuel(tip, 3);
    let ops = start_row(row);
    assert(ops.drop_last() =~= seq![Draw::MoveTo { col: 0, row: row as u16 }]);
}

/// Blanks take one column each.
proof fn lemma_width_blanks(n: nat)
    ensures
        width(blanks(n)) == n,
    decreases n,
{
    if n > 0 {
        lemma_width_blanks((n - 1) as nat);
        assert(blanks(n).drop_last() =~= blanks((n - 1) as nat));
    }
}

/// One character takes its own columns.
proof fn lemma_width_one(c: char)
    ensures
        width(seq![c]) == cells(c),
{
    reveal_with_fuel(width, 2);
    assert(seq![c].drop_last() =~= Seq::<char>::empty());
}

/// A text with another behind it takes the columns of both.
proof fn lemma_width_concat(a: Seq<char>, b: Seq<char>)
    ensures
        width(a + b) == width(a) + width(b),
    decreases b.len(),
{
    if b.len() == 0 {
        assert(a + b =~= a);
    } else {
        lemma_width_concat(a, b.drop_last());
        assert((a + b).drop_last() =~= a + b.drop_last());
    }
}

/// A tab mark takes the columns of its tab.
proof fn lemma_width_tab(w: nat)
    requires
        w >= 1,
    ensures
        width(tab_text(w)) == w,
{
    lemma_width_one('>');
    lemma_width_blanks((w - 1) as nat);
    lemma_width_concat(seq!['>'], blanks((w - 1) as nat));
}

// ── Lines that are cut at the edges of the screen ────────────────────────

/// The column of the screen for a column of the text.
pub open spec fn on_screen(e: EditorView, x: int) -> int {
    if x <= e.left {
        0
    } else if x - e.left >= e.term_cols {
        e.term_cols
    } else {
        x - e.left
    }
}

/// What is shown of a character fills its columns of the screen.
proof fn lemma_glyph_width(e: EditorView, row: int, i: int)
    requires
        0 <= i < e.lines[row].len(),
        0 <= e.left,
        0 <= e.term_cols,
    ensures
        ({
            let x = columns(e.lines[row].take(i)) as int;
            let next = columns(e.lines[row].take(i + 1)) as int;
            match e.glyph(row, i) {
                Some(g) => on_screen(e, next) == on_screen(e, x) + width(g.text),
                None => on_screen(e, next) == on_screen(e, x),
            }
        }),
{
    let c = e.lines[row][i];
    let x = columns(e.lines[row].take(i));
    let w = span(c, x);
    lemma_columns_next(e.lines[row], i);
    lemma_width_one(c);
    if x + w > e.left && x < e.left {
        lemma_width_blanks(least(x + w - e.left, e.term_cols));
    } else if x >= e.left && x - e.left < e.term_cols {
        let avail = (e.term_cols - (x - e.left)) as nat;
        lemma_width_blanks(avail);
        if c == '\t' {
            lemma_width_tab(least(w as int, avail as int));
        }
    }
}

/// Without wrapping, each character of a line is written at its column, counted
/// from the first column that the screen shows, and none outside of the screen.
pub proof fn law_cut_chars_in_place(
    e: EditorView,
    screen_row: int,
    row: int,
    n: int,
    at: (int, int),
)
    requires
        0 <= screen_row <= u16::MAX,
        0 <= n <= e.lines[row].len(),
        0 <= e.left,
        0 <= e.term_cols,
    ensures
        tip(at, start_row(screen_row) + e.painted(row, n).1) == (
            screen_row,
            on_screen(e, columns(e.lines[row].take(n)) as int),
        ),
    decreases n,
{
    let ops = e.painted(row, n).1;
    if n == 0 {
        assert(start_row(screen_row) + ops =~= start_row(screen_row));
        lemma_tip_start_row(at, screen_row);
    } else {
        law_cut_chars_in_place(e, screen_row, row, n - 1, at);
        lemma_glyph_width(e, row, n - 1);
        let before = e.painted(row, n - 1);
        match e.glyph(row, n - 1) {
            Some(g) => {
                let front = start_row(screen_row) + before.1;
                let style = restyle(before.0, g.style);
                assert(start_row(screen_row) + ops =~= front + style + puts(g.text));
                lemma_tip_concat(at, front + style, puts(g.text));
                lemma_tip_concat(at, front, style);
                lemma_tip_restyle(tip(at, front), before.0, g.style);
                lemma_tip_puts(tip(at, front), g.text);
            },
            None => {},
        }
    }
}

/// Without wrapping, the cursor is placed where the character that it stands on
/// is written, if cursor and screen have been brought together.
pub proof fn law_cut_cursor_in_place(e: EditorView, at: (int, int))
    requires
        e.wf(),
        !e.word_wrap,
        columns(e.lines[e.row].take(e.col)) < 0x1_0000,
        e.left <= e.cursor_col() < e.left + e.term_cols,
        e.row < e.top + e.text_rows(),
    ensures
        tip(at, start_row(e.row - e.top) + e.painted(e.row, e.col).1) == e.text_cursor(),
{
    law_cut_chars_in_place(e, e.row - e.top, e.row, e.col, at);
}

/// Once the screen has been scrolled sideways, the cursor is placed where the
/// character that it stands on is written, if the terminal has columns, can
/// count those of the cursor, and shows the line of the cursor.
pub proof fn law_scrolled_cursor_in_place(e: EditorView, shown: EditorView, at: (int, int))
    requires
        e.wf(),
        !e.word_wrap,
        e.scrolled_to(shown),
        e.term_cols > 0,
        columns(e.lines[e.row].take(e.col)) < 0x1_0000,
        e.row < e.top + e.text_rows(),
    ensures
        tip(at, start_row(shown.row - shown.top) + shown.painted(shown.row, shown.col).1)
            == shown.text_cursor(),
        shown.text_cursor().0 < shown.text_rows(),
        shown.text_cursor().1 < shown.term_cols,
{
    law_cursor_between_edges(e, shown.left);
    law_cut_chars_in_place(shown, shown.row - shown.top, shown.row, shown.col, at);
}

// ── Lines that go on in the next row ─────────────────────────────────────

/// Writing a text of `w` columns moves the pen and the terminal alike.
proof fn lemma_tip_write(at: (int, int), pen: Pen, style: Style, text: Seq<char>, w: nat)
    requires
        width(text) == w,
    ensures
        tip(at, inscribe(pen, style, text, w).ops) == (at.0, at.1 + w),
{
    lemma_tip_concat(at, restyle(pen.style, style), puts(text));
    lemma_tip_restyle(at, pen.style, style);
    lemma_tip_puts(at, text);
}

/// The next row.
proof fn lemma_tip_next_row(e: EditorView, at: (int, int), screen_row: int, pen: Pen)
    requires
        0 <= screen_row,
        screen_row + pen.row + 1 < e.text_rows() <= u16::MAX,
    ensures
        tip(at, e.next_vis_row(screen_row, pen).ops) == (screen_row + pen.row + 1, 0int),
{
    let row = screen_row + pen.row + 1;
    lemma_tip_concat(at, unstyle(pen.style), start_row(row));
    lemma_tip_start_row(tip(at, unstyle(pen.style)), row);
}

/// Filling the row and going on in the next moves pen and terminal alike.
proof fn lemma_tip_wrap_text(
    e: EditorView,
    at: (int, int),
    screen_row: int,
    pen: Pen,
    style: Style,
    avail: nat,
    text: Seq<char>,
    w: nat,
)
    requires
        0 <= screen_row,
        screen_row + pen.row + 1 < e.text_rows() <= u16::MAX,
        width(text) == w,
    ensures
        tip(at, e.wrap_text(screen_row, pen, style, avail, text, w).ops) == (
            screen_row + pen.row + 1,
            w as int,
        ),
        e.wrap_text(screen_row, pen, style, avail, text, w).pen == (Pen {
            row: pen.row + 1,
            x: w,
            style,
        }),
{
    let fill = inscribe(pen, style, blanks(avail), avail);
    let next = e.next_vis_row(screen_row, fill.pen);
    let turn = then_stroke(fill, next);
    let end = inscribe(turn.pen, style, text, w);
    lemma_tip_concat(at, turn.ops, end.ops);
    lemma_tip_concat(at, fill.ops, next.ops);
    lemma_tip_next_row(e, tip(at, fill.ops), screen_row, fill.pen);
    lemma_tip_write(tip(at, turn.ops), turn.pen, style, text, w);
}

/// One character moves pen, terminal and layout alike.
proof fn lemma_wrap_char(e: EditorView, at: (int, int), screen_row: int, row: int, i: int, pen: Pen)
    requires
        0 <= screen_row,
        e.text_rows() <= u16::MAX,
        0 <= i < e.lines[row].len(),
        pen.x < e.term_cols,
        at == (screen_row + pen.row, pen.x as int),
        ({
            let next = wrap_next(
                e.term_cols as nat,
                columns(e.lines[row].take(i)),
                pen.x,
                pen.row,
                e.lines[row][i],
            );
            screen_row + next.0 < e.text_rows()
        }),
    ensures
        ({
            let stroke = e.wrap_char(screen_row, row, i, pen);
            let next = wrap_next(
                e.term_cols as nat,
                columns(e.lines[row].take(i)),
                pen.x,
                pen.row,
                e.lines[row][i],
            );
            &&& (stroke.pen.row, stroke.pen.x) == next
            &&& tip(at, stroke.ops) == (screen_row + next.0, next.1 as int)
        }),
{
    let c = e.lines[row][i];
    let w = span(c, columns(e.lines[row].take(i)));
    let tab = c == '\t';
    let avail = (e.term_cols - pen.x) as nat;
    if !tab && 0 < avail < w {
        lemma_width_one(c);
        lemma_tip_wrap_text(
            e,
            at,
            screen_row,
            pen,
            e.style_at(row, i, false),
            avail,
            seq![c],
            w,
        );
    } else if pen.x + w > e.term_cols {
        let rest = (w - avail) as nat;
        lemma_width_blanks(rest);
        lemma_tip_wrap_text(
            e,
            at,
            screen_row,
            pen,
            e.style_at(row, i, false),
            avail,
            blanks(rest),
            rest,
        );
    } else {
        let text = if tab {
            tab_text(w)
        } else {
            seq![c]
        };
        if tab {
            lemma_width_tab(w);
        } else {
            lemma_width_one(c);
        }
        let style = e.style_at(row, i, tab);
        let done = inscribe(pen, style, text, w);
        lemma_tip_write(at, pen, style, text, w);
        if done.pen.x == e.term_cols {
            let next = e.next_vis_row(screen_row, done.pen);
            lemma_tip_concat(at, done.ops, next.ops);
            lemma_tip_next_row(e, tip(at, done.ops), screen_row, done.pen);
        }
    }
}

/// With wrapping, where every character has room, each character of a line is
/// written where the layout says that the line has come to.
pub proof fn law_wrapped_chars_in_place(
    e: EditorView,
    screen_row: int,
    row: int,
    n: int,
    at: (int, int),
)
    requires
        0 <= screen_row,
        e.text_rows() <= u16::MAX,
        e.term_cols > 0,
        roomy(e.term_cols as nat, e.lines[row]),
        0 <= n <= e.lines[row].len(),
        screen_row + wrapped(e.term_cols as nat, e.lines[row].take(n)).0 < e.text_rows(),
    ensures
        ({
            let reached = wrapped(e.term_cols as nat, e.lines[row].take(n));
            let stroke = e.wrap_chars(screen_row, row, n);
            &&& (stroke.pen.row, stroke.pen.x) == reached
            &&& tip(at, stroke.ops) == (screen_row + reached.0, reached.1 as int)
        }),
    decreases n,
{
    let tw = e.term_cols as nat;
    let line = e.lines[row];
    if n == 0 {
        lemma_tip_start_row(at, screen_row);
    } else {
        law_wrap_goes_down(tw, line, n - 1, n);
        law_wrapped_chars_in_place(e, screen_row, row, n - 1, at);
        lemma_roomy_take(tw, line, n - 1);
        law_wrap_within_screen(tw, line.take(n - 1));
        lemma_wrapped_next(tw, line, n - 1);
        let before = e.wrap_chars(screen_row, row, n - 1);
        let stroke = e.wrap_char(screen_row, row, n - 1, before.pen);
        lemma_tip_concat(at, before.ops, stroke.ops);
        lemma_wrap_char(e, tip(at, before.ops), screen_row, row, n - 1, before.pen);
    }
}

/// With wrapping, where every character has room, each line begins in the row of
/// the screen that the lines before it leave off at.
pub proof fn law_wrapped_lines_in_place(e: EditorView, row: int) -> (before: Seq<Draw>)
    requires
        e.doc_ok(),
        e.word_wrap,
        e.term_cols > 0,
        forall|r: int| e.top <= r < row ==> roomy(e.term_cols as nat, #[trigger] e.lines[r]),
        e.top <= row < e.lines.len(),
        e.heights(e.top, row) < e.text_rows(),
    ensures
        ({
            let screen_row = e.heights(e.top, row) as int;
            let line = e.wrap_line(screen_row, row);
            e.text_area() == before + line.ops + e.wrap_area(
                screen_row + line.pen.row + 1,
                row + 1,
            )
        }),
{
    let s = e.heights(e.top, row) as int;
    let before = lemma_wrap_area_from(e, 0, e.top, row);
    let line = e.wrap_line(s, row);
    assert(e.wrap_area(s, row) == line.ops + e.wrap_area(s + line.pen.row + 1, row + 1));
    assert(before + line.ops + e.wrap_area(s + line.pen.row + 1, row + 1) =~= before
        + e.wrap_area(s, row));
    before
}

/// The rows of the screen above a line.
proof fn lemma_wrap_area_from(e: EditorView, screen_row: int, from: int, row: int) -> (before: Seq<
    Draw,
>)
    requires
        e.doc_ok(),
        e.word_wrap,
        e.term_cols > 0,
        forall|r: int| from <= r < row ==> roomy(e.term_cols as nat, #[trigger] e.lines[r]),
        0 <= screen_row,
        0 <= from <= row < e.lines.len(),
        screen_row + e.heights(from, row) < e.text_rows(),
    ensures
        e.wrap_area(screen_row, from) == before + e.wrap_area(
            screen_row + e.heights(from, row),
            row,
        ),
    decreases row - from,
{
    if from == row {
        let none = Seq::<Draw>::empty();
        assert(none + e.wrap_area(screen_row, row) =~= e.wrap_area(screen_row, row));
        none
    } else {
        let chars = e.lines[from];
        let n = chars.len() as int;
        assert(chars.take(n) =~= chars);
        law_wrapped_chars_in_place(e, screen_row, from, n, (0, 0));
        let line = e.wrap_line(screen_row, from);
        let next = screen_row + line.pen.row + 1;
        assert(line.pen.row + 1 == e.visual_height(from));
        let rest = lemma_wrap_area_from(e, next, from + 1, row);
        assert(line.ops + (rest + e.wrap_area(screen_row + e.heights(from, row), row)) =~= line.ops
            + rest + e.wrap_area(screen_row + e.heights(from, row), row));
        line.ops + rest
    }
}

/// With wrapping, where every character has room, the cursor is placed where the
/// character that it stands on is written: where its line has come to, or, if
/// the character does not fit into the row, at the start of the next.
pub proof fn law_wrapped_cursor_in_place(e: EditorView, at: (int, int))
    requires
        e.wf(),
        e.word_wrap,
        e.term_cols > 0,
        roomy(e.term_cols as nat, e.line()),
        e.heights(e.top, e.row) + wrapped(e.term_cols as nat, e.line().take(e.col)).0
            < e.text_rows(),
    ensures
        ({
            let ops = e.wrap_chars(e.heights(e.top, e.row) as int, e.row, e.col).ops;
            let reached = tip(at, ops);
            if e.col < e.line().len() && e.line()[e.col] != '\t' && reached.1 + cells(
                e.line()[e.col],
            ) > e.term_cols {
                e.text_cursor() == (reached.0 + 1, 0int)
            } else {
                e.text_cursor() == reached
            }
        }),
{
    let tw = e.term_cols as nat;
    law_wrapped_chars_in_place(e, e.heights(e.top, e.row) as int, e.row, e.col, at);
    lemma_roomy_take(tw, e.line(), e.col);
    law_wrap_within_screen(tw, e.line().take(e.col));
    if e.col == e.line().len() {
        assert(e.line().take(e.col) =~= e.line());
    }
}

} // verus!
