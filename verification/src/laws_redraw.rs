//! What holds of every frame: the screen is redrawn row by row.

use vstd::prelude::*;
use crate::area::{inscribe, tab_text, then_stroke, Pen};
use crate::draw::{blanks, plain, puts, restyle, start_row, unstyle, Draw, Style};
use crate::layout::{columns, span};
use crate::render::{help_rows, help_text};
use crate::state::{EditorView, HELP_ROWS};

verus! {

// ── Rows are cleared before they are written ─────────────────────────────

/// Whether the cursor is moved only to the start of a row, and the row is
/// cleared then.
pub open spec fn by_rows(ops: Seq<Draw>) -> bool {
    forall|i: int| #![trigger ops[i]]
        0 <= i < ops.len() && ops[i] is MoveTo ==> ops[i]->col == 0 && i + 1 < ops.len() && ops[i
            + 1] is ClearLine
}

proof fn lemma_by_rows_concat(a: Seq<Draw>, b: Seq<Draw>)
    requires
        by_rows(a),
        by_rows(b),
    ensures
        by_rows(a + b),
{
    let ops = a + b;
    assert forall|i: int| #![trigger ops[i]]
        0 <= i < ops.len() && ops[i] is MoveTo implies ops[i]->col == 0 && i + 1 < ops.len()
        && ops[i + 1] is ClearLine by {
        if i < a.len() {
            assert(ops[i] == a[i]);
            assert(ops[i + 1] == a[i + 1]);
        } else {
            assert(ops[i] == b[i - a.len()]);
            assert(ops[i + 1] == b[i + 1 - a.len()]);
        }
    }
}

proof fn lemma_by_rows_parts(text: Seq<char>, row: int, from: Style, to: Style)
    ensures
        by_rows(puts(text)),
        by_rows(start_row(row)),
        by_rows(restyle(from, to)),
        by_rows(unstyle(from)),
{
}

proof fn lemma_by_rows_painted(e: EditorView, row: int, n: int)
    ensures
        by_rows(e.painted(row, n).1),
    decreases n,
{
    if n > 0 {
        lemma_by_rows_painted(e, row, n - 1);
        let before = e.painted(row, n - 1);
        match e.glyph(row, n - 1) {
            Some(g) => {
                lemma_by_rows_parts(g.text, 0, before.0, g.style);
                lemma_by_rows_concat(before.1, restyle(before.0, g.style));
                lemma_by_rows_concat(before.1 + restyle(before.0, g.style), puts(g.text));
            },
            None => {},
        }
    }
}

proof fn lemma_by_rows_cut_area(e: EditorView, n: int)
    ensures
        by_rows(e.cut_area(n)),
    decreases n,
{
    if n > 0 {
        lemma_by_rows_cut_area(e, n - 1);
        let row = e.top + n - 1;
        lemma_by_rows_parts(
            seq!['~'],
            n - 1,
            e.painted(row, e.lines[row].len() as int).0,
            plain(),
        );
        if row < e.lines.len() {
            let line = e.painted(row, e.lines[row].len() as int);
            lemma_by_rows_painted(e, row, e.lines[row].len() as int);
            lemma_by_rows_concat(line.1, unstyle(line.0));
            lemma_by_rows_concat(start_row(n - 1), e.painted_line(row));
        } else {
            lemma_by_rows_concat(start_row(n - 1), puts(seq!['~']));
        }
        lemma_by_rows_concat(e.cut_area(n - 1), e.cut_row(n - 1));
    }
}

proof fn lemma_by_rows_inscribe(pen: Pen, style: Style, text: Seq<char>, w: nat)
    ensures
        by_rows(inscribe(pen, style, text, w).ops),
{
    lemma_by_rows_parts(text, 0, pen.style, style);
    lemma_by_rows_concat(restyle(pen.style, style), puts(text));
}

proof fn lemma_by_rows_next(e: EditorView, screen_row: int, pen: Pen)
    ensures
        by_rows(e.next_vis_row(screen_row, pen).ops),
{
    let row = screen_row + pen.row + 1;
    lemma_by_rows_parts(Seq::empty(), row, pen.style, pen.style);
    lemma_by_rows_concat(unstyle(pen.style), start_row(row));
    lemma_by_rows_concat(unstyle(pen.style), Seq::empty());
}

proof fn lemma_by_rows_wrap_text(
    e: EditorView,
    screen_row: int,
    pen: Pen,
    style: Style,
    avail: nat,
    text: Seq<char>,
    w: nat,
)
    ensures
        by_rows(e.wrap_text(screen_row, pen, style, avail, text, w).ops),
{
    let fill = inscribe(pen, style, blanks(avail), avail);
    let next = e.next_vis_row(screen_row, fill.pen);
    let turn = then_stroke(fill, next);
    lemma_by_rows_inscribe(pen, style, blanks(avail), avail);
    lemma_by_rows_next(e, screen_row, fill.pen);
    lemma_by_rows_concat(fill.ops, next.ops);
    lemma_by_rows_inscribe(turn.pen, style, text, w);
    lemma_by_rows_concat(turn.ops, inscribe(turn.pen, style, text, w).ops);
}

proof fn lemma_by_rows_wrap_chars(e: EditorView, screen_row: int, row: int, n: int)
    ensures
        by_rows(e.wrap_chars(screen_row, row, n).ops),
    decreases n,
{
    if n <= 0 {
        lemma_by_rows_parts(Seq::empty(), screen_row, plain(), plain());
    } else {
        lemma_by_rows_wrap_chars(e, screen_row, row, n - 1);
        let before = e.wrap_chars(screen_row, row, n - 1);
        lemma_by_rows_wrap_char(e, screen_row, row, n - 1, before.pen);
        lemma_by_rows_concat(before.ops, e.wrap_char(screen_row, row, n - 1, before.pen).ops);
    }
}

proof fn lemma_by_rows_wrap_char(e: EditorView, screen_row: int, row: int, i: int, pen: Pen)
    ensures
        by_rows(e.wrap_char(screen_row, row, i, pen).ops),
{
    let c = e.lines[row][i];
    let w = span(c, columns(e.lines[row].take(i)));
    let tab = c == '\t';
    let avail = if pen.x <= e.term_cols {
        (e.term_cols - pen.x) as nat
    } else {
        0
    };
    let style = e.style_at(row, i, false);
    let rest = (w - avail) as nat;
    lemma_by_rows_wrap_text(e, screen_row, pen, style, avail, seq![c], w);
    lemma_by_rows_wrap_text(e, screen_row, pen, style, avail, blanks(rest), rest);
    let text = if tab {
        tab_text(w)
    } else {
        seq![c]
    };
    let done = inscribe(pen, e.style_at(row, i, tab), text, w);
    lemma_by_rows_inscribe(pen, e.style_at(row, i, tab), text, w);
    lemma_by_rows_next(e, screen_row, done.pen);
    lemma_by_rows_concat(done.ops, e.next_vis_row(screen_row, done.pen).ops);
}

proof fn lemma_by_rows_wrap_area(e: EditorView, screen_row: int, row: int)
    ensures
        by_rows(e.wrap_area(screen_row, row)),
    decreases
        if screen_row < e.text_rows() {
            e.text_rows() - screen_row
        } else {
            0
        },
{
    if screen_row < e.text_rows() {
        let style = plain();
        if row >= e.lines.len() {
            lemma_by_rows_wrap_area(e, screen_row + 1, row);
            lemma_by_rows_parts(seq!['~'], screen_row, style, style);
            lemma_by_rows_concat(start_row(screen_row), puts(seq!['~']));
            lemma_by_rows_concat(
                start_row(screen_row) + puts(seq!['~']),
                e.wrap_area(screen_row + 1, row),
            );
        } else {
            let n = e.lines[row].len() as int;
            let chars = e.wrap_chars(screen_row, row, n);
            let line = e.wrap_line(screen_row, row);
            lemma_by_rows_wrap_area(e, screen_row + line.pen.row + 1, row + 1);
            lemma_by_rows_wrap_chars(e, screen_row, row, n);
            lemma_by_rows_parts(seq!['~'], screen_row, chars.pen.style, style);
            lemma_by_rows_concat(chars.ops, unstyle(chars.pen.style));
            lemma_by_rows_concat(
                line.ops,
                e.wrap_area(screen_row + line.pen.row + 1, row + 1),
            );
        }
    }
}

proof fn lemma_by_rows_help(first: int, n: int)
    ensures
        by_rows(help_rows(first, n)),
    decreases n,
{
    if n > 0 {
        lemma_by_rows_help(first, n - 1);
        let style = plain();
        lemma_by_rows_parts(help_text(n - 1), first + n - 1, style, style);
        let a = help_rows(first, n - 1);
        let b = a + start_row(first + n - 1);
        let c = b + seq![Draw::Dim];
        let d = c + puts(help_text(n - 1));
        lemma_by_rows_concat(a, start_row(first + n - 1));
        lemma_by_rows_concat(b, seq![Draw::Dim]);
        lemma_by_rows_concat(c, puts(help_text(n - 1)));
        lemma_by_rows_concat(d, seq![Draw::ResetAttributes]);
    }
}

proof fn lemma_by_rows_bars(e: EditorView)
    ensures
        by_rows(e.bars()),
{
    let style = plain();
    lemma_by_rows_parts(e.status_line(), e.term_rows - 2, style, style);
    lemma_by_rows_parts(e.status, e.term_rows - 1, style, style);
    let a = start_row(e.term_rows - 2);
    let b = a + seq![Draw::Reverse];
    let c = b + puts(e.status_line());
    let d = c + seq![Draw::ResetAttributes];
    let f = d + start_row(e.term_rows - 1);
    lemma_by_rows_concat(a, seq![Draw::Reverse]);
    lemma_by_rows_concat(b, puts(e.status_line()));
    lemma_by_rows_concat(c, seq![Draw::ResetAttributes]);
    lemma_by_rows_concat(d, start_row(e.term_rows - 1));
    lemma_by_rows_concat(f, puts(e.status));
}

/// A frame is drawn row by row: but for the last move, which places the cursor,
/// the terminal is only ever moved to the start of a row, which is cleared as a
/// whole. The cursor is hidden meanwhile and shown at the end.
pub proof fn law_frame_by_rows(e: EditorView)
    ensures
        ({
            let frame = e.frame();
            let n = frame.len() as int;
            &&& n >= 3
            &&& frame[0] is HideCursor
            &&& by_rows(frame.take(n - 2))
            &&& frame[n - 2] == e.place_cursor()
            &&& frame[n - 2] is MoveTo
            &&& frame[n - 1] is ShowCursor
        }),
{
    let frame = e.frame();
    let n = frame.len() as int;
    let hide = seq![Draw::HideCursor];
    let a = hide + e.text_area();
    let b = a + e.help_panel();
    let c = b + e.bars();
    if e.word_wrap {
        lemma_by_rows_wrap_area(e, 0, e.top);
    } else {
        lemma_by_rows_cut_area(e, e.text_rows());
    }
    lemma_by_rows_help(e.text_rows(), HELP_ROWS as int);
    lemma_by_rows_bars(e);
    lemma_by_rows_concat(hide, e.text_area());
    lemma_by_rows_concat(a, e.help_panel());
    lemma_by_rows_concat(b, e.bars());
    assert(frame.take(n - 2) =~= c);
}

// ── Every row is redrawn ─────────────────────────────────────────────────

/// Whether a row is cleared.
pub open spec fn clears(ops: Seq<Draw>, row: int) -> bool {
    exists|i: int| 0 <= i < ops.len() - 1 && #[trigger] ops.subrange(i, i + 2) == start_row(row)
}

proof fn lemma_clears_concat(a: Seq<Draw>, b: Seq<Draw>, row: int)
    requires
        clears(a, row) || clears(b, row),
    ensures
        clears(a + b, row),
{
    let ops = a + b;
    if clears(a, row) {
        let i = choose|i: int|
            0 <= i < a.len() - 1 && #[trigger] a.subrange(i, i + 2) == start_row(row);
        assert(ops.subrange(i, i + 2) =~= a.subrange(i, i + 2));
    } else {
        let i = choose|i: int|
            0 <= i < b.len() - 1 && #[trigger] b.subrange(i, i + 2) == start_row(row);
        let j = a.len() + i;
        assert(ops.subrange(j, j + 2) =~= b.subrange(i, i + 2));
    }
}

proof fn lemma_clears_start(row: int)
    ensures
        clears(start_row(row), row),
{
    let ops = start_row(row);
    let i: int = 0;
    assert(ops.subrange(i, i + 2) =~= ops);
}

proof fn lemma_clears_cut_area(e: EditorView, n: int, row: int)
    requires
        0 <= row < n,
    ensures
        clears(e.cut_area(n), row),
    decreases n,
{
    if row == n - 1 {
        lemma_clears_start(row);
        lemma_clears_concat(
            start_row(row),
            if e.top + row < e.lines.len() {
                e.painted_line(e.top + row)
            } else {
                puts(seq!['~'])
            },
            row,
        );
    } else {
        lemma_clears_cut_area(e, n - 1, row);
    }
    lemma_clears_concat(e.cut_area(n - 1), e.cut_row(n - 1), row);
}

proof fn lemma_clears_next(e: EditorView, screen_row: int, pen: Pen)
    requires
        screen_row + pen.row + 1 < e.text_rows(),
    ensures
        clears(e.next_vis_row(screen_row, pen).ops, screen_row + pen.row + 1),
{
    let row = screen_row + pen.row + 1;
    lemma_clears_start(row);
    lemma_clears_concat(unstyle(pen.style), start_row(row), row);
}

/// A character goes on in the same row, or clears the next one.
proof fn lemma_clears_wrap_char(e: EditorView, screen_row: int, row: int, i: int, pen: Pen)
    ensures
        ({
            let stroke = e.wrap_char(screen_row, row, i, pen);
            let next = screen_row + pen.row + 1;
            stroke.pen.row == pen.row || (stroke.pen.row == pen.row + 1 && (next < e.text_rows()
                ==> clears(stroke.ops, next)))
        }),
{
    let next = screen_row + pen.row + 1;
    if next < e.text_rows() {
        let c = e.lines[row][i];
        let w = span(c, columns(e.lines[row].take(i)));
        let tab = c == '\t';
        let avail = if pen.x <= e.term_cols {
            (e.term_cols - pen.x) as nat
        } else {
            0
        };
        let style = e.style_at(row, i, false);
        let fill = inscribe(pen, style, blanks(avail), avail);
        let turn = e.next_vis_row(screen_row, fill.pen);
        lemma_clears_next(e, screen_row, fill.pen);
        lemma_clears_concat(fill.ops, turn.ops, next);
        let moved = then_stroke(fill, turn);
        let rest = (w - avail) as nat;
        lemma_clears_concat(moved.ops, inscribe(moved.pen, style, seq![c], w).ops, next);
        lemma_clears_concat(
            moved.ops,
            inscribe(moved.pen, style, blanks(rest), rest).ops,
            next,
        );
        let text = if tab {
            tab_text(w)
        } else {
            seq![c]
        };
        let done = inscribe(pen, e.style_at(row, i, tab), text, w);
        lemma_clears_next(e, screen_row, done.pen);
        lemma_clears_concat(done.ops, e.next_vis_row(screen_row, done.pen).ops, next);
    }
}

proof fn lemma_clears_wrap_chars(e: EditorView, screen_row: int, row: int, n: int, r: int)
    requires
        screen_row <= r < e.text_rows(),
        r <= screen_row + e.wrap_chars(screen_row, row, n).pen.row,
    ensures
        clears(e.wrap_chars(screen_row, row, n).ops, r),
    decreases n,
{
    if n <= 0 {
        lemma_clears_start(r);
    } else {
        let before = e.wrap_chars(screen_row, row, n - 1);
        let stroke = e.wrap_char(screen_row, row, n - 1, before.pen);
        lemma_clears_wrap_char(e, screen_row, row, n - 1, before.pen);
        if r <= screen_row + before.pen.row {
            lemma_clears_wrap_chars(e, screen_row, row, n - 1, r);
        }
        lemma_clears_concat(before.ops, stroke.ops, r);
    }
}

proof fn lemma_clears_wrap_area(e: EditorView, screen_row: int, row: int, r: int)
    requires
        screen_row <= r < e.text_rows(),
    ensures
        clears(e.wrap_area(screen_row, row), r),
    decreases e.text_rows() - screen_row,
{
    if row >= e.lines.len() {
        let here = start_row(screen_row) + puts(seq!['~']);
        if r == screen_row {
            lemma_clears_start(r);
            lemma_clears_concat(start_row(r), puts(seq!['~']), r);
        } else {
            lemma_clears_wrap_area(e, screen_row + 1, row, r);
        }
        lemma_clears_concat(here, e.wrap_area(screen_row + 1, row), r);
    } else {
        let n = e.lines[row].len() as int;
        let chars = e.wrap_chars(screen_row, row, n);
        let line = e.wrap_line(screen_row, row);
        let next = screen_row + line.pen.row + 1;
        if r < next {
            lemma_clears_wrap_chars(e, screen_row, row, n, r);
            lemma_clears_concat(chars.ops, unstyle(chars.pen.style), r);
        } else {
            lemma_clears_wrap_area(e, next, row + 1, r);
        }
        lemma_clears_concat(line.ops, e.wrap_area(next, row + 1), r);
    }
}

proof fn lemma_clears_help(first: int, n: int, r: int)
    requires
        first <= r < first + n,
    ensures
        clears(help_rows(first, n), r),
    decreases n,
{
    let a = help_rows(first, n - 1);
    let b = a + start_row(first + n - 1);
    let c = b + seq![Draw::Dim];
    let d = c + puts(help_text(n - 1));
    if r == first + n - 1 {
        lemma_clears_start(r);
    } else {
        lemma_clears_help(first, n - 1, r);
    }
    lemma_clears_concat(a, start_row(first + n - 1), r);
    lemma_clears_concat(b, seq![Draw::Dim], r);
    lemma_clears_concat(c, puts(help_text(n - 1)), r);
    lemma_clears_concat(d, seq![Draw::ResetAttributes], r);
}

proof fn lemma_clears_bars(e: EditorView, r: int)
    requires
        r == e.term_rows - 2 || r == e.term_rows - 1,
    ensures
        clears(e.bars(), r),
{
    let a = start_row(e.term_rows - 2);
    let b = a + seq![Draw::Reverse];
    let c = b + puts(e.status_line());
    let d = c + seq![Draw::ResetAttributes];
    let f = d + start_row(e.term_rows - 1);
    lemma_clears_start(r);
    if r == e.term_rows - 2 {
        lemma_clears_concat(a, seq![Draw::Reverse], r);
        lemma_clears_concat(b, puts(e.status_line()), r);
        lemma_clears_concat(c, seq![Draw::ResetAttributes], r);
    }
    lemma_clears_concat(d, start_row(e.term_rows - 1), r);
    lemma_clears_concat(f, puts(e.status), r);
}

proof fn lemma_clears_text_area(e: EditorView, row: int)
    requires
        0 <= row < e.text_rows(),
    ensures
        clears(e.text_area(), row),
{
    if e.word_wrap {
        lemma_clears_wrap_area(e, 0, e.top, row);
    } else {
        lemma_clears_cut_area(e, e.text_rows(), row);
    }
}

/// A frame clears what its parts clear.
proof fn lemma_clears_frame(
    hide: Seq<Draw>,
    text: Seq<Draw>,
    help: Seq<Draw>,
    bars: Seq<Draw>,
    end: Seq<Draw>,
    row: int,
)
    requires
        clears(text, row) || clears(help, row) || clears(bars, row),
    ensures
        clears(hide + text + help + bars + end, row),
{
    if clears(text, row) {
        lemma_clears_concat(hide, text, row);
    }
    if clears(text, row) || clears(help, row) {
        lemma_clears_concat(hide + text, help, row);
    }
    lemma_clears_concat(hide + text + help, bars, row);
    lemma_clears_concat(hide + text + help + bars, end, row);
}

/// Some part of a frame clears a row.
proof fn lemma_clears_part(e: EditorView, row: int)
    requires
        0 <= row < e.term_rows,
        e.term_rows >= 2,
    ensures
        clears(e.text_area(), row) || clears(e.help_panel(), row) || clears(e.bars(), row),
{
    if row < e.text_rows() {
        lemma_clears_text_area(e, row);
    } else if row < e.term_rows - 2 {
        lemma_clears_help(e.text_rows(), HELP_ROWS as int, row);
    } else {
        lemma_clears_bars(e, row);
    }
}

/// Every frame clears and redraws every row of the screen, if the terminal has
/// room for the two bars. Where the help panel is shown in a terminal that is too
/// low for it, panel and bars fill the screen.
#[verifier::spinoff_prover]
pub proof fn law_frame_redraws_every_row(e: EditorView, row: int)
    requires
        0 <= row < e.term_rows,
        e.term_rows >= 2,
    ensures
        clears(e.frame(), row),
{
    lemma_clears_part(e, row);
    lemma_clears_frame(
        seq![Draw::HideCursor],
        e.text_area(),
        e.help_panel(),
        e.bars(),
        seq![e.place_cursor(), Draw::ShowCursor],
        row,
    );
}

} // verus!
