//! Which characters the terminal shows of lines that go on in the next row.

use vstd::prelude::*;
use crate::area::{inscribe, tab_text, then_stroke, Pen, Stroke};
use crate::draw::{blanks, plain, puts, restyle, start_row, unstyle, Draw, Style};
use crate::laws_paint::{
    below_text, ink, law_restyled, law_style, lemma_frame, lemma_ink_concat, lemma_ink_puts,
    lemma_ink_start_row, lemma_writes, text_ink, wanted, writes,
};
use crate::laws_render::{
    law_wrapped_chars_in_place, lemma_tip_concat, lemma_tip_restyle, lemma_tip_start_row, tip,
};
use crate::laws_screen::{law_wrap_within_screen, lemma_roomy_take, roomy};
use crate::layout::{cells, columns, span, wrap_pos, wrapped};
use crate::state::EditorView;

verus! {

/// With wrapping lines are written one below the other, each in as many rows as
/// it takes, and a tilde in each row below the end of the text.
pub proof fn law_wrapped_rows(e: EditorView, screen_row: int, row: int)
    requires
        0 <= screen_row <= u16::MAX,
    ensures
        e.word_wrap ==> e.text_area() == e.wrap_area(0, e.top),
        screen_row >= e.text_rows() ==> e.wrap_area(screen_row, row) == Seq::<Draw>::empty(),
        screen_row < e.text_rows() && row >= e.lines.len() ==> e.wrap_area(screen_row, row)
            == seq![
            Draw::MoveTo { col: 0, row: screen_row as u16 },
            Draw::ClearLine,
            Draw::Put('~'),
        ] + e.wrap_area(screen_row + 1, row),
        screen_row < e.text_rows() && row < e.lines.len() ==> {
            let line = e.wrap_line(screen_row, row);
            e.wrap_area(screen_row, row) == line.ops + e.wrap_area(
                screen_row + line.pen.row + 1,
                row + 1,
            )
        },
        ({
            let all = e.wrap_chars(screen_row, row, e.lines[row].len() as int);
            let line = e.wrap_line(screen_row, row);
            &&& line.pen == all.pen
            &&& line.ops == all.ops + (if all.pen.style == plain() {
                Seq::empty()
            } else {
                seq![Draw::ResetStyle]
            })
        }),
        e.wrap_chars(screen_row, row, 0) == (Stroke {
            pen: Pen { row: 0, x: 0, style: plain() },
            ops: seq![Draw::MoveTo { col: 0, row: screen_row as u16 }, Draw::ClearLine],
        }),
{
    assert(puts(seq!['~']) =~= seq![Draw::Put('~')]);
    if screen_row < e.text_rows() && row >= e.lines.len() {
        assert(e.wrap_area(screen_row, row) =~= seq![
            Draw::MoveTo { col: 0, row: screen_row as u16 },
            Draw::ClearLine,
            Draw::Put('~'),
        ] + e.wrap_area(screen_row + 1, row));
    }
}

/// Going on in the next row: back to ordinary text, and to the start of the row,
/// which is cleared, if it is on the screen.
pub open spec fn turn(e: EditorView, style: Style, row: int) -> Seq<Draw> {
    (if style == plain() {
        Seq::empty()
    } else {
        seq![Draw::ResetStyle]
    }) + (if row < e.text_rows() {
        seq![Draw::MoveTo { col: 0, row: row as u16 }, Draw::ClearLine]
    } else {
        Seq::empty()
    })
}

/// A character that fits into its row.
proof fn lemma_placed(
    e: EditorView,
    screen_row: int,
    ops: Seq<Draw>,
    pen: Pen,
    style: Style,
    text: Seq<char>,
    w: nat,
)
    requires
        0 <= screen_row,
        e.text_rows() <= u16::MAX,
    ensures
        ({
            let done = then_stroke(
                Stroke { pen, ops },
                e.place_text(screen_row, pen, style, text, w),
            );
            let written = ops + restyle(pen.style, style) + puts(text);
            if pen.x + w != e.term_cols {
                &&& done.ops == written
                &&& done.pen == (Pen { row: pen.row, x: pen.x + w, style })
            } else {
                &&& done.ops == written + turn(e, style, screen_row + pen.row + 1)
                &&& done.pen == (Pen { row: pen.row + 1, x: 0, style: plain() })
            }
        }),
{
    let one = inscribe(pen, style, text, w);
    let written = ops + restyle(pen.style, style) + puts(text);
    assert(ops + one.ops =~= written);
    let next = screen_row + pen.row + 1;
    assert(e.next_vis_row(screen_row, one.pen).ops =~= turn(e, style, next));
    assert(ops + (one.ops + turn(e, style, next)) =~= written + turn(e, style, next));
}

/// A character that does not fit into its row.
proof fn lemma_carried(
    e: EditorView,
    screen_row: int,
    ops: Seq<Draw>,
    pen: Pen,
    style: Style,
    gap: nat,
    text: Seq<char>,
    w: nat,
)
    requires
        0 <= screen_row,
        e.text_rows() <= u16::MAX,
    ensures
        ({
            let done = then_stroke(
                Stroke { pen, ops },
                e.wrap_text(screen_row, pen, style, gap, text, w),
            );
            let next = screen_row + pen.row + 1;
            let filled = ops + restyle(pen.style, style) + puts(blanks(gap)) + turn(
                e,
                style,
                next,
            );
            if next < e.text_rows() {
                &&& done.ops == filled + restyle(plain(), style) + puts(text)
                &&& done.pen == (Pen { row: pen.row + 1, x: w, style })
            } else {
                &&& done.ops == filled
                &&& done.pen == (Pen { row: pen.row + 1, x: 0, style: plain() })
            }
        }),
{
    let next = screen_row + pen.row + 1;
    let fill = inscribe(pen, style, blanks(gap), gap);
    let turned = e.next_vis_row(screen_row, fill.pen);
    let over = turn(e, style, next);
    assert(turned.ops =~= over);
    let filled = ops + restyle(pen.style, style) + puts(blanks(gap)) + over;
    assert(ops + (fill.ops + over) =~= filled);
    let last = restyle(plain(), style) + puts(text);
    assert(ops + (fill.ops + over + last) =~= filled + restyle(plain(), style) + puts(text));
}

/// With wrapping a character is written behind those before it, if it fits into
/// the row; a tab is shown as a mark and blanks. One that does not fit follows
/// in the next row, behind blanks; so does what is left of a tab, as blanks, and
/// in a very narrow terminal what begins behind the end of the row. Below the
/// screen nothing is written.
pub proof fn law_wrapped_chars(e: EditorView, screen_row: int, row: int, i: int)
    requires
        0 <= screen_row,
        e.text_rows() <= u16::MAX,
        0 <= i < e.lines[row].len(),
    ensures
        ({
            let c = e.lines[row][i];
            let w = span(c, columns(e.lines[row].take(i)));
            let before = e.wrap_chars(screen_row, row, i);
            let after = e.wrap_chars(screen_row, row, i + 1);
            let pen = before.pen;
            let next = screen_row + pen.row + 1;
            let fits = pen.x + w <= e.term_cols;
            let style = e.style_at(row, i, c == '\t' && fits);
            let gap = if pen.x <= e.term_cols {
                (e.term_cols - pen.x) as nat
            } else {
                0
            };
            if screen_row + pen.row >= e.text_rows() {
                after == before
            } else if fits {
                let text = if c == '\t' {
                    seq!['>'] + blanks((w - 1) as nat)
                } else {
                    seq![c]
                };
                let written = before.ops + restyle(pen.style, style) + puts(text);
                if pen.x + w < e.term_cols {
                    &&& after.ops == written
                    &&& after.pen == (Pen { row: pen.row, x: pen.x + w, style })
                } else {
                    &&& after.ops == written + turn(e, style, next)
                    &&& after.pen == (Pen { row: pen.row + 1, x: 0, style: plain() })
                }
            } else {
                let filled = before.ops + restyle(pen.style, style) + puts(blanks(gap)) + turn(
                    e,
                    style,
                    next,
                );
                let (text, columns) = if c == '\t' || gap == 0 {
                    (blanks((w - gap) as nat), (w - gap) as nat)
                } else {
                    (seq![c], w)
                };
                if next < e.text_rows() {
                    &&& after.ops == filled + restyle(plain(), style) + puts(text)
                    &&& after.pen == (Pen { row: pen.row + 1, x: columns, style })
                } else {
                    &&& after.ops == filled
                    &&& after.pen == (Pen { row: pen.row + 1, x: 0, style: plain() })
                }
            }
        }),
{
    let c = e.lines[row][i];
    let w = span(c, columns(e.lines[row].take(i)));
    let before = e.wrap_chars(screen_row, row, i);
    let pen = before.pen;
    let gap = if pen.x <= e.term_cols {
        (e.term_cols - pen.x) as nat
    } else {
        0
    };
    if screen_row + pen.row >= e.text_rows() {
        assert(e.wrap_chars(screen_row, row, i + 1).ops =~= before.ops);
    } else if pen.x + w <= e.term_cols {
        let style = e.style_at(row, i, c == '\t');
        let text = if c == '\t' {
            tab_text(w)
        } else {
            seq![c]
        };
        lemma_placed(e, screen_row, before.ops, pen, style, text, w);
    } else {
        let style = e.style_at(row, i, false);
        if c == '\t' || gap == 0 {
            let rest = (w - gap) as nat;
            lemma_carried(e, screen_row, before.ops, pen, style, gap, blanks(rest), rest);
        } else {
            lemma_carried(e, screen_row, before.ops, pen, style, gap, seq![c], w);
        }
    }
}

/// A stroke leaves the colour of its pen in force.
spec fn true_ink(style: Style, stroke: Stroke) -> bool {
    ink(wanted(style), stroke.ops) == wanted(stroke.pen.style)
}

/// One stroke after another leaves the colour of the second.
proof fn lemma_then_ink(style: Style, first: Stroke, second: Stroke)
    requires
        true_ink(style, first),
        true_ink(first.pen.style, second),
    ensures
        true_ink(style, then_stroke(first, second)),
{
    lemma_ink_concat(wanted(style), first.ops, second.ops);
}

/// Writing leaves the colour that it was done in.
proof fn lemma_inscribe_ink(pen: Pen, style: Style, text: Seq<char>, w: nat)
    ensures
        true_ink(pen.style, inscribe(pen, style, text, w)),
{
    lemma_ink_concat(wanted(pen.style), restyle(pen.style, style), puts(text));
    law_restyled(pen.style, style);
    lemma_ink_puts(wanted(style), text);
}

/// The next row begins in ordinary text.
proof fn lemma_next_row_ink(e: EditorView, screen_row: int, pen: Pen)
    ensures
        true_ink(pen.style, e.next_vis_row(screen_row, pen)),
{
    let row = screen_row + pen.row + 1;
    law_restyled(pen.style, plain());
    if row < e.text_rows() {
        lemma_ink_concat(wanted(pen.style), unstyle(pen.style), start_row(row));
        lemma_ink_start_row(Seq::empty(), row);
    } else {
        assert(unstyle(pen.style) + Seq::<Draw>::empty() =~= unstyle(pen.style));
    }
}

/// A character leaves the colour of its pen.
proof fn lemma_wrap_char_ink(e: EditorView, screen_row: int, row: int, i: int, pen: Pen)
    ensures
        true_ink(pen.style, e.wrap_char(screen_row, row, i, pen)),
{
    let c = e.lines[row][i];
    let w = span(c, columns(e.lines[row].take(i)));
    let tab = c == '\t';
    let avail = if pen.x <= e.term_cols {
        (e.term_cols - pen.x) as nat
    } else {
        0
    };
    if screen_row + pen.row >= e.text_rows() {
    } else if (!tab && 0 < avail < w) || pen.x + w > e.term_cols {
        let style = e.style_at(row, i, false);
        let rest = (w - avail) as nat;
        let (text, n) = if !tab && 0 < avail < w {
            (seq![c], w)
        } else {
            (blanks(rest), rest)
        };
        let fill = inscribe(pen, style, blanks(avail), avail);
        let over = e.next_vis_row(screen_row, fill.pen);
        let turned = then_stroke(fill, over);
        let last = inscribe(turned.pen, style, text, n);
        lemma_inscribe_ink(pen, style, blanks(avail), avail);
        lemma_next_row_ink(e, screen_row, fill.pen);
        lemma_then_ink(pen.style, fill, over);
        lemma_inscribe_ink(turned.pen, style, text, n);
        lemma_then_ink(pen.style, turned, last);
    } else {
        let style = e.style_at(row, i, tab);
        let text = if tab {
            tab_text(w)
        } else {
            seq![c]
        };
        let done = inscribe(pen, style, text, w);
        let over = e.next_vis_row(screen_row, done.pen);
        lemma_inscribe_ink(pen, style, text, w);
        lemma_next_row_ink(e, screen_row, done.pen);
        lemma_then_ink(pen.style, done, over);
    }
}

/// The colour in force in a line is that of its pen.
proof fn lemma_wrap_chars_ink(e: EditorView, screen_row: int, row: int, n: int)
    ensures
        ink(Seq::empty(), e.wrap_chars(screen_row, row, n).ops) == wanted(
            e.wrap_chars(screen_row, row, n).pen.style,
        ),
    decreases n,
{
    law_restyled(plain(), plain());
    if n <= 0 {
        lemma_ink_start_row(Seq::empty(), screen_row);
    } else {
        lemma_wrap_chars_ink(e, screen_row, row, n - 1);
        let before = e.wrap_chars(screen_row, row, n - 1);
        lemma_wrap_char_ink(e, screen_row, row, n - 1, before.pen);
        lemma_then_ink(plain(), before, e.wrap_char(screen_row, row, n - 1, before.pen));
    }
}

/// A line ends in ordinary text.
proof fn lemma_wrap_line_ink(e: EditorView, screen_row: int, row: int)
    ensures
        ink(Seq::empty(), e.wrap_line(screen_row, row).ops) == Seq::<Draw>::empty(),
{
    let all = e.wrap_chars(screen_row, row, e.lines[row].len() as int);
    lemma_wrap_chars_ink(e, screen_row, row, e.lines[row].len() as int);
    lemma_ink_concat(Seq::empty(), all.ops, unstyle(all.pen.style));
    law_restyled(all.pen.style, plain());
}

/// The rows of the screen above a line end in ordinary text.
proof fn lemma_rows_above(e: EditorView, screen_row: int, from: int, row: int) -> (before: Seq<
    Draw,
>)
    requires
        e.doc_ok(),
        e.word_wrap,
        e.term_cols > 0,
        forall|r: int| from <= r < row ==> roomy(e.term_cols as nat, #[trigger] e.lines[r]),
        0 <= screen_row,
        0 <= from <= row < e.lines.len(),
        screen_row + e.heights(from, row) < e.text_rows(),
    ensures
        e.wrap_area(screen_row, from) == before + e.wrap_area(
            screen_row + e.heights(from, row),
            row,
        ),
        ink(Seq::empty(), before) == Seq::<Draw>::empty(),
    decreases row - from,
{
    let none = Seq::<Draw>::empty();
    if from == row {
        assert(none + e.wrap_area(screen_row, row) =~= e.wrap_area(screen_row, row));
        none
    } else {
        let chars = e.lines[from];
        let n = chars.len() as int;
        assert(chars.take(n) =~= chars);
        law_wrapped_chars_in_place(e, screen_row, from, n, (0, 0));
        let line = e.wrap_line(screen_row, from);
        let next = screen_row + line.pen.row + 1;
        assert(line.pen.row + 1 == e.visual_height(from));
        let rest = lemma_rows_above(e, next, from + 1, row);
        lemma_wrap_line_ink(e, screen_row, from);
        lemma_ink_concat(none, line.ops, rest);
        assert(line.ops + (rest + e.wrap_area(screen_row + e.heights(from, row), row)) =~= line.ops
            + rest + e.wrap_area(screen_row + e.heights(from, row), row));
        line.ops + rest
    }
}

/// The first characters of a line come first.
proof fn lemma_wrap_chars_prefix(e: EditorView, screen_row: int, row: int, n: int, all: int) -> (
    rest: Seq<Draw>)
    requires
        0 <= n <= all,
    ensures
        e.wrap_chars(screen_row, row, all).ops == e.wrap_chars(screen_row, row, n).ops + rest,
    decreases all - n,
{
    let ops = e.wrap_chars(screen_row, row, n).ops;
    if n == all {
        assert(ops + Seq::<Draw>::empty() =~= ops);
        Seq::empty()
    } else {
        let rest = lemma_wrap_chars_prefix(e, screen_row, row, n, all - 1);
        let before = e.wrap_chars(screen_row, row, all - 1);
        let more = e.wrap_char(screen_row, row, all - 1, before.pen).ops;
        assert(ops + rest + more =~= ops + (rest + more));
        rest + more
    }
}

/// The same instructions, grouped otherwise.
proof fn lemma_regroup_frame(
    a: Seq<Draw>,
    b: Seq<Draw>,
    c: Seq<Draw>,
    d: Seq<Draw>,
    f: Seq<Draw>,
    g: Seq<Draw>,
)
    ensures
        a + (b + (c + d + f)) + g == a + b + c + (d + f + g),
{
    assert(a + (b + (c + d + f)) + g =~= a + b + c + (d + f + g));
}

/// A line of the screen, with what is written before it and behind it.
proof fn lemma_wrapped_line_in_frame(e: EditorView, row: int) -> (parts: (Seq<Draw>, Seq<Draw>))
    requires
        e.doc_ok(),
        e.word_wrap,
        e.term_cols > 0,
        forall|r: int| e.top <= r < row ==> roomy(e.term_cols as nat, #[trigger] e.lines[r]),
        e.top <= row < e.lines.len(),
        e.heights(e.top, row) < e.text_rows(),
    ensures
        e.frame() == parts.0 + e.wrap_chars(
            e.heights(e.top, row) as int,
            row,
            e.lines[row].len() as int,
        ).ops + parts.1,
        ink(Seq::empty(), parts.0) == Seq::<Draw>::empty(),
{
    let none = Seq::<Draw>::empty();
    let hide = seq![Draw::HideCursor];
    let s = e.heights(e.top, row) as int;
    let above = lemma_rows_above(e, 0, e.top, row);
    let all = e.wrap_chars(s, row, e.lines[row].len() as int);
    let line = e.wrap_line(s, row);
    let end = unstyle(all.pen.style);
    let more = e.wrap_area(s + line.pen.row + 1, row + 1);
    let below = below_text(e);
    assert(e.wrap_area(s, row) == all.ops + end + more);
    lemma_frame(e);
    lemma_regroup_frame(hide, above, all.ops, end, more, below);
    lemma_ink_concat(none, hide, above);
    assert(ink(none, hide) == none) by {
        reveal_with_fuel(ink, 2);
        assert(hide.drop_last() =~= none);
    }
    (hide + above, end + more + below)
}

/// Instructions that write a character at a place, after some others and before
/// yet others.
proof fn lemma_writes_later(
    ops: Seq<Draw>,
    above: Seq<Draw>,
    styled: Seq<Draw>,
    c: char,
    behind: Seq<Draw>,
    below: Seq<Draw>,
    at: (int, int),
    colour: Seq<Draw>,
)
    requires
        ops == above + (styled + puts(seq![c]) + behind) + below,
        ink(Seq::empty(), above) == Seq::<Draw>::empty(),
        tip(tip((0, 0), above), styled) == at,
        ink(Seq::empty(), styled) == colour,
    ensures
        writes(ops, c, at, colour),
{
    let before = above + styled;
    lemma_tip_concat((0, 0), above, styled);
    lemma_ink_concat(Seq::empty(), above, styled);
    assert(ops =~= before + puts(seq![c]) + (behind + below));
    lemma_writes(ops, before, c, behind + below, at, colour);
}

/// Where a character stands that does not fit into its row: at the start of the
/// next, in ordinary colours until its own are set.
proof fn lemma_next_row_start(
    e: EditorView,
    from: (int, int),
    ops: Seq<Draw>,
    old: Style,
    style: Style,
    gap: nat,
    next: int,
)
    requires
        0 <= next < e.text_rows() <= u16::MAX,
        ink(Seq::empty(), ops) == wanted(old),
    ensures
        ({
            let filled = ops + restyle(old, style) + puts(blanks(gap)) + turn(e, style, next);
            &&& tip(from, filled + restyle(plain(), style)) == (next, 0int)
            &&& ink(Seq::empty(), filled + restyle(plain(), style)) == wanted(style)
        }),
{
    let none = Seq::<Draw>::empty();
    let styled = ops + restyle(old, style);
    let written = styled + puts(blanks(gap));
    let reset = written + unstyle(style);
    let filled = written + turn(e, style, next);
    assert(turn(e, style, next) =~= unstyle(style) + start_row(next));
    assert(filled =~= reset + start_row(next));
    lemma_tip_concat(from, reset, start_row(next));
    lemma_tip_start_row(tip(from, reset), next);
    lemma_tip_concat(from, filled, restyle(plain(), style));
    lemma_tip_restyle(tip(from, filled), plain(), style);
    lemma_ink_concat(none, ops, restyle(old, style));
    law_restyled(old, style);
    lemma_ink_concat(none, styled, puts(blanks(gap)));
    lemma_ink_puts(wanted(style), blanks(gap));
    lemma_ink_concat(none, written, unstyle(style));
    law_restyled(style, plain());
    lemma_ink_concat(none, reset, start_row(next));
    lemma_ink_start_row(none, next);
    lemma_ink_concat(none, filled, restyle(plain(), style));
    law_restyled(plain(), style);
}

/// A character that fits into its row, with what is written before it and behind
/// it in its line.
proof fn lemma_fitting_char(e: EditorView, s: int, row: int, i: int, from: (int, int)) -> (parts: (
    Seq<Draw>,
    Seq<Draw>,
))
    requires
        0 <= s,
        e.text_rows() <= u16::MAX,
        0 <= i < e.lines[row].len(),
        e.lines[row][i] != '\t',
        ({
            let pen = e.wrap_chars(s, row, i).pen;
            &&& pen.x < e.term_cols
            &&& s + pen.row < e.text_rows()
            &&& pen.x + cells(e.lines[row][i]) <= e.term_cols
        }),
    ensures
        ({
            let c = e.lines[row][i];
            let all = e.wrap_chars(s, row, e.lines[row].len() as int);
            &&& all.ops == parts.0 + puts(seq![c]) + parts.1
            &&& tip(from, parts.0) == tip(from, e.wrap_chars(s, row, i).ops)
            &&& ink(Seq::empty(), parts.0) == text_ink(e, row, i)
        }),
{
    let c = e.lines[row][i];
    let style = e.style_at(row, i, false);
    let before = e.wrap_chars(s, row, i);
    let after = e.wrap_chars(s, row, i + 1);
    let rest = lemma_wrap_chars_prefix(e, s, row, i + 1, e.lines[row].len() as int);
    let one = puts(seq![c]);
    let change = restyle(before.pen.style, style);
    let styled = before.ops + change;
    law_style(e, row, i, false);
    lemma_wrap_chars_ink(e, s, row, i);
    lemma_tip_concat(from, before.ops, change);
    lemma_tip_restyle(tip(from, before.ops), before.pen.style, style);
    lemma_ink_concat(Seq::empty(), before.ops, change);
    law_restyled(before.pen.style, style);
    if before.pen.x + cells(c) < e.term_cols {
        assert(after.ops == styled + one) by {
            law_wrapped_chars(e, s, row, i);
        }
        (styled, rest)
    } else {
        let over = turn(e, style, s + before.pen.row + 1);
        assert(after.ops == styled + one + over) by {
            law_wrapped_chars(e, s, row, i);
        }
        assert(styled + one + over + rest =~= styled + one + (over + rest));
        (styled, over + rest)
    }
}

/// A character that does not fit into its row, with what is written before it
/// and behind it in its line.
proof fn lemma_carried_char(e: EditorView, s: int, row: int, i: int, from: (int, int)) -> (parts: (
    Seq<Draw>,
    Seq<Draw>,
))
    requires
        0 <= s,
        e.text_rows() <= u16::MAX,
        0 <= i < e.lines[row].len(),
        e.lines[row][i] != '\t',
        ({
            let pen = e.wrap_chars(s, row, i).pen;
            &&& pen.x < e.term_cols
            &&& s + pen.row + 1 < e.text_rows()
            &&& pen.x + cells(e.lines[row][i]) > e.term_cols
        }),
    ensures
        ({
            let c = e.lines[row][i];
            let all = e.wrap_chars(s, row, e.lines[row].len() as int);
            &&& all.ops == parts.0 + puts(seq![c]) + parts.1
            &&& tip(from, parts.0) == (s + e.wrap_chars(s, row, i).pen.row + 1, 0int)
            &&& ink(Seq::empty(), parts.0) == text_ink(e, row, i)
        }),
{
    let c = e.lines[row][i];
    let style = e.style_at(row, i, false);
    let before = e.wrap_chars(s, row, i);
    let next = s + before.pen.row + 1;
    let gap = (e.term_cols - before.pen.x) as nat;
    let rest = lemma_wrap_chars_prefix(e, s, row, i + 1, e.lines[row].len() as int);
    let filled = before.ops + restyle(before.pen.style, style) + puts(blanks(gap)) + turn(
        e,
        style,
        next,
    );
    law_style(e, row, i, false);
    law_wrapped_chars(e, s, row, i);
    lemma_wrap_chars_ink(e, s, row, i);
    lemma_next_row_start(e, from, before.ops, before.pen.style, style, gap, next);
    (filled + restyle(plain(), style), rest)
}

/// With wrapping, where every character has room, each character of the text
/// whose place is on the screen is written there as itself, in the colour that
/// selection and search give it.
pub proof fn law_char_on_wrapped_screen(e: EditorView, row: int, i: int)
    requires
        e.doc_ok(),
        e.word_wrap,
        e.term_cols > 0,
        forall|r: int| e.top <= r <= row ==> roomy(e.term_cols as nat, #[trigger] e.lines[r]),
        e.top <= row < e.lines.len(),
        0 <= i < e.lines[row].len(),
        e.lines[row][i] != '\t',
        e.heights(e.top, row) + wrap_pos(e.term_cols as nat, e.lines[row], i as nat).0
            < e.text_rows(),
    ensures
        ({
            let at = wrap_pos(e.term_cols as nat, e.lines[row], i as nat);
            writes(
                e.frame(),
                e.lines[row][i],
                ((e.heights(e.top, row) + at.0) as int, at.1 as int),
                text_ink(e, row, i),
            )
        }),
{
    let tw = e.term_cols as nat;
    let line = e.lines[row];
    let s = e.heights(e.top, row) as int;
    let at = wrap_pos(tw, line, i as nat);
    let reached = wrapped(tw, line.take(i));
    let (above, below) = lemma_wrapped_line_in_frame(e, row);
    let from = tip((0, 0), above);
    lemma_roomy_take(tw, line, i);
    law_wrap_within_screen(tw, line.take(i));
    law_wrapped_chars_in_place(e, s, row, i, from);
    let (before, behind) = if reached.1 + cells(line[i]) <= tw {
        lemma_fitting_char(e, s, row, i, from)
    } else {
        lemma_carried_char(e, s, row, i, from)
    };
    lemma_writes_later(
        e.frame(),
        above,
        before,
        line[i],
        behind,
        below,
        (s + at.0, at.1 as int),
        text_ink(e, row, i),
    );
}

} // verus!
