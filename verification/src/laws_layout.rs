//! Where characters, lines and the cursor stand.

use vstd::prelude::*;
use crate::layout::{
    cells, columns, is_boundary, is_boundary_ge, is_boundary_le, lemma_columns_monotonic, span,
    wrap_by, wrap_pos, wrapped,
};
use crate::outside::char_width;
use crate::state::EditorView;

verus! {

// ── Columns ──────────────────────────────────────────────────────────────

/// The columns of a character: none for a control character, one for printable
/// ASCII, and for any other what its width is.
pub proof fn law_cells(c: char)
    ensures
        (c as u32) < 0x20 ==> cells(c) == 0,
        0x20 <= c as u32 && (c as u32) < 0x7f ==> cells(c) == 1,
        0x7f <= c as u32 && (c as u32) < 0xa0 ==> cells(c) == 0,
        0xa0 <= c as u32 && (char_width(c) matches Some(n) && n <= 3) ==> cells(c)
            == char_width(c)->Some_0,
{
}

/// A character adds its own columns to a line; a tab reaches to the next
/// multiple of four.
pub proof fn law_columns(line: Seq<char>, c: char)
    ensures
        columns(Seq::empty()) == 0,
        c != '\t' ==> columns(line.push(c)) == columns(line) + cells(c),
        ({
            let x = columns(line);
            let next = columns(line.push('\t'));
            x < next <= x + 4 && next % 4 == 0
        }),
        c != '\t' ==> span(c, columns(line)) == cells(c),
        columns(line) + span('\t', columns(line)) == columns(line.push('\t')),
{
    assert(line.push(c).drop_last() =~= line);
    assert(line.push('\t').drop_last() =~= line);
}

/// A tab takes as many columns as are left to the next multiple of four, and at
/// least one; any other character its own, wherever it stands.
pub proof fn law_span(c: char, x: nat)
    ensures
        c == '\t' ==> 1 <= span(c, x) <= 4 && (x + span(c, x)) % 4 == 0,
        c != '\t' ==> span(c, x) == cells(c),
{
}

/// The column of a position without wrapping is that of the characters before
/// it, as a terminal counts it: in sixteen bits.
pub proof fn law_display_col(e: EditorView, row: int, col: int)
    ensures
        columns(e.lines[row].take(col)) < 0x1_0000 ==> e.display_col(row, col) == columns(
            e.lines[row].take(col),
        ),
        e.display_col(row, col) < 0x1_0000,
        (columns(e.lines[row].take(col)) - e.display_col(row, col)) % 0x1_0000 == 0,
{
}

/// The last boundary at or before a column is one, and no later one is.
pub proof fn law_boundary_before(line: Seq<char>, target: nat, x: nat, k: int)
    requires
        is_boundary_le(line, target, x),
        0 <= k <= line.len(),
    ensures
        x <= target,
        exists|j: int| 0 <= j <= line.len() && x == #[trigger] columns(line.take(j)),
        columns(line.take(k)) <= target ==> columns(line.take(k)) <= x,
{
    assert(is_boundary(line, columns(line.take(k))));
}

/// The first boundary at or behind a column is one, and no earlier one is; where
/// there is none it is the end of the line.
pub proof fn law_boundary_behind(line: Seq<char>, target: nat, x: nat, k: int)
    requires
        is_boundary_ge(line, target, x),
        0 <= k <= line.len(),
    ensures
        target <= x || (x == columns(line) && columns(line) < target),
        exists|j: int| 0 <= j <= line.len() && x == #[trigger] columns(line.take(j)),
        target <= columns(line.take(k)) ==> x <= columns(line.take(k)),
{
    assert(is_boundary(line, columns(line.take(k))));
}

/// Scrolling sideways moves the screen no further than needed: to the left, it
/// then begins at the cursor; to the right, no boundary between characters
/// further left shows the cursor.
pub proof fn law_least_scrolling(e: EditorView, left: int, k: int)
    requires
        e.wf(),
        e.term_cols > 0,
        columns(e.lines[e.row].take(e.col)) < 0x1_0000,
        e.is_left(left),
        0 <= k <= e.lines[e.row].len(),
    ensures
        ({
            let line = e.lines[e.row];
            let x = columns(line.take(e.col)) as int;
            if x < e.left {
                left == x
            } else if x < e.left + e.term_cols {
                left == e.left
            } else {
                &&& left <= x < left + e.term_cols
                &&& exists|j: int| 0 <= j <= line.len() && left == #[trigger] columns(line.take(j))
                &&& columns(line.take(k)) + e.term_cols > x ==> left <= columns(line.take(k))
            }
        }),
{
    let line = e.lines[e.row];
    let x = columns(line.take(e.col));
    assert(is_boundary(line, x));
    assert(is_boundary(line, columns(line.take(k))));
    lemma_columns_monotonic(line, e.col, line.len() as int);
    assert(line.take(line.len() as int) =~= line);
}

/// Without columns the screen does not scroll.
pub proof fn law_no_columns(e: EditorView, left: int)
    requires
        e.term_cols == 0,
        e.is_left(left),
    ensures
        left == e.left,
{
}

// ── Wrapping ─────────────────────────────────────────────────────────────

/// Where writing stands after one more character: behind it in the same row if
/// it does not fill the row; at the start of the next row if it fills the row
/// exactly; behind it in the next row if it does not fit. A tab is split
/// instead, and so is a character that begins behind the end of the row, as it
/// may in a very narrow terminal.
pub proof fn law_wrap_step(tw: nat, line: Seq<char>, c: char)
    ensures
        wrapped(tw, Seq::empty()) == (0nat, 0nat),
        ({
            let (row, x) = wrapped(tw, line);
            let w = if c == '\t' {
                (columns(line.push('\t')) - columns(line)) as nat
            } else {
                cells(c)
            };
            wrapped(tw, line.push(c)) == (if x + w < tw {
                (row, x + w)
            } else if x + w == tw {
                (row + 1, 0nat)
            } else if c == '\t' || x >= tw {
                (row + 1, (x + w - tw) as nat)
            } else {
                (row + 1, w)
            })
        }),
{
    assert(line.push(c).drop_last() =~= line);
    law_columns(line, c);
}

/// Columns that are written from a place in a row lead on in it, as long as they
/// do not reach its end; else to the next row, where what begins in the row and
/// is no tab is written whole.
pub proof fn law_wrap_columns(tw: nat, x: nat, row: nat, w: nat, tab: bool)
    ensures
        x + w < tw ==> wrap_by(tw, x, row, w, tab) == (row, x + w),
        x + w == tw ==> wrap_by(tw, x, row, w, tab) == (row + 1, 0nat),
        x < tw < x + w && !tab ==> wrap_by(tw, x, row, w, tab) == (row + 1, w),
        x < tw < x + w && tab ==> wrap_by(tw, x, row, w, tab) == (row + 1, (x + w - tw) as nat),
        tw <= x ==> wrap_by(tw, x, row, w, tab) == (row + 1, (x + w - tw) as nat),
{
}

/// A character stands where writing has come to with the characters before it,
/// or at the start of the next row if it does not fit; a tab is split instead.
/// The end of a line stands where writing has come to with the line.
pub proof fn law_wrap_position(tw: nat, line: Seq<char>, col: nat)
    ensures
        tw == 0 ==> wrap_pos(tw, line, col) == (0nat, 0nat),
        tw > 0 && col >= line.len() ==> wrap_pos(tw, line, col) == wrapped(tw, line),
        tw > 0 && col < line.len() ==> {
            let c = line[col as int];
            let (row, x) = wrapped(tw, line.take(col as int));
            wrap_pos(tw, line, col) == (if c != '\t' && x < tw && x + cells(c) > tw {
                (row + 1, 0nat)
            } else {
                (row, x)
            })
        },
{
}

/// A line takes one row of the screen, and where lines are wrapped one for each
/// row that it reaches; several lines take the rows of all of them.
pub proof fn law_heights(e: EditorView, a: int, b: int, c: int)
    requires
        a <= b <= c,
    ensures
        e.heights(a, a) == 0,
        e.heights(a, a + 1) == e.visual_height(a),
        e.heights(a, c) == e.heights(a, b) + e.heights(b, c),
        !e.word_wrap || e.term_cols == 0 ==> e.visual_height(a) == 1,
        e.word_wrap && e.term_cols > 0 ==> e.visual_height(a) == wrapped(
            e.term_cols as nat,
            e.lines[a],
        ).0 + 1,
    decreases b - a,
{
    reveal_with_fuel(EditorView::heights, 2);
    if a < b {
        law_heights(e, a + 1, b, c);
    }
}

/// A wrapped text is scrolled to the line of the cursor where that stood above
/// the screen, and not at all where the cursor was on it.
pub proof fn law_wrapped_scrolling(e: EditorView)
    requires
        e.doc_ok(),
    ensures
        e.row < e.top ==> e.adjust_scroll_wrap().top == e.row,
        e.top <= e.row && e.heights(e.top, e.row) + e.wrap_cursor().0 < e.text_rows()
            ==> e.adjust_scroll_wrap() == e,
        e.wrap_cursor() == wrap_pos(e.term_cols as nat, e.lines[e.row], e.col as nat),
{
}

/// Where the cursor stands on the screen: below the first line shown by the rows
/// between, and right of the first column shown by the columns between; with
/// wrapping, where its character stands.
pub proof fn law_cursor_on_screen(e: EditorView)
    requires
        e.wf(),
    ensures
        !e.word_wrap ==> e.text_cursor().0 == e.row - e.top,
        !e.word_wrap && e.left <= e.cursor_col() ==> e.text_cursor().1 == e.cursor_col() - e.left,
        !e.word_wrap && e.cursor_col() < e.left ==> e.text_cursor().1 == 0,
        e.word_wrap ==> {
            let at = wrap_pos(e.term_cols as nat, e.lines[e.row], e.col as nat);
            e.text_cursor() == ((e.heights(e.top, e.row) + at.0) as int, at.1 as int)
        },
        e.cursor_col() == e.display_col(e.row, e.col),
{
}

/// Before the screen is shown it is scrolled to the cursor: sideways without
/// wrapping, and else down, from the left edge of the text.
pub proof fn law_scrolled(e: EditorView, after: EditorView)
    requires
        e.scrolled_to(after),
    ensures
        e.word_wrap ==> after == (EditorView { left: 0, top: e.adjust_scroll_wrap().top, ..e }),
        !e.word_wrap ==> after == (EditorView { left: after.left, ..e }) && e.is_left(after.left),
{
}

/// A screen can be scrolled to a cursor in the text. It can be shown while it has
/// room for the bars, the text and its rows can be counted, and the cursor has a
/// place: in the input field, at a column that a terminal can count, or else in
/// the text.
pub proof fn law_can_be_shown(e: EditorView)
    ensures
        e.scrollable() <==> e.fits() && (e.word_wrap || e.col <= e.lines[e.row].len()),
        e.renderable() <==> {
            &&& 0 <= e.row < e.lines.len()
            &&& 0 <= e.col < usize::MAX
            &&& e.fits()
            &&& e.prompt.ok()
            &&& e.term_rows >= 2
            &&& e.word_wrap || e.top + e.text_rows() <= usize::MAX
            &&& e.prompt.field_col() matches Some(col) ==> col <= 0xffff
            &&& e.prompt.field_col() is None ==> e.col <= e.lines[e.row].len() && (e.word_wrap
                || e.top <= e.row)
        },
{
}

} // verus!
