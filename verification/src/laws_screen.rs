//! What holds of the layout of the screen.

use vstd::prelude::*;
use crate::layout::{
    cells, columns, is_boundary, is_boundary_ge, is_boundary_le, lemma_columns_monotonic, span,
    wrap_pos, wrapped, TAB_WIDTH,
};
use crate::state::EditorView;

verus! {

// ── Columns ──────────────────────────────────────────────────────────────

/// A tab takes at least one column and ends at a tab stop.
pub proof fn law_tab_stops(line: Seq<char>)
    ensures
        columns(line.push('\t')) > columns(line),
        columns(line.push('\t')) <= columns(line) + TAB_WIDTH,
        columns(line.push('\t')) % (TAB_WIDTH as nat) == 0,
{
    assert(line.push('\t').drop_last() =~= line);
}

/// No boundary stands behind the end of its line.
proof fn lemma_boundary_in_line(line: Seq<char>, x: nat)
    requires
        is_boundary(line, x),
    ensures
        x <= columns(line),
{
    let k = choose|k: int| 0 <= k <= line.len() && x == #[trigger] columns(line.take(k));
    lemma_columns_monotonic(line, k, line.len() as int);
    assert(line.take(line.len() as int) =~= line);
}

/// At most one column is the last boundary at or before another.
proof fn lemma_boundary_le_unique(line: Seq<char>, target: nat, a: nat, b: nat)
    requires
        is_boundary_le(line, target, a),
        is_boundary_le(line, target, b),
    ensures
        a == b,
{
}

/// At most one column is the first boundary at or behind another.
proof fn lemma_boundary_ge_unique(line: Seq<char>, target: nat, a: nat, b: nat)
    requires
        is_boundary_ge(line, target, a),
        is_boundary_ge(line, target, b),
    ensures
        a == b,
{
    lemma_boundary_in_line(line, a);
    lemma_boundary_in_line(line, b);
}

/// Scrolling sideways leaves no choice of the first column.
pub proof fn law_left_unique(e: EditorView, a: int, b: int)
    requires
        e.is_left(a),
        e.is_left(b),
    ensures
        a == b,
{
    let line = e.lines[e.row];
    let x = e.cursor_col() as int;
    let w = e.term_cols;
    if w != 0 && x < e.left {
        lemma_boundary_le_unique(line, x as nat, a as nat, b as nat);
    } else if w != 0 && x >= e.left + w {
        let target = if x >= w {
            (x - (w - 1)) as nat
        } else {
            0
        };
        lemma_boundary_ge_unique(line, target, a as nat, b as nat);
    }
}

/// After scrolling sideways the cursor is on the screen, if the terminal has
/// columns and can count those of the cursor.
pub proof fn law_cursor_between_edges(e: EditorView, left: int)
    requires
        e.wf(),
        e.term_cols > 0,
        columns(e.lines[e.row].take(e.col)) < 0x1_0000,
        e.is_left(left),
    ensures
        left <= e.cursor_col() < left + e.term_cols,
{
    let line = e.lines[e.row];
    let x = columns(line.take(e.col));
    assert(is_boundary(line, x));
    lemma_boundary_in_line(line, x);
}

/// Scrolling sideways moves the screen only when the cursor would not be on it.
pub proof fn law_screen_stays(e: EditorView, left: int)
    requires
        e.is_left(left),
        e.left <= e.cursor_col() < e.left + e.term_cols,
    ensures
        left == e.left,
{
}

// ── Wrapping ─────────────────────────────────────────────────────────────

/// Whether every character of a line has room in a row of the terminal: a tab
/// takes no more columns than there are, any other character takes fewer.
pub open spec fn roomy(tw: nat, line: Seq<char>) -> bool {
    tw > 0 && forall|i: int|
        0 <= i < line.len() ==> #[trigger] span(line[i], columns(line.take(i))) < tw || (line[i]
            == '\t' && span(line[i], columns(line.take(i))) == tw)
}

/// Every line has room in a terminal of at least four columns.
pub proof fn law_four_columns_are_roomy(tw: nat, line: Seq<char>)
    requires
        tw >= 4,
    ensures
        roomy(tw, line),
{
}

/// A part of a line has room where the line has.
pub proof fn lemma_roomy_take(tw: nat, line: Seq<char>, n: int)
    requires
        roomy(tw, line),
        0 <= n <= line.len(),
    ensures
        roomy(tw, line.take(n)),
{
    let part = line.take(n);
    assert forall|i: int| 0 <= i < part.len() implies #[trigger] span(
        part[i],
        columns(part.take(i)),
    ) < tw || (part[i] == '\t' && span(part[i], columns(part.take(i))) == tw) by {
        assert(part.take(i) =~= line.take(i));
        assert(part[i] == line[i]);
    }
}

/// Where every character has room, writing never goes on behind the last
/// column.
pub proof fn law_wrap_within_screen(tw: nat, line: Seq<char>)
    requires
        roomy(tw, line),
    ensures
        wrapped(tw, line).1 < tw,
    decreases line.len(),
{
    if line.len() > 0 {
        let n = line.len() - 1;
        lemma_roomy_take(tw, line, n);
        assert(line.take(n) =~= line.drop_last());
        assert(span(line[n], columns(line.take(n))) <= tw);
        law_wrap_within_screen(tw, line.drop_last());
    }
}

/// Where every character has room, no character but a tab is split between two
/// rows: one that does not fit into its row stands at the start of the next.
pub proof fn law_wrap_splits_nothing(tw: nat, line: Seq<char>, col: int)
    requires
        roomy(tw, line),
        0 <= col < line.len(),
        line[col] != '\t',
    ensures
        ({
            let at = wrap_pos(tw, line, col as nat);
            let before = wrapped(tw, line.take(col));
            &&& at.1 + cells(line[col]) <= tw
            &&& at == before || (at == (before.0 + 1, 0nat) && before.1 + cells(line[col]) > tw)
        }),
{
    lemma_roomy_take(tw, line, col);
    law_wrap_within_screen(tw, line.take(col));
    assert(span(line[col], columns(line.take(col))) <= tw);
}

/// Wrapped or not, a longer part of a line ends in no earlier row.
pub proof fn law_wrap_goes_down(tw: nat, line: Seq<char>, i: int, j: int)
    requires
        0 <= i <= j <= line.len(),
    ensures
        wrapped(tw, line.take(i)).0 <= wrapped(tw, line.take(j)).0,
    decreases j - i,
{
    if i < j {
        law_wrap_goes_down(tw, line, i, j - 1);
        assert(line.take(j).drop_last() =~= line.take(j - 1));
    }
}

/// What `first_showing` finds.
proof fn lemma_first_showing(e: EditorView, top: int)
    requires
        top <= e.row,
    ensures
        ({
            let t = e.first_showing(top);
            &&& top <= t <= e.row
            &&& t == e.row || e.heights(t, e.row) + e.wrap_cursor().0 < e.text_rows()
            &&& forall|s: int|
                top <= s < t ==> #[trigger] e.heights(s, e.row) + e.wrap_cursor().0
                    >= e.text_rows()
        }),
    decreases e.row - top,
{
    if !(top >= e.row || e.heights(top, e.row) + e.wrap_cursor().0 < e.text_rows()) {
        lemma_first_showing(e, top + 1);
    }
}

/// Scrolling a wrapped text brings the cursor on the screen, unless its own line
/// alone is too high for that; it scrolls no further than needed.
pub proof fn law_wrapped_cursor_on_screen(e: EditorView)
    requires
        e.doc_ok(),
    ensures
        ({
            let after = e.adjust_scroll_wrap();
            let cursor_row = after.heights(after.top, after.row) + after.wrap_cursor().0;
            &&& after == (EditorView { top: after.top, ..e })
            &&& after.top <= after.row
            &&& after.top == after.row || cursor_row < after.text_rows()
            &&& e.top <= e.row && after.top != e.top ==> e.top < after.top && (forall|s: int|
                e.top <= s < after.top ==> #[trigger] e.heights(s, e.row) + e.wrap_cursor().0
                    >= e.text_rows())
        }),
{
    let after = e.adjust_scroll_wrap();
    if e.row >= e.top {
        lemma_first_showing(e, e.top);
    }
    lemma_heights_top(e, after, after.top, e.row);
}

/// The rows of lines do not depend on the scrolling.
proof fn lemma_heights_top(a: EditorView, b: EditorView, from: int, to: int)
    requires
        b == (EditorView { top: b.top, ..a }),
    ensures
        a.heights(from, to) == b.heights(from, to),
    decreases to - from,
{
    if from < to {
        lemma_heights_top(a, b, from + 1, to);
    }
}

} // verus!
