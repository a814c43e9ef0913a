//! Where the cursor goes.

use vstd::prelude::*;
use crate::action::ActionView;
use crate::key::{KeyCode, KeyModifiers};
use crate::state::EditorView;

verus! {

/// Whether only cursor and scrolling differ.
pub open spec fn moved_only(after: EditorView, e: EditorView) -> bool {
    after == (EditorView { row: after.row, col: after.col, top: after.top, ..e })
}

/// Whether the cursor has kept its column as far as its line allows.
pub open spec fn column_kept(after: EditorView, e: EditorView) -> bool {
    if e.col <= e.lines[after.row].len() {
        after.col == e.col
    } else {
        after.col == e.lines[after.row].len()
    }
}

/// Whether the screen has scrolled by one line to follow the cursor downwards,
/// or not at all where the cursor was still on it.
pub open spec fn followed_down(after: EditorView, e: EditorView) -> bool {
    if after.row < e.top + e.text_rows() {
        after.top == e.top
    } else {
        after.top == e.top + 1
    }
}

/// Whether the screen has scrolled to follow the cursor upwards, or not at all
/// where the cursor was still on it.
pub open spec fn followed_up(after: EditorView, e: EditorView) -> bool {
    if e.top <= after.row {
        after.top == e.top
    } else {
        after.top == after.row
    }
}

/// Down leads to the next line, at the same column if that line is long enough
/// and else at its end; in the last line it does nothing.
pub proof fn law_down(e: EditorView, modifiers: KeyModifiers)
    requires
        e.wf(),
    ensures
        ({
            let after = e.move_down();
            &&& e.prompt is Closed ==> e.key(KeyCode::Down, modifiers) == (after, ActionView::Continue)
            &&& moved_only(after, e)
            &&& if e.row + 1 < e.lines.len() {
                after.row == e.row + 1 && column_kept(after, e) && followed_down(after, e)
            } else {
                after == e
            }
        }),
{
}

/// Up leads to the line above, at the same column if that line is long enough
/// and else at its end; in the first line it does nothing.
pub proof fn law_up(e: EditorView, modifiers: KeyModifiers)
    requires
        e.wf(),
    ensures
        ({
            let after = e.move_up();
            &&& e.prompt is Closed ==> e.key(KeyCode::Up, modifiers) == (after, ActionView::Continue)
            &&& moved_only(after, e)
            &&& if e.row > 0 {
                after.row == e.row - 1 && column_kept(after, e) && followed_up(after, e)
            } else {
                after == e
            }
        }),
{
}

/// Up takes back Down wherever the line below is long enough, and Down takes
/// back Up wherever the line above is.
pub proof fn law_down_and_up(e: EditorView)
    requires
        e.wf(),
    ensures
        e.row + 1 < e.lines.len() && e.col <= e.lines[e.row + 1].len()
            ==> e.move_down().move_up().cursor() == e.cursor(),
        e.row > 0 && e.col <= e.lines[e.row - 1].len() ==> e.move_up().move_down().cursor()
            == e.cursor(),
{
}

/// Left leads one character back, from the start of a line to the end of the
/// line above; at the start of the text it does nothing.
pub proof fn law_left(e: EditorView, modifiers: KeyModifiers)
    requires
        e.wf(),
    ensures
        ({
            let after = e.move_left();
            &&& e.prompt is Closed ==> e.key(KeyCode::Left, modifiers) == (after, ActionView::Continue)
            &&& moved_only(after, e)
            &&& followed_up(after, e)
            &&& if e.col > 0 {
                after.cursor() == (e.row, e.col - 1)
            } else if e.row > 0 {
                after.cursor() == (e.row - 1, e.lines[e.row - 1].len() as int)
            } else {
                after == e
            }
        }),
{
}

/// Right leads one character on, from the end of a line to the start of the
/// next; at the end of the text it does nothing.
pub proof fn law_right(e: EditorView, modifiers: KeyModifiers)
    requires
        e.wf(),
    ensures
        ({
            let after = e.move_right();
            &&& e.prompt is Closed ==> e.key(KeyCode::Right, modifiers) == (after, ActionView::Continue)
            &&& moved_only(after, e)
            &&& if e.col < e.lines[e.row].len() {
                after.cursor() == (e.row, e.col + 1) && after.top == e.top
            } else if e.row + 1 < e.lines.len() {
                after.cursor() == (e.row + 1, 0int) && followed_down(after, e)
            } else {
                after == e
            }
        }),
{
}

/// Home leads to the start of the line, End to its end.
pub proof fn law_home_and_end(e: EditorView, modifiers: KeyModifiers)
    requires
        e.wf(),
    ensures
        ({
            let after = e.move_home();
            &&& e.prompt is Closed ==> e.key(KeyCode::Home, modifiers) == (after, ActionView::Continue)
            &&& moved_only(after, e)
            &&& after.cursor() == (e.row, 0int)
            &&& after.top == e.top
        }),
        ({
            let after = e.move_end();
            &&& e.prompt is Closed ==> e.key(KeyCode::End, modifiers) == (after, ActionView::Continue)
            &&& moved_only(after, e)
            &&& after.cursor() == (e.row, e.lines[e.row].len() as int)
            &&& after.top == e.top
        }),
{
}

/// Page Up scrolls back by as many lines as the screen shows, or to the start of
/// the text, and puts the cursor into the first line shown.
pub proof fn law_page_up(e: EditorView, modifiers: KeyModifiers)
    requires
        e.wf(),
    ensures
        ({
            let after = e.page_up();
            &&& e.prompt is Closed ==> e.key(KeyCode::PageUp, modifiers) == (after, ActionView::Continue)
            &&& moved_only(after, e)
            &&& after.row == after.top
            &&& column_kept(after, e)
            &&& after.top + e.text_rows() == e.top || (after.top == 0 && e.top < e.text_rows())
        }),
{
}

/// Page Down scrolls on by as many lines as the screen shows, or to where the
/// last line stands at the bottom of the screen, and puts the cursor into the
/// last line shown.
pub proof fn law_page_down(e: EditorView, modifiers: KeyModifiers)
    requires
        e.wf(),
        e.text_rows() > 0 || e.top > 0,
    ensures
        ({
            let after = e.page_down();
            let n = e.lines.len() as int;
            let tr = e.text_rows();
            &&& e.prompt is Closed ==> e.key(KeyCode::PageDown, modifiers) == (after, ActionView::Continue)
            &&& moved_only(after, e)
            &&& column_kept(after, e)
            &&& if e.top + tr + tr <= n {
                after.top == e.top + tr
            } else if tr <= n {
                after.top + tr == n
            } else {
                after.top == 0
            }
            &&& if after.top + tr <= n {
                after.row == after.top + tr - 1
            } else {
                after.row == n - 1
            }
        }),
{
}

} // verus!
