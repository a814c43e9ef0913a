//! What is selected, copied, cut and pasted.

use vstd::prelude::*;
use crate::action::ActionView;
use crate::files::document;
use crate::key::{KeyCode, KeyModifiers};
use crate::laws_edit::is_move;
use crate::laws_moving::moved_only;
use crate::laws_text::law_remove_after_insert;
use crate::select::{block_between, block_end, lemma_block_end, lemma_selection_is_range};
use crate::state::{EditorView, Pos, SelectionView};
use crate::text::joined;

verus! {

// ── Beginning, changing and giving up a selection ────────────────────────

/// Whether only the selection and the message differ.
pub open spec fn selected_only(after: EditorView, e: EditorView) -> bool {
    after == (EditorView { selection: after.selection, status: after.status, ..e })
}

/// While nothing is selected, Ctrl+C begins a selection to copy and Ctrl+X one
/// to cut, both with their anchor at the cursor; nothing is copied yet.
pub proof fn law_selection_begins(e: EditorView)
    requires
        e.prompt is Closed,
        e.selection is None,
    ensures
        ({
            let (after, action) = e.key(KeyCode::Char('c'), KeyModifiers::Control);
            &&& action is Continue
            &&& selected_only(after, e)
            &&& after.selection == Some(SelectionView { anchor: (e.row, e.col), is_cut: false })
            &&& after.status == "Copy: move cursor to selection end, then Ctrl+C again."@
        }),
        ({
            let (after, action) = e.key(KeyCode::Char('x'), KeyModifiers::Control);
            &&& action is Continue
            &&& selected_only(after, e)
            &&& after.selection == Some(SelectionView { anchor: (e.row, e.col), is_cut: true })
            &&& after.status == "Cut: move cursor to selection end, then Ctrl+X again."@
        }),
{
}

/// Ctrl+C makes a selection to cut one to copy, and Ctrl+X the other way round;
/// the anchor stays, and nothing is copied or cut yet.
pub proof fn law_selection_switches(e: EditorView, anchor: Pos)
    requires
        e.prompt is Closed,
    ensures
        e.selection == Some(SelectionView { anchor, is_cut: true }) ==> {
            let (after, action) = e.key(KeyCode::Char('c'), KeyModifiers::Control);
            &&& action is Continue
            &&& selected_only(after, e)
            &&& after.selection == Some(SelectionView { anchor, is_cut: false })
            &&& after.status == "Switched to copy mode. Press Ctrl+C again to copy."@
        },
        e.selection == Some(SelectionView { anchor, is_cut: false }) ==> {
            let (after, action) = e.key(KeyCode::Char('x'), KeyModifiers::Control);
            &&& action is Continue
            &&& selected_only(after, e)
            &&& after.selection == Some(SelectionView { anchor, is_cut: true })
            &&& after.status == "Switched to cut mode. Press Ctrl+X again to cut."@
        },
{
}

/// Escape gives up the selection and nothing else; where there is none, it does
/// nothing.
pub proof fn law_selection_given_up(e: EditorView, modifiers: KeyModifiers)
    requires
        e.prompt is Closed,
    ensures
        ({
            let (after, action) = e.key(KeyCode::Esc, modifiers);
            &&& action is Continue
            &&& selected_only(after, e)
            &&& after.selection is None
            &&& if e.selection is Some {
                after.status == "Selection cancelled."@
            } else {
                after == e
            }
        }),
{
}

/// Ctrl+A selects to copy, from the start of the text to its end, where the
/// cursor goes.
pub proof fn law_select_all(e: EditorView)
    requires
        e.wf(),
    ensures
        ({
            let after = e.select_all();
            &&& e.prompt is Closed ==> e.key(KeyCode::Char('a'), KeyModifiers::Control) == (
                after,
                ActionView::Continue,
            )
            &&& after.selection == Some(SelectionView { anchor: (0, 0), is_cut: false })
            &&& after.row == e.lines.len() - 1
            &&& after.col == e.lines.last().len()
            &&& after.status == "Selected all."@
            &&& after == (EditorView {
                row: after.row,
                col: after.col,
                selection: after.selection,
                status: after.status,
                ..e
            })
        }),
{
}

/// Ctrl+V gives up the selection and asks for the system's clipboard.
pub proof fn law_paste_asked(e: EditorView)
    requires
        e.prompt is Closed,
    ensures
        e.key(KeyCode::Char('v'), KeyModifiers::Control) == (
            EditorView { selection: None, ..e },
            ActionView::Paste,
        ),
{
}

/// A character is selected exactly if it stands at or behind the one end of the
/// selection and before the other.
pub proof fn law_in_selection(e: EditorView, p: Pos)
    ensures
        e.selection is None ==> !e.in_selection(p),
        e.selection is Some ==> {
            let a = e.selection->Some_0.anchor;
            let from_anchor = a.0 < p.0 || (a.0 == p.0 && a.1 <= p.1);
            let from_cursor = e.row < p.0 || (e.row == p.0 && e.col <= p.1);
            e.in_selection(p) <==> from_anchor != from_cursor
        },
{
}

// ── Copying and cutting ──────────────────────────────────────────────────

/// Whether a block is the text between two positions: of a single line, the
/// characters between them; of several lines, the rest of the first, the lines
/// between, and the beginning of the last.
pub open spec fn is_between(block: Seq<Seq<char>>, lines: Seq<Seq<char>>, s: Pos, t: Pos) -> bool {
    &&& block.len() == t.0 - s.0 + 1
    &&& if s.0 == t.0 {
        block[0] == lines[s.0].subrange(s.1, t.1)
    } else {
        &&& block[0] == lines[s.0].subrange(s.1, lines[s.0].len() as int)
        &&& block.last() == lines[t.0].subrange(0, t.1)
        &&& forall|k: int| 0 < k < block.len() - 1 ==> #[trigger] block[k] == lines[s.0 + k]
    }
}

/// Whether a text is another without what stands between two positions.
pub open spec fn is_without(
    after: Seq<Seq<char>>,
    lines: Seq<Seq<char>>,
    s: Pos,
    t: Pos,
) -> bool {
    &&& after.len() == lines.len() - (t.0 - s.0)
    &&& after[s.0] == lines[s.0].subrange(0, s.1) + lines[t.0].subrange(
        t.1,
        lines[t.0].len() as int,
    )
    &&& forall|r: int| 0 <= r < s.0 ==> #[trigger] after[r] == lines[r]
    &&& forall|r: int| s.0 < r < after.len() ==> #[trigger] after[r] == lines[r + (t.0 - s.0)]
}

/// Of two positions, the one that comes first.
pub open spec fn earlier(p: Pos, q: Pos) -> Pos {
    if p.0 < q.0 || (p.0 == q.0 && p.1 <= q.1) {
        p
    } else {
        q
    }
}

/// Of two positions, the one that comes last.
pub open spec fn later(p: Pos, q: Pos) -> Pos {
    if p.0 < q.0 || (p.0 == q.0 && p.1 <= q.1) {
        q
    } else {
        p
    }
}

/// What is selected is the text between anchor and cursor, whether it is to be
/// copied or cut.
pub proof fn law_selected(e: EditorView)
    requires
        e.wf(),
    ensures
        e.selection is None ==> e.selected() == Seq::<Seq<char>>::empty() && e.selection_range()
            is None,
        e.selection matches Some(sel) ==> {
            let (s, t) = (earlier(sel.anchor, (e.row, e.col)), later(sel.anchor, (e.row, e.col)));
            &&& e.selection_range() == Some((s, t))
            &&& e.in_text(sel.anchor) ==> is_between(e.selected(), e.lines, s, t)
        },
{
    if e.anchor_in_text() {
        lemma_selection_is_range(e);
    }
}

/// Ctrl+C with a selection to copy takes the text between anchor and cursor
/// into the clipboard, gives it to the system's, and ends the selection.
pub proof fn law_copy(e: EditorView, anchor: Pos)
    requires
        e.wf(),
        e.prompt is Closed,
        e.selection == Some(SelectionView { anchor, is_cut: false }),
        e.in_text(anchor),
    ensures
        ({
            let (after, action) = e.key(KeyCode::Char('c'), KeyModifiers::Control);
            let (s, t) = (earlier(anchor, (e.row, e.col)), later(anchor, (e.row, e.col)));
            &&& is_between(after.clipboard, e.lines, s, t)
            &&& action == ActionView::Copy(joined(after.clipboard, seq!['\n']))
            &&& after == (EditorView {
                clipboard: after.clipboard,
                selection: None,
                status: "Copied."@,
                ..e
            })
        }),
{
    lemma_selection_is_range(e);
}

/// Ctrl+X with a selection to cut does the same, and takes the text out; the
/// cursor goes to where it began.
pub proof fn law_cut(e: EditorView, anchor: Pos)
    requires
        e.wf(),
        e.prompt is Closed,
        e.selection == Some(SelectionView { anchor, is_cut: true }),
        e.in_text(anchor),
    ensures
        ({
            let (after, action) = e.key(KeyCode::Char('x'), KeyModifiers::Control);
            let (s, t) = (earlier(anchor, (e.row, e.col)), later(anchor, (e.row, e.col)));
            &&& is_between(after.clipboard, e.lines, s, t)
            &&& is_without(after.lines, e.lines, s, t)
            &&& action == ActionView::Copy(joined(after.clipboard, seq!['\n']))
            &&& (after.row, after.col) == s
            &&& after.top == (if e.top <= s.0 {
                e.top
            } else {
                s.0
            })
            &&& after == (EditorView {
                lines: after.lines,
                row: after.row,
                col: after.col,
                top: after.top,
                undo_stack: after.undo_stack,
                undo_total_mem: after.undo_total_mem,
                clipboard: after.clipboard,
                selection: None,
                modified: true,
                status: "Cut."@,
                ..e
            })
        }),
{
    lemma_selection_is_range(e);
}

/// Deleting a selection, without the clipboard.
pub proof fn law_delete_selected(e: EditorView, sel: SelectionView)
    requires
        e.wf(),
        e.selection == Some(sel),
        e.in_text(sel.anchor),
    ensures
        ({
            let after = e.delete_selected();
            let s = earlier(sel.anchor, (e.row, e.col));
            &&& is_without(after.lines, e.lines, s, later(sel.anchor, (e.row, e.col)))
            &&& (after.row, after.col) == s
            &&& after.selection is None
            &&& after.modified
            &&& after.clipboard == e.clipboard
        }),
        (EditorView { selection: None, ..e }).delete_selected() == (EditorView {
            selection: None,
            ..e
        }),
{
    lemma_selection_is_range(e);
}

/// The state after some keys that move the cursor.
pub open spec fn after_moves(e: EditorView, codes: Seq<KeyCode>) -> EditorView
    decreases codes.len(),
{
    if codes.len() == 0 {
        e
    } else {
        after_moves(e, codes.drop_last()).key(codes.last(), KeyModifiers::Plain).0
    }
}

/// A move keeps the state in order, and everything but the cursor and the
/// screen.
proof fn lemma_move(e: EditorView, code: KeyCode)
    requires
        e.wf(),
        e.prompt is Closed,
        e.text_rows() > 0,
        is_move(code),
    ensures
        e.key(code, KeyModifiers::Plain).0.wf(),
        moved_only(e.key(code, KeyModifiers::Plain).0, e),
{
}

/// Moves keep everything but the cursor and the screen.
proof fn lemma_moves(e: EditorView, codes: Seq<KeyCode>)
    requires
        e.wf(),
        e.prompt is Closed,
        e.text_rows() > 0,
        forall|i: int| 0 <= i < codes.len() ==> is_move(#[trigger] codes[i]),
    ensures
        after_moves(e, codes).wf(),
        moved_only(after_moves(e, codes), e),
    decreases codes.len(),
{
    if codes.len() > 0 {
        assert(is_move(codes[codes.len() - 1]));
        assert forall|i: int| 0 <= i < codes.drop_last().len() implies is_move(
            #[trigger] codes.drop_last()[i],
        ) by {
            assert(is_move(codes[i]));
        }
        lemma_moves(e, codes.drop_last());
        lemma_move(after_moves(e, codes.drop_last()), codes.last());
    }
}

/// Ctrl+C, any moves, and Ctrl+C again copy the text between where the cursor
/// was and where it is; with Ctrl+X twice that text is cut.
pub proof fn law_copy_between(e: EditorView, codes: Seq<KeyCode>)
    requires
        e.wf(),
        e.prompt is Closed,
        e.selection is None,
        e.text_rows() > 0,
        forall|i: int| 0 <= i < codes.len() ==> is_move(#[trigger] codes[i]),
    ensures
        ({
            let there = after_moves(
                e.key(KeyCode::Char('c'), KeyModifiers::Control).0,
                codes,
            );
            let (after, action) = there.key(KeyCode::Char('c'), KeyModifiers::Control);
            let (p, q) = ((e.row, e.col), (there.row, there.col));
            &&& is_between(after.clipboard, e.lines, earlier(p, q), later(p, q))
            &&& action == ActionView::Copy(joined(after.clipboard, seq!['\n']))
            &&& after.lines == e.lines
            &&& (after.row, after.col) == q
        }),
        ({
            let there = after_moves(
                e.key(KeyCode::Char('x'), KeyModifiers::Control).0,
                codes,
            );
            let (after, action) = there.key(KeyCode::Char('x'), KeyModifiers::Control);
            let (p, q) = ((e.row, e.col), (there.row, there.col));
            &&& is_between(after.clipboard, e.lines, earlier(p, q), later(p, q))
            &&& is_without(after.lines, e.lines, earlier(p, q), later(p, q))
            &&& action == ActionView::Copy(joined(after.clipboard, seq!['\n']))
            &&& (after.row, after.col) == earlier(p, q)
        }),
{
    law_selection_begins(e);
    let copying = e.key(KeyCode::Char('c'), KeyModifiers::Control).0;
    lemma_moves(copying, codes);
    law_copy(after_moves(copying, codes), (e.row, e.col));
    let cutting = e.key(KeyCode::Char('x'), KeyModifiers::Control).0;
    lemma_moves(cutting, codes);
    law_cut(after_moves(cutting, codes), (e.row, e.col));
}

// ── Pasting ──────────────────────────────────────────────────────────────

/// Pasting puts the clipboard in at the cursor, which goes behind it: what
/// stands between the old and the new cursor is the clipboard, and without it
/// the text is as before. The screen scrolls only where the cursor would leave
/// it, and then shows its line at the bottom.
pub proof fn law_paste(e: EditorView, text: Option<Seq<char>>)
    requires
        e.wf(),
        text is Some || e.clipboard.len() > 0,
    ensures
        ({
            let after = e.paste(text);
            let block = after.clipboard;
            let (p, q) = ((e.row, e.col), (after.row, after.col));
            &&& block.len() > 0
            &&& text is None ==> block == e.clipboard
            &&& text matches Some(t) ==> block == document(t)
            &&& is_between(block, after.lines, p, q)
            &&& is_without(e.lines, after.lines, p, q)
            &&& after.row == e.row + block.len() - 1
            &&& after.col == (if block.len() == 1 {
                e.col + block[0].len()
            } else {
                block.last().len() as int
            })
            &&& if after.row < e.top + e.text_rows() {
                after.top == e.top
            } else {
                after.top + e.text_rows() == after.row + 1
            }
            &&& after == (EditorView {
                lines: after.lines,
                row: after.row,
                col: after.col,
                top: after.top,
                clipboard: block,
                undo_stack: after.undo_stack,
                undo_total_mem: after.undo_total_mem,
                modified: true,
                ..e
            })
        }),
{
    let block = e.clipboard_with(text);
    lemma_block_end(e.lines, e.cursor(), block);
    law_remove_after_insert(e.lines, e.cursor(), block);
    let after = e.paste(text);
    let end = block_end(e.cursor(), block);
    assert(block_between(after.lines, e.cursor(), end) == block);
}

/// Without a clipboard there is nothing to paste.
pub proof fn law_nothing_to_paste(e: EditorView)
    requires
        e.clipboard.len() == 0,
    ensures
        e.paste(None) == e,
{
}

} // verus!
