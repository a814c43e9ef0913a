//! What holds of editing, undoing and moving.

use vstd::prelude::*;
use crate::key::{KeyCode, KeyModifiers};
use crate::state::{stack_mem, EditorView, UNDO_MAX, UNDO_MEM_CAP};
use crate::undo::{kept, lemma_kept, lemma_push_undo};

verus! {

// ── Undo ─────────────────────────────────────────────────────────────────

/// Whether text and cursor are the same.
pub open spec fn same_text(a: EditorView, b: EditorView) -> bool {
    a.lines == b.lines && a.row == b.row && a.col == b.col
}

/// Whether undo in one state gives back the text and the cursor of another: it
/// says so, marks the text as changed, and shows the line of the cursor if the
/// screen has room for text.
pub open spec fn undone(changed: EditorView, e: EditorView) -> bool {
    let back = changed.undo();
    &&& same_text(back, e)
    &&& back.modified
    &&& back.status == "Undo"@
    &&& back.text_rows() > 0 ==> back.top <= back.row < back.top + back.text_rows()
}

/// Undo takes back what was changed after a snapshot.
proof fn lemma_undone(e: EditorView, changed: EditorView)
    requires
        e.wf(),
        e.fits(),
        changed.undo_stack == e.push_undo().undo_stack,
    ensures
        undone(changed, e),
{
    lemma_push_undo(e);
}

/// Undo takes back every command that changes the text: a character, a tab, a
/// line break, backspace and delete where there is something to delete, the
/// deletion of a selection, a paste, and a replacement.
pub proof fn law_undo_command(
    e: EditorView,
    ch: char,
    text: Option<Seq<char>>,
    with: Seq<char>,
)
    requires
        e.wf(),
        e.fits(),
    ensures
        undone(e.insert_char(ch), e),
        undone(e.insert_char('\t'), e),
        undone(e.insert_newline(), e),
        e.col > 0 || e.row > 0 ==> undone(e.backspace(), e),
        e.col < e.line().len() || e.row + 1 < e.lines.len() ==> undone(e.delete(), e),
        e.selection is Some ==> undone(e.delete_selected(), e),
        e.clipboard_with(text).len() > 0 ==> undone(e.paste(text), e),
        e.search_matches.len() > 0 ==> undone(e.replace_all(with), e),
{
    lemma_undone(e, e.insert_char(ch));
    lemma_undone(e, e.insert_char('\t'));
    lemma_undone(e, e.insert_newline());
    if e.col > 0 || e.row > 0 {
        lemma_undone(e, e.backspace());
    }
    if e.col < e.line().len() || e.row + 1 < e.lines.len() {
        lemma_undone(e, e.delete());
    }
    if e.selection is Some {
        lemma_undone(e, e.delete_selected());
    }
    if e.clipboard_with(text).len() > 0 {
        lemma_undone(e, e.paste(text));
    }
    if e.search_matches.len() > 0 {
        lemma_undone(e, e.replace_all(with));
    }
}

/// Undo takes back every key that changes the text, but for undo itself: it
/// gives back the text and the cursor as they were before the key.
pub proof fn law_undo_key(e: EditorView, code: KeyCode, modifiers: KeyModifiers)
    requires
        e.inv(),
        e.fits(),
        !(code == KeyCode::Char('z') && modifiers == KeyModifiers::Control && e.prompt is Closed),
        e.key(code, modifiers).0.lines != e.lines,
    ensures
        undone(e.key(code, modifiers).0, e),
{
    lemma_undone(e, e.key(code, modifiers).0);
}

/// The newest change can always be undone; of the older ones, as many as the
/// limits on number and memory allow are kept, without a gap.
pub proof fn law_history(e: EditorView)
    requires
        e.wf(),
        e.fits(),
    ensures
        ({
            let stack = e.push_undo().undo_stack;
            let all = e.undo_stack.push(e.snapshot());
            &&& stack.len() > 0
            &&& stack.last() == e.snapshot()
            &&& stack.len() <= UNDO_MAX
            &&& stack.len() == 1 || stack_mem(stack) <= UNDO_MEM_CAP
            &&& stack == all.skip(all.len() - stack.len())
            &&& all.len() <= UNDO_MAX && stack_mem(all) <= UNDO_MEM_CAP ==> stack == all
        }),
{
    lemma_push_undo(e);
    lemma_kept(e.undo_stack.push(e.snapshot()));
}

/// Changes are undone one by one: while a history is within its limits, undoing
/// a key that changed the text also gives back the history as it was before.
pub proof fn law_undo_in_order(e: EditorView, code: KeyCode, modifiers: KeyModifiers)
    requires
        e.inv(),
        e.fits(),
        !(code == KeyCode::Char('z') && modifiers == KeyModifiers::Control && e.prompt is Closed),
        e.key(code, modifiers).0.lines != e.lines,
        e.undo_stack.len() < UNDO_MAX,
        stack_mem(e.undo_stack.push(e.snapshot())) <= UNDO_MEM_CAP,
    ensures
        e.key(code, modifiers).0.undo().undo_stack == e.undo_stack,
{
    let all = e.undo_stack.push(e.snapshot());
    assert(kept(all) == all);
    assert(all.drop_last() =~= e.undo_stack);
}

/// A key changes the text only together with the mark of unsaved changes.
pub proof fn law_change_is_marked(e: EditorView, code: KeyCode, modifiers: KeyModifiers)
    requires
        e.inv(),
        e.fits(),
        e.key(code, modifiers).0.lines != e.lines,
    ensures
        e.key(code, modifiers).0.modified,
{
}

// ── Inserting and deleting ───────────────────────────────────────────────

/// Backspace after a typed character gives back text and cursor.
pub proof fn law_backspace_after_char(e: EditorView, ch: char)
    requires
        e.wf(),
        e.fits(),
    ensures
        same_text(e.insert_char(ch).backspace(), e),
{
    let line = e.line();
    assert(line.insert(e.col, ch).remove(e.col) =~= line);
    assert(e.insert_char(ch).backspace().lines =~= e.lines);
}

/// Backspace after a line break gives back text and cursor.
pub proof fn law_backspace_after_newline(e: EditorView)
    requires
        e.wf(),
        e.fits(),
    ensures
        same_text(e.insert_newline().backspace(), e),
{
    let line = e.line();
    let broken = e.insert_newline();
    assert(line.take(e.col) + line.skip(e.col) =~= line);
    assert(broken.lines[broken.row] == line.skip(e.col));
    assert(broken.lines[broken.row - 1] == line.take(e.col));
    assert(broken.backspace().lines =~= e.lines);
}

/// Where there is something behind the cursor, deleting it is the same as
/// moving right and deleting backwards.
pub proof fn law_delete_is_backspace_from_right(e: EditorView)
    requires
        e.wf(),
        e.fits(),
        e.col < e.line().len() || e.row + 1 < e.lines.len(),
    ensures
        same_text(e.move_right().backspace(), e.delete()),
{
    let a = e.move_right().backspace();
    let b = e.delete();
    if e.col < e.line().len() {
        assert(a.lines =~= b.lines);
    } else {
        assert(a.lines =~= b.lines);
    }
}

/// At the two ends of the text there is nothing to delete.
pub proof fn law_nothing_to_delete(e: EditorView)
    requires
        e.wf(),
    ensures
        e.row == 0 && e.col == 0 ==> same_text(e.backspace(), e),
        e.row + 1 == e.lines.len() && e.col == e.line().len() ==> same_text(e.delete(), e),
{
}

// ── Moving ───────────────────────────────────────────────────────────────

/// Whether a key moves the cursor.
pub open spec fn is_move(code: KeyCode) -> bool {
    code == KeyCode::Up || code == KeyCode::Down || code == KeyCode::Left || code == KeyCode::Right
        || code == KeyCode::Home || code == KeyCode::End || code == KeyCode::PageUp || code
        == KeyCode::PageDown
}

/// Moving the cursor changes nothing but cursor and screen, and keeps the
/// cursor in the text.
pub proof fn law_moves_keep_text(e: EditorView, code: KeyCode)
    requires
        e.wf(),
        e.fits(),
        is_move(code),
        e.prompt is Closed,
        e.accepts(code, KeyModifiers::Plain),
    ensures
        ({
            let after = e.special_key(code);
            &&& after == (EditorView { row: after.row, col: after.col, top: after.top, ..e })
            &&& after.in_text(after.cursor())
        }),
{
}

/// Left takes back right, but for the end of the text.
pub proof fn law_left_after_right(e: EditorView)
    requires
        e.wf(),
        e.col < e.line().len() || e.row + 1 < e.lines.len(),
    ensures
        e.move_right().move_left().cursor() == e.cursor(),
{
}

/// Right takes back left, but for the start of the text.
pub proof fn law_right_after_left(e: EditorView)
    requires
        e.wf(),
        e.col > 0 || e.row > 0,
    ensures
        e.move_left().move_right().cursor() == e.cursor(),
{
}

/// A step down from a cursor on the screen leaves it on the screen, and so do
/// the other steps and a line break.
#[verifier::rlimit(30)]
pub proof fn law_steps_stay_on_screen(e: EditorView, code: KeyCode)
    requires
        e.wf(),
        e.fits(),
        e.text_rows() > 0,
        e.row < e.top + e.text_rows(),
        is_move(code) || code == KeyCode::Enter || code == KeyCode::Backspace || code
            == KeyCode::Delete || code == KeyCode::Tab,
    ensures
        ({
            let after = e.special_key(code);
            after.top <= after.row < after.top + after.text_rows()
        }),
{
}

} // verus!
