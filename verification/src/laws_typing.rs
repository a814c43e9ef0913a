//! What typing and deleting do to the characters of the text.

use vstd::prelude::*;
use crate::action::ActionView;
use crate::key::{KeyCode, KeyModifiers};
use crate::state::EditorView;

verus! {

/// Whether all rows but one are the same.
pub open spec fn other_rows_kept(a: Seq<Seq<char>>, b: Seq<Seq<char>>, row: int) -> bool {
    a.len() == b.len() && forall|r: int| 0 <= r < a.len() && r != row ==> #[trigger] a[r] == b[r]
}

/// Whether a line is another with one character more, which stands at a column.
pub open spec fn one_more(longer: Seq<char>, shorter: Seq<char>, col: int, ch: char) -> bool {
    &&& longer.len() == shorter.len() + 1
    &&& 0 <= col < longer.len()
    &&& longer[col] == ch
    &&& forall|i: int| 0 <= i < col ==> #[trigger] longer[i] == shorter[i]
    &&& forall|i: int| col <= i < shorter.len() ==> longer[i + 1] == #[trigger] shorter[i]
}

/// Whether a text is another with one line broken in two at a position.
pub open spec fn broken_at(
    broken: Seq<Seq<char>>,
    whole: Seq<Seq<char>>,
    row: int,
    col: int,
) -> bool {
    &&& broken.len() == whole.len() + 1
    &&& 0 <= row < whole.len()
    &&& broken[row].len() == col
    &&& broken[row] + broken[row + 1] == whole[row]
    &&& forall|r: int| 0 <= r < row ==> #[trigger] broken[r] == whole[r]
    &&& forall|r: int| row < r < whole.len() ==> broken[r + 1] == #[trigger] whole[r]
}

/// Whether a change of the text leaves everything else as it was: it ends the
/// selection, marks the text as changed and goes to the history.
pub open spec fn changed_text_only(after: EditorView, e: EditorView) -> bool {
    after == (EditorView {
        lines: after.lines,
        row: after.row,
        col: after.col,
        top: after.top,
        undo_stack: after.undo_stack,
        undo_total_mem: after.undo_total_mem,
        selection: None,
        modified: true,
        ..e
    })
}

/// Typing a character, whichever it is, puts that very character before the
/// cursor and changes no other; the cursor goes behind it.
pub proof fn law_typed_character(e: EditorView, ch: char, modifiers: KeyModifiers)
    requires
        e.wf(),
        modifiers == KeyModifiers::Plain || modifiers == KeyModifiers::Shift,
    ensures
        ({
            let after = e.insert_char(ch);
            &&& e.prompt is Closed ==> e.key(KeyCode::Char(ch), modifiers) == (
                after,
                ActionView::Continue,
            )
            &&& other_rows_kept(after.lines, e.lines, e.row)
            &&& one_more(after.lines[e.row], e.lines[e.row], e.col, ch)
            &&& after.row == e.row
            &&& after.col == e.col + 1
            &&& after.top == e.top
            &&& changed_text_only(after, e)
        }),
{
}

/// The Tab key types a tab.
pub proof fn law_typed_tab(e: EditorView, modifiers: KeyModifiers)
    requires
        e.wf(),
        e.prompt is Closed,
    ensures
        ({
            let (after, action) = e.key(KeyCode::Tab, modifiers);
            &&& action is Continue
            &&& other_rows_kept(after.lines, e.lines, e.row)
            &&& one_more(after.lines[e.row], e.lines[e.row], e.col, '\t')
            &&& after.row == e.row
            &&& after.col == e.col + 1
            &&& after.top == e.top
            &&& changed_text_only(after, e)
        }),
{
}

/// A character with modifiers that type nothing, and that is no command, does
/// nothing.
pub proof fn law_untyped_character(e: EditorView, ch: char)
    requires
        e.prompt is Closed,
    ensures
        e.key(KeyCode::Char(ch), KeyModifiers::Other) == (e, ActionView::Continue),
        !(ch == 'q' || ch == 's' || ch == 'w' || ch == 'z' || ch == 'a' || ch == 'c' || ch == 'x'
            || ch == 'v' || ch == 'e' || ch == 'f' || ch == 'r' || ch == 'b' || ch == 'h')
            ==> e.key(KeyCode::Char(ch), KeyModifiers::Control) == (e, ActionView::Continue),
{
}

/// Enter breaks the line at the cursor, without losing a character, and the
/// cursor goes to the start of the second part. The screen scrolls by one line
/// where the cursor would leave it at the bottom, and not otherwise.
pub proof fn law_enter(e: EditorView, modifiers: KeyModifiers)
    requires
        e.wf(),
    ensures
        ({
            let after = e.insert_newline();
            &&& e.prompt is Closed ==> e.key(KeyCode::Enter, modifiers) == (after, ActionView::Continue)
            &&& broken_at(after.lines, e.lines, e.row, e.col)
            &&& after.row == e.row + 1
            &&& after.col == 0
            &&& after.top == e.top || after.top == e.top + 1
            &&& after.top == e.top <==> e.row + 1 < e.top + e.text_rows()
            &&& changed_text_only(after, e)
        }),
{
    let line = e.lines[e.row];
    assert(line.take(e.col) + line.skip(e.col) =~= line);
}

/// Backspace takes away the character before the cursor, and no other, or joins
/// the line to the one above; at the start of the text it changes no text.
pub proof fn law_backspace(e: EditorView, modifiers: KeyModifiers)
    requires
        e.wf(),
    ensures
        ({
            let after = e.backspace();
            &&& e.prompt is Closed ==> e.key(KeyCode::Backspace, modifiers) == (after, ActionView::Continue)
            &&& if e.col > 0 {
                &&& other_rows_kept(after.lines, e.lines, e.row)
                &&& one_more(
                    e.lines[e.row],
                    after.lines[e.row],
                    e.col - 1,
                    e.lines[e.row][e.col - 1],
                )
                &&& after.row == e.row
                &&& after.col == e.col - 1
                &&& after.top == e.top
                &&& changed_text_only(after, e)
            } else if e.row > 0 {
                &&& broken_at(e.lines, after.lines, e.row - 1, e.lines[e.row - 1].len() as int)
                &&& after.row == e.row - 1
                &&& after.col == e.lines[e.row - 1].len()
                &&& after.top == (if e.top == e.row {
                    e.row - 1
                } else {
                    e.top
                })
                &&& changed_text_only(after, e)
            } else {
                after == (EditorView { selection: None, ..e })
            }
        }),
{
}

/// Delete takes away the character at the cursor, and no other, or joins the
/// next line to the line; at the end of the text it changes no text. The cursor
/// stays.
pub proof fn law_delete(e: EditorView, modifiers: KeyModifiers)
    requires
        e.wf(),
    ensures
        ({
            let after = e.delete();
            &&& e.prompt is Closed ==> e.key(KeyCode::Delete, modifiers) == (after, ActionView::Continue)
            &&& after.cursor() == e.cursor()
            &&& after.top == e.top
            &&& if e.col < e.lines[e.row].len() {
                &&& other_rows_kept(after.lines, e.lines, e.row)
                &&& one_more(e.lines[e.row], after.lines[e.row], e.col, e.lines[e.row][e.col])
                &&& changed_text_only(after, e)
            } else if e.row + 1 < e.lines.len() {
                &&& broken_at(e.lines, after.lines, e.row, e.lines[e.row].len() as int)
                &&& changed_text_only(after, e)
            } else {
                after == (EditorView { selection: None, ..e })
            }
        }),
{
}

} // verus!
