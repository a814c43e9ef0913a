//! What can be undone, and what the state of the editor means.

use vstd::prelude::*;
use crate::action::ActionView;
use crate::key::{KeyCode, KeyModifiers};
use crate::message::{decimal, digit};
use crate::search::found;
use crate::state::{
    history_ok, stack_mem, EditorView, Pos, PromptView, ReplaceStep, SnapshotView,
};
use crate::text::text_mem;
use crate::undo::{kept, lemma_kept};

verus! {

// ── Undo ─────────────────────────────────────────────────────────────────

/// Ctrl+Z gives back text and cursor of the newest snapshot and takes it off the
/// history; the screen scrolls only where the cursor would not be on it. Without
/// a snapshot only the message changes.
pub proof fn law_undo(e: EditorView)
    ensures
        ({
            let after = e.undo();
            &&& e.prompt is Closed ==> e.key(KeyCode::Char('z'), KeyModifiers::Control) == (
                after,
                ActionView::Continue,
            )
            &&& if e.undo_stack.len() > 0 {
                &&& after.lines == e.undo_stack.last().lines
                &&& after.row == e.undo_stack.last().row
                &&& after.col == e.undo_stack.last().col
                &&& after.undo_stack == e.undo_stack.drop_last()
                &&& e.text_rows() > 0 ==> (if after.row < e.top {
                    after.top == after.row
                } else if after.row < e.top + e.text_rows() {
                    after.top == e.top
                } else {
                    after.top + e.text_rows() == after.row + 1
                })
                &&& after == (EditorView {
                    lines: after.lines,
                    row: after.row,
                    col: after.col,
                    top: after.top,
                    undo_stack: after.undo_stack,
                    undo_total_mem: after.undo_total_mem,
                    modified: true,
                    status: "Undo"@,
                    ..e
                })
            } else {
                after == (EditorView { status: "Nothing to undo."@, ..e })
            }
        }),
{
}

/// A snapshot holds the text and the cursor, and goes on top of the history; no
/// older snapshot leaves it but what the limits demand.
pub proof fn law_snapshot(e: EditorView)
    ensures
        ({
            let after = e.push_undo();
            let all = e.undo_stack.push(
                SnapshotView { lines: e.lines, row: e.row, col: e.col },
            );
            let gone = all.len() - after.undo_stack.len();
            &&& 0 <= gone < all.len()
            &&& after.undo_stack == all.skip(gone)
            &&& after.undo_stack.len() <= 1000
            &&& after.undo_stack.len() == 1 || stack_mem(after.undo_stack) <= 67_108_864
            &&& gone > 0 ==> all.len() - (gone - 1) > 1000 || stack_mem(all.skip(gone - 1))
                > 67_108_864
            &&& after == (EditorView {
                undo_stack: after.undo_stack,
                undo_total_mem: stack_mem(after.undo_stack) as int,
                ..e
            })
        }),
{
    let all = e.undo_stack.push(e.snapshot());
    lemma_kept(all);
    lemma_first_kept(all);
}

/// The history is not shortened further than needed.
proof fn lemma_first_kept(all: Seq<SnapshotView>)
    ensures
        ({
            let gone = all.len() - kept(all).len();
            gone > 0 ==> all.len() - (gone - 1) > 1000 || stack_mem(all.skip(gone - 1))
                > 67_108_864
        }),
    decreases all.len(),
{
    lemma_kept(all);
    let gone = all.len() - kept(all).len();
    if gone == 1 {
        assert(all.skip(0) =~= all);
    } else if gone > 1 {
        let rest = all.drop_first();
        assert(kept(all) == kept(rest));
        lemma_first_kept(rest);
        assert(rest.skip(gone - 2) =~= all.skip(gone - 1));
    }
}

/// The memory of a history is that of its snapshots together, and of a text four
/// bytes for each character.
pub proof fn law_memory(
    stack: Seq<SnapshotView>,
    snap: SnapshotView,
    lines: Seq<Seq<char>>,
    line: Seq<char>,
)
    ensures
        stack_mem(Seq::empty()) == 0,
        stack_mem(stack.push(snap)) == stack_mem(stack) + text_mem(snap.lines),
        text_mem(Seq::empty()) == 0,
        text_mem(lines.push(line)) == text_mem(lines) + 4 * line.len(),
{
    assert(stack.push(snap).drop_last() =~= stack);
    assert(lines.push(line).drop_last() =~= lines);
}

// ── The state ────────────────────────────────────────────────────────────

/// The bars take two rows of the screen, and the help panel eight more; the
/// others show text.
pub proof fn law_text_rows(e: EditorView)
    requires
        0 <= e.term_rows,
    ensures
        !e.show_help && e.term_rows >= 2 ==> e.text_rows() == e.term_rows - 2,
        e.show_help && e.term_rows >= 10 ==> e.text_rows() == e.term_rows - 10,
        e.term_rows < 2 || (e.show_help && e.term_rows < 10) ==> e.text_rows() == 0,
{
}

/// A position stands in the text if its row is there and is long enough.
pub proof fn law_in_text(e: EditorView, p: Pos)
    ensures
        e.in_text(p) <==> 0 <= p.0 < e.lines.len() && 0 <= p.1 <= e.lines[p.0].len(),
        e.cursor() == (e.row, e.col),
        e.line() == e.lines[e.row],
        e.anchor_in_text() <==> (e.selection matches Some(sel) ==> e.in_text(sel.anchor)),
{
}

/// What is asked of a state: the cursor stands in its line and not above the
/// screen, the sizes are those of a terminal, the history holds snapshots with
/// their cursor in their text, and fits into memory, as the text does.
pub proof fn law_state_in_order(e: EditorView)
    ensures
        e.wf() <==> {
            &&& 0 <= e.row < e.lines.len()
            &&& 0 <= e.col <= e.lines[e.row].len()
            &&& 0 <= e.top <= e.row
            &&& 0 <= e.left
            &&& 0 <= e.term_cols <= u16::MAX
            &&& 0 <= e.term_rows <= u16::MAX
            &&& history_ok(e.undo_stack, e.undo_total_mem)
            &&& e.prompt.ok()
        },
        e.doc_ok() <==> {
            &&& 0 <= e.row < e.lines.len()
            &&& 0 <= e.col
            &&& 0 <= e.top
            &&& 0 <= e.left
            &&& 0 <= e.term_cols <= u16::MAX
            &&& 0 <= e.term_rows <= u16::MAX
            &&& history_ok(e.undo_stack, e.undo_total_mem)
            &&& e.prompt.ok()
        },
        history_ok(e.undo_stack, e.undo_total_mem) <==> {
            &&& forall|i: int|
                0 <= i < e.undo_stack.len() ==> {
                    let snap = #[trigger] e.undo_stack[i];
                    0 <= snap.row < snap.lines.len() && 0 <= snap.col
                        <= snap.lines[snap.row].len()
                }
            &&& e.undo_total_mem == stack_mem(e.undo_stack)
            &&& e.undo_total_mem <= isize::MAX
        },
        e.fits() <==> text_mem(e.lines) <= isize::MAX && e.lines.len() <= isize::MAX,
{
    reveal(history_ok);
    assert forall|i: int| 0 <= i < e.undo_stack.len() implies (#[trigger] e.undo_stack[i]).ok()
        == {
        let snap = e.undo_stack[i];
        0 <= snap.row < snap.lines.len() && 0 <= snap.col <= snap.lines[snap.row].len()
    } by {}
}

/// The fields of a prompt have their cursor in their contents; the matches are
/// those of the query, which is that of the prompt, and empty without one.
pub proof fn law_prompt_in_order(e: EditorView)
    ensures
        e.prompt.ok() <==> match e.prompt {
            PromptView::SaveAs { buf, cur } => 0 <= cur <= buf.len(),
            PromptView::Search { buf, cur } => 0 <= cur <= buf.len(),
            PromptView::Replace { search_buf, replace_buf, search_cur, replace_cur, step } => {
                0 <= search_cur <= search_buf.len() && 0 <= replace_cur <= replace_buf.len()
            },
            _ => true,
        },
        e.search_ok() <==> {
            &&& 0 <= e.search_match_idx
            &&& e.search_match_idx < e.search_matches.len() || e.search_matches.len() == 0
            &&& e.search_matches == found(e.lines, e.search_query)
            &&& match e.prompt {
                PromptView::Search { buf, cur } => e.search_query == buf,
                PromptView::Replace { search_buf, replace_buf, search_cur, replace_cur, step } =>
                    e.search_query == search_buf,
                _ => e.search_query.len() == 0,
            }
        },
        e.inv() <==> e.wf() && e.search_ok(),
{
}

/// Every key is accepted while the screen has room for text and the selection
/// began in the text; a prompt accepts every key.
pub proof fn law_keys_accepted(e: EditorView, code: KeyCode, modifiers: KeyModifiers)
    requires
        !(e.prompt is Closed) || (e.text_rows() > 0 && (e.selection matches Some(sel)
            ==> e.in_text(sel.anchor))),
    ensures
        e.accepts(code, modifiers),
{
}

/// The keys that are not accepted: without room for text, undo where there is
/// something to undo, and Page Down at the start of the text; and copying or
/// cutting what was selected from a place that is no longer in the text.
pub proof fn law_keys_refused(e: EditorView, code: KeyCode, modifiers: KeyModifiers)
    requires
        e.prompt is Closed,
        e.top >= 0,
    ensures
        !e.accepts(code, modifiers) <==> {
            let control = modifiers == KeyModifiers::Control;
            let lost = e.selection is Some && !e.in_text(e.selection->Some_0.anchor);
            ||| control && code == KeyCode::Char('z') && e.undo_stack.len() > 0 && e.text_rows()
                == 0
            ||| code == KeyCode::PageDown && e.top == 0 && e.text_rows() == 0
            ||| control && code == KeyCode::Char('c') && lost && !e.selection->Some_0.is_cut
            ||| control && code == KeyCode::Char('x') && lost && e.selection->Some_0.is_cut
        },
{
}

/// The keys that may leave the cursor outside of the text or of the screen: the
/// one that carries out a replacement, and Page Down without room for text.
pub proof fn law_keys_settle(e: EditorView, code: KeyCode)
    ensures
        e.unsettles(code) <==> (e.prompt is Replace && e.prompt->step
            == ReplaceStep::ReplaceInput && code == KeyCode::Enter) || (e.prompt is Closed && code
            == KeyCode::PageDown && e.text_rows() == 0),
{
}

// ── Numbers ──────────────────────────────────────────────────────────────

/// The value of digits.
pub open spec fn value(digits: Seq<char>) -> int
    decreases digits.len(),
{
    if digits.len() == 0 {
        0
    } else {
        10 * value(digits.drop_last()) + (digits.last() as int - '0' as int)
    }
}

/// A digit.
proof fn lemma_digit(d: nat)
    requires
        d < 10,
    ensures
        digit(d) as int == '0' as int + d,
{
}

/// A number is written in decimal digits that have its value, without zeros
/// before it.
pub proof fn law_decimal(n: nat)
    ensures
        value(decimal(n)) == n,
        decimal(n).len() > 0,
        forall|i: int| 0 <= i < decimal(n).len() ==> '0' <= #[trigger] decimal(n)[i] <= '9',
        n > 0 ==> decimal(n)[0] != '0',
        n == 0 ==> decimal(n) == seq!['0'],
    decreases n,
{
    if n < 10 {
        lemma_digit(n);
        reveal_with_fuel(value, 2);
        assert(decimal(n).drop_last() =~= Seq::<char>::empty());
    } else {
        law_decimal(n / 10);
        lemma_digit(n % 10);
        assert(decimal(n).drop_last() =~= decimal(n / 10));
        assert(decimal(n)[0] == decimal(n / 10)[0]);
        assert forall|i: int| 0 <= i < decimal(n).len() implies '0' <= #[trigger] decimal(n)[i]
            <= '9' by {
            if i < decimal(n / 10).len() {
                assert(decimal(n)[i] == decimal(n / 10)[i]);
            }
        }
    }
}

} // verus!
