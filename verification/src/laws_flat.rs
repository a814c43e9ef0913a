//! What editing does to the text as a whole, read from its start to its end.

use vstd::prelude::*;
use crate::files::document;
use crate::key::{KeyCode, KeyModifiers};
use crate::laws_selection::{
    earlier, is_between, is_without, later, law_cut, law_paste, law_selected,
};
use crate::laws_text::lemma_joined_first;
use crate::select::{lemma_block_end, lemma_selection_is_range};
use crate::state::{EditorView, Pos, SelectionView};
use crate::text::joined;

verus! {

/// The text before a position.
pub open spec fn ahead_of(lines: Seq<Seq<char>>, p: Pos) -> Seq<char> {
    joined(lines.take(p.0).push(lines[p.0].take(p.1)), seq!['\n'])
}

/// The text from a position on.
pub open spec fn behind(lines: Seq<Seq<char>>, p: Pos) -> Seq<char> {
    joined(seq![lines[p.0].skip(p.1)] + lines.skip(p.0 + 1), seq!['\n'])
}

/// Whether a position stands in a text.
pub open spec fn stands_in(lines: Seq<Seq<char>>, p: Pos) -> bool {
    0 <= p.0 < lines.len() && 0 <= p.1 <= lines[p.0].len()
}

/// A line more at the end.
proof fn lemma_joined_push(lines: Seq<Seq<char>>, line: Seq<char>)
    ensures
        joined(lines.push(line), seq!['\n']) == (if lines.len() == 0 {
            line
        } else {
            joined(lines, seq!['\n']) + seq!['\n'] + line
        }),
{
    assert(lines.push(line).drop_last() =~= lines);
}

/// A line more at the start.
proof fn lemma_joined_before(line: Seq<char>, lines: Seq<Seq<char>>)
    ensures
        joined(seq![line] + lines, seq!['\n']) == (if lines.len() == 0 {
            line
        } else {
            line + seq!['\n'] + joined(lines, seq!['\n'])
        }),
{
    let all = seq![line] + lines;
    if lines.len() > 0 {
        lemma_joined_first(all, seq!['\n']);
        assert(all.drop_first() =~= lines);
    }
}

/// Two lists of lines of which the last of the one and the first of the other
/// make up one line.
proof fn lemma_joined_seam(
    upper: Seq<Seq<char>>,
    x: Seq<char>,
    y: Seq<char>,
    lower: Seq<Seq<char>>,
)
    ensures
        joined(upper.push(x + y) + lower, seq!['\n']) == joined(upper.push(x), seq!['\n'])
            + joined(seq![y] + lower, seq!['\n']),
    decreases upper.len(),
{
    let feed = seq!['\n'];
    if upper.len() == 0 {
        assert(upper.push(x + y) + lower =~= seq![x + y] + lower);
        assert(upper.push(x) =~= seq![x]);
        lemma_joined_before(x + y, lower);
        lemma_joined_before(y, lower);
        assert(x + y + feed + joined(lower, feed) =~= x + (y + feed + joined(lower, feed)));
    } else {
        let line = upper[0];
        let rest = upper.drop_first();
        lemma_joined_seam(rest, x, y, lower);
        assert(upper.push(x + y) + lower =~= seq![line] + (rest.push(x + y) + lower));
        assert(upper.push(x) =~= seq![line] + rest.push(x));
        lemma_joined_before(line, rest.push(x + y) + lower);
        lemma_joined_before(line, rest.push(x));
        let a = joined(rest.push(x), feed);
        let b = joined(seq![y] + lower, feed);
        assert(line + feed + (a + b) =~= line + feed + a + b);
    }
}

/// The text is what stands before a position and what stands behind it.
pub proof fn law_text_at(lines: Seq<Seq<char>>, p: Pos)
    requires
        stands_in(lines, p),
    ensures
        joined(lines, seq!['\n']) == ahead_of(lines, p) + behind(lines, p),
{
    let line = lines[p.0];
    let (x, y) = (line.take(p.1), line.skip(p.1));
    assert(x + y =~= line);
    assert(lines.take(p.0).push(line) + lines.skip(p.0 + 1) =~= lines);
    lemma_joined_seam(lines.take(p.0), x, y, lines.skip(p.0 + 1));
}

/// Typing adds the character to the text before the cursor; what stands behind
/// stays.
pub proof fn law_typing_adds(e: EditorView, ch: char)
    requires
        e.wf(),
    ensures
        ({
            let after = e.insert_char(ch);
            let (p, q) = ((e.row, e.col), (after.row, after.col));
            &&& ahead_of(after.lines, q) == ahead_of(e.lines, p).push(ch)
            &&& behind(after.lines, q) == behind(e.lines, p)
        }),
{
    let after = e.insert_char(ch);
    let line = e.lines[e.row];
    let x = line.take(e.col);
    assert(after.lines.take(e.row) =~= e.lines.take(e.row));
    assert(after.lines[e.row].take(e.col + 1) =~= x.push(ch));
    assert(after.lines[e.row].skip(e.col + 1) =~= line.skip(e.col));
    assert(after.lines.skip(e.row + 1) =~= e.lines.skip(e.row + 1));
    lemma_joined_push(e.lines.take(e.row), x);
    lemma_joined_push(e.lines.take(e.row), x.push(ch));
    assert(ahead_of(after.lines, (e.row, e.col + 1)) =~= ahead_of(e.lines, (e.row, e.col)).push(
        ch,
    ));
}

/// Enter adds a line feed to the text before the cursor; what stands behind
/// stays.
pub proof fn law_enter_adds(e: EditorView)
    requires
        e.wf(),
    ensures
        ({
            let after = e.insert_newline();
            let (p, q) = ((e.row, e.col), (after.row, after.col));
            &&& ahead_of(after.lines, q) == ahead_of(e.lines, p).push('\n')
            &&& behind(after.lines, q) == behind(e.lines, p)
        }),
{
    let after = e.insert_newline();
    let line = e.lines[e.row];
    let upper = e.lines.take(e.row).push(line.take(e.col));
    assert(after.lines.take(e.row + 1) =~= upper);
    assert(after.lines[e.row + 1].take(0) =~= Seq::<char>::empty());
    assert(after.lines[e.row + 1].skip(0) =~= line.skip(e.col));
    assert(after.lines.skip(e.row + 2) =~= e.lines.skip(e.row + 1));
    lemma_joined_push(upper, Seq::empty());
    assert(ahead_of(after.lines, (e.row + 1, 0)) =~= ahead_of(e.lines, (e.row, e.col)).push('\n'));
}

/// Backspace takes the last character off the text before the cursor, be it a
/// line feed; what stands behind stays.
pub proof fn law_backspace_takes(e: EditorView)
    requires
        e.wf(),
        e.row > 0 || e.col > 0,
    ensures
        ({
            let after = e.backspace();
            let (p, q) = ((e.row, e.col), (after.row, after.col));
            &&& ahead_of(e.lines, p).len() > 0
            &&& ahead_of(after.lines, q) == ahead_of(e.lines, p).drop_last()
            &&& behind(after.lines, q) == behind(e.lines, p)
        }),
{
    let after = e.backspace();
    let line = e.lines[e.row];
    let upper = e.lines.take(e.row);
    let x = line.take(e.col);
    lemma_joined_push(upper, x);
    if e.col > 0 {
        assert(after.lines.take(e.row) =~= upper);
        assert(after.lines[e.row].take(e.col - 1) =~= x.drop_last());
        assert(after.lines[e.row].skip(e.col - 1) =~= line.skip(e.col));
        assert(after.lines.skip(e.row + 1) =~= e.lines.skip(e.row + 1));
        lemma_joined_push(upper, x.drop_last());
    } else {
        let above = e.lines[e.row - 1];
        let n = above.len() as int;
        assert(after.lines[e.row - 1] == above + line);
        assert((above + line).take(n) =~= above);
        assert((above + line).skip(n) =~= line.skip(0));
        assert(after.lines.take(e.row - 1).push(above) =~= upper);
        assert(after.lines.skip(e.row) =~= e.lines.skip(e.row + 1));
        assert(x =~= Seq::<char>::empty());
    }
    assert(ahead_of(after.lines, (after.row, after.col)) =~= ahead_of(
        e.lines,
        (e.row, e.col),
    ).drop_last());
}

/// Delete takes the first character off the text behind the cursor, be it a line
/// feed; what stands before stays.
pub proof fn law_delete_takes(e: EditorView)
    requires
        e.wf(),
        e.row + 1 < e.lines.len() || e.col < e.lines[e.row].len(),
    ensures
        ({
            let after = e.delete();
            let p = (e.row, e.col);
            &&& (after.row, after.col) == p
            &&& behind(e.lines, p).len() > 0
            &&& behind(after.lines, p) == behind(e.lines, p).drop_first()
            &&& ahead_of(after.lines, p) == ahead_of(e.lines, p)
        }),
{
    let after = e.delete();
    let line = e.lines[e.row];
    let lower = e.lines.skip(e.row + 1);
    let y = line.skip(e.col);
    assert(after.lines.take(e.row) =~= e.lines.take(e.row));
    assert(after.lines[e.row].take(e.col) =~= line.take(e.col));
    lemma_joined_before(y, lower);
    if e.col < line.len() {
        assert(after.lines[e.row].skip(e.col) =~= y.drop_first());
        assert(after.lines.skip(e.row + 1) =~= lower);
        lemma_joined_before(y.drop_first(), lower);
    } else {
        let below = e.lines[e.row + 1];
        assert(after.lines[e.row].skip(e.col) =~= below);
        assert(seq![below] + after.lines.skip(e.row + 1) =~= lower);
        assert(y =~= Seq::<char>::empty());
    }
    assert(behind(after.lines, (e.row, e.col)) =~= behind(e.lines, (e.row, e.col)).drop_first());
}

/// Right moves one character from the text behind the cursor to the text before
/// it, be it a line feed; Left moves one back.
pub proof fn law_steps_over_one(e: EditorView)
    requires
        e.wf(),
        e.row + 1 < e.lines.len() || e.col < e.lines[e.row].len(),
    ensures
        ({
            let after = e.move_right();
            let (p, q) = ((e.row, e.col), (after.row, after.col));
            &&& after.lines == e.lines
            &&& behind(e.lines, p) == seq![behind(e.lines, p)[0]] + behind(e.lines, q)
            &&& ahead_of(e.lines, q) == ahead_of(e.lines, p).push(behind(e.lines, p)[0])
            &&& (after.move_left().row, after.move_left().col) == p
        }),
{
    let after = e.move_right();
    let line = e.lines[e.row];
    let (upper, lower) = (e.lines.take(e.row), e.lines.skip(e.row + 1));
    let (x, y) = (line.take(e.col), line.skip(e.col));
    lemma_joined_before(y, lower);
    lemma_joined_push(upper, x);
    if e.col < line.len() {
        assert(line.take(e.col + 1) =~= x.push(y[0]));
        assert(line.skip(e.col + 1) =~= y.drop_first());
        lemma_joined_push(upper, x.push(y[0]));
        lemma_joined_before(y.drop_first(), lower);
    } else {
        let below = e.lines[e.row + 1];
        assert(x =~= line && y =~= Seq::<char>::empty());
        assert(e.lines.take(e.row + 1) =~= upper.push(line));
        assert(below.take(0) =~= Seq::<char>::empty());
        assert(below.skip(0) =~= below);
        assert(seq![below] + e.lines.skip(e.row + 2) =~= lower);
        lemma_joined_push(upper.push(line), Seq::empty());
    }
    let (p, q) = ((e.row, e.col), (after.row, after.col));
    assert(behind(e.lines, p) =~= seq![behind(e.lines, p)[0]] + behind(e.lines, q));
    assert(ahead_of(e.lines, q) =~= ahead_of(e.lines, p).push(behind(e.lines, p)[0]));
}

/// What stands before the end of a block is what stands before its start, and
/// the block.
proof fn lemma_block_ahead(lines: Seq<Seq<char>>, block: Seq<Seq<char>>, s: Pos, t: Pos)
    requires
        stands_in(lines, s),
        stands_in(lines, t),
        s.0 < t.0 || (s.0 == t.0 && s.1 <= t.1),
        is_between(block, lines, s, t),
    ensures
        ahead_of(lines, t) == ahead_of(lines, s) + joined(block, seq!['\n']),
{
    let upper = lines.take(s.0);
    let x = lines[s.0].take(s.1);
    let rest = block.skip(1);
    lemma_joined_seam(upper, x, block[0], rest);
    assert(seq![block[0]] + rest =~= block);
    if s.0 == t.0 {
        assert(x + block[0] =~= lines[t.0].take(t.1));
        assert(upper.push(x + block[0]) + rest =~= lines.take(t.0).push(lines[t.0].take(t.1)));
    } else {
        assert(x + block[0] =~= lines[s.0]);
        let whole = lines.take(t.0).push(lines[t.0].take(t.1));
        let glued = upper.push(lines[s.0]) + rest;
        assert(glued.len() == whole.len());
        assert forall|r: int| 0 <= r < whole.len() implies glued[r] == whole[r] by {
            if r > s.0 {
                let k = r - s.0;
                assert(glued[r] == block[k]);
                if k == block.len() - 1 {
                    assert(block.last() =~= lines[t.0].take(t.1));
                }
            }
        }
        assert(glued =~= whole);
    }
}

/// Without what stands between two positions, the same stands before the first
/// and behind the second.
proof fn lemma_without(after: Seq<Seq<char>>, lines: Seq<Seq<char>>, s: Pos, t: Pos)
    requires
        stands_in(lines, s),
        stands_in(lines, t),
        s.0 < t.0 || (s.0 == t.0 && s.1 <= t.1),
        is_without(after, lines, s, t),
    ensures
        stands_in(after, s),
        ahead_of(after, s) == ahead_of(lines, s),
        behind(after, s) == behind(lines, t),
{
    assert(after.take(s.0) =~= lines.take(s.0));
    assert(after[s.0].take(s.1) =~= lines[s.0].take(s.1));
    assert(after[s.0].skip(s.1) =~= lines[t.0].skip(t.1));
    let (a, b) = (after.skip(s.0 + 1), lines.skip(t.0 + 1));
    assert forall|r: int| 0 <= r < a.len() implies a[r] == b[r] by {
        assert(after[s.0 + 1 + r] == lines[s.0 + 1 + r + (t.0 - s.0)]);
    }
    assert(a =~= b);
}

/// Pasting adds the clipboard, as one text, to the text before the cursor; what
/// stands behind stays. The text of the system's clipboard is pasted as its
/// lines.
pub proof fn law_paste_adds(e: EditorView, text: Option<Seq<char>>)
    requires
        e.wf(),
        text is Some || e.clipboard.len() > 0,
    ensures
        ({
            let after = e.paste(text);
            let block = match text {
                Some(t) => document(t),
                None => e.clipboard,
            };
            let (p, q) = ((e.row, e.col), (after.row, after.col));
            &&& ahead_of(after.lines, q) == ahead_of(e.lines, p) + joined(block, seq!['\n'])
            &&& behind(after.lines, q) == behind(e.lines, p)
        }),
{
    law_paste(e, text);
    let after = e.paste(text);
    let (p, q) = ((e.row, e.col), (after.row, after.col));
    lemma_block_end(e.lines, p, after.clipboard);
    assert(stands_in(after.lines, q));
    assert(stands_in(after.lines, p)) by {
        assert(e.lines[p.0] == after.lines[p.0].subrange(0, p.1) + after.lines[q.0].subrange(
            q.1,
            after.lines[q.0].len() as int,
        ));
        if p.0 != q.0 {
            let block = after.clipboard;
            assert(after.lines[p.0] == e.lines[p.0].take(p.1) + block[0]);
        }
    }
    lemma_block_ahead(after.lines, after.clipboard, p, q);
    lemma_without(e.lines, after.lines, p, q);
}

/// Cutting leaves the text before the selection and the text behind it; between
/// them stood what is now in the clipboard.
pub proof fn law_cut_leaves(e: EditorView, anchor: Pos)
    requires
        e.wf(),
        e.prompt is Closed,
        e.selection == Some(SelectionView { anchor, is_cut: true }),
        e.in_text(anchor),
    ensures
        ({
            let after = e.key(KeyCode::Char('x'), KeyModifiers::Control).0;
            let cursor = (e.row, e.col);
            let (s, t) = (earlier(anchor, cursor), later(anchor, cursor));
            let taken = joined(after.clipboard, seq!['\n']);
            &&& joined(e.lines, seq!['\n']) == ahead_of(e.lines, s) + taken + behind(e.lines, t)
            &&& joined(after.lines, seq!['\n']) == ahead_of(e.lines, s) + behind(e.lines, t)
        }),
{
    law_cut(e, anchor);
    let after = e.key(KeyCode::Char('x'), KeyModifiers::Control).0;
    let cursor = (e.row, e.col);
    let (s, t) = (earlier(anchor, cursor), later(anchor, cursor));
    lemma_block_ahead(e.lines, after.clipboard, s, t);
    lemma_without(after.lines, e.lines, s, t);
    law_text_at(e.lines, t);
    law_text_at(after.lines, s);
}

/// What is selected, as one text, is what stands before its end but not before
/// its start.
pub proof fn law_selected_text(e: EditorView, sel: SelectionView)
    requires
        e.wf(),
        e.selection == Some(sel),
        e.in_text(sel.anchor),
    ensures
        ({
            let cursor = (e.row, e.col);
            ahead_of(e.lines, later(sel.anchor, cursor)) == ahead_of(
                e.lines,
                earlier(sel.anchor, cursor),
            ) + joined(e.selected(), seq!['\n'])
        }),
{
    law_selected(e);
    lemma_selection_is_range(e);
    let cursor = (e.row, e.col);
    lemma_block_ahead(
        e.lines,
        e.selected(),
        earlier(sel.anchor, cursor),
        later(sel.anchor, cursor),
    );
}

} // verus!
