//! What holds of splitting, joining, cutting and pasting text.

use vstd::prelude::*;
use crate::action::ActionView;
use crate::files::document;
use crate::select::{
    block_between, block_end, is_range, lemma_block_end, lemma_selection_is_range, with_block,
    without_block,
};
use crate::state::{pos_le, pos_lt, EditorView, Pos};
use crate::text::{joined, lines_ahead, strip_cr, text_lines};

verus! {

// ── Lines and text ───────────────────────────────────────────────────────

/// Joined lines begin with the first of them.
pub proof fn lemma_joined_first(lines: Seq<Seq<char>>, separator: Seq<char>)
    requires
        lines.len() >= 2,
    ensures
        joined(lines, separator) == lines[0] + separator + joined(lines.drop_first(), separator),
    decreases lines.len(),
{
    if lines.len() == 2 {
        reveal_with_fuel(joined, 2);
        assert(lines.drop_last()[0] == lines[0]);
        assert(lines.drop_first()[0] == lines[1]);
    } else {
        lemma_joined_first(lines.drop_last(), separator);
        let mid = lines.drop_last().drop_first();
        assert(lines.drop_last()[0] == lines[0]);
        assert(mid =~= lines.drop_first().drop_last());
        assert(lines.drop_first().last() == lines.last());
        assert(lines[0] + separator + joined(mid, separator) + separator + lines.last()
            =~= lines[0] + separator + (joined(mid, separator) + separator + lines.last()));
    }
}

/// Characters that end no line are read into the current line.
pub proof fn lemma_read_line(current: Seq<char>, line: Seq<char>, rest: Seq<char>)
    requires
        !line.contains('\n'),
    ensures
        lines_ahead(current, line + rest) == lines_ahead(current + line, rest),
    decreases line.len(),
{
    if line.len() == 0 {
        assert(line + rest =~= rest);
        assert(current + line =~= current);
    } else {
        let text = line + rest;
        assert(text[0] == line[0]);
        assert(line.contains(line[0]));
        assert(text.drop_first() =~= line.drop_first() + rest);
        assert forall|c: char| line.drop_first().contains(c) implies line.contains(c) by {
            let i = choose|i: int| 0 <= i < line.drop_first().len() && line.drop_first()[i] == c;
            assert(line[i + 1] == c);
        }
        lemma_read_line(current.push(line[0]), line.drop_first(), rest);
        assert(current.push(line[0]) + line.drop_first() =~= current + line);
    }
}

/// Whether lines stay lines once they are joined with a line ending: no line
/// holds a line feed, and with bare line feeds no line but the last ends in a
/// carriage return.
pub open spec fn unbroken(lines: Seq<Seq<char>>, separator: Seq<char>) -> bool {
    &&& forall|i: int| 0 <= i < lines.len() ==> !(#[trigger] lines[i]).contains('\n')
    &&& separator == seq!['\n'] ==> forall|i: int|
        0 <= i < lines.len() - 1 && (#[trigger] lines[i]).len() > 0 ==> lines[i].last() != '\r'
}

/// Whether lines can be told apart once they are joined with a line ending:
/// they stay lines, and the last of several lines is not empty.
pub open spec fn separable(lines: Seq<Seq<char>>, separator: Seq<char>) -> bool {
    unbroken(lines, separator) && (lines.len() > 1 ==> lines.last().len() > 0)
}

/// What is read of lines that were joined: the last of several lines is lost if
/// it is empty, as a line ending at the end of a text begins no line.
pub open spec fn read_back(lines: Seq<Seq<char>>) -> Seq<Seq<char>> {
    if lines.len() > 1 && lines.last().len() == 0 {
        lines.drop_last()
    } else {
        lines
    }
}

/// Lines that stay lines still do so without the first.
proof fn lemma_unbroken_rest(lines: Seq<Seq<char>>, separator: Seq<char>)
    requires
        unbroken(lines, separator),
        lines.len() >= 2,
    ensures
        unbroken(lines.drop_first(), separator),
{
    let rest = lines.drop_first();
    assert forall|i: int| 0 <= i < rest.len() implies !(#[trigger] rest[i]).contains('\n') by {
        assert(rest[i] == lines[i + 1]);
    }
    if separator == seq!['\n'] {
        assert forall|i: int|
            0 <= i < rest.len() - 1 && (#[trigger] rest[i]).len() > 0 implies rest[i].last()
            != '\r' by {
            assert(rest[i] == lines[i + 1]);
        }
    }
}

/// The first line of a text is read, and then the rest.
proof fn lemma_split_first(line: Seq<char>, separator: Seq<char>, rest: Seq<char>)
    requires
        separator == seq!['\n'] || separator == seq!['\r', '\n'],
        !line.contains('\n'),
        separator == seq!['\n'] && line.len() > 0 ==> line.last() != '\r',
    ensures
        text_lines(line + separator + rest) == seq![line] + text_lines(rest),
{
    let none = Seq::<char>::empty();
    if separator == seq!['\n'] {
        let tail = separator + rest;
        assert(line + separator + rest =~= line + tail);
        lemma_read_line(none, line, tail);
        assert(none + line =~= line);
        assert(tail[0] == '\n');
        assert(tail.drop_first() =~= rest);
        assert(strip_cr(line) == line);
    } else {
        let read = line.push('\r');
        let tail = seq!['\n'] + rest;
        assert(line + separator + rest =~= read + tail);
        assert(!read.contains('\n')) by {
            if read.contains('\n') {
                let i = choose|i: int| 0 <= i < read.len() && read[i] == '\n';
                assert(line[i] == '\n');
                assert(line.contains('\n'));
            }
        }
        lemma_read_line(none, read, tail);
        assert(none + read =~= read);
        assert(tail[0] == '\n');
        assert(tail.drop_first() =~= rest);
        assert(strip_cr(read) =~= line);
    }
}

/// Splitting a text that was joined from lines.
proof fn lemma_split_after_join(lines: Seq<Seq<char>>, separator: Seq<char>)
    requires
        separator == seq!['\n'] || separator == seq!['\r', '\n'],
        unbroken(lines, separator),
        lines.len() > 0,
    ensures
        text_lines(joined(lines, separator)) == (if lines.last().len() > 0 {
            lines
        } else {
            lines.drop_last()
        }),
    decreases lines.len(),
{
    let none = Seq::<char>::empty();
    let line = lines[0];
    if lines.len() == 1 {
        assert(line + none =~= line);
        assert(none + line =~= line);
        lemma_read_line(none, line, none);
        if line.len() > 0 {
            assert(lines =~= seq![line]);
        } else {
            assert(lines.drop_last() =~= Seq::<Seq<char>>::empty());
        }
    } else {
        let rest = lines.drop_first();
        assert(rest.last() == lines.last());
        lemma_unbroken_rest(lines, separator);
        lemma_split_after_join(rest, separator);
        lemma_joined_first(lines, separator);
        lemma_split_first(line, separator, joined(rest, separator));
        if lines.last().len() > 0 {
            assert(lines =~= seq![line] + rest);
        } else {
            assert(lines.drop_last() =~= seq![line] + rest.drop_last());
        }
    }
}

/// A text that was joined from lines is edited as these lines, but for an empty
/// line at the end of several.
pub proof fn law_split_after_join(lines: Seq<Seq<char>>, separator: Seq<char>)
    requires
        separator == seq!['\n'] || separator == seq!['\r', '\n'],
        unbroken(lines, separator),
        lines.len() > 0,
    ensures
        document(joined(lines, separator)) == read_back(lines),
{
    lemma_split_after_join(lines, separator);
    if lines.len() == 1 && lines.last().len() == 0 {
        assert(lines[0] =~= Seq::<char>::empty());
        assert(lines =~= seq![Seq::<char>::empty()]);
    }
}

// ── Blocks ───────────────────────────────────────────────────────────────

/// Putting a block back where it was taken out gives back the text.
pub proof fn law_insert_after_remove(lines: Seq<Seq<char>>, s: Pos, e: Pos)
    requires
        is_range(lines, s, e),
    ensures
        with_block(without_block(lines, s, e), s, block_between(lines, s, e)) == lines,
        block_end(s, block_between(lines, s, e)) == e,
{
    let rest = without_block(lines, s, e);
    let block = block_between(lines, s, e);
    let line = lines[s.0].take(s.1) + lines[e.0].skip(e.1);
    assert(rest[s.0] == line);
    assert(line.take(s.1) =~= lines[s.0].take(s.1));
    assert(line.skip(s.1) =~= lines[e.0].skip(e.1));
    let back = with_block(rest, s, block);
    if s.0 == e.0 {
        assert(lines[s.0].take(s.1) + block[0] + lines[e.0].skip(e.1) =~= lines[s.0]);
        assert(back =~= lines);
    } else {
        assert(lines[s.0].take(s.1) + block[0] =~= lines[s.0]);
        assert(block.last() == lines[e.0].take(e.1));
        assert(block.last() + lines[e.0].skip(e.1) =~= lines[e.0]);
        assert(block.subrange(1, block.len() - 1) =~= lines.subrange(s.0 + 1, e.0));
        assert(rest.skip(s.0 + 1) =~= lines.skip(e.0 + 1));
        assert(rest.take(s.0) =~= lines.take(s.0));
        assert(back =~= lines);
    }
}

/// Taking out a block where it was put in gives back the text and the block.
pub proof fn law_remove_after_insert(lines: Seq<Seq<char>>, at: Pos, block: Seq<Seq<char>>)
    requires
        0 <= at.0 < lines.len(),
        0 <= at.1 <= lines[at.0].len(),
        block.len() > 0,
    ensures
        without_block(with_block(lines, at, block), at, block_end(at, block)) == lines,
        block_between(with_block(lines, at, block), at, block_end(at, block)) == block,
{
    lemma_block_end(lines, at, block);
    let after = with_block(lines, at, block);
    let end = block_end(at, block);
    let before = lines[at.0].take(at.1);
    let behind = lines[at.0].skip(at.1);
    assert(before + behind =~= lines[at.0]);
    if block.len() == 1 {
        let line = before + block[0] + behind;
        assert(after[at.0] == line);
        assert(line.take(at.1) =~= before);
        assert(line.skip(end.1) =~= behind);
        assert(line.subrange(at.1, end.1) =~= block[0]);
        assert(without_block(after, at, end) =~= lines);
        assert(block_between(after, at, end) =~= block);
    } else {
        let first = before + block[0];
        let last = block.last() + behind;
        assert(after[at.0] == first);
        assert(after[end.0] == last);
        assert(first.take(at.1) =~= before);
        assert(first.skip(at.1) =~= block[0]);
        assert(last.skip(end.1) =~= behind);
        assert(last.take(end.1) =~= block.last());
        assert(after.subrange(at.0 + 1, end.0) =~= block.subrange(1, block.len() - 1));
        assert(without_block(after, at, end) =~= lines);
        assert(block_between(after, at, end) =~= block);
    }
}

/// Whether a selection is complete: made to cut or to copy, with both ends in
/// the text.
pub open spec fn selecting(e: EditorView, is_cut: bool) -> bool {
    e.wf() && e.anchor_in_text() && (e.selection matches Some(sel) && sel.is_cut == is_cut)
}

/// Pasting what was cut, before anything else, gives back the text; the cursor
/// then stands at the end of what had been selected.
pub proof fn law_paste_after_cut(e: EditorView)
    requires
        selecting(e, true),
    ensures
        ({
            let back = e.cut().0.paste(None);
            &&& back.lines == e.lines
            &&& e.selection_range() matches Some((s, t)) && back.cursor() == t
        }),
{
    lemma_selection_is_range(e);
    match e.selection_range() {
        Some((s, t)) => {
            law_insert_after_remove(e.lines, s, t);
        },
        None => {},
    }
}

/// What was cut also comes back by way of the system's clipboard, if its lines
/// can be told apart in one text.
pub proof fn law_paste_after_cut_through_system(e: EditorView)
    requires
        selecting(e, true),
        separable(e.selected(), seq!['\n']),
    ensures
        e.cut().1 matches ActionView::Copy(text) && e.cut().0.paste(Some(text)).lines == e.lines,
{
    lemma_selection_is_range(e);
    match e.selection_range() {
        Some((s, t)) => {
            law_split_after_join(e.selected(), seq!['\n']);
            law_insert_after_remove(e.lines, s, t);
        },
        None => {},
    }
}

/// Copying changes neither text nor cursor, and gives the clipboard what
/// cutting gives it.
pub proof fn law_copy_like_cut(e: EditorView)
    requires
        selecting(e, false),
    ensures
        e.copy().0.lines == e.lines,
        e.copy().0.cursor() == e.cursor(),
        e.copy().0.modified == e.modified,
        e.copy().0.clipboard == e.switch_selection(true).cut().0.clipboard,
        e.copy().1 == e.switch_selection(true).cut().1,
{
}

/// A pasted block is what stands between the old and the new cursor.
pub proof fn law_pasted_block(e: EditorView, text: Option<Seq<char>>)
    requires
        e.wf(),
        e.clipboard_with(text).len() > 0,
    ensures
        ({
            let after = e.paste(text);
            &&& block_between(after.lines, e.cursor(), after.cursor()) == after.clipboard
            &&& without_block(after.lines, e.cursor(), after.cursor()) == e.lines
        }),
{
    law_remove_after_insert(e.lines, e.cursor(), e.clipboard_with(text));
}

/// Selecting everything and copying it takes the whole text.
pub proof fn law_copy_all(e: EditorView)
    requires
        e.wf(),
    ensures
        e.select_all().copy().0.clipboard == e.lines,
        e.select_all().copy().0.lines == e.lines,
{
    let all = e.select_all();
    let n = e.lines.len() as int;
    let end = (n - 1, e.lines[n - 1].len() as int);
    assert(all.selection_range() == Some(((0int, 0int), end)));
    if n == 1 {
        assert(e.lines[0].subrange(0, end.1) =~= e.lines[0]);
        assert(all.selected() =~= e.lines);
    } else {
        assert(e.lines[0].skip(0) =~= e.lines[0]);
        assert(e.lines[n - 1].take(end.1) =~= e.lines[n - 1]);
        assert(all.selected() =~= e.lines);
    }
}

/// A character is shown as selected exactly when it stands between the two ends
/// of the selection, whichever of them is the cursor.
pub proof fn law_selection_is_symmetric(e: EditorView, p: Pos)
    requires
        e.selection is Some,
    ensures
        ({
            let anchor = e.selection->Some_0.anchor;
            e.in_selection(p) == ((pos_le(anchor, p) && pos_lt(p, e.cursor())) || (pos_le(
                e.cursor(),
                p,
            ) && pos_lt(p, anchor)))
        }),
{
}

} // verus!
