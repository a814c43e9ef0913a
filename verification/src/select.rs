//! Selecting, cutting and pasting text.

use vstd::prelude::*;
use crate::state::{pos_le, pos_lt, Editor, EditorView, Pos, Selection, SelectionView};
use crate::text::{
    copy_line, copy_range, group_rows, join_lines, joined, rows, split_lines, text_lines,
};

verus! {

broadcast use group_rows;

// ── Blocks of text ───────────────────────────────────────────────────────

/// The text between two positions.
pub open spec fn block_between(lines: Seq<Seq<char>>, s: Pos, e: Pos) -> Seq<Seq<char>> {
    if s.0 == e.0 {
        seq![lines[s.0].subrange(s.1, e.1)]
    } else {
        seq![lines[s.0].skip(s.1)] + lines.subrange(s.0 + 1, e.0) + seq![lines[e.0].take(e.1)]
    }
}

/// The lines without the text between two positions.
pub open spec fn without_block(lines: Seq<Seq<char>>, s: Pos, e: Pos) -> Seq<Seq<char>> {
    lines.take(s.0) + seq![lines[s.0].take(s.1) + lines[e.0].skip(e.1)] + lines.skip(e.0 + 1)
}

/// The lines with a block inserted at a position.
pub open spec fn with_block(lines: Seq<Seq<char>>, at: Pos, block: Seq<Seq<char>>) -> Seq<
    Seq<char>,
> {
    let before = lines[at.0].take(at.1);
    let behind = lines[at.0].skip(at.1);
    if block.len() == 1 {
        lines.update(at.0, before + block[0] + behind)
    } else {
        lines.take(at.0) + seq![before + block[0]] + block.subrange(1, block.len() - 1) + seq![
            block.last() + behind,
        ] + lines.skip(at.0 + 1)
    }
}

/// Where a block that was inserted at a position ends.
pub open spec fn block_end(at: Pos, block: Seq<Seq<char>>) -> Pos {
    if block.len() == 1 {
        (at.0, at.1 + block[0].len())
    } else {
        (at.0 + block.len() - 1, block.last().len() as int)
    }
}

/// Whether `s` and `e` stand in the text, in this order.
pub open spec fn is_range(lines: Seq<Seq<char>>, s: Pos, e: Pos) -> bool {
    &&& pos_le(s, e)
    &&& 0 <= s.0
    &&& e.0 < lines.len()
    &&& 0 <= s.1 <= lines[s.0].len()
    &&& 0 <= e.1 <= lines[e.0].len()
}

fn copy_block(lines: &Vec<Vec<char>>, s: (usize, usize), e: (usize, usize)) -> (block: Vec<
    Vec<char>,
>)
    requires
        is_range(rows(lines@), (s.0 as int, s.1 as int), (e.0 as int, e.1 as int)),
    ensures
        rows(block@) == block_between(
            rows(lines@),
            (s.0 as int, s.1 as int),
            (e.0 as int, e.1 as int),
        ),
{
    let mut block: Vec<Vec<char>> = Vec::new();
    if s.0 == e.0 {
        block.push(copy_range(&lines[s.0], s.1, e.1));
        assert(rows(block@) =~= seq![rows(lines@)[s.0 as int].subrange(s.1 as int, e.1 as int)]);
        return block;
    }
    let ghost first = rows(lines@)[s.0 as int].skip(s.1 as int);
    block.push(copy_range(&lines[s.0], s.1, lines[s.0].len()));
    assert(rows(block@) =~= seq![first] + rows(lines@).subrange(s.0 + 1, s.0 + 1));
    let mut r: usize = s.0 + 1;
    while r < e.0
        invariant
            s.0 < r <= e.0 < lines@.len(),
            rows(block@) == seq![first] + rows(lines@).subrange(s.0 + 1, r as int),
        decreases e.0 - r,
    {
        let ghost so_far = rows(block@);
        block.push(copy_line(&lines[r]));
        assert(rows(block@) =~= so_far.push(rows(lines@)[r as int]));
        assert(rows(lines@).subrange(s.0 + 1, r + 1) =~= rows(lines@).subrange(
            s.0 + 1,
            r as int,
        ).push(rows(lines@)[r as int]));
        assert(rows(block@) =~= seq![first] + rows(lines@).subrange(s.0 + 1, r + 1));
        r = r + 1;
    }
    let ghost so_far = rows(block@);
    block.push(copy_range(&lines[e.0], 0, e.1));
    assert(rows(lines@)[e.0 as int].take(e.1 as int) =~= rows(lines@)[e.0 as int].subrange(
        0,
        e.1 as int,
    ));
    assert(rows(block@) =~= so_far + seq![rows(lines@)[e.0 as int].take(e.1 as int)]);
    block
}

fn cut_block(lines: &mut Vec<Vec<char>>, s: (usize, usize), e: (usize, usize))
    requires
        is_range(rows(old(lines)@), (s.0 as int, s.1 as int), (e.0 as int, e.1 as int)),
    ensures
        rows(final(lines)@) == without_block(
            rows(old(lines)@),
            (s.0 as int, s.1 as int),
            (e.0 as int, e.1 as int),
        ),
{
    let ghost all = lines@;
    let n = lines.len();
    assert(e.0 < n);
    let mut behind = copy_range(&lines[e.0], e.1, lines[e.0].len());
    let mut tail = lines.split_off(e.0 + 1);
    lines.truncate(s.0 + 1);
    let ghost head = lines@;
    lines[s.0].truncate(s.1);
    lines[s.0].append(&mut behind);
    let ghost middle = lines@;
    lines.append(&mut tail);
    proof {
        let r = rows(all);
        let joint = r[s.0 as int].take(s.1 as int) + r[e.0 as int].skip(e.1 as int);
        assert(head[s.0 as int]@ == r[s.0 as int]);
        assert(middle[s.0 as int]@ =~= joint);
        assert(rows(middle) =~= rows(head).update(s.0 as int, joint));
        assert(rows(head) =~= r.take(s.0 + 1));
        assert(rows(lines@) =~= without_block(
            r,
            (s.0 as int, s.1 as int),
            (e.0 as int, e.1 as int),
        ));
    }
}

fn insert_block(lines: &mut Vec<Vec<char>>, row: usize, col: usize, block: &Vec<Vec<char>>)
    requires
        row < old(lines)@.len(),
        col <= rows(old(lines)@)[row as int].len(),
        block@.len() > 0,
    ensures
        rows(final(lines)@) == with_block(
            rows(old(lines)@),
            (row as int, col as int),
            rows(block@),
        ),
{
    let ghost all = rows(lines@);
    let ghost b = rows(block@);
    let ghost before = all[row as int].take(col as int);
    let ghost behind = all[row as int].skip(col as int);
    let mut suffix = lines[row].split_off(col);
    assert(suffix@ =~= behind);
    let mut first = copy_line(&block[0]);
    lines[row].append(&mut first);
    assert(rows(lines@) =~= all.update(row as int, before + b[0]));
    if block.len() == 1 {
        lines[row].append(&mut suffix);
        assert(rows(lines@) =~= all.update(row as int, before + b[0] + behind));
        return ;
    }
    let n = lines.len();
    assert(row < n);
    let mut tail = lines.split_off(row + 1);
    let ghost head = all.take(row as int) + seq![before + b[0]];
    assert(rows(lines@) =~= head + b.subrange(1, 1));
    assert(rows(tail@) =~= all.skip(row + 1));
    let last_idx = block.len() - 1;
    let mut i: usize = 1;
    while i < last_idx
        invariant
            1 <= i <= last_idx,
            last_idx == block@.len() - 1,
            b == rows(block@),
            rows(lines@) == head + b.subrange(1, i as int),
        decreases last_idx - i,
    {
        let ghost so_far = rows(lines@);
        lines.push(copy_line(&block[i]));
        assert(rows(lines@) =~= so_far.push(b[i as int]));
        assert(b.subrange(1, i + 1) =~= b.subrange(1, i as int).push(b[i as int]));
        assert(rows(lines@) =~= head + b.subrange(1, i + 1));
        i = i + 1;
    }
    let ghost so_far = rows(lines@);
    let mut last_line = copy_line(&block[last_idx]);
    last_line.append(&mut suffix);
    assert(last_line@ =~= b.last() + behind);
    lines.push(last_line);
    assert(rows(lines@) =~= so_far + seq![b.last() + behind]);
    let ghost upper = lines@;
    let ghost lower = tail@;
    lines.append(&mut tail);
    assert(rows(lines@) =~= rows(upper) + rows(lower));
    assert(rows(lines@) =~= with_block(all, (row as int, col as int), b));
}

/// A text that may be missing.
pub open spec fn text_view(text: Option<String>) -> Option<Seq<char>> {
    match text {
        Some(t) => Some(t@),
        None => None,
    }
}

// ── Selecting ────────────────────────────────────────────────────────────

impl EditorView {
    /// The position of the cursor.
    pub open spec fn cursor(self) -> Pos {
        (self.row, self.col)
    }

    /// The ends of the selection, in the order of the text.
    pub open spec fn selection_range(self) -> Option<(Pos, Pos)> {
        match self.selection {
            Some(sel) => if pos_le(sel.anchor, self.cursor()) {
                Some((sel.anchor, self.cursor()))
            } else {
                Some((self.cursor(), sel.anchor))
            },
            None => None,
        }
    }

    /// Whether a position is selected.
    pub open spec fn in_selection(self, p: Pos) -> bool {
        match self.selection_range() {
            Some((s, e)) => pos_le(s, p) && pos_lt(p, e),
            None => false,
        }
    }

    /// The selection began at a place that is still in the text.
    pub open spec fn anchor_in_text(self) -> bool {
        match self.selection {
            Some(sel) => self.in_text(sel.anchor),
            None => true,
        }
    }

    /// The selected text.
    pub open spec fn selected(self) -> Seq<Seq<char>> {
        match self.selection_range() {
            Some((s, e)) => block_between(self.lines, s, e),
            None => Seq::empty(),
        }
    }

    /// The selected text goes, and the cursor to where it began.
    pub open spec fn delete_selected(self) -> EditorView {
        match self.selection_range() {
            Some((s, e)) => EditorView {
                lines: without_block(self.lines, s, e),
                row: s.0,
                col: s.1,
                top: if self.top > s.0 {
                    s.0
                } else {
                    self.top
                },
                selection: None,
                modified: true,
                ..self.push_undo()
            },
            None => self,
        }
    }

    /// Everything is selected.
    pub open spec fn select_all(self) -> EditorView {
        EditorView {
            selection: Some(SelectionView { anchor: (0, 0), is_cut: false }),
            row: self.lines.len() - 1,
            col: self.lines[self.lines.len() - 1].len() as int,
            status: "Selected all."@,
            ..self
        }
    }

    /// The clipboard once a text of the system's clipboard has replaced it.
    pub open spec fn clipboard_with(self, text: Option<Seq<char>>) -> Seq<Seq<char>> {
        match text {
            Some(t) => if text_lines(t).len() == 0 {
                seq![Seq::empty()]
            } else {
                text_lines(t)
            },
            None => self.clipboard,
        }
    }

    /// The clipboard is inserted at the cursor, which goes behind it. A text of
    /// the system's clipboard replaces the clipboard first. The screen follows
    /// the cursor.
    pub open spec fn paste(self, text: Option<Seq<char>>) -> EditorView {
        let block = self.clipboard_with(text);
        if block.len() == 0 {
            EditorView { clipboard: block, ..self }
        } else {
            let end = block_end(self.cursor(), block);
            EditorView {
                lines: with_block(self.lines, self.cursor(), block),
                row: end.0,
                col: end.1,
                top: if end.0 >= self.top + self.text_rows() {
                    end.0 - (self.text_rows() - 1)
                } else {
                    self.top
                },
                clipboard: block,
                modified: true,
                ..self.push_undo()
            }
        }
    }
}

/// The ends of a selection whose anchor is in the text form a range.
pub proof fn lemma_selection_is_range(e: EditorView)
    requires
        e.wf(),
        e.anchor_in_text(),
    ensures
        e.selection_range() matches Some((s, t)) ==> is_range(e.lines, s, t),
{
}

impl Editor {
    /// The ends of the selection, in the order of the text.
    pub fn selection_range(&self) -> (range: Option<((usize, usize), (usize, usize))>)
        ensures
            match range {
                Some((s, e)) => self@.selection_range() == Some(
                    ((s.0 as int, s.1 as int), (e.0 as int, e.1 as int)),
                ),
                None => self@.selection_range() is None,
            },
    {
        match &self.selection {
            Some(sel) => {
                let anchor = (sel.anchor_row, sel.anchor_col);
                let cursor = (self.row, self.col);
                if anchor.0 < cursor.0 || (anchor.0 == cursor.0 && anchor.1 <= cursor.1) {
                    Some((anchor, cursor))
                } else {
                    Some((cursor, anchor))
                }
            },
            None => None,
        }
    }

    /// Whether a position is selected.
    pub fn in_selection(&self, row: usize, col: usize) -> (selected: bool)
        ensures
            selected == self@.in_selection((row as int, col as int)),
    {
        match self.selection_range() {
            Some((s, e)) => {
                let from_start = s.0 < row || (s.0 == row && s.1 <= col);
                let before_end = row < e.0 || (row == e.0 && col < e.1);
                from_start && before_end
            },
            None => false,
        }
    }

    /// The selected text.
    pub fn collect_selected(&self) -> (block: Vec<Vec<char>>)
        requires
            self@.wf(),
            self@.anchor_in_text(),
        ensures
            rows(block@) == self@.selected(),
    {
        proof {
            lemma_selection_is_range(self@);
        }
        match self.selection_range() {
            Some((s, e)) => copy_block(&self.lines, s, e),
            None => {
                let block: Vec<Vec<char>> = Vec::new();
                assert(rows(block@) =~= Seq::<Seq<char>>::empty());
                block
            },
        }
    }

    /// Deletes the selected text.
    pub fn delete_selected(&mut self)
        requires
            old(self)@.wf(),
            old(self)@.fits(),
            old(self)@.anchor_in_text(),
        ensures
            final(self)@ == old(self)@.delete_selected(),
            final(self)@.wf(),
    {
        let ghost start = self@;
        proof {
            lemma_selection_is_range(self@);
        }
        match self.selection_range() {
            Some((s, e)) => {
                self.push_undo();
                cut_block(&mut self.lines, s, e);
                self.row = s.0;
                self.col = s.1;
                self.selection = None;
                self.modified = true;
                if self.top > self.row {
                    self.top = self.row;
                }
                assert(self@ =~= start.delete_selected());
            },
            None => {},
        }
    }

    /// Selects the entire document.
    pub fn select_all(&mut self)
        requires
            old(self)@.wf(),
        ensures
            final(self)@ == old(self)@.select_all(),
            final(self)@.wf(),
            final(self)@.anchor_in_text(),
    {
        self.selection = Some(Selection { anchor_row: 0, anchor_col: 0, is_cut: false });
        self.row = self.lines.len() - 1;
        self.col = self.lines[self.row].len();
        self.status = "Selected all.".to_owned();
    }

    /// The clipboard as one text.
    pub fn clipboard_to_string(&self) -> (text: String)
        ensures
            text@ == joined(self@.clipboard, seq!['\n']),
    {
        proof {
            reveal_strlit("\n");
            assert("\n"@ =~= seq!['\n']);
        }
        join_lines(&self.clipboard, "\n")
    }

    /// Replaces the clipboard with the text of the system's clipboard.
    fn load_clipboard(&mut self, sys_text: Option<String>)
        ensures
            final(self)@ == (EditorView {
                clipboard: old(self)@.clipboard_with(text_view(sys_text)),
                ..old(self)@
            }),
    {
        match sys_text {
            Some(text) => {
                self.clipboard = split_lines(text.as_str());
                if self.clipboard.len() == 0 {
                    self.clipboard.push(Vec::new());
                    assert(rows(self.clipboard@) =~= seq![Seq::<char>::empty()]);
                }
            },
            None => {},
        }
    }

    /// Inserts the clipboard at the cursor and moves the cursor behind it.
    fn insert_clipboard(&mut self)
        requires
            old(self)@.in_text(old(self)@.cursor()),
            old(self)@.clipboard.len() > 0,
        ensures
            final(self)@ == (EditorView {
                lines: with_block(old(self)@.lines, old(self)@.cursor(), old(self)@.clipboard),
                row: block_end(old(self)@.cursor(), old(self)@.clipboard).0,
                col: block_end(old(self)@.cursor(), old(self)@.clipboard).1,
                ..old(self)@
            }),
            final(self)@.in_text(final(self)@.cursor()),
            final(self)@.row >= old(self)@.row,
    {
        let ghost start = self@;
        let ghost block = self@.clipboard;
        insert_block(&mut self.lines, self.row, self.col, &self.clipboard);
        proof {
            lemma_block_end(start.lines, start.cursor(), block);
        }
        let last_idx = self.clipboard.len() - 1;
        let count = self.lines.len();
        assert(self.row + last_idx < count);
        if last_idx == 0 {
            let room = self.lines[self.row].len();
            assert(self.col + block[0].len() <= room);
            self.col = self.col + self.clipboard[0].len();
        } else {
            self.col = self.clipboard[last_idx].len();
        }
        self.row = self.row + last_idx;
    }

    /// Whether a paste leaves room for the cursor on the screen, or has nothing
    /// to insert.
    pub fn can_paste(&self, sys_text: &Option<String>) -> (ok: bool)
        ensures
            ok == (self@.text_rows() > 0 || (sys_text is None && self@.clipboard.len() == 0)),
    {
        self.text_rows() > 0 || (sys_text.is_none() && self.clipboard.len() == 0)
    }

    /// Inserts the clipboard at the cursor; the text of the system's clipboard,
    /// where there is one, replaces the clipboard first.
    pub fn paste(&mut self, sys_text: Option<String>)
        requires
            old(self)@.wf(),
            old(self)@.fits(),
            old(self)@.text_rows() > 0 || (sys_text is None && old(self)@.clipboard.len() == 0),
        ensures
            final(self)@ == old(self)@.paste(text_view(sys_text)),
            final(self)@.wf(),
            old(self)@.inv() && old(self)@.prompt is Closed ==> final(self)@.inv(),
    {
        let ghost start = self@;
        let ghost sys = text_view(sys_text);
        self.load_clipboard(sys_text);
        if self.clipboard.len() == 0 {
            return ;
        }
        self.push_undo();
        self.insert_clipboard();
        self.modified = true;
        let tr = self.text_rows();
        if self.row - self.top >= tr {
            self.top = self.row.saturating_sub(tr - 1);
        }
        assert(self@ =~= start.paste(sys));
    }
}

/// An inserted block ends in the text.
pub proof fn lemma_block_end(lines: Seq<Seq<char>>, at: Pos, block: Seq<Seq<char>>)
    requires
        0 <= at.0 < lines.len(),
        0 <= at.1 <= lines[at.0].len(),
        block.len() > 0,
    ensures
        ({
            let end = block_end(at, block);
            let after = with_block(lines, at, block);
            &&& after.len() == lines.len() + block.len() - 1
            &&& 0 <= end.0 < after.len()
            &&& 0 <= end.1 <= after[end.0].len()
        }),
{
    let end = block_end(at, block);
    let after = with_block(lines, at, block);
    let before = lines[at.0].take(at.1);
    let behind = lines[at.0].skip(at.1);
    if block.len() == 1 {
        assert(after[at.0] == before + block[0] + behind);
    } else {
        assert(after[end.0] == block.last() + behind);
    }
}

} // verus!
