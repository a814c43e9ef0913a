//! Searching and replacing.

use vstd::prelude::*;
use vstd::string::StringExecFns;
use crate::message::{decimal, push_number};
use crate::state::{
    pos_le, positions, Editor, EditorView, Pos, Prompt, PromptView, ReplaceStep,
};
use crate::text::{copy_range, group_rows, push_chars, rows};

verus! {

// ── Matches ──────────────────────────────────────────────────────────────

/// Whether a query stands in a line at a column.
pub open spec fn occurs_at(line: Seq<char>, query: Seq<char>, c: int) -> bool {
    &&& 0 <= c
    &&& c + query.len() <= line.len()
    &&& line.subrange(c, c + query.len()) == query
}

/// The number of columns of a line at which a query can stand.
pub open spec fn room_for(line: Seq<char>, query: Seq<char>) -> int {
    if line.len() < query.len() {
        0
    } else {
        line.len() - query.len() + 1
    }
}

/// The matches in the first `n` columns of a line, which is row `r`.
pub open spec fn line_matches(line: Seq<char>, query: Seq<char>, r: int, n: int) -> Seq<Pos>
    decreases n,
{
    if n <= 0 {
        Seq::empty()
    } else if occurs_at(line, query, n - 1) {
        line_matches(line, query, r, n - 1).push((r, n - 1))
    } else {
        line_matches(line, query, r, n - 1)
    }
}

/// The matches in the first `n` rows.
pub open spec fn matches_in(lines: Seq<Seq<char>>, query: Seq<char>, n: int) -> Seq<Pos>
    decreases n,
{
    if n <= 0 {
        Seq::empty()
    } else {
        matches_in(lines, query, n - 1) + line_matches(
            lines[n - 1],
            query,
            n - 1,
            room_for(lines[n - 1], query),
        )
    }
}

/// All matches of a query, in the order of the text; an empty query has none.
pub open spec fn found(lines: Seq<Seq<char>>, query: Seq<char>) -> Seq<Pos> {
    if query.len() == 0 {
        Seq::empty()
    } else {
        matches_in(lines, query, lines.len() as int)
    }
}

/// The first match from index `from` on that is at or behind a position; the
/// first of all where there is none.
pub open spec fn nearest(matches: Seq<Pos>, p: Pos, from: int) -> int
    decreases matches.len() - from,
{
    if from >= matches.len() {
        0
    } else if pos_le(p, matches[from]) {
        from
    } else {
        nearest(matches, p, from + 1)
    }
}

/// Whether a position is covered by a match of a query of length `qlen`.
pub open spec fn covers(m: Pos, qlen: nat, p: Pos) -> bool {
    m.0 == p.0 && m.1 <= p.1 < m.1 + qlen
}

/// How a position is highlighted, where match `current` is the current one: 2
/// if the current match covers it, 1 if only other matches do, 0 if none does.
pub open spec fn highlight(matches: Seq<Pos>, qlen: nat, current: int, p: Pos) -> int {
    if 0 <= current < matches.len() && covers(matches[current], qlen, p) {
        2
    } else if exists|i: int| 0 <= i < matches.len() && covers(#[trigger] matches[i], qlen, p) {
        1
    } else {
        0
    }
}

/// A match found in a line stands in that line.
pub proof fn lemma_line_matches(line: Seq<char>, query: Seq<char>, r: int, n: int)
    ensures
        forall|i: int|
            0 <= i < line_matches(line, query, r, n).len() ==> {
                let m = #[trigger] line_matches(line, query, r, n)[i];
                m.0 == r && 0 <= m.1 < n && occurs_at(line, query, m.1)
            },
    decreases n,
{
    if n > 0 {
        lemma_line_matches(line, query, r, n - 1);
        let before = line_matches(line, query, r, n - 1);
        let after = line_matches(line, query, r, n);
        assert forall|i: int| 0 <= i < after.len() implies {
            let m = #[trigger] after[i];
            m.0 == r && 0 <= m.1 < n && occurs_at(line, query, m.1)
        } by {
            if i < before.len() {
                assert(after[i] == before[i]);
            }
        }
    }
}

/// A match stands where the query occurs.
pub proof fn lemma_matches_in(lines: Seq<Seq<char>>, query: Seq<char>, n: int)
    requires
        n <= lines.len(),
    ensures
        forall|i: int|
            0 <= i < matches_in(lines, query, n).len() ==> {
                let m = #[trigger] matches_in(lines, query, n)[i];
                0 <= m.0 < n && occurs_at(lines[m.0], query, m.1)
            },
    decreases n,
{
    if n > 0 {
        lemma_matches_in(lines, query, n - 1);
        let room = room_for(lines[n - 1], query);
        lemma_line_matches(lines[n - 1], query, n - 1, room);
        let before = matches_in(lines, query, n - 1);
        let here = line_matches(lines[n - 1], query, n - 1, room);
        let after = matches_in(lines, query, n);
        assert forall|i: int| 0 <= i < after.len() implies {
            let m = #[trigger] after[i];
            0 <= m.0 < n && occurs_at(lines[m.0], query, m.1)
        } by {
            if i < before.len() {
                assert(after[i] == before[i]);
            } else {
                assert(after[i] == here[i - before.len()]);
            }
        }
    }
}

fn occurs(line: &Vec<char>, query: &Vec<char>, c: usize) -> (here: bool)
    requires
        c + query@.len() <= line@.len(),
    ensures
        here == occurs_at(line@, query@, c as int),
{
    let mut i: usize = 0;
    while i < query.len()
        invariant
            i <= query@.len(),
            c + query@.len() <= line@.len(),
            forall|j: int| 0 <= j < i ==> line@[c + j] == #[trigger] query@[j],
        decreases query@.len() - i,
    {
        let n = line.len();
        assert(c + i < n);
        if line[c + i] != query[i] {
            proof {
                if occurs_at(line@, query@, c as int) {
                    assert(line@.subrange(c as int, c + query@.len())[i as int] == query@[i as int]);
                }
            }
            return false;
        }
        i = i + 1;
    }
    assert(line@.subrange(c as int, c + query@.len()) =~= query@);
    true
}

fn find_in_line(out: &mut Vec<(usize, usize)>, line: &Vec<char>, query: &Vec<char>, r: usize)
    ensures
        positions(final(out)@) == positions(old(out)@) + line_matches(
            line@,
            query@,
            r as int,
            room_for(line@, query@),
        ),
{
    let ghost start = positions(out@);
    if line.len() < query.len() {
        assert(positions(out@) =~= start + Seq::<Pos>::empty());
        return ;
    }
    let last = line.len() - query.len();
    let mut c: usize = 0;
    assert(positions(out@) =~= start + Seq::<Pos>::empty());
    loop
        invariant_except_break
            positions(out@) == start + line_matches(line@, query@, r as int, c as int),
        invariant
            c <= last,
            last == line@.len() - query@.len(),
        ensures
            positions(out@) == start + line_matches(line@, query@, r as int, last + 1),
        decreases last - c,
    {
        let ghost so_far = positions(out@);
        if occurs(line, query, c) {
            out.push((r, c));
            assert(positions(out@) =~= so_far.push((r as int, c as int)));
        }
        assert(positions(out@) =~= start + line_matches(line@, query@, r as int, c + 1));
        if c == last {
            break;
        }
        c = c + 1;
    }
}

// ── Replacing ────────────────────────────────────────────────────────────

/// A line with the part from one column up to another replaced.
pub open spec fn spliced(line: Seq<char>, from: int, to: int, with: Seq<char>) -> Seq<char> {
    line.take(from) + with + line.skip(to)
}

/// The lines with a piece of text of length `qlen` at each match replaced,
/// the last match first. A match that no longer fits into its line is skipped.
pub open spec fn replaced(
    lines: Seq<Seq<char>>,
    matches: Seq<Pos>,
    qlen: nat,
    with: Seq<char>,
) -> Seq<Seq<char>>
    decreases matches.len(),
{
    if matches.len() == 0 {
        lines
    } else {
        let m = matches.last();
        let next = if m.1 + qlen <= lines[m.0].len() {
            lines.update(m.0, spliced(lines[m.0], m.1, m.1 + qlen, with))
        } else {
            lines
        };
        replaced(next, matches.drop_last(), qlen, with)
    }
}

fn splice_line(lines: &mut Vec<Vec<char>>, r: usize, from: usize, to: usize, with: &Vec<char>)
    requires
        r < old(lines)@.len(),
        from <= to <= rows(old(lines)@)[r as int].len(),
    ensures
        rows(final(lines)@) == rows(old(lines)@).update(
            r as int,
            spliced(rows(old(lines)@)[r as int], from as int, to as int, with@),
        ),
{
    broadcast use group_rows;

    let ghost line = rows(lines@)[r as int];
    let mut behind = copy_range(&lines[r], to, lines[r].len());
    let mut middle = copy_range(with, 0, with.len());
    assert(middle@ =~= with@);
    lines[r].truncate(from);
    lines[r].append(&mut middle);
    lines[r].append(&mut behind);
    assert(lines@[r as int]@ =~= spliced(line, from as int, to as int, with@));
}

// ── Messages ─────────────────────────────────────────────────────────────

impl EditorView {
    /// The message of the search prompt.
    pub open spec fn search_status(self) -> Seq<char> {
        if self.search_query.len() == 0 {
            "Search: "@
        } else if self.search_matches.len() == 0 {
            "Search: "@ + self.search_query + "  (not found)"@
        } else {
            "Search: "@ + self.search_query + "  ["@ + decimal(
                (self.search_match_idx + 1) as nat,
            ) + "/"@ + decimal(self.search_matches.len()) + "]  Enter=next  Esc=close"@
        }
    }

    /// The message of the replace prompt.
    pub open spec fn replace_status(self) -> Seq<char> {
        match self.prompt {
            PromptView::Replace { search_buf, replace_buf, search_cur, replace_cur, step } =>
                match step {
                ReplaceStep::SearchInput => if search_buf.len() == 0 {
                    "Replace — Search: "@
                } else if self.search_matches.len() == 0 {
                    "Replace — Search: "@ + search_buf + "  (not found)  Enter=next  Esc=cancel"@
                } else {
                    "Replace — Search: "@ + search_buf + "  ["@ + decimal(
                        self.search_matches.len(),
                    ) + " found]  Enter=next  Esc=cancel"@
                },
                ReplaceStep::ReplaceInput => "Replace \""@ + search_buf + "\" with: "@
                    + replace_buf,
            },
            _ => self.status,
        }
    }

    /// The matches for the current query; the current match stays within them.
    pub open spec fn update_search(self) -> EditorView {
        let matches = found(self.lines, self.search_query);
        EditorView {
            search_matches: matches,
            search_match_idx: if self.search_query.len() == 0 {
                self.search_match_idx
            } else if matches.len() == 0 {
                0
            } else if self.search_match_idx < matches.len() {
                self.search_match_idx
            } else {
                matches.len() - 1
            },
            ..self
        }
    }

    /// A match becomes the current one, and the cursor goes there. The screen
    /// follows.
    pub open spec fn jump_to_match(self, idx: int) -> EditorView {
        if self.search_matches.len() == 0 {
            self
        } else {
            let i = idx % (self.search_matches.len() as int);
            let m = self.search_matches[i];
            let top = if m.0 < self.top {
                m.0
            } else {
                self.top
            };
            EditorView {
                search_match_idx: i,
                row: m.0,
                col: m.1,
                top: if m.0 >= top + self.text_rows() {
                    m.0 - self.text_rows() / 2
                } else {
                    top
                },
                ..self
            }
        }
    }

    /// How a position is highlighted: 0 not at all, 1 as a match, 2 as the
    /// current match.
    pub open spec fn search_attr_at(self, p: Pos) -> int {
        if self.search_query.len() == 0 {
            0
        } else {
            highlight(self.search_matches, self.search_query.len(), self.search_match_idx, p)
        }
    }

    /// Every match is replaced.
    pub open spec fn replace_all(self, with: Seq<char>) -> EditorView {
        if self.search_matches.len() == 0 {
            EditorView { status: "No matches to replace."@, ..self }
        } else {
            EditorView {
                lines: replaced(self.lines, self.search_matches, self.search_query.len(), with),
                modified: true,
                status: "Replaced "@ + decimal(self.search_matches.len()) + " occurrence(s)."@,
                ..self.push_undo()
            }
        }
    }

    /// The matches stand in the text.
    pub open spec fn matches_in_text(self) -> bool {
        forall|i: int|
            0 <= i < self.search_matches.len() ==> self.in_text(#[trigger] self.search_matches[i])
    }
}

/// The matches of a search stand in the text.
pub proof fn lemma_found_in_text(e: EditorView)
    requires
        e.search_matches == found(e.lines, e.search_query),
    ensures
        e.matches_in_text(),
{
    lemma_matches_in(e.lines, e.search_query, e.lines.len() as int);
}

impl Editor {
    /// Recompute all match positions for the current query.
    pub fn update_search(&mut self)
        ensures
            final(self)@ == old(self)@.update_search(),
            final(self)@.matches_in_text(),
    {
        let ghost start = self@;
        self.search_matches.clear();
        if self.search_query.len() == 0 {
            assert(self@ =~= start.update_search());
            return ;
        }
        let mut r: usize = 0;
        assert(positions(self.search_matches@) =~= Seq::<Pos>::empty());
        while r < self.lines.len()
            invariant
                r <= self.lines@.len(),
                positions(self.search_matches@) == matches_in(
                    start.lines,
                    start.search_query,
                    r as int,
                ),
                self@ == (EditorView { search_matches: self@.search_matches, ..start }),
            decreases self.lines@.len() - r,
        {
            find_in_line(&mut self.search_matches, &self.lines[r], &self.search_query, r);
            r = r + 1;
        }
        if self.search_matches.len() > 0 {
            let last = self.search_matches.len() - 1;
            if self.search_match_idx > last {
                self.search_match_idx = last;
            }
        } else {
            self.search_match_idx = 0;
        }
        proof {
            assert(self@ =~= start.update_search());
            lemma_found_in_text(self@);
        }
    }

    /// Index of the first match at or after a position; wraps to 0.
    pub fn find_nearest_match_from(&self, row: usize, col: usize) -> (idx: usize)
        ensures
            idx == nearest(self@.search_matches, (row as int, col as int), 0),
            self@.search_matches.len() > 0 ==> idx < self@.search_matches.len(),
    {
        let mut i: usize = 0;
        while i < self.search_matches.len()
            invariant
                i <= self.search_matches@.len(),
                nearest(self@.search_matches, (row as int, col as int), 0) == nearest(
                    self@.search_matches,
                    (row as int, col as int),
                    i as int,
                ),
            decreases self.search_matches@.len() - i,
        {
            let (r, c) = self.search_matches[i];
            assert(self@.search_matches[i as int] == (r as int, c as int));
            if row < r || (row == r && col <= c) {
                return i;
            }
            i = i + 1;
        }
        0
    }

    /// Scroll so the current match is visible and move the cursor there.
    pub fn jump_to_match(&mut self, idx: usize)
        requires
            old(self)@.doc_ok(),
            old(self)@.matches_in_text(),
            old(self)@.fits(),
        ensures
            final(self)@ == old(self)@.jump_to_match(idx as int),
            final(self)@.doc_ok(),
            old(self)@.wf() || old(self)@.search_matches.len() > 0 ==> final(self)@.wf(),
    {
        if self.search_matches.len() == 0 {
            return ;
        }
        let i = idx % self.search_matches.len();
        self.search_match_idx = i;
        let (r, c) = self.search_matches[i];
        assert(self@.search_matches[i as int] == (r as int, c as int));
        assert(self@.in_text((r as int, c as int)));
        self.row = r;
        self.col = c;
        let tr = self.text_rows();
        if self.row < self.top {
            self.top = self.row;
        }
        if self.row - self.top >= tr {
            self.top = self.row.saturating_sub(tr / 2);
        }
    }

    /// Whether a match covers a character.
    fn match_covers(&self, i: usize, row: usize, col: usize) -> (covered: bool)
        requires
            i < self@.search_matches.len(),
        ensures
            covered == covers(
                self@.search_matches[i as int],
                self@.search_query.len(),
                (row as int, col as int),
            ),
    {
        let (mr, mc) = self.search_matches[i];
        assert(self@.search_matches[i as int] == (mr as int, mc as int));
        mr == row && col >= mc && col - mc < self.search_query.len()
    }

    /// Search highlight level for a character: 0=none, 1=match, 2=current match.
    pub fn search_attr_at(&self, row: usize, col: usize) -> (level: u8)
        ensures
            level == self@.search_attr_at((row as int, col as int)),
            level <= 2,
    {
        let count = self.search_matches.len();
        if self.search_query.len() == 0 {
            return 0;
        }
        if self.search_match_idx < count && self.match_covers(self.search_match_idx, row, col) {
            return 2;
        }
        let mut i: usize = 0;
        while i < count
            invariant
                i <= count,
                count == self@.search_matches.len(),
                self@.search_query.len() > 0,
                !(self@.search_match_idx < count && covers(
                    self@.search_matches[self@.search_match_idx],
                    self@.search_query.len(),
                    (row as int, col as int),
                )),
                forall|k: int|
                    0 <= k < i ==> !covers(
                        #[trigger] self@.search_matches[k],
                        self@.search_query.len(),
                        (row as int, col as int),
                    ),
            decreases count - i,
        {
            if self.match_covers(i, row, col) {
                return 1;
            }
            i = i + 1;
        }
        0
    }

    /// Replace every match of the query.
    pub fn replace_all(&mut self, replace: &Vec<char>)
        requires
            old(self)@.wf(),
            old(self)@.fits(),
            old(self)@.matches_in_text(),
        ensures
            final(self)@ == old(self)@.replace_all(replace@),
            final(self)@.doc_ok(),
    {
        let ghost start = self@;
        let count = self.search_matches.len();
        if count == 0 {
            self.status = "No matches to replace.".to_owned();
            return ;
        }
        self.push_undo();
        let ghost mid = self@;
        let qlen = self.search_query.len();
        let ghost goal = replaced(start.lines, start.search_matches, qlen as nat, replace@);
        let mut n: usize = count;
        assert(start.search_matches.take(n as int) =~= start.search_matches);
        while n > 0
            invariant
                n <= count,
                count == self.search_matches@.len(),
                qlen == self.search_query@.len(),
                start.matches_in_text(),
                self@.lines.len() == start.lines.len(),
                self@ == (EditorView { lines: self@.lines, ..mid }),
                mid == start.push_undo(),
                goal == replaced(
                    self@.lines,
                    start.search_matches.take(n as int),
                    qlen as nat,
                    replace@,
                ),
            decreases n,
        {
            let ghost ahead = start.search_matches.take(n as int);
            n = n - 1;
            let (r, c) = self.search_matches[n];
            assert(self@.search_matches[n as int] == (r as int, c as int));
            assert(start.in_text(start.search_matches[n as int]));
            assert(ahead.last() == (r as int, c as int));
            assert(ahead.drop_last() =~= start.search_matches.take(n as int));
            let len = self.lines[r].len();
            if c <= len && qlen <= len - c {
                splice_line(&mut self.lines, r, c, c + qlen, replace);
            }
        }
        self.modified = true;
        let mut status = "Replaced ".to_owned();
        push_number(&mut status, count as u64);
        status.append(" occurrence(s).");
        self.status = status;
        assert(self@ =~= start.replace_all(replace@));
    }

    /// The message of the search prompt.
    pub fn search_status(&self) -> (text: String)
        requires
            self@.search_matches.len() > 0 ==> self@.search_match_idx
                < self@.search_matches.len(),
        ensures
            text@ == self@.search_status(),
    {
        let mut text = "Search: ".to_owned();
        if self.search_query.len() == 0 {
            return text;
        }
        push_chars(&mut text, &self.search_query);
        if self.search_matches.len() == 0 {
            text.append("  (not found)");
        } else {
            let total = self.search_matches.len();
            assert(self.search_match_idx < total);
            text.append("  [");
            push_number(&mut text, (self.search_match_idx + 1) as u64);
            text.append("/");
            push_number(&mut text, total as u64);
            text.append("]  Enter=next  Esc=close");
        }
        text
    }

    /// Shows the message of the replace prompt.
    pub fn update_replace_status(&mut self)
        ensures
            final(self)@ == (EditorView { status: old(self)@.replace_status(), ..old(self)@ }),
    {
        match &self.prompt {
            Prompt::Replace { search_buf, replace_buf, search_cur, replace_cur, step } => {
                let mut text;
                match step {
                    ReplaceStep::SearchInput => {
                        text = "Replace — Search: ".to_owned();
                        if search_buf.len() > 0 {
                            push_chars(&mut text, search_buf);
                            let count = self.search_matches.len();
                            if count == 0 {
                                text.append("  (not found)  Enter=next  Esc=cancel");
                            } else {
                                text.append("  [");
                                push_number(&mut text, count as u64);
                                text.append(" found]  Enter=next  Esc=cancel");
                            }
                        }
                    },
                    ReplaceStep::ReplaceInput => {
                        text = "Replace \"".to_owned();
                        push_chars(&mut text, search_buf);
                        text.append("\" with: ");
                        push_chars(&mut text, replace_buf);
                    },
                }
                self.status = text;
            },
            _ => {},
        }
    }
}

} // verus!
