//! Texts as lists of lines.

use vstd::prelude::*;
use vstd::string::StrSliceExecFns;

verus! {

/// The lines of a document as sequences of characters.
pub open spec fn rows(lines: Seq<Vec<char>>) -> Seq<Seq<char>> {
    Seq::new(lines.len(), |i: int| lines[i]@)
}

pub broadcast proof fn lemma_rows_push(lines: Seq<Vec<char>>, line: Vec<char>)
    ensures
        #[trigger] rows(lines.push(line)) == rows(lines).push(line@),
{
    assert(rows(lines.push(line)) =~= rows(lines).push(line@));
}

pub broadcast proof fn lemma_rows_update(lines: Seq<Vec<char>>, i: int, line: Vec<char>)
    requires
        0 <= i < lines.len(),
    ensures
        #[trigger] rows(lines.update(i, line)) == rows(lines).update(i, line@),
{
    assert(rows(lines.update(i, line)) =~= rows(lines).update(i, line@));
}

pub broadcast proof fn lemma_rows_insert(lines: Seq<Vec<char>>, i: int, line: Vec<char>)
    requires
        0 <= i <= lines.len(),
    ensures
        #[trigger] rows(lines.insert(i, line)) == rows(lines).insert(i, line@),
{
    assert(rows(lines.insert(i, line)) =~= rows(lines).insert(i, line@));
}

pub broadcast proof fn lemma_rows_remove(lines: Seq<Vec<char>>, i: int)
    requires
        0 <= i < lines.len(),
    ensures
        #[trigger] rows(lines.remove(i)) == rows(lines).remove(i),
{
    assert(rows(lines.remove(i)) =~= rows(lines).remove(i));
}

pub broadcast group group_rows {
    lemma_rows_push,
    lemma_rows_update,
    lemma_rows_insert,
    lemma_rows_remove,
}

/// The characters of a string.
pub fn chars_of(text: &str) -> (chars: Vec<char>)
    ensures
        chars@ == text@,
{
    let mut chars: Vec<char> = Vec::new();
    for c in it: text.chars()
        invariant
            chars@ == it.seq().take(it.index()),
            it.seq() == text@,
    {
        chars.push(c);
        assert(it.seq().take(it.index() + 1) =~= it.seq().take(it.index()).push(c));
    }
    assert(text@.take(text@.len() as int) =~= text@);
    chars
}

/// Appends characters to a string.
pub fn push_chars(out: &mut String, chars: &Vec<char>)
    ensures
        final(out)@ == old(out)@ + chars@,
{
    let mut i: usize = 0;
    assert(out@ =~= out@ + chars@.take(0));
    while i < chars.len()
        invariant
            i <= chars.len(),
            out@ == old(out)@ + chars@.take(i as int),
        decreases chars.len() - i,
    {
        out.push(chars[i]);
        assert(chars@.take(i + 1) =~= chars@.take(i as int).push(chars@[i as int]));
        assert(out@ =~= old(out)@ + chars@.take(i + 1));
        i = i + 1;
    }
    assert(chars@.take(i as int) =~= chars@);
}

/// The string that characters make up.
pub fn string_of(chars: &Vec<char>) -> (text: String)
    ensures
        text@ == chars@,
{
    let mut text = String::new();
    push_chars(&mut text, chars);
    assert(text@ =~= chars@);
    text
}

/// A copy of a line.
pub fn copy_line(line: &Vec<char>) -> (copy: Vec<char>)
    ensures
        copy@ == line@,
{
    let copy = line.clone();
    assert(copy@ =~= line@);
    copy
}

/// A copy of the part of a line from one position up to another.
pub fn copy_range(line: &Vec<char>, from: usize, to: usize) -> (copy: Vec<char>)
    requires
        from <= to <= line@.len(),
    ensures
        copy@ == line@.subrange(from as int, to as int),
{
    let mut copy: Vec<char> = Vec::new();
    let mut i: usize = from;
    while i < to
        invariant
            from <= i <= to <= line@.len(),
            copy@ == line@.subrange(from as int, i as int),
        decreases to - i,
    {
        copy.push(line[i]);
        assert(line@.subrange(from as int, i + 1) =~= line@.subrange(from as int, i as int).push(
            line@[i as int],
        ));
        i = i + 1;
    }
    copy
}

/// A copy of a list of lines.
pub fn copy_lines(lines: &Vec<Vec<char>>) -> (copy: Vec<Vec<char>>)
    ensures
        rows(copy@) == rows(lines@),
{
    let mut copy: Vec<Vec<char>> = Vec::new();
    let mut i: usize = 0;
    while i < lines.len()
        invariant
            i <= lines.len(),
            rows(copy@) == rows(lines@).take(i as int),
        decreases lines.len() - i,
    {
        let ghost before = rows(copy@);
        copy.push(copy_line(&lines[i]));
        assert(rows(copy@) =~= before.push(lines@[i as int]@));
        assert(rows(copy@) =~= rows(lines@).take(i + 1));
        i = i + 1;
    }
    assert(rows(copy@) =~= rows(lines@));
    copy
}

/// Inserts a character into a line.
pub fn insert_in_line(lines: &mut Vec<Vec<char>>, row: usize, col: usize, ch: char)
    requires
        row < old(lines)@.len(),
        col <= rows(old(lines)@)[row as int].len(),
    ensures
        rows(final(lines)@) == rows(old(lines)@).update(
            row as int,
            rows(old(lines)@)[row as int].insert(col as int, ch),
        ),
        rows(final(lines)@)[row as int].len() <= usize::MAX,
{
    broadcast use group_rows;

    lines[row].insert(col, ch);
    let len = lines[row].len();
    assert(rows(lines@)[row as int].len() == len);
}

/// Breaks a line in two.
pub fn break_line(lines: &mut Vec<Vec<char>>, row: usize, col: usize)
    requires
        row < old(lines)@.len(),
        col <= rows(old(lines)@)[row as int].len(),
    ensures
        rows(final(lines)@) == rows(old(lines)@).update(
            row as int,
            rows(old(lines)@)[row as int].take(col as int),
        ).insert(row + 1, rows(old(lines)@)[row as int].skip(col as int)),
{
    broadcast use group_rows;

    let ghost line = rows(lines@)[row as int];
    let n = lines.len();
    assert(row < n);
    let rest = lines[row].split_off(col);
    assert(rest@ =~= line.skip(col as int));
    assert(lines@[row as int]@ =~= line.take(col as int));
    lines.insert(row + 1, rest);
}

/// Removes a character from a line.
pub fn remove_char(lines: &mut Vec<Vec<char>>, row: usize, col: usize)
    requires
        row < old(lines)@.len(),
        col < rows(old(lines)@)[row as int].len(),
    ensures
        rows(final(lines)@) == rows(old(lines)@).update(
            row as int,
            rows(old(lines)@)[row as int].remove(col as int),
        ),
{
    broadcast use group_rows;

    lines[row].remove(col);
}

/// Joins a line with the next one.
pub fn join_next(lines: &mut Vec<Vec<char>>, row: usize)
    requires
        row + 1 < old(lines)@.len(),
    ensures
        rows(final(lines)@) == rows(old(lines)@).remove(row + 1).update(
            row as int,
            rows(old(lines)@)[row as int] + rows(old(lines)@)[row + 1],
        ),
{
    broadcast use group_rows;

    let n = lines.len();
    assert(row + 1 < n);
    let mut next = lines.remove(row + 1);
    lines[row].append(&mut next);
}

// ── Splitting into lines ─────────────────────────────────────────────────

/// A line without the carriage return at its end.
pub open spec fn strip_cr(line: Seq<char>) -> Seq<char> {
    if line.len() > 0 && line.last() == '\r' {
        line.drop_last()
    } else {
        line
    }
}

/// The lines of a text of which `current` has been read and `text` is ahead.
pub open spec fn lines_ahead(current: Seq<char>, text: Seq<char>) -> Seq<Seq<char>>
    decreases text.len(),
{
    if text.len() == 0 {
        if current.len() == 0 {
            Seq::empty()
        } else {
            seq![current]
        }
    } else if text[0] == '\n' {
        seq![strip_cr(current)] + lines_ahead(Seq::empty(), text.drop_first())
    } else {
        lines_ahead(current.push(text[0]), text.drop_first())
    }
}

/// The lines of a text. A line feed ends a line, together with a carriage
/// return before it; the last line needs no ending.
pub open spec fn text_lines(text: Seq<char>) -> Seq<Seq<char>> {
    lines_ahead(Seq::empty(), text)
}

/// Splits a text into its lines.
pub fn split_lines(text: &str) -> (lines: Vec<Vec<char>>)
    ensures
        rows(lines@) == text_lines(text@),
{
    let chars = chars_of(text);
    let mut lines: Vec<Vec<char>> = Vec::new();
    let mut current: Vec<char> = Vec::new();
    let mut i: usize = 0;
    assert(chars@.skip(0) =~= text@);
    assert(rows(lines@) + text_lines(text@) =~= text_lines(text@));
    assert(current@ =~= Seq::<char>::empty());
    while i < chars.len()
        invariant
            i <= chars.len(),
            rows(lines@) + lines_ahead(current@, chars@.skip(i as int)) == text_lines(text@),
        decreases chars.len() - i,
    {
        let ghost ahead = chars@.skip(i as int);
        let ghost done = rows(lines@);
        let ghost before = current@;
        assert(ahead.drop_first() =~= chars@.skip(i + 1));
        assert(ahead[0] == chars@[i as int]);
        if chars[i] == '\n' {
            if current.len() > 0 && current[current.len() - 1] == '\r' {
                current.pop();
                assert(current@ =~= before.drop_last());
            }
            assert(current@ == strip_cr(before));
            lines.push(current);
            current = Vec::new();
            assert(rows(lines@) =~= done.push(strip_cr(before)));
            assert(current@ =~= Seq::<char>::empty());
            assert(rows(lines@) + lines_ahead(current@, chars@.skip(i + 1)) =~= done
                + lines_ahead(before, ahead));
        } else {
            current.push(chars[i]);
        }
        i = i + 1;
    }
    assert(chars@.skip(i as int).len() == 0);
    if current.len() > 0 {
        let ghost done = rows(lines@);
        let ghost last = current@;
        lines.push(current);
        assert(rows(lines@) =~= done + seq![last]);
    } else {
        assert(rows(lines@) =~= rows(lines@) + Seq::<Seq<char>>::empty());
    }
    lines
}

// ── Joining lines ────────────────────────────────────────────────────────

/// The lines with a separator between any two.
pub open spec fn joined(lines: Seq<Seq<char>>, separator: Seq<char>) -> Seq<char>
    decreases lines.len(),
{
    if lines.len() == 0 {
        Seq::empty()
    } else if lines.len() == 1 {
        lines[0]
    } else {
        joined(lines.drop_last(), separator) + separator + lines.last()
    }
}

/// Joins lines with a separator between any two.
pub fn join_lines(lines: &Vec<Vec<char>>, separator: &str) -> (text: String)
    ensures
        text@ == joined(rows(lines@), separator@),
{
    let between = chars_of(separator);
    let mut text = String::new();
    let mut i: usize = 0;
    while i < lines.len()
        invariant
            i <= lines.len(),
            between@ == separator@,
            text@ == joined(rows(lines@).take(i as int), separator@),
        decreases lines.len() - i,
    {
        let ghost next = rows(lines@).take(i + 1);
        assert(next.drop_last() =~= rows(lines@).take(i as int));
        if i > 0 {
            push_chars(&mut text, &between);
        } else {
            assert(text@ =~= Seq::<char>::empty());
        }
        push_chars(&mut text, &lines[i]);
        assert(text@ =~= joined(next, separator@));
        i = i + 1;
    }
    assert(rows(lines@).take(i as int) =~= rows(lines@));
    text
}

/// The first lines, joined, are no longer than all of them.
proof fn lemma_joined_take(lines: Seq<Seq<char>>, separator: Seq<char>, n: int)
    requires
        0 <= n <= lines.len(),
    ensures
        joined(lines.take(n), separator).len() <= joined(lines, separator).len(),
    decreases lines.len(),
{
    if n == lines.len() {
        assert(lines.take(n) =~= lines);
    } else {
        lemma_joined_take(lines.drop_last(), separator, n);
        assert(lines.drop_last().take(n) =~= lines.take(n));
    }
}

/// Whether lines, joined, have at most a number of characters.
pub fn joined_within(lines: &Vec<Vec<char>>, separator: &str, limit: usize) -> (within: bool)
    ensures
        within == (joined(rows(lines@), separator@).len() <= limit),
{
    let gap = separator.unicode_len();
    let mut left: usize = limit;
    let mut i: usize = 0;
    while i < lines.len()
        invariant
            i <= lines.len(),
            gap == separator@.len(),
            limit == left + joined(rows(lines@).take(i as int), separator@).len(),
        decreases lines.len() - i,
    {
        let ghost next = rows(lines@).take(i + 1);
        proof {
            lemma_joined_take(rows(lines@), separator@, i + 1);
            assert(next.drop_last() =~= rows(lines@).take(i as int));
            assert(next.last() == lines@[i as int]@);
        }
        if i > 0 {
            if gap > left {
                return false;
            }
            left = left - gap;
        }
        let n = lines[i].len();
        if n > left {
            return false;
        }
        left = left - n;
        i = i + 1;
    }
    assert(rows(lines@).take(i as int) =~= rows(lines@));
    true
}

// ── Memory ───────────────────────────────────────────────────────────────

/// The bytes that the characters of the lines take in memory.
pub open spec fn text_mem(lines: Seq<Seq<char>>) -> nat
    decreases lines.len(),
{
    if lines.len() == 0 {
        0
    } else {
        text_mem(lines.drop_last()) + 4 * lines.last().len()
    }
}

/// A part of the lines takes no more memory than all of them.
pub proof fn lemma_text_mem_take(lines: Seq<Seq<char>>, n: int)
    requires
        0 <= n <= lines.len(),
    ensures
        text_mem(lines.take(n)) <= text_mem(lines),
    decreases lines.len(),
{
    if n == lines.len() {
        assert(lines.take(n) =~= lines);
    } else {
        lemma_text_mem_take(lines.drop_last(), n);
        assert(lines.drop_last().take(n) =~= lines.take(n));
    }
}

/// A line takes no more memory than all lines together.
pub proof fn lemma_text_mem_line(lines: Seq<Seq<char>>, i: int)
    requires
        0 <= i < lines.len(),
    ensures
        4 * lines[i].len() <= text_mem(lines),
{
    lemma_text_mem_take(lines, i + 1);
    assert(lines.take(i + 1).last() == lines[i]);
}

/// The memory that the characters of the lines take.
pub fn mem_of(lines: &Vec<Vec<char>>) -> (mem: usize)
    requires
        text_mem(rows(lines@)) <= usize::MAX,
    ensures
        mem == text_mem(rows(lines@)),
{
    let mut mem: usize = 0;
    let mut i: usize = 0;
    while i < lines.len()
        invariant
            i <= lines.len(),
            text_mem(rows(lines@)) <= usize::MAX,
            mem == text_mem(rows(lines@).take(i as int)),
        decreases lines.len() - i,
    {
        let ghost next = rows(lines@).take(i + 1);
        proof {
            lemma_text_mem_take(rows(lines@), i + 1);
            assert(next.drop_last() =~= rows(lines@).take(i as int));
            assert(next.last() == lines@[i as int]@);
        }
        mem = mem + lines[i].len() * 4;
        i = i + 1;
    }
    assert(rows(lines@).take(i as int) =~= rows(lines@));
    mem
}

/// Whether the characters of the lines take no more than `limit` bytes.
pub fn mem_within(lines: &Vec<Vec<char>>, limit: usize) -> (within: bool)
    ensures
        within == (text_mem(rows(lines@)) <= limit),
{
    let mut left: usize = limit;
    let mut i: usize = 0;
    while i < lines.len()
        invariant
            i <= lines.len(),
            limit == left + text_mem(rows(lines@).take(i as int)),
        decreases lines.len() - i,
    {
        let ghost next = rows(lines@).take(i + 1);
        proof {
            lemma_text_mem_take(rows(lines@), i + 1);
            assert(next.drop_last() =~= rows(lines@).take(i as int));
            assert(next.last() == lines@[i as int]@);
        }
        let n = lines[i].len();
        if n > left / 4 {
            return false;
        }
        left = left - n * 4;
        i = i + 1;
    }
    assert(rows(lines@).take(i as int) =~= rows(lines@));
    true
}

} // verus!
