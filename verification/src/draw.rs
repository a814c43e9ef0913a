//! Instructions for a terminal.

use vstd::prelude::*;

verus! {

/// One instruction for a terminal. Positions count from the upper left corner,
/// from zero.
#[derive(Clone, Copy, Debug, PartialEq, Eq, Structural)]
pub enum Draw {
    HideCursor,
    ShowCursor,
    MoveTo { col: u16, row: u16 },
    /// Clears the row of the cursor.
    ClearLine,
    Put(char),
    /// Takes back colours and attributes.
    ResetStyle,
    /// Takes back attributes.
    ResetAttributes,
    Reverse,
    Dim,
    /// Black on yellow.
    CurrentMatch,
    /// Black on dark yellow.
    OtherMatch,
    /// Dark grey.
    TabMark,
}

/// How a character looks: whether it is selected, whether it marks a tab, and
/// whether it belongs to a match (1) or to the highlighted match (2).
#[derive(Clone, Copy, Debug, PartialEq, Eq, Structural)]
pub struct Style {
    pub selected: bool,
    pub tab: bool,
    pub level: u8,
}

/// The style of ordinary text.
pub open spec fn plain() -> Style {
    Style { selected: false, tab: false, level: 0 }
}

/// The instruction that a style takes: a selection hides a match, and both hide
/// a tab.
pub open spec fn colour(style: Style) -> Seq<Draw> {
    if style.selected {
        seq![Draw::Reverse]
    } else if style.level == 2 {
        seq![Draw::CurrentMatch]
    } else if style.level == 1 {
        seq![Draw::OtherMatch]
    } else if style.tab && style.level == 0 {
        seq![Draw::TabMark]
    } else {
        Seq::empty()
    }
}

/// Going from one style to another.
pub open spec fn restyle(from: Style, to: Style) -> Seq<Draw> {
    if from == to {
        Seq::empty()
    } else {
        seq![Draw::ResetStyle] + colour(to)
    }
}

/// Going back to ordinary text.
pub open spec fn unstyle(style: Style) -> Seq<Draw> {
    if style == plain() {
        Seq::empty()
    } else {
        seq![Draw::ResetStyle]
    }
}

/// Writing a character.
pub open spec fn put(c: char) -> Draw {
    Draw::Put(c)
}

/// Writing a text.
pub open spec fn puts(text: Seq<char>) -> Seq<Draw> {
    Seq::new(text.len(), |i: int| put(text[i]))
}

/// Writing a text with one more character.
pub proof fn lemma_puts_push(text: Seq<char>, c: char)
    ensures
        puts(text.push(c)) == puts(text).push(put(c)),
{
    assert(puts(text.push(c)) =~= puts(text).push(put(c)));
}

/// A number of blanks.
pub open spec fn blanks(n: nat) -> Seq<char> {
    Seq::new(n, |i: int| ' ')
}

/// Going to the start of a row and clearing it.
pub open spec fn start_row(row: int) -> Seq<Draw> {
    seq![Draw::MoveTo { col: 0, row: row as u16 }, Draw::ClearLine]
}

/// The style of ordinary text.
pub fn plain_style() -> (style: Style)
    ensures
        style == plain(),
{
    Style { selected: false, tab: false, level: 0 }
}

/// Goes from one style to another.
pub fn set_style(out: &mut Vec<Draw>, from: Style, to: Style)
    ensures
        final(out)@ == old(out)@ + restyle(from, to),
{
    if from == to {
        return ;
    }
    out.push(Draw::ResetStyle);
    if to.selected {
        out.push(Draw::Reverse);
    } else if to.level == 2 {
        out.push(Draw::CurrentMatch);
    } else if to.level == 1 {
        out.push(Draw::OtherMatch);
    } else if to.tab && to.level == 0 {
        out.push(Draw::TabMark);
    }
}

/// Goes back to ordinary text.
pub fn clear_style(out: &mut Vec<Draw>, style: Style)
    ensures
        final(out)@ == old(out)@ + unstyle(style),
{
    if style != plain_style() {
        out.push(Draw::ResetStyle);
    }
}

/// Writes a number of blanks.
pub fn put_blanks(out: &mut Vec<Draw>, n: usize)
    ensures
        final(out)@ == old(out)@ + puts(blanks(n as nat)),
{
    let ghost start = out@;
    let mut i: usize = 0;
    while i < n
        invariant
            i <= n,
            out@ == start + puts(blanks(i as nat)),
        decreases n - i,
    {
        out.push(Draw::Put(' '));
        i = i + 1;
        assert(out@ =~= start + puts(blanks(i as nat)));
    }
}

/// Writes a character.
pub fn put_char(out: &mut Vec<Draw>, c: char)
    ensures
        final(out)@ == old(out)@ + puts(seq![c]),
{
    let ghost start = out@;
    out.push(Draw::Put(c));
    assert(puts(seq![c]).len() == 1);
    assert(puts(seq![c])[0] == put(seq![c][0]));
    assert(out@ =~= start + puts(seq![c]));
}

/// Writes a text.
pub fn put_text(out: &mut Vec<Draw>, text: &str)
    ensures
        final(out)@ == old(out)@ + puts(text@),
{
    let ghost start = out@;
    for c in it: text.chars()
        invariant
            out@ == start + puts(text@.take(it.index())),
            it.seq() == text@,
    {
        out.push(Draw::Put(c));
        assert(it.seq().take(it.index() + 1) =~= it.seq().take(it.index()).push(c));
        proof {
            lemma_puts_push(it.seq().take(it.index()), c);
        }
        assert(out@ =~= start + puts(text@.take(it.index() + 1)));
    }
    assert(text@.take(text@.len() as int) =~= text@);
}

/// Goes to the start of a row and clears it.
pub fn begin_row(out: &mut Vec<Draw>, row: u16)
    ensures
        final(out)@ == old(out)@ + start_row(row as int),
{
    out.push(Draw::MoveTo { col: 0, row });
    out.push(Draw::ClearLine);
}

} // verus!
