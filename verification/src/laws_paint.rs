//! Which characters the terminal shows, and in which colours.

use vstd::prelude::*;
use crate::draw::{blanks, colour, plain, puts, restyle, start_row, unstyle, Draw, Style};
use crate::laws_render::{
    law_cut_chars_in_place, lemma_tip_concat, lemma_tip_restyle, tip,
};
use crate::layout::{cells, columns, span};
use crate::state::EditorView;

verus! {

// ── Colours ──────────────────────────────────────────────────────────────

/// The colours and attributes that are in force after some instructions, if
/// those in `from` were before them.
pub open spec fn ink(from: Seq<Draw>, ops: Seq<Draw>) -> Seq<Draw>
    decreases ops.len(),
{
    if ops.len() == 0 {
        from
    } else {
        let before = ink(from, ops.drop_last());
        match ops.last() {
            Draw::ResetStyle => Seq::empty(),
            Draw::ResetAttributes => Seq::empty(),
            Draw::Reverse => before.push(Draw::Reverse),
            Draw::Dim => before.push(Draw::Dim),
            Draw::CurrentMatch => before.push(Draw::CurrentMatch),
            Draw::OtherMatch => before.push(Draw::OtherMatch),
            Draw::TabMark => before.push(Draw::TabMark),
            _ => before,
        }
    }
}

/// The colour of a style: a selection is shown reversed and hides a match, of
/// which the current one has a colour of its own; a tab has its colour where
/// neither is shown.
pub open spec fn wanted(style: Style) -> Seq<Draw> {
    if style.selected {
        seq![Draw::Reverse]
    } else if style.level == 2 {
        seq![Draw::CurrentMatch]
    } else if style.level == 1 {
        seq![Draw::OtherMatch]
    } else if style.tab && style.level == 0 {
        seq![Draw::TabMark]
    } else {
        Seq::empty()
    }
}

/// The colour of a character of the text that is no tab.
pub open spec fn text_ink(e: EditorView, row: int, i: int) -> Seq<Draw> {
    if e.in_selection((row, i)) {
        seq![Draw::Reverse]
    } else if e.search_attr_at((row, i)) == 2 {
        seq![Draw::CurrentMatch]
    } else if e.search_attr_at((row, i)) == 1 {
        seq![Draw::OtherMatch]
    } else {
        Seq::empty()
    }
}

/// Instructions are carried out one after the other.
pub proof fn lemma_ink_concat(from: Seq<Draw>, a: Seq<Draw>, b: Seq<Draw>)
    ensures
        ink(from, a + b) == ink(ink(from, a), b),
    decreases b.len(),
{
    if b.len() == 0 {
        assert(a + b =~= a);
    } else {
        lemma_ink_concat(from, a, b.drop_last());
        assert((a + b).drop_last() =~= a + b.drop_last());
    }
}

/// Writing changes no colours.
pub proof fn lemma_ink_puts(from: Seq<Draw>, text: Seq<char>)
    ensures
        ink(from, puts(text)) == from,
    decreases text.len(),
{
    if text.len() > 0 {
        lemma_ink_puts(from, text.drop_last());
        assert(puts(text).drop_last() =~= puts(text.drop_last()));
    }
}

/// The start of a row changes no colours.
pub proof fn lemma_ink_start_row(from: Seq<Draw>, row: int)
    ensures
        ink(from, start_row(row)) == from,
{
    reveal_with_fuel(ink, 3);
    let ops = start_row(row);
    assert(ops.drop_last() =~= seq![Draw::MoveTo { col: 0, row: row as u16 }]);
    assert(ops.drop_last().drop_last() =~= Seq::<Draw>::empty());
}

/// Going from one style to another puts the colour of the other in force, and
/// that one alone; going back to ordinary text leaves none. Nothing is written or
/// moved by it, and nothing done where the style stays.
pub proof fn law_restyled(from: Style, to: Style)
    ensures
        ink(wanted(from), restyle(from, to)) == wanted(to),
        ink(wanted(from), unstyle(from)) == Seq::<Draw>::empty(),
        wanted(plain()) == Seq::<Draw>::empty(),
        plain() == (Style { selected: false, tab: false, level: 0 }),
        from == to ==> restyle(from, to) == Seq::<Draw>::empty(),
        from != to ==> restyle(from, to) == seq![Draw::ResetStyle] + wanted(to),
        from == plain() ==> unstyle(from) == Seq::<Draw>::empty(),
        from != plain() ==> unstyle(from) == seq![Draw::ResetStyle],
{
    reveal_with_fuel(ink, 3);
    let ops = restyle(from, to);
    if from != to {
        if colour(to).len() == 0 {
            assert(ops =~= seq![Draw::ResetStyle]);
            assert(ops.drop_last() =~= Seq::<Draw>::empty());
        } else {
            assert(ops =~= seq![Draw::ResetStyle, colour(to)[0]]);
            assert(ops.drop_last() =~= seq![Draw::ResetStyle]);
            assert(ops.drop_last().drop_last() =~= Seq::<Draw>::empty());
        }
    }
    assert(unstyle(from).len() == 0 || unstyle(from).drop_last() =~= Seq::<Draw>::empty());
}

/// How a character of the text looks: whether it is selected, marks a tab, and
/// belongs to a match.
pub proof fn law_style(e: EditorView, row: int, i: int, tab: bool)
    ensures
        ({
            let style = e.style_at(row, i, tab);
            &&& style.selected == e.in_selection((row, i))
            &&& style.tab == tab
            &&& 0 <= e.search_attr_at((row, i)) <= 2 && style.level == e.search_attr_at((row, i))
            &&& !tab ==> wanted(style) == text_ink(e, row, i)
        }),
{
}

/// A text is written character by character.
pub proof fn law_puts(text: Seq<char>, n: nat)
    ensures
        puts(text).len() == text.len(),
        forall|i: int| 0 <= i < text.len() ==> #[trigger] puts(text)[i] == Draw::Put(text[i]),
        blanks(n).len() == n,
        forall|i: int| 0 <= i < n ==> #[trigger] blanks(n)[i] == ' ',
        forall|row: int|
            0 <= row <= u16::MAX ==> #[trigger] start_row(row) == seq![
                Draw::MoveTo { col: 0, row: row as u16 },
                Draw::ClearLine,
            ],
{
    assert forall|row: int| 0 <= row <= u16::MAX implies #[trigger] start_row(row) == seq![
        Draw::MoveTo { col: 0, row: row as u16 },
        Draw::ClearLine,
    ] by {}
}

// ── Lines that are cut at the edges of the screen ────────────────────────

/// Whether all characters of a text are blanks.
pub open spec fn all_blank(text: Seq<char>) -> bool {
    forall|i: int| 0 <= i < text.len() ==> #[trigger] text[i] == ' '
}

/// Whether a text is what the columns from `left` up to `right` show of a
/// character that takes those from `x` up to `end`: the character itself where
/// all of it is shown; of a tab a mark and blanks; blanks where an edge cuts the
/// character, and of a tab that the left edge cuts.
pub open spec fn shows(text: Seq<char>, c: char, x: int, end: int, left: int, right: int) -> bool {
    let from = if x < left {
        left
    } else {
        x
    };
    let to = if end > right {
        right
    } else {
        end
    };
    if c == '\t' && x >= left {
        text.len() == to - from && text[0] == '>' && all_blank(text.skip(1))
    } else if x < left || end > right {
        text.len() == to - from && all_blank(text)
    } else {
        text == seq![c]
    }
}

/// A line is written character by character: each that is on the screen is
/// written behind those before it, in its style, and shows itself or what is
/// left of it; those that are not on the screen are not written.
pub proof fn law_cut_chars(e: EditorView, row: int, i: int)
    requires
        0 <= i < e.lines[row].len(),
        0 <= e.left,
        0 <= e.term_cols,
    ensures
        ({
            let c = e.lines[row][i];
            let x = columns(e.lines[row].take(i)) as int;
            let end = x + span(c, x as nat);
            let before = e.painted(row, i);
            let after = e.painted(row, i + 1);
            if end <= e.left || x >= e.left + e.term_cols {
                after == before
            } else {
                &&& after.0 == e.style_at(row, i, c == '\t' && x >= e.left)
                &&& e.glyph(row, i) matches Some(g) && {
                    &&& shows(g.text, c, x, end, e.left, e.left + e.term_cols)
                    &&& after.1 == before.1 + restyle(before.0, after.0) + puts(g.text)
                }
            }
        }),
        e.painted(row, 0) == (plain(), Seq::<Draw>::empty()),
{
    let c = e.lines[row][i];
    let x = columns(e.lines[row].take(i));
    let w = span(c, x);
    if let Some(g) = e.glyph(row, i) {
        if c == '\t' && x >= e.left {
            assert(g.text.skip(1) =~= blanks((g.text.len() - 1) as nat));
        }
    }
}

/// Without wrapping each row of the screen shows the line that many lines below
/// the first line shown, and a tilde below the end of the text.
pub proof fn law_cut_rows(e: EditorView, n: int)
    requires
        0 <= n <= u16::MAX,
    ensures
        !e.word_wrap ==> e.text_area() == e.cut_area(e.text_rows()),
        e.cut_area(0) == Seq::<Draw>::empty(),
        e.cut_area(n + 1) == e.cut_area(n) + seq![
            Draw::MoveTo { col: 0, row: n as u16 },
            Draw::ClearLine,
        ] + (if e.top + n < e.lines.len() {
            e.painted_line(e.top + n)
        } else {
            seq![Draw::Put('~')]
        }),
        forall|row: int|
            ({
                let all = e.painted(row, e.lines[row].len() as int);
                #[trigger] e.painted_line(row) == all.1 + (if all.0 == plain() {
                    Seq::empty()
                } else {
                    seq![Draw::ResetStyle]
                })
            }),
{
    assert(puts(seq!['~']) =~= seq![Draw::Put('~')]);
    assert(e.cut_area(n + 1) =~= e.cut_area(n) + seq![
        Draw::MoveTo { col: 0, row: n as u16 },
        Draw::ClearLine,
    ] + (if e.top + n < e.lines.len() {
        e.painted_line(e.top + n)
    } else {
        seq![Draw::Put('~')]
    }));
}

/// The colour in force in a line is that of the last character written.
proof fn lemma_painted_ink(e: EditorView, row: int, n: int)
    ensures
        ink(Seq::empty(), e.painted(row, n).1) == wanted(e.painted(row, n).0),
    decreases n,
{
    let none = Seq::<Draw>::empty();
    if n > 0 {
        lemma_painted_ink(e, row, n - 1);
        let before = e.painted(row, n - 1);
        if let Some(g) = e.glyph(row, n - 1) {
            let style = restyle(before.0, g.style);
            lemma_ink_concat(none, before.1 + style, puts(g.text));
            lemma_ink_concat(none, before.1, style);
            law_restyled(before.0, g.style);
            lemma_ink_puts(wanted(g.style), g.text);
        }
    } else {
        law_restyled(plain(), plain());
    }
}

/// A line ends in ordinary text.
proof fn lemma_line_ink(e: EditorView, row: int)
    ensures
        ink(Seq::empty(), e.painted_line(row)) == Seq::<Draw>::empty(),
{
    let all = e.painted(row, e.lines[row].len() as int);
    lemma_painted_ink(e, row, e.lines[row].len() as int);
    lemma_ink_concat(Seq::empty(), all.1, unstyle(all.0));
    law_restyled(all.0, plain());
}

/// Every row ends in ordinary text.
proof fn lemma_cut_area_ink(e: EditorView, n: int)
    ensures
        ink(Seq::empty(), e.cut_area(n)) == Seq::<Draw>::empty(),
    decreases n,
{
    let none = Seq::<Draw>::empty();
    if n > 0 {
        lemma_cut_area_ink(e, n - 1);
        let row = e.top + (n - 1);
        let shown = if row < e.lines.len() {
            e.painted_line(row)
        } else {
            puts(seq!['~'])
        };
        lemma_ink_concat(none, e.cut_area(n - 1), e.cut_row(n - 1));
        lemma_ink_concat(none, start_row(n - 1), shown);
        lemma_ink_start_row(none, n - 1);
        lemma_line_ink(e, row);
        lemma_ink_puts(none, seq!['~']);
    }
}

/// The first rows come first.
proof fn lemma_cut_area_prefix(e: EditorView, n: int, all: int) -> (rest: Seq<Draw>)
    requires
        0 <= n <= all,
    ensures
        e.cut_area(all) == e.cut_area(n) + rest,
    decreases all - n,
{
    if n == all {
        assert(e.cut_area(n) + Seq::<Draw>::empty() =~= e.cut_area(n));
        Seq::empty()
    } else {
        let rest = lemma_cut_area_prefix(e, n, all - 1);
        assert(e.cut_area(n) + (rest + e.cut_row(all - 1)) =~= e.cut_area(all));
        rest + e.cut_row(all - 1)
    }
}

/// The first characters of a line come first.
proof fn lemma_painted_prefix(e: EditorView, row: int, n: int, all: int) -> (rest: Seq<Draw>)
    requires
        0 <= n <= all,
    ensures
        e.painted(row, all).1 == e.painted(row, n).1 + rest,
    decreases all - n,
{
    if n == all {
        assert(e.painted(row, n).1 + Seq::<Draw>::empty() =~= e.painted(row, n).1);
        Seq::empty()
    } else {
        let rest = lemma_painted_prefix(e, row, n, all - 1);
        let before = e.painted(row, all - 1);
        match e.glyph(row, all - 1) {
            Some(g) => {
                let more = restyle(before.0, g.style) + puts(g.text);
                assert(e.painted(row, n).1 + (rest + more) =~= e.painted(row, all).1);
                rest + more
            },
            None => rest,
        }
    }
}

/// Whether instructions write a character at a place of the screen, in a colour.
pub open spec fn writes(ops: Seq<Draw>, c: char, at: (int, int), colour: Seq<Draw>) -> bool {
    exists|k: int|
        #![trigger ops[k]]
        0 <= k < ops.len() && ops[k] == Draw::Put(c) && tip((0, 0), ops.take(k)) == at && ink(
            Seq::empty(),
            ops.take(k),
        ) == colour
}

/// What is written first and then goes on is written.
pub proof fn lemma_writes(
    ops: Seq<Draw>,
    before: Seq<Draw>,
    c: char,
    rest: Seq<Draw>,
    at: (int, int),
    colour: Seq<Draw>,
)
    requires
        ops == before + puts(seq![c]) + rest,
        tip((0, 0), before) == at,
        ink(Seq::empty(), before) == colour,
    ensures
        writes(ops, c, at, colour),
{
    let k = before.len() as int;
    assert(puts(seq![c]).len() == 1 && puts(seq![c])[0] == Draw::Put(c));
    assert(ops.take(k) =~= before);
    assert(ops[k] == Draw::Put(c));
}

/// A character of a line, with what is written before it and behind it.
proof fn lemma_char_in_line(e: EditorView, row: int, i: int) -> (rest: Seq<Draw>)
    requires
        0 <= i < e.lines[row].len(),
        e.glyph(row, i) is Some,
    ensures
        ({
            let before = e.painted(row, i);
            let g = e.glyph(row, i)->Some_0;
            e.painted_line(row) == before.1 + restyle(before.0, g.style) + puts(g.text) + rest
        }),
{
    let len = e.lines[row].len() as int;
    let more = lemma_painted_prefix(e, row, i + 1, len);
    let end = unstyle(e.painted(row, len).0);
    let before = e.painted(row, i);
    let g = e.glyph(row, i)->Some_0;
    let here = before.1 + restyle(before.0, g.style) + puts(g.text);
    assert(e.painted(row, i + 1).1 == here);
    assert(here + more + end =~= here + (more + end));
    more + end
}

/// What is shown below the text.
pub open spec fn below_text(e: EditorView) -> Seq<Draw> {
    e.help_panel() + e.bars() + seq![e.place_cursor(), Draw::ShowCursor]
}

/// A frame is the text and what is shown below it.
pub proof fn lemma_frame(e: EditorView)
    ensures
        e.frame() == seq![Draw::HideCursor] + e.text_area() + below_text(e),
{
    assert(e.frame() =~= seq![Draw::HideCursor] + e.text_area() + below_text(e));
}

/// A row of the screen, with what is written before it and behind it.
proof fn lemma_row_in_frame(e: EditorView, r: int) -> (rest: Seq<Draw>)
    requires
        !e.word_wrap,
        0 <= r < e.text_rows(),
        e.top + r < e.lines.len(),
    ensures
        e.frame() == seq![Draw::HideCursor] + e.cut_area(r) + start_row(r) + e.painted_line(
            e.top + r,
        ) + rest,
{
    let hide = seq![Draw::HideCursor];
    let more = lemma_cut_area_prefix(e, r + 1, e.text_rows());
    let below = below_text(e);
    let line = e.painted_line(e.top + r);
    assert(e.cut_area(r + 1) == e.cut_area(r) + (start_row(r) + line));
    lemma_frame(e);
    assert(hide + (e.cut_area(r) + (start_row(r) + line) + more) + below =~= hide + e.cut_area(r)
        + start_row(r) + line + (more + below));
    more + below
}

/// The colour in force before a character of a line.
proof fn lemma_ink_before(e: EditorView, r: int, row: int, i: int, style: Style)
    ensures
        ({
            let painted = e.painted(row, i);
            let before = seq![Draw::HideCursor] + e.cut_area(r) + start_row(r) + painted.1
                + restyle(painted.0, style);
            ink(Seq::empty(), before) == wanted(style)
        }),
{
    let none = Seq::<Draw>::empty();
    let hide = seq![Draw::HideCursor];
    let painted = e.painted(row, i);
    let above = hide + e.cut_area(r);
    let start = above + start_row(r);
    let here = start + painted.1;
    lemma_ink_concat(none, hide, e.cut_area(r));
    assert(ink(none, hide) == none) by {
        reveal_with_fuel(ink, 2);
        assert(hide.drop_last() =~= none);
    }
    lemma_cut_area_ink(e, r);
    lemma_ink_concat(none, above, start_row(r));
    lemma_ink_start_row(none, r);
    lemma_ink_concat(none, start, painted.1);
    lemma_painted_ink(e, row, i);
    lemma_ink_concat(none, here, restyle(painted.0, style));
    law_restyled(painted.0, style);
}

/// The place before a character of a line.
proof fn lemma_tip_before(e: EditorView, r: int, row: int, i: int, style: Style)
    requires
        0 <= r <= u16::MAX,
        0 <= i <= e.lines[row].len(),
        0 <= e.left,
        0 <= e.term_cols,
        e.left <= columns(e.lines[row].take(i)) < e.left + e.term_cols,
    ensures
        ({
            let painted = e.painted(row, i);
            let before = seq![Draw::HideCursor] + e.cut_area(r) + start_row(r) + painted.1
                + restyle(painted.0, style);
            tip((0, 0), before) == (r, columns(e.lines[row].take(i)) - e.left)
        }),
{
    let painted = e.painted(row, i);
    let above = seq![Draw::HideCursor] + e.cut_area(r);
    let here = above + start_row(r) + painted.1;
    assert(here =~= above + (start_row(r) + painted.1));
    lemma_tip_concat((0, 0), above, start_row(r) + painted.1);
    law_cut_chars_in_place(e, r, row, i, tip((0, 0), above));
    lemma_tip_concat((0, 0), here, restyle(painted.0, style));
    lemma_tip_restyle(tip((0, 0), here), painted.0, style);
}

/// Without wrapping, every character of the text that is wholly on the screen is
/// written as itself, in the row of its line, at its column, and in the colour
/// that selection and search give it.
pub proof fn law_char_on_screen(e: EditorView, row: int, i: int)
    requires
        !e.word_wrap,
        e.text_rows() <= u16::MAX,
        0 <= e.left,
        0 <= e.top <= row < e.lines.len(),
        row < e.top + e.text_rows(),
        0 <= i < e.lines[row].len(),
        e.lines[row][i] != '\t',
        ({
            let x = columns(e.lines[row].take(i));
            let end = x + cells(e.lines[row][i]);
            e.left <= x < e.left + e.term_cols && e.left < end <= e.left + e.term_cols
        }),
    ensures
        writes(
            e.frame(),
            e.lines[row][i],
            (row - e.top, columns(e.lines[row].take(i)) - e.left),
            text_ink(e, row, i),
        ),
{
    let c = e.lines[row][i];
    let r = row - e.top;
    let painted = e.painted(row, i);
    let style = e.style_at(row, i, false);
    let glyph = e.glyph(row, i)->Some_0;
    assert(glyph.text == seq![c] && glyph.style == style);
    lemma_ink_before(e, r, row, i, style);
    law_style(e, row, i, false);
    lemma_tip_before(e, r, row, i, style);
    let behind = lemma_char_in_line(e, row, i);
    let below = lemma_row_in_frame(e, r);
    let start = seq![Draw::HideCursor] + e.cut_area(r) + start_row(r);
    let styled = painted.1 + restyle(painted.0, style);
    let before = start + painted.1 + restyle(painted.0, style);
    let one = puts(seq![c]);
    lemma_regroup(start, painted.1, restyle(painted.0, style), one, behind, below);
    lemma_writes(
        e.frame(),
        before,
        c,
        behind + below,
        (r, columns(e.lines[row].take(i)) - e.left),
        text_ink(e, row, i),
    );
}

/// The same instructions, grouped otherwise.
proof fn lemma_regroup(
    a: Seq<Draw>,
    b: Seq<Draw>,
    c: Seq<Draw>,
    d: Seq<Draw>,
    f: Seq<Draw>,
    g: Seq<Draw>,
)
    ensures
        a + (b + c + d + f) + g == a + b + c + d + (f + g),
{
    assert(a + (b + c + d + f) + g =~= a + b + c + d + (f + g));
}

} // verus!
