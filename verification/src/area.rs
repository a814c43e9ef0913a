//! The part of the screen that shows the text.

use vstd::prelude::*;
use crate::draw::{
    begin_row, blanks, clear_style, plain, plain_style, put_blanks, put_char, puts, restyle,
    set_style, start_row, unstyle, Draw, Style,
};
use crate::layout::{
    columns, lemma_columns_bound, lemma_columns_monotonic, lemma_columns_next, span, span_of,
};
use crate::state::{Editor, EditorView};
use crate::text::lemma_text_mem_line;

verus! {

// ── Lines that are cut at the edges of the screen ────────────────────────

/// What the screen shows of a character.
#[verifier::ext_equal]
pub struct Glyph {
    pub text: Seq<char>,
    pub style: Style,
}

/// A tab of a number of columns.
pub open spec fn tab_text(w: nat) -> Seq<char> {
    seq!['>'] + blanks((w - 1) as nat)
}

/// The lesser of two numbers.
pub open spec fn least(a: int, b: int) -> nat {
    if a <= b {
        a as nat
    } else {
        b as nat
    }
}

impl EditorView {
    /// How a character looks.
    pub open spec fn style_at(self, row: int, i: int, tab: bool) -> Style {
        Style {
            selected: self.in_selection((row, i)),
            tab,
            level: self.search_attr_at((row, i)) as u8,
        }
    }

    /// What is shown of a character when the screen begins at column `left`.
    /// Blanks take the place of a character that the edge of the screen cuts.
    pub open spec fn glyph(self, row: int, i: int) -> Option<Glyph> {
        let c = self.lines[row][i];
        let x = columns(self.lines[row].take(i));
        let w = span(c, x);
        let tab = c == '\t';
        if x + w <= self.left {
            None
        } else if x < self.left {
            Some(
                Glyph {
                    text: blanks(least(x + w - self.left, self.term_cols)),
                    style: self.style_at(row, i, false),
                },
            )
        } else if x - self.left >= self.term_cols {
            None
        } else {
            let avail = (self.term_cols - (x - self.left)) as nat;
            let text = if tab {
                tab_text(least(w as int, avail as int))
            } else if w > avail {
                blanks(avail)
            } else {
                seq![c]
            };
            Some(Glyph { text, style: self.style_at(row, i, tab) })
        }
    }

    /// The first `n` characters of a line, and the style that they end in.
    pub open spec fn painted(self, row: int, n: int) -> (Style, Seq<Draw>)
        decreases n,
    {
        if n <= 0 {
            (plain(), Seq::empty())
        } else {
            let before = self.painted(row, n - 1);
            match self.glyph(row, n - 1) {
                Some(g) => (g.style, before.1 + restyle(before.0, g.style) + puts(g.text)),
                None => before,
            }
        }
    }

    /// A line.
    pub open spec fn painted_line(self, row: int) -> Seq<Draw> {
        let line = self.painted(row, self.lines[row].len() as int);
        line.1 + unstyle(line.0)
    }

    /// A row of the screen: its line, or a mark below the end of the text.
    pub open spec fn cut_row(self, screen_row: int) -> Seq<Draw> {
        let row = self.top + screen_row;
        start_row(screen_row) + if row < self.lines.len() {
            self.painted_line(row)
        } else {
            puts(seq!['~'])
        }
    }

    /// The first `n` rows of the screen.
    pub open spec fn cut_area(self, n: int) -> Seq<Draw>
        decreases n,
    {
        if n <= 0 {
            Seq::empty()
        } else {
            self.cut_area(n - 1) + self.cut_row(n - 1)
        }
    }
}

/// Nothing is shown of what stands right of the screen.
proof fn lemma_painted_past(e: EditorView, row: int, i: int, n: int)
    requires
        0 <= i <= n <= e.lines[row].len(),
        e.term_cols >= 0,
        columns(e.lines[row].take(i)) - e.left >= e.term_cols,
    ensures
        e.painted(row, n) == e.painted(row, i),
    decreases n,
{
    if i < n {
        lemma_painted_past(e, row, i, n - 1);
        lemma_columns_monotonic(e.lines[row], i, n - 1);
    }
}

// ── Lines that go on in the next row ─────────────────────────────────────

/// Where writing stands: the row below the first row of the line, the column
/// and the style.
pub struct Pen {
    pub row: nat,
    pub x: nat,
    pub style: Style,
}

/// A place to write, and what was written to come there.
#[verifier::ext_equal]
pub struct Stroke {
    pub pen: Pen,
    pub ops: Seq<Draw>,
}

/// Writing a text of `w` columns in a style.
pub open spec fn inscribe(pen: Pen, style: Style, text: Seq<char>, w: nat) -> Stroke {
    Stroke {
        pen: Pen { style, x: pen.x + w, ..pen },
        ops: restyle(pen.style, style) + puts(text),
    }
}

/// One stroke after another.
pub open spec fn then_stroke(first: Stroke, second: Stroke) -> Stroke {
    Stroke { pen: second.pen, ops: first.ops + second.ops }
}

impl EditorView {
    /// Going on in the next row, if it is on the screen.
    pub open spec fn next_vis_row(self, screen_row: int, pen: Pen) -> Stroke {
        let row = screen_row + pen.row + 1;
        Stroke {
            pen: Pen { row: pen.row + 1, x: 0, style: plain() },
            ops: unstyle(pen.style) + if row < self.text_rows() {
                start_row(row)
            } else {
                Seq::empty()
            },
        }
    }

    /// Filling the row with `avail` blanks and, if the next row is on the
    /// screen, writing a text of `w` columns there.
    pub open spec fn wrap_text(
        self,
        screen_row: int,
        pen: Pen,
        style: Style,
        avail: nat,
        text: Seq<char>,
        w: nat,
    ) -> Stroke {
        let fill = inscribe(pen, style, blanks(avail), avail);
        let turn = then_stroke(fill, self.next_vis_row(screen_row, fill.pen));
        if screen_row + turn.pen.row < self.text_rows() {
            then_stroke(turn, inscribe(turn.pen, style, text, w))
        } else {
            turn
        }
    }

    /// Writing a text of `w` columns that fits into the row, and going on in the
    /// next row where it fills the row.
    pub open spec fn place_text(
        self,
        screen_row: int,
        pen: Pen,
        style: Style,
        text: Seq<char>,
        w: nat,
    ) -> Stroke {
        let done = inscribe(pen, style, text, w);
        if done.pen.x == self.term_cols {
            then_stroke(done, self.next_vis_row(screen_row, done.pen))
        } else {
            done
        }
    }

    /// A character of a line whose first row is `screen_row`. A character that
    /// does not fit into the rest of the row goes to the next row; a tab is cut
    /// at the end of the row, and its rest goes to the next row.
    pub open spec fn wrap_char(self, screen_row: int, row: int, i: int, pen: Pen) -> Stroke {
        let c = self.lines[row][i];
        let w = span(c, columns(self.lines[row].take(i)));
        let tab = c == '\t';
        let avail = if pen.x <= self.term_cols {
            (self.term_cols - pen.x) as nat
        } else {
            0
        };
        if screen_row + pen.row >= self.text_rows() {
            Stroke { pen, ops: Seq::empty() }
        } else if !tab && 0 < avail < w {
            self.wrap_text(screen_row, pen, self.style_at(row, i, false), avail, seq![c], w)
        } else if pen.x + w > self.term_cols {
            let rest = (w - avail) as nat;
            self.wrap_text(
                screen_row,
                pen,
                self.style_at(row, i, false),
                avail,
                blanks(rest),
                rest,
            )
        } else {
            let text = if tab {
                tab_text(w)
            } else {
                seq![c]
            };
            self.place_text(screen_row, pen, self.style_at(row, i, tab), text, w)
        }
    }

    /// The first `n` characters of a line whose first row is `screen_row`.
    pub open spec fn wrap_chars(self, screen_row: int, row: int, n: int) -> Stroke
        decreases n,
    {
        if n <= 0 {
            Stroke {
                pen: Pen { row: 0, x: 0, style: plain() },
                ops: start_row(screen_row),
            }
        } else {
            let before = self.wrap_chars(screen_row, row, n - 1);
            then_stroke(before, self.wrap_char(screen_row, row, n - 1, before.pen))
        }
    }

    /// A line whose first row is `screen_row`.
    pub open spec fn wrap_line(self, screen_row: int, row: int) -> Stroke {
        let line = self.wrap_chars(screen_row, row, self.lines[row].len() as int);
        Stroke { pen: line.pen, ops: line.ops + unstyle(line.pen.style) }
    }

    /// The rows of the screen from `screen_row` on, with the lines from `row`
    /// on.
    pub open spec fn wrap_area(self, screen_row: int, row: int) -> Seq<Draw>
        decreases
            if screen_row < self.text_rows() {
                self.text_rows() - screen_row
            } else {
                0
            },
    {
        if screen_row >= self.text_rows() {
            Seq::empty()
        } else if row >= self.lines.len() {
            start_row(screen_row) + puts(seq!['~']) + self.wrap_area(screen_row + 1, row)
        } else {
            let line = self.wrap_line(screen_row, row);
            line.ops + self.wrap_area(screen_row + line.pen.row + 1, row + 1)
        }
    }

    /// The text on the screen.
    pub open spec fn text_area(self) -> Seq<Draw> {
        if self.word_wrap {
            self.wrap_area(0, self.top)
        } else {
            self.cut_area(self.text_rows())
        }
    }
}

/// Nothing is written below the screen.
proof fn lemma_wrap_below(e: EditorView, screen_row: int, row: int, i: int, n: int)
    requires
        0 <= i <= n,
        screen_row + e.wrap_chars(screen_row, row, i).pen.row >= e.text_rows(),
    ensures
        e.wrap_chars(screen_row, row, n) == e.wrap_chars(screen_row, row, i),
    decreases n,
{
    if i < n {
        lemma_wrap_below(e, screen_row, row, i, n - 1);
        let before = e.wrap_chars(screen_row, row, n - 1);
        assert(then_stroke(before, e.wrap_char(screen_row, row, n - 1, before.pen)) =~= before);
    }
}

// ── Writing ──────────────────────────────────────────────────────────────

/// Where writing stands.
#[derive(Clone, Copy, Debug)]
struct Place {
    row: usize,
    x: usize,
    style: Style,
}

spec fn pen_at(place: Place) -> Pen {
    Pen { row: place.row as nat, x: place.x as nat, style: place.style }
}

/// Writes a tab.
fn put_tab(out: &mut Vec<Draw>, w: usize)
    requires
        w >= 1,
    ensures
        final(out)@ == old(out)@ + puts(tab_text(w as nat)),
{
    let ghost start = out@;
    out.push(Draw::Put('>'));
    put_blanks(out, w - 1);
    assert(out@ =~= start + puts(tab_text(w as nat)));
}

impl Editor {
    /// How a character looks.
    fn style_at(&self, row: usize, i: usize, tab: bool) -> (style: Style)
        ensures
            style == self@.style_at(row as int, i as int, tab),
    {
        Style { selected: self.in_selection(row, i), tab, level: self.search_attr_at(row, i) }
    }

    /// Writes what the screen shows of a character at column `x`.
    fn paint_char(&self, out: &mut Vec<Draw>, row: usize, i: usize, x: usize, style: Style) -> (end:
        Style)
        requires
            row < self@.lines.len(),
            i < self@.lines[row as int].len(),
            x == columns(self@.lines[row as int].take(i as int)),
            x <= isize::MAX,
        ensures
            match self@.glyph(row as int, i as int) {
                Some(g) => end == g.style && final(out)@ == old(out)@ + (restyle(style, g.style)
                    + puts(g.text)),
                None => end == style && final(out)@ == old(out)@,
            },
    {
        let ghost start = out@;
        let screen_w = self.term_cols as usize;
        let c = self.lines[row][i];
        let tab = c == '\t';
        let w = span_of(c, x);
        if x + w <= self.left {
            return style;
        }
        if x < self.left {
            let cut = x + w - self.left;
            let visible_w = if cut <= screen_w {
                cut
            } else {
                screen_w
            };
            let end = self.style_at(row, i, false);
            set_style(out, style, end);
            put_blanks(out, visible_w);
            assert(out@ =~= start + (restyle(style, end) + puts(blanks(visible_w as nat))));
            return end;
        }
        let screen_x = x - self.left;
        if screen_x >= screen_w {
            return style;
        }
        let avail = screen_w - screen_x;
        let end = self.style_at(row, i, tab);
        set_style(out, style, end);
        let ghost styled = out@;
        if tab {
            put_tab(
                out,
                if w <= avail {
                    w
                } else {
                    avail
                },
            );
        } else if w > avail {
            put_blanks(out, avail);
        } else {
            put_char(out, c);
        }
        proof {
            let g = self@.glyph(row as int, i as int)->Some_0;
            assert(out@ == styled + puts(g.text));
            assert(out@ =~= start + (restyle(style, end) + puts(g.text)));
        }
        end
    }

    /// Writes a line, cut at the edges of the screen.
    fn paint_line(&self, out: &mut Vec<Draw>, row: usize)
        requires
            self@.fits(),
            row < self@.lines.len(),
        ensures
            final(out)@ == old(out)@ + self@.painted_line(row as int),
    {
        let ghost start = out@;
        let ghost r = row as int;
        let ghost e = self@;
        let ghost chars = e.lines[r];
        let screen_w = self.term_cols as usize;
        let mut x: usize = 0;
        let mut style = plain_style();
        let mut i: usize = 0;
        let len = self.lines[row].len();
        proof {
            lemma_text_mem_line(e.lines, r);
        }
        while i < len
            invariant_except_break
                style == e.painted(r, i as int).0,
                out@ == start + e.painted(r, i as int).1,
            invariant
                e == self@,
                r == row,
                row < e.lines.len(),
                chars == e.lines[r],
                chars == self.lines[r]@,
                i <= len == chars.len(),
                4 * chars.len() <= isize::MAX,
                screen_w == e.term_cols,
                x == columns(chars.take(i as int)),
            ensures
                style == e.painted(r, len as int).0,
                out@ == start + e.painted(r, len as int).1,
            decreases len - i,
        {
            if x >= self.left && x - self.left >= screen_w {
                proof {
                    lemma_painted_past(e, r, i as int, len as int);
                }
                break;
            }
            proof {
                lemma_columns_next(chars, i as int);
                lemma_columns_bound(chars.take(i as int));
                lemma_columns_bound(chars.take(i + 1));
            }
            style = self.paint_char(out, row, i, x, style);
            x = x + span_of(self.lines[row][i], x);
            i = i + 1;
            assert(out@ =~= start + e.painted(r, i as int).1);
        }
        clear_style(out, style);
        assert(out@ =~= start + e.painted_line(r));
    }

    /// Writes the rows of the screen, with lines cut at its edges.
    fn paint_cut_area(&self, out: &mut Vec<Draw>)
        requires
            self@.fits(),
            self@.top + self@.text_rows() <= usize::MAX,
        ensures
            final(out)@ == old(out)@ + self@.cut_area(self@.text_rows()),
    {
        let ghost start = out@;
        let text_rows = self.text_rows();
        let mut screen_row: usize = 0;
        while screen_row < text_rows
            invariant
                screen_row <= text_rows <= u16::MAX,
                text_rows == self@.text_rows(),
                self@.fits(),
                self@.top + self@.text_rows() <= usize::MAX,
                out@ == start + self@.cut_area(screen_row as int),
            decreases text_rows - screen_row,
        {
            let ghost before = out@;
            let row = self.top + screen_row;
            begin_row(out, screen_row as u16);
            if row < self.lines.len() {
                self.paint_line(out, row);
            } else {
                put_char(out, '~');
            }
            assert(out@ =~= before + self@.cut_row(screen_row as int));
            screen_row = screen_row + 1;
            assert(out@ =~= start + self@.cut_area(screen_row as int));
        }
    }

    /// Goes on in the next row, if it is on the screen.
    fn turn_row(&self, out: &mut Vec<Draw>, screen_row: usize, place: Place) -> (end: Place)
        requires
            screen_row + place.row < self@.text_rows(),
        ensures
            pen_at(end) == self@.next_vis_row(screen_row as int, pen_at(place)).pen,
            final(out)@ == old(out)@ + self@.next_vis_row(screen_row as int, pen_at(place)).ops,
    {
        let ghost start = out@;
        let text_rows = self.text_rows();
        clear_style(out, place.style);
        let row = place.row + 1;
        if screen_row + row < text_rows {
            begin_row(out, (screen_row + row) as u16);
        }
        assert(out@ =~= start + self@.next_vis_row(screen_row as int, pen_at(place)).ops);
        Place { row, x: 0, style: plain_style() }
    }

    /// Fills the row and, if the next row is on the screen, goes on there with
    /// a character, or with blanks where there is none.
    fn wrap_text(
        &self,
        out: &mut Vec<Draw>,
        screen_row: usize,
        place: Place,
        style: Style,
        avail: usize,
        c: Option<char>,
        w: usize,
    ) -> (end: Place)
        requires
            screen_row + place.row < self@.text_rows(),
            w <= 4,
        ensures
            ({
                let text = match c {
                    Some(c) => seq![c],
                    None => blanks(w as nat),
                };
                let stroke = self@.wrap_text(
                    screen_row as int,
                    pen_at(place),
                    style,
                    avail as nat,
                    text,
                    w as nat,
                );
                pen_at(end) == stroke.pen && final(out)@ == old(out)@ + stroke.ops
            }),
    {
        let ghost start = out@;
        let text_rows = self.text_rows();
        let ghost fill = inscribe(pen_at(place), style, blanks(avail as nat), avail as nat);
        set_style(out, place.style, style);
        put_blanks(out, avail);
        assert(out@ =~= start + fill.ops);
        let turned = self.turn_row(out, screen_row, Place { row: place.row, x: 0, style });
        let ghost turn = then_stroke(fill, self@.next_vis_row(screen_row as int, fill.pen));
        assert(out@ =~= start + turn.ops);
        assert(pen_at(turned) == turn.pen);
        if screen_row + turned.row < text_rows {
            let ghost before = out@;
            set_style(out, turned.style, style);
            match c {
                Some(c) => put_char(out, c),
                None => put_blanks(out, w),
            }
            proof {
                let text = match c {
                    Some(c) => seq![c],
                    None => blanks(w as nat),
                };
                let end = inscribe(turn.pen, style, text, w as nat);
                assert(out@ =~= before + end.ops);
                assert(out@ =~= start + then_stroke(turn, end).ops);
            }
            Place { row: turned.row, x: w, style }
        } else {
            turned
        }
    }

    /// Writes a character that fits into the row, and goes on in the next row
    /// where it fills the row.
    fn place_text(
        &self,
        out: &mut Vec<Draw>,
        screen_row: usize,
        place: Place,
        style: Style,
        c: char,
        w: usize,
    ) -> (end: Place)
        requires
            screen_row + place.row < self@.text_rows(),
            place.x + w <= self@.term_cols,
            c == '\t' ==> w >= 1,
        ensures
            ({
                let text = if c == '\t' {
                    tab_text(w as nat)
                } else {
                    seq![c]
                };
                let stroke = self@.place_text(
                    screen_row as int,
                    pen_at(place),
                    style,
                    text,
                    w as nat,
                );
                pen_at(end) == stroke.pen && final(out)@ == old(out)@ + stroke.ops
            }),
            end.x <= u16::MAX,
            end.row <= place.row + 1,
    {
        let ghost start = out@;
        let ghost text = if c == '\t' {
            tab_text(w as nat)
        } else {
            seq![c]
        };
        let ghost stroke = inscribe(pen_at(place), style, text, w as nat);
        set_style(out, place.style, style);
        if c == '\t' {
            put_tab(out, w);
        } else {
            put_char(out, c);
        }
        let done = Place { row: place.row, x: place.x + w, style };
        assert(out@ =~= start + stroke.ops);
        if done.x == self.term_cols as usize {
            let end = self.turn_row(out, screen_row, done);
            assert(out@ =~= start + then_stroke(
                stroke,
                self@.next_vis_row(screen_row as int, stroke.pen),
            ).ops);
            end
        } else {
            done
        }
    }

    /// Writes a character of a line whose first row is `screen_row`.
    fn wrap_char(
        &self,
        out: &mut Vec<Draw>,
        screen_row: usize,
        row: usize,
        i: usize,
        logical_x: usize,
        place: Place,
    ) -> (end: Place)
        requires
            row < self@.lines.len(),
            i < self@.lines[row as int].len(),
            logical_x == columns(self@.lines[row as int].take(i as int)),
            screen_row + place.row < self@.text_rows(),
            place.x <= u16::MAX,
        ensures
            ({
                let stroke = self@.wrap_char(
                    screen_row as int,
                    row as int,
                    i as int,
                    pen_at(place),
                );
                pen_at(end) == stroke.pen && final(out)@ == old(out)@ + stroke.ops
            }),
            end.x <= u16::MAX,
            end.row <= place.row + 1,
    {
        let tw = self.term_cols as usize;
        let c = self.lines[row][i];
        let tab = c == '\t';
        let w = span_of(c, logical_x);
        let avail = tw.saturating_sub(place.x);
        if !tab && avail > 0 && avail < w {
            let style = self.style_at(row, i, false);
            return self.wrap_text(out, screen_row, place, style, avail, Some(c), w);
        }
        if place.x + w > tw {
            let style = self.style_at(row, i, false);
            return self.wrap_text(out, screen_row, place, style, avail, None, w - avail);
        }
        let style = self.style_at(row, i, tab);
        self.place_text(out, screen_row, place, style, c, w)
    }

    /// Writes a line whose first row is `screen_row`, and gives the number of
    /// rows below it that the line reached.
    fn paint_wrapped(&self, out: &mut Vec<Draw>, screen_row: usize, row: usize) -> (below: usize)
        requires
            self@.fits(),
            row < self@.lines.len(),
            screen_row < self@.text_rows(),
        ensures
            below == self@.wrap_line(screen_row as int, row as int).pen.row,
            final(out)@ == old(out)@ + self@.wrap_line(screen_row as int, row as int).ops,
            screen_row + below <= self@.text_rows(),
    {
        let ghost start = out@;
        let ghost e = self@;
        let ghost r = row as int;
        let ghost s = screen_row as int;
        let ghost chars = e.lines[r];
        let text_rows = self.text_rows();
        let len = self.lines[row].len();
        let mut place = Place { row: 0, x: 0, style: plain_style() };
        let mut logical_x: usize = 0;
        let mut i: usize = 0;
        begin_row(out, screen_row as u16);
        proof {
            lemma_text_mem_line(e.lines, r);
        }
        while i < len
            invariant_except_break
                pen_at(place) == e.wrap_chars(s, r, i as int).pen,
                out@ == start + e.wrap_chars(s, r, i as int).ops,
            invariant
                e == self@,
                r == row,
                s == screen_row,
                row < e.lines.len(),
                chars == e.lines[r],
                chars == self.lines[r]@,
                i <= len == chars.len(),
                4 * chars.len() <= isize::MAX,
                text_rows == e.text_rows(),
                text_rows <= u16::MAX,
                screen_row + place.row <= text_rows,
                place.x <= u16::MAX,
                logical_x == columns(chars.take(i as int)),
            ensures
                pen_at(place) == e.wrap_chars(s, r, len as int).pen,
                out@ == start + e.wrap_chars(s, r, len as int).ops,
            decreases len - i,
        {
            if screen_row + place.row >= text_rows {
                proof {
                    lemma_wrap_below(e, s, r, i as int, len as int);
                }
                break;
            }
            proof {
                lemma_columns_next(chars, i as int);
                lemma_columns_bound(chars.take(i + 1));
            }
            place = self.wrap_char(out, screen_row, row, i, logical_x, place);
            logical_x = logical_x + span_of(self.lines[row][i], logical_x);
            i = i + 1;
            assert(out@ =~= start + e.wrap_chars(s, r, i as int).ops);
        }
        clear_style(out, place.style);
        assert(out@ =~= start + e.wrap_line(s, r).ops);
        place.row
    }

    /// Writes the rows of the screen, with lines that go on in the next row.
    fn paint_wrap_area(&self, out: &mut Vec<Draw>)
        requires
            self@.fits(),
        ensures
            final(out)@ == old(out)@ + self@.wrap_area(0, self@.top),
    {
        let ghost e = self@;
        let ghost goal = out@ + e.wrap_area(0, e.top);
        let text_rows = self.text_rows();
        let mut screen_row: usize = 0;
        let mut row = self.top;
        while screen_row < text_rows
            invariant
                e == self@,
                e.fits(),
                text_rows == e.text_rows(),
                text_rows <= u16::MAX,
                screen_row <= text_rows + 1,
                out@ + e.wrap_area(screen_row as int, row as int) == goal,
            decreases text_rows + 1 - screen_row,
        {
            let ghost before = out@;
            let ghost rest = e.wrap_area(screen_row as int, row as int);
            if row >= self.lines.len() {
                begin_row(out, screen_row as u16);
                put_char(out, '~');
                screen_row = screen_row + 1;
            } else {
                let below = self.paint_wrapped(out, screen_row, row);
                screen_row = screen_row + below + 1;
                row = row + 1;
            }
            assert(out@ + e.wrap_area(screen_row as int, row as int) =~= before + rest);
        }
        assert(out@ =~= goal);
    }

    /// Writes the text.
    pub fn paint_text(&self, out: &mut Vec<Draw>)
        requires
            self@.fits(),
            self@.word_wrap || self@.top + self@.text_rows() <= usize::MAX,
        ensures
            final(out)@ == old(out)@ + self@.text_area(),
    {
        if self.word_wrap {
            self.paint_wrap_area(out);
        } else {
            self.paint_cut_area(out);
        }
    }
}

} // verus!
