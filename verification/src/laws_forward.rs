//! What holds of every frame: no backspace is written.

use vstd::prelude::*;
use crate::area::{inscribe, tab_text, then_stroke, Pen};
use crate::draw::{blanks, put, puts, Draw, Style};
use crate::layout::{columns, span};
use crate::message::decimal;
use crate::render::{help_rows, help_text, right_aligned};
use crate::state::{EditorView, HELP_ROWS};

verus! {

/// The backspace character.
pub open spec fn is_backspace(c: char) -> bool {
    c == '\u{8}'
}

/// Whether a text holds no backspace.
pub open spec fn forward(text: Seq<char>) -> bool {
    forall|i: int| 0 <= i < text.len() ==> !is_backspace(#[trigger] text[i])
}

/// Whether no backspace is written.
pub open spec fn writes_forward(ops: Seq<Draw>) -> bool {
    forall|i: int|
        0 <= i < ops.len() && (#[trigger] ops[i]) is Put ==> !is_backspace(ops[i]->Put_0)
}

proof fn lemma_forward_puts(text: Seq<char>)
    requires
        forward(text),
    ensures
        writes_forward(puts(text)),
{
    let ops = puts(text);
    assert forall|i: int| 0 <= i < ops.len() && (#[trigger] ops[i]) is Put implies !is_backspace(
        ops[i]->Put_0,
    ) by {
        assert(ops[i] == put(text[i]));
    }
}

proof fn lemma_forward_label(e: EditorView)
    ensures
        forward(e.file_encoding.label_text()),
        forward(e.line_ending.label_text()),
{
    reveal_strlit("UTF-8");
    reveal_strlit("UTF-8 BOM");
    reveal_strlit("Shift-JIS");
    reveal_strlit("EUC-JP");
    reveal_strlit("LF");
    reveal_strlit("CRLF");
}

proof fn lemma_forward_help(i: int)
    ensures
        forward(help_text(i)),
{
    reveal_strlit("─── Help (Ctrl+H to close) ──────────────────────────────────────────");
    reveal_strlit(" Ctrl+S: Save / Ctrl+W: Save As / Ctrl+Z: Undo / Ctrl+A: Select All");
    reveal_strlit(" Ctrl+C: Start & end copy selection / Ctrl+V: Paste");
    reveal_strlit(" Ctrl+X: Start & end cut  selection / Esc: Cancel selection");
    reveal_strlit(" Tab: Insert tab (>) / Ctrl+E: Change encoding (UTF8,SJIS,EUC)");
    reveal_strlit(" Ctrl+F: Search / Ctrl+R: Replace all / Ctrl+B: Toggle word wrap");
    reveal_strlit(" Ctrl+Q: Quit / Ctrl+H: Toggle this help");
    reveal_strlit(" Arrow keys / Home / End / PageUp / PageDown: Move cursor");
}

proof fn lemma_forward_decimal(n: nat)
    ensures
        forward(decimal(n)),
    decreases n,
{
    if n >= 10 {
        lemma_forward_decimal(n / 10);
    }
}

/// Whether no text that the editor shows holds a backspace.
pub open spec fn shows_forward(e: EditorView) -> bool {
    &&& forall|r: int| 0 <= r < e.lines.len() ==> forward(#[trigger] e.lines[r])
    &&& forward(e.status)
    &&& e.path matches Some(path) ==> forward(path.name)
}

proof fn lemma_forward_status(e: EditorView)
    requires
        shows_forward(e),
    ensures
        forward(e.status_line()),
{
    reveal_strlit(" ");
    reveal_strlit("  ");
    reveal_strlit("");
    reveal_strlit(":");
    reveal_strlit(" [+]");
    reveal_strlit("[New File]");
    lemma_forward_label(e);
    lemma_forward_decimal((e.row + 1) as nat);
    lemma_forward_decimal((e.col + 1) as nat);
    assert(forward(e.status_left()));
    assert(forward(e.status_pos()));
    assert(forward(right_aligned(e.status_pos(), e.status_pad())));
}

proof fn lemma_forward_glyph(e: EditorView, row: int, i: int)
    requires
        forward(e.lines[row]),
        0 <= i < e.lines[row].len(),
    ensures
        e.glyph(row, i) matches Some(g) ==> forward(g.text),
{
}

proof fn lemma_forward_painted(e: EditorView, row: int, n: int)
    requires
        forward(e.lines[row]),
        n <= e.lines[row].len(),
    ensures
        writes_forward(e.painted(row, n).1),
    decreases n,
{
    if n > 0 {
        lemma_forward_painted(e, row, n - 1);
        lemma_forward_glyph(e, row, n - 1);
        match e.glyph(row, n - 1) {
            Some(g) => {
                lemma_forward_puts(g.text);
            },
            None => {},
        }
    }
}

proof fn lemma_forward_cut_area(e: EditorView, n: int)
    requires
        shows_forward(e),
        0 <= e.top,
    ensures
        writes_forward(e.cut_area(n)),
    decreases n,
{
    if n > 0 {
        lemma_forward_cut_area(e, n - 1);
        let row = e.top + n - 1;
        lemma_forward_puts(seq!['~']);
        if row < e.lines.len() {
            lemma_forward_painted(e, row, e.lines[row].len() as int);
        }
    }
}

proof fn lemma_forward_inscribe(pen: Pen, style: Style, text: Seq<char>, w: nat)
    requires
        forward(text),
    ensures
        writes_forward(inscribe(pen, style, text, w).ops),
{
    lemma_forward_puts(text);
}

proof fn lemma_forward_wrap_text(
    e: EditorView,
    screen_row: int,
    pen: Pen,
    style: Style,
    avail: nat,
    text: Seq<char>,
    w: nat,
)
    requires
        forward(text),
    ensures
        writes_forward(e.wrap_text(screen_row, pen, style, avail, text, w).ops),
{
    let fill = inscribe(pen, style, blanks(avail), avail);
    let turn = then_stroke(fill, e.next_vis_row(screen_row, fill.pen));
    lemma_forward_inscribe(pen, style, blanks(avail), avail);
    lemma_forward_inscribe(turn.pen, style, text, w);
}

proof fn lemma_forward_wrap_char(e: EditorView, screen_row: int, row: int, i: int, pen: Pen)
    requires
        forward(e.lines[row]),
        0 <= i < e.lines[row].len(),
    ensures
        writes_forward(e.wrap_char(screen_row, row, i, pen).ops),
{
    let c = e.lines[row][i];
    let w = span(c, columns(e.lines[row].take(i)));
    let tab = c == '\t';
    let avail = if pen.x <= e.term_cols {
        (e.term_cols - pen.x) as nat
    } else {
        0
    };
    let style = e.style_at(row, i, false);
    let rest = (w - avail) as nat;
    lemma_forward_wrap_text(e, screen_row, pen, style, avail, seq![c], w);
    lemma_forward_wrap_text(e, screen_row, pen, style, avail, blanks(rest), rest);
    let text = if tab {
        tab_text(w)
    } else {
        seq![c]
    };
    lemma_forward_inscribe(pen, e.style_at(row, i, tab), text, w);
}

proof fn lemma_forward_wrap_chars(e: EditorView, screen_row: int, row: int, n: int)
    requires
        forward(e.lines[row]),
        n <= e.lines[row].len(),
    ensures
        writes_forward(e.wrap_chars(screen_row, row, n).ops),
    decreases n,
{
    if n > 0 {
        lemma_forward_wrap_chars(e, screen_row, row, n - 1);
        let before = e.wrap_chars(screen_row, row, n - 1);
        lemma_forward_wrap_char(e, screen_row, row, n - 1, before.pen);
    }
}

proof fn lemma_forward_wrap_area(e: EditorView, screen_row: int, row: int)
    requires
        shows_forward(e),
        0 <= row,
    ensures
        writes_forward(e.wrap_area(screen_row, row)),
    decreases
        if screen_row < e.text_rows() {
            e.text_rows() - screen_row
        } else {
            0
        },
{
    if screen_row < e.text_rows() {
        if row >= e.lines.len() {
            lemma_forward_wrap_area(e, screen_row + 1, row);
            lemma_forward_puts(seq!['~']);
        } else {
            let line = e.wrap_line(screen_row, row);
            lemma_forward_wrap_chars(e, screen_row, row, e.lines[row].len() as int);
            lemma_forward_wrap_area(e, screen_row + line.pen.row + 1, row + 1);
        }
    }
}

proof fn lemma_forward_help_rows(first: int, n: int)
    ensures
        writes_forward(help_rows(first, n)),
    decreases n,
{
    if n > 0 {
        lemma_forward_help_rows(first, n - 1);
        lemma_forward_help(n - 1);
        lemma_forward_puts(help_text(n - 1));
    }
}

/// Nothing on the screen is written by going backwards: a frame holds no
/// backspace, unless the text, the file name or the message does.
pub proof fn law_frame_without_backspace(e: EditorView)
    requires
        shows_forward(e),
        0 <= e.top,
    ensures
        writes_forward(e.frame()),
{
    if e.word_wrap {
        lemma_forward_wrap_area(e, 0, e.top);
    } else {
        lemma_forward_cut_area(e, e.text_rows());
    }
    lemma_forward_help_rows(e.text_rows(), HELP_ROWS as int);
    lemma_forward_status(e);
    lemma_forward_puts(e.status_line());
    lemma_forward_puts(e.status);
    assert(writes_forward(e.bars()));
}

} // verus!
