//! What the bars, the help panel and the cursor show.

use vstd::prelude::*;
use vstd::utf8::encode_utf8;
use crate::draw::{puts, Draw};
use crate::encoding::{FileEncoding, LineEnding};
use crate::laws_paint::all_blank;
use crate::layout::cells;
use crate::message::decimal;
use crate::render::{help_rows, help_text, left_aligned, right_aligned, width};
use crate::state::{EditorView, PromptView, ReplaceStep};

verus! {

// ── Help panel ───────────────────────────────────────────────────────────

/// What the help panel says.
pub proof fn law_help_texts()
    ensures
        help_text(0)
            == "─── Help (Ctrl+H to close) ──────────────────────────────────────────"@,
        help_text(1)
            == " Ctrl+S: Save / Ctrl+W: Save As / Ctrl+Z: Undo / Ctrl+A: Select All"@,
        help_text(2) == " Ctrl+C: Start & end copy selection / Ctrl+V: Paste"@,
        help_text(3) == " Ctrl+X: Start & end cut  selection / Esc: Cancel selection"@,
        help_text(4) == " Tab: Insert tab (>) / Ctrl+E: Change encoding (UTF8,SJIS,EUC)"@,
        help_text(5) == " Ctrl+F: Search / Ctrl+R: Replace all / Ctrl+B: Toggle word wrap"@,
        help_text(6) == " Ctrl+Q: Quit / Ctrl+H: Toggle this help"@,
        help_text(7) == " Arrow keys / Home / End / PageUp / PageDown: Move cursor"@,
{
}

/// The help panel is shown below the text, if it is switched on: its eight lines
/// one below the other, each in a cleared row and dimmed.
pub proof fn law_help_panel(e: EditorView, first: int, n: int)
    requires
        0 <= first,
        0 <= n,
        first + n <= u16::MAX,
    ensures
        e.show_help ==> e.help_panel() == help_rows(e.text_rows(), 8),
        !e.show_help ==> e.help_panel() == Seq::<Draw>::empty(),
        help_rows(first, 0) == Seq::<Draw>::empty(),
        help_rows(first, n + 1) == help_rows(first, n) + seq![
            Draw::MoveTo { col: 0, row: (first + n) as u16 },
            Draw::ClearLine,
            Draw::Dim,
        ] + puts(help_text(n)) + seq![Draw::ResetAttributes],
{
    assert(help_rows(first, n + 1) =~= help_rows(first, n) + seq![
        Draw::MoveTo { col: 0, row: (first + n) as u16 },
        Draw::ClearLine,
        Draw::Dim,
    ] + puts(help_text(n)) + seq![Draw::ResetAttributes]);
}

// ── Status bar ───────────────────────────────────────────────────────────

/// The left part of the status bar names the file, marks unsaved changes, and
/// names encoding and line ending.
pub proof fn law_status_left(e: EditorView)
    ensures
        ({
            let name = match e.path {
                Some(path) => path.name,
                None => "[New File]"@,
            };
            let mark = if e.modified {
                " [+]"@
            } else {
                ""@
            };
            let encoding = match e.file_encoding {
                FileEncoding::Utf8 => "UTF-8"@,
                FileEncoding::Utf8Bom => "UTF-8 BOM"@,
                FileEncoding::ShiftJis => "Shift-JIS"@,
                FileEncoding::EucJp => "EUC-JP"@,
            };
            let ending = match e.line_ending {
                LineEnding::Lf => "LF"@,
                LineEnding::Crlf => "CRLF"@,
            };
            e.status_left() == " "@ + name + mark + "  "@ + encoding + "  "@ + ending
        }),
{
}

/// The right part gives row and column of the cursor, both counted from one.
pub proof fn law_status_position(e: EditorView)
    requires
        0 <= e.row,
        0 <= e.col,
    ensures
        e.status_pos() == " "@ + decimal((e.row + 1) as nat) + ":"@ + decimal(
            (e.col + 1) as nat,
        ) + " "@,
{
}

/// Texts are brought to a width by blanks before or behind them, and never cut.
pub proof fn law_aligned(text: Seq<char>, width: int)
    requires
        text.len() <= width,
    ensures
        ({
            let right = right_aligned(text, width);
            let gap = width - text.len();
            right.len() == width && all_blank(right.take(gap)) && right.skip(gap) == text
        }),
        ({
            let left = left_aligned(text, width);
            let n = text.len() as int;
            left.len() == width && left.take(n) == text && all_blank(left.skip(n))
        }),
{
    let gap = width - text.len();
    let n = text.len() as int;
    assert(right_aligned(text, width).skip(gap) =~= text);
    assert(left_aligned(text, width).take(n) =~= text);
}

/// Texts that are too long for a width stay as they are.
pub proof fn law_not_cut(text: Seq<char>, width: int)
    requires
        text.len() >= width,
    ensures
        right_aligned(text, width) == text,
        left_aligned(text, width) == text,
{
}

/// The status bar begins with its left part, ends with blanks up to the width of
/// the terminal, and holds the position between, in a field as wide as the
/// terminal leaves beside both texts, counted in bytes.
pub proof fn law_status_line(e: EditorView)
    ensures
        ({
            let bytes = encode_utf8(e.status_left()).len() + encode_utf8(e.status_pos()).len();
            let pad = if bytes < e.term_cols {
                e.term_cols - bytes
            } else {
                0
            };
            e.status_line() == left_aligned(
                e.status_left() + right_aligned(e.status_pos(), pad),
                e.term_cols,
            )
        }),
        0 <= e.term_cols ==> e.status_line().len() >= e.term_cols,
{
}

/// The last row but one shows the status bar, reversed, and the last row the
/// message; both are cleared first.
pub proof fn law_bars(e: EditorView)
    requires
        2 <= e.term_rows <= u16::MAX,
    ensures
        e.bars() == seq![
            Draw::MoveTo { col: 0, row: (e.term_rows - 2) as u16 },
            Draw::ClearLine,
            Draw::Reverse,
        ] + puts(e.status_line()) + seq![
            Draw::ResetAttributes,
            Draw::MoveTo { col: 0, row: (e.term_rows - 1) as u16 },
            Draw::ClearLine,
        ] + puts(e.status),
{
    assert(e.bars() =~= seq![
        Draw::MoveTo { col: 0, row: (e.term_rows - 2) as u16 },
        Draw::ClearLine,
        Draw::Reverse,
    ] + puts(e.status_line()) + seq![
        Draw::ResetAttributes,
        Draw::MoveTo { col: 0, row: (e.term_rows - 1) as u16 },
        Draw::ClearLine,
    ] + puts(e.status));
}

// ── Cursor ───────────────────────────────────────────────────────────────

/// The columns of a text are those of its characters together.
pub proof fn law_width(text: Seq<char>, c: char)
    ensures
        width(Seq::empty()) == 0,
        width(text.push(c)) == width(text) + cells(c),
{
    assert(text.push(c).drop_last() =~= text);
}

/// The cursor of an input field stands behind the question and the columns of
/// what was typed before it; a prompt without a field has none.
pub proof fn law_field_cursor(prompt: PromptView)
    ensures
        match prompt {
            PromptView::SaveAs { buf, cur } => prompt.field_col() == Some(
                encode_utf8("Save as: "@).len() + width(buf.take(cur)),
            ),
            PromptView::Search { buf, cur } => prompt.field_col() == Some(
                encode_utf8("Search: "@).len() + width(buf.take(cur)),
            ),
            PromptView::Replace { search_buf, replace_buf, search_cur, replace_cur, step } => if step
                == ReplaceStep::SearchInput {
                prompt.field_col() == Some(
                    encode_utf8("Replace — Search: "@).len() + width(search_buf.take(search_cur)),
                )
            } else {
                prompt.field_col() == Some(
                    width("Replace \""@ + search_buf + "\" with: "@) + width(
                        replace_buf.take(replace_cur),
                    ),
                )
            },
            _ => prompt.field_col() is None,
        },
{
}

/// The cursor is shown in the input field, in the last row, if there is one, and
/// else in the text, where rows and columns are counted in sixteen bits.
pub proof fn law_cursor_shown(e: EditorView)
    ensures
        e.prompt.field_col() matches Some(col) ==> col <= u16::MAX && 1 <= e.term_rows
            <= u16::MAX ==> (e.place_cursor() matches Draw::MoveTo { col: x, row: y } && x == col
            && y == e.term_rows - 1),
        e.prompt.field_col() is None && 0 <= e.text_cursor().0 && 0 <= e.text_cursor().1 ==> (
        e.place_cursor() matches Draw::MoveTo { col: x, row: y } && x == e.text_cursor().1
            % 0x1_0000 && y == e.text_cursor().0 % 0x1_0000),
{
}

/// A frame hides the cursor while it is drawn: the text, the help panel and the
/// bars; then the cursor goes to its place and is shown.
pub proof fn law_frame(e: EditorView)
    ensures
        e.frame() == seq![Draw::HideCursor] + (if e.word_wrap {
            e.wrap_area(0, e.top)
        } else {
            e.cut_area(e.text_rows())
        }) + e.help_panel() + e.bars() + seq![e.place_cursor(), Draw::ShowCursor],
{
}

} // verus!
