//! What holds of keys and prompts.

use vstd::prelude::*;
use crate::action::{ActionView, AfterSave};
use crate::encoding::{FileEncoding, LineEnding};
use crate::key::{KeyCode, KeyModifiers};
use crate::state::{EncStep, EditorView, PathView, PromptView};

verus! {

// ── Quitting ─────────────────────────────────────────────────────────────

/// Unsaved changes are not given up unasked: while there are any, no key ends
/// the editor but the one that says so, in the prompt that asks for it.
pub proof fn law_quit_needs_consent(e: EditorView, code: KeyCode, modifiers: KeyModifiers)
    requires
        e.inv(),
        e.modified,
        !e.pending_quit,
        e.key(code, modifiers).1 is Quit,
    ensures
        e.prompt is QuitConfirm,
        code == KeyCode::Char('u') || code == KeyCode::Char('U'),
{
}

/// Without unsaved changes the editor ends at once, and with such it asks.
pub proof fn law_quit_asks(e: EditorView)
    requires
        e.inv(),
        e.prompt is Closed,
    ensures
        ({
            let (next, action) = e.key(KeyCode::Char('q'), KeyModifiers::Control);
            if e.modified {
                next.prompt is QuitConfirm && action is Continue && next.lines == e.lines
            } else {
                action is Quit
            }
        }),
{
}

/// Saving and quitting: a file with a path is saved there and the editor ends
/// then. Without a path a name is asked for first; the editor ends once the file
/// has been written under it.
pub proof fn law_save_and_quit(e: EditorView, modifiers: KeyModifiers, written: PathView)
    requires
        e.inv(),
        e.prompt is QuitConfirm,
    ensures
        ({
            let (next, action) = e.key(KeyCode::Char('s'), modifiers);
            &&& next.lines == e.lines
            &&& match e.path {
                Some(path) => {
                    &&& next.prompt is Closed
                    &&& action == (ActionView::Save { full: path.full, after: AfterSave::Quit })
                },
                None => {
                    &&& next.prompt is SaveAs
                    &&& next.quit_after_save
                    &&& next.file_written(written).pending_quit
                    &&& !next.file_written(written).modified
                },
            }
        }),
{
}

/// Giving up the choice of a name also gives up quitting afterwards.
pub proof fn law_no_name_no_quit(e: EditorView, modifiers: KeyModifiers)
    requires
        e.inv(),
        e.prompt is SaveAs,
    ensures
        !e.key(KeyCode::Esc, modifiers).0.quit_after_save,
        e.prompt->SaveAs_buf.len() == 0 ==> !e.key(
            KeyCode::Enter,
            modifiers,
        ).0.quit_after_save,
{
}

// ── Prompts ──────────────────────────────────────────────────────────────

/// Escape closes every prompt and leaves text, file and format as they were.
pub proof fn law_escape_closes(e: EditorView, modifiers: KeyModifiers)
    requires
        e.inv(),
        !(e.prompt is Closed),
    ensures
        ({
            let (next, action) = e.key(KeyCode::Esc, modifiers);
            &&& next.prompt is Closed
            &&& next.lines == e.lines
            &&& next.cursor() == e.cursor()
            &&& next.path == e.path
            &&& next.modified == e.modified
            &&& next.file_encoding == e.file_encoding
            &&& next.line_ending == e.line_ending
            &&& next.undo_stack == e.undo_stack
            &&& !e.pending_quit ==> action is Continue
        }),
{
}

/// No key that goes to a prompt changes the text, but for the one that carries
/// out a replacement.
pub proof fn law_prompts_keep_text(e: EditorView, code: KeyCode, modifiers: KeyModifiers)
    requires
        e.inv(),
        !(e.prompt is Closed),
        !e.replaces(code),
    ensures
        e.key(code, modifiers).0.lines == e.lines,
        e.key(code, modifiers).0.undo_stack == e.undo_stack,
{
}

/// The digit of an encoding in the encoding prompt.
pub open spec fn encoding_digit(enc: FileEncoding) -> char {
    match enc {
        FileEncoding::Utf8 => '1',
        FileEncoding::Utf8Bom => '2',
        FileEncoding::ShiftJis => '3',
        FileEncoding::EucJp => '4',
    }
}

/// The letter of a line ending in the encoding prompt.
pub open spec fn ending_letter(ending: LineEnding) -> char {
    match ending {
        LineEnding::Lf => 'l',
        LineEnding::Crlf => 'c',
    }
}

/// The first step.
proof fn lemma_choose_encoding(e: EditorView, enc: FileEncoding, modifiers: KeyModifiers)
    requires
        e.prompt == PromptView::EncodingSelect(EncStep::ChooseEncoding),
    ensures
        e.key(KeyCode::Char(encoding_digit(enc)), modifiers).0 == e.encoding_chosen(enc),
{
}

/// The second step.
proof fn lemma_choose_ending(
    e: EditorView,
    enc: FileEncoding,
    ending: LineEnding,
    modifiers: KeyModifiers,
)
    requires
        e.prompt == PromptView::EncodingSelect(EncStep::ChooseLineEnding(enc)),
    ensures
        e.key(KeyCode::Char(ending_letter(ending)), modifiers).0 == e.format_chosen(enc, ending),
{
}

/// Encoding and line ending are changed in two steps, and nothing else with
/// them; the change takes effect with the second step only.
pub proof fn law_format_in_two_steps(
    e: EditorView,
    enc: FileEncoding,
    ending: LineEnding,
    modifiers: KeyModifiers,
)
    requires
        e.inv(),
        e.prompt is Closed,
    ensures
        ({
            let asked = e.key(KeyCode::Char('e'), KeyModifiers::Control).0;
            let half = asked.key(KeyCode::Char(encoding_digit(enc)), modifiers).0;
            let done = half.key(KeyCode::Char(ending_letter(ending)), modifiers).0;
            &&& half.file_encoding == e.file_encoding
            &&& half.line_ending == e.line_ending
            &&& done == (EditorView {
                file_encoding: enc,
                line_ending: ending,
                status: done.status,
                ..e
            })
        }),
{
    let asked = e.start_encoding();
    assert(e.key(KeyCode::Char('e'), KeyModifiers::Control).0 == asked);
    lemma_choose_encoding(asked, enc, modifiers);
    lemma_choose_ending(asked.encoding_chosen(enc), enc, ending, modifiers);
}

/// The choice can be given up at both steps.
pub proof fn law_format_cancelled(e: EditorView, step: EncStep, modifiers: KeyModifiers)
    requires
        e.inv(),
        e.prompt == PromptView::EncodingSelect(step),
    ensures
        ({
            let next = e.key(KeyCode::Esc, modifiers).0;
            next == (EditorView { prompt: PromptView::Closed, status: next.status, ..e })
        }),
{
}

/// Showing the help panel, and wrapping lines, are undone by the same key.
pub proof fn law_toggles(e: EditorView)
    requires
        e.inv(),
        e.prompt is Closed,
    ensures
        ({
            let once = e.key(KeyCode::Char('h'), KeyModifiers::Control).0;
            &&& once.show_help == !e.show_help
            &&& once.key(KeyCode::Char('h'), KeyModifiers::Control).0 == e
        }),
        ({
            let once = e.key(KeyCode::Char('b'), KeyModifiers::Control).0;
            let twice = once.key(KeyCode::Char('b'), KeyModifiers::Control).0;
            &&& once.word_wrap == !e.word_wrap
            &&& twice == (EditorView { left: 0, status: twice.status, ..e })
        }),
{
}

/// A search prompt that is opened and left again changes neither text nor
/// cursor.
pub proof fn law_search_opened_and_left(e: EditorView, modifiers: KeyModifiers)
    requires
        e.inv(),
        e.prompt is Closed,
    ensures
        ({
            let opened = e.key(KeyCode::Char('f'), KeyModifiers::Control).0;
            let left = opened.key(KeyCode::Esc, modifiers).0;
            left == (EditorView { status: left.status, ..e })
        }),
{
    let opened = e.key(KeyCode::Char('f'), KeyModifiers::Control).0;
    let left = opened.key(KeyCode::Esc, modifiers).0;
    assert(left =~= (EditorView { status: left.status, ..e }));
}

/// A key without a meaning changes nothing.
pub proof fn law_other_keys(e: EditorView, modifiers: KeyModifiers)
    requires
        e.inv(),
        e.prompt is Closed,
    ensures
        e.key(KeyCode::Other, modifiers) == (e, ActionView::Continue),
{
}

} // verus!
