//! What the keys do in the prompts.

use vstd::prelude::*;
use crate::action::{ActionView, AfterSave};
use crate::encoding::{FileEncoding, LineEnding};
use crate::field::{field_edit, FieldEdit};
use crate::key::{KeyCode, KeyModifiers};
use crate::laws_typing::one_more;
use crate::state::{EncStep, EditorView, PathView, PromptView, ReplaceStep};

verus! {

// ── Input fields ─────────────────────────────────────────────────────────

/// A typed character goes into the field before its cursor, whichever character
/// it is; with other modifiers nothing is typed.
pub proof fn law_field_typing(buf: Seq<char>, cur: int, ch: char, modifiers: KeyModifiers)
    requires
        0 <= cur <= buf.len(),
    ensures
        ({
            let after = field_edit(buf, cur, KeyCode::Char(ch), modifiers);
            if modifiers == KeyModifiers::Plain || modifiers == KeyModifiers::Shift {
                after.changed && after.cur == cur + 1 && one_more(after.buf, buf, cur, ch)
            } else {
                after == (FieldEdit { buf, cur, changed: false })
            }
        }),
{
}

/// Backspace takes away the character before the cursor of the field, Delete
/// the one at it, if there is one.
pub proof fn law_field_deleting(buf: Seq<char>, cur: int, modifiers: KeyModifiers)
    requires
        0 <= cur <= buf.len(),
    ensures
        ({
            let after = field_edit(buf, cur, KeyCode::Backspace, modifiers);
            if cur > 0 {
                &&& after.changed
                &&& after.cur == cur - 1
                &&& one_more(buf, after.buf, cur - 1, buf[cur - 1])
            } else {
                after == (FieldEdit { buf, cur, changed: false })
            }
        }),
        ({
            let after = field_edit(buf, cur, KeyCode::Delete, modifiers);
            if cur < buf.len() {
                after.changed && after.cur == cur && one_more(buf, after.buf, cur, buf[cur])
            } else {
                after == (FieldEdit { buf, cur, changed: false })
            }
        }),
{
}

/// The other keys leave the contents of a field as they are; four of them move
/// its cursor.
pub proof fn law_field_moving(buf: Seq<char>, cur: int, code: KeyCode, modifiers: KeyModifiers)
    requires
        0 <= cur <= buf.len(),
        !(code is Char),
        code != KeyCode::Backspace,
        code != KeyCode::Delete,
    ensures
        ({
            let after = field_edit(buf, cur, code, modifiers);
            &&& after.buf == buf
            &&& !after.changed
            &&& code == KeyCode::Home ==> after.cur == 0
            &&& code == KeyCode::End ==> after.cur == buf.len()
            &&& code == KeyCode::Left && cur > 0 ==> after.cur == cur - 1
            &&& code == KeyCode::Left && cur == 0 ==> after.cur == 0
            &&& code == KeyCode::Right && cur < buf.len() ==> after.cur == cur + 1
            &&& code == KeyCode::Right && cur == buf.len() ==> after.cur == cur
            &&& code != KeyCode::Home && code != KeyCode::End && code != KeyCode::Left && code
                != KeyCode::Right ==> after.cur == cur
        }),
{
}

// ── Quitting ─────────────────────────────────────────────────────────────

/// Ctrl+Q ends the editor if there are no unsaved changes, and else asks.
pub proof fn law_quit_key(e: EditorView)
    requires
        e.prompt is Closed,
    ensures
        e.key(KeyCode::Char('q'), KeyModifiers::Control) == (if e.modified {
            (
                EditorView {
                    prompt: PromptView::QuitConfirm,
                    status: "Unsaved changes!  [S]ave and quit  [U]nsave and quit  [C]ancel"@,
                    ..e
                },
                ActionView::Continue,
            )
        } else {
            (e, ActionView::Quit)
        }),
{
}

/// The keys while the editor asks what to do with unsaved changes: save them
/// first, give them up, or stay; no other key does anything.
pub proof fn law_quit_prompt(e: EditorView, code: KeyCode, modifiers: KeyModifiers)
    requires
        e.prompt is QuitConfirm,
        !e.pending_quit,
    ensures
        ({
            let (after, action) = e.key(code, modifiers);
            if code == KeyCode::Char('s') || code == KeyCode::Char('S') {
                match e.path {
                    Some(path) => {
                        &&& after == (EditorView { prompt: PromptView::Closed, ..e })
                        &&& action == (ActionView::Save { full: path.full, after: AfterSave::Quit })
                    },
                    None => {
                        &&& after == (EditorView {
                            prompt: PromptView::SaveAs { buf: Seq::empty(), cur: 0 },
                            status: after.status,
                            quit_after_save: true,
                            ..e
                        })
                        &&& after.status == "Save as: "@
                        &&& action is Continue
                    },
                }
            } else if code == KeyCode::Char('u') || code == KeyCode::Char('U') {
                &&& after == (EditorView { prompt: PromptView::Closed, pending_quit: true, ..e })
                &&& action is Quit
            } else if code == KeyCode::Char('c') || code == KeyCode::Char('C') || code
                == KeyCode::Esc {
                &&& after == (EditorView {
                    prompt: PromptView::Closed,
                    status: "Quit cancelled."@,
                    ..e
                })
                &&& action is Continue
            } else {
                after == e && action is Continue
            }
        }),
{
    assert("Save as: "@ + Seq::<char>::empty() =~= "Save as: "@);
}

// ── File names ───────────────────────────────────────────────────────────

/// Ctrl+S saves a file under its path; without a path it asks for a name, as
/// Ctrl+W always does. The question begins with the name that the file has.
pub proof fn law_save_keys(e: EditorView)
    ensures
        e.prompt is Closed ==> e.key(KeyCode::Char('s'), KeyModifiers::Control) == e.save(),
        e.prompt is Closed ==> e.key(KeyCode::Char('w'), KeyModifiers::Control) == (
            e.start_save_as(),
            ActionView::Continue,
        ),
        ({
            let (after, action) = e.save();
            match e.path {
                Some(path) => {
                    &&& after == e
                    &&& action == (ActionView::Save { full: path.full, after: AfterSave::Stay })
                },
                None => after == e.start_save_as() && action is Continue,
            }
        }),
        ({
            let after = e.start_save_as();
            let name = match e.path {
                Some(path) => path.name,
                None => Seq::empty(),
            };
            after == (EditorView {
                prompt: PromptView::SaveAs { buf: name, cur: name.len() as int },
                status: "Save as: "@ + name,
                ..e
            })
        }),
{
}

/// The keys while a file name is asked for: Enter saves under exactly the name
/// that was typed, if any was; Escape gives up; every other key goes to the
/// field.
pub proof fn law_name_prompt(e: EditorView, code: KeyCode, modifiers: KeyModifiers)
    requires
        e.prompt is SaveAs,
        !e.pending_quit,
    ensures
        ({
            let (after, action) = e.key(code, modifiers);
            let name = e.prompt->SaveAs_buf;
            if code == KeyCode::Enter && name.len() > 0 {
                &&& after == (EditorView { prompt: PromptView::Closed, ..e })
                &&& action == (ActionView::Save { full: name, after: AfterSave::CheckQuit })
            } else if code == KeyCode::Enter || code == KeyCode::Esc {
                &&& action is Continue
                &&& after == (EditorView {
                    prompt: PromptView::Closed,
                    quit_after_save: false,
                    status: if code == KeyCode::Esc {
                        "Cancelled."@
                    } else {
                        "Cancelled – no filename given."@
                    },
                    ..e
                })
            } else {
                let edit = field_edit(name, e.prompt->SaveAs_cur, code, modifiers);
                &&& action is Continue
                &&& after == (EditorView {
                    prompt: PromptView::SaveAs { buf: edit.buf, cur: edit.cur },
                    status: if edit.changed {
                        "Save as: "@ + edit.buf
                    } else {
                        e.status
                    },
                    ..e
                })
            }
        }),
{
}

/// The keys while overwriting a symbolic link is to be confirmed: yes writes to
/// that very path, no and Escape do not write, and no other key does anything.
pub proof fn law_symlink_prompt(
    e: EditorView,
    path: PathView,
    code: KeyCode,
    modifiers: KeyModifiers,
)
    requires
        e.prompt == PromptView::SymlinkConfirm(path),
        !e.pending_quit,
    ensures
        ({
            let (after, action) = e.key(code, modifiers);
            if code == KeyCode::Char('y') || code == KeyCode::Char('Y') {
                &&& after == (EditorView { prompt: PromptView::Closed, ..e })
                &&& action == (ActionView::Write { path, after: AfterSave::CheckQuit })
            } else if code == KeyCode::Char('n') || code == KeyCode::Char('N') || code
                == KeyCode::Esc {
                &&& after == (EditorView {
                    prompt: PromptView::Closed,
                    status: "Save cancelled."@,
                    ..e
                })
                &&& action is Continue
            } else {
                after == e && action is Continue
            }
        }),
{
}

// ── Encodings and line endings ───────────────────────────────────────────

/// Ctrl+E asks for the encoding and says which one the file has.
pub proof fn law_encoding_asked(e: EditorView)
    requires
        e.prompt is Closed,
    ensures
        e.key(KeyCode::Char('e'), KeyModifiers::Control) == (
            EditorView {
                prompt: PromptView::EncodingSelect(EncStep::ChooseEncoding),
                status:
                    "Encoding: [1] UTF-8  [2] UTF-8 BOM  [3] Shift-JIS  [4] EUC-JP  Esc: Cancel  (current: "@
                    + e.file_encoding.label_text() + ")"@,
                ..e
            },
            ActionView::Continue,
        ),
{
}

/// The keys while the encoding is asked for: the four digits lead on to the
/// line ending, Escape gives up, and no other key does anything.
pub proof fn law_encoding_prompt(e: EditorView, code: KeyCode, modifiers: KeyModifiers)
    requires
        e.prompt == PromptView::EncodingSelect(EncStep::ChooseEncoding),
        !e.pending_quit,
    ensures
        ({
            let (after, action) = e.key(code, modifiers);
            let chosen = if code == KeyCode::Char('1') {
                Some(FileEncoding::Utf8)
            } else if code == KeyCode::Char('2') {
                Some(FileEncoding::Utf8Bom)
            } else if code == KeyCode::Char('3') {
                Some(FileEncoding::ShiftJis)
            } else if code == KeyCode::Char('4') {
                Some(FileEncoding::EucJp)
            } else {
                None
            };
            &&& action is Continue
            &&& match chosen {
                Some(enc) => after == (EditorView {
                    prompt: PromptView::EncodingSelect(EncStep::ChooseLineEnding(enc)),
                    status: "Line ending: [L] LF  [C] CRLF  Esc: Cancel"@,
                    ..e
                }),
                None => if code == KeyCode::Esc {
                    after == (EditorView {
                        prompt: PromptView::Closed,
                        status: "Cancelled."@,
                        ..e
                    })
                } else {
                    after == e
                },
            }
        }),
{
}

/// The keys while the line ending is asked for: the two letters, small or
/// capital, set it together with the encoding chosen before; Escape gives up
/// both, and no other key does anything.
pub proof fn law_ending_prompt(
    e: EditorView,
    enc: FileEncoding,
    code: KeyCode,
    modifiers: KeyModifiers,
)
    requires
        e.prompt == PromptView::EncodingSelect(EncStep::ChooseLineEnding(enc)),
        !e.pending_quit,
    ensures
        ({
            let (after, action) = e.key(code, modifiers);
            &&& action is Continue
            &&& if code == KeyCode::Char('l') || code == KeyCode::Char('L') {
                after == (EditorView {
                    prompt: PromptView::Closed,
                    file_encoding: enc,
                    line_ending: LineEnding::Lf,
                    status: "Set to "@ + enc.label_text() + " / LF — Ctrl+S to save."@,
                    ..e
                })
            } else if code == KeyCode::Char('c') || code == KeyCode::Char('C') {
                after == (EditorView {
                    prompt: PromptView::Closed,
                    file_encoding: enc,
                    line_ending: LineEnding::Crlf,
                    status: "Set to "@ + enc.label_text() + " / CRLF — Ctrl+S to save."@,
                    ..e
                })
            } else if code == KeyCode::Esc {
                after == (EditorView { prompt: PromptView::Closed, status: "Cancelled."@, ..e })
            } else {
                after == e
            }
        }),
{
}

// ── Handlers ─────────────────────────────────────────────────────────────

/// A key while a prompt is open goes to that prompt, and ends the editor where
/// quitting is due.
pub proof fn law_prompt_takes_key(e: EditorView, code: KeyCode, modifiers: KeyModifiers)
    requires
        !(e.prompt is Closed),
    ensures
        ({
            let (next, action) = e.prompt_key(code, modifiers);
            &&& e.key(code, modifiers).0 == next
            &&& e.key(code, modifiers).1 == (if next.pending_quit && action is Continue {
                ActionView::Quit
            } else {
                action
            })
            &&& e.prompt is Search ==> (next, action) == (
                e.search_prompt_key(code, modifiers),
                ActionView::Continue,
            )
            &&& e.prompt matches PromptView::SymlinkConfirm(path) ==> (next, action)
                == e.symlink_confirm_key(path, code)
            &&& e.prompt matches PromptView::EncodingSelect(step) ==> (next, action) == (
                e.enc_select_key(step, code),
                ActionView::Continue,
            )
        }),
{
}

/// Whether two states differ at most in whether quitting is due, which it is in
/// one if it is in the other.
pub open spec fn quit_aside(next: EditorView, calm: EditorView, due: bool) -> bool {
    next == (EditorView { pending_quit: due || calm.pending_quit, ..calm })
}

/// Whether that quitting is due changes nothing of what a prompt does with a key.
pub open spec fn quit_waits(e: EditorView, code: KeyCode, modifiers: KeyModifiers) -> bool {
    let calm = EditorView { pending_quit: false, ..e };
    let (next, action) = e.prompt_key(code, modifiers);
    let (calm_next, calm_action) = calm.prompt_key(code, modifiers);
    action == calm_action && quit_aside(next, calm_next, e.pending_quit)
}

/// Following a match, and searching, have nothing to do with quitting.
proof fn lemma_search_aside(e: EditorView, calm: EditorView, idx: int, query: Seq<char>)
    requires
        calm == (EditorView { pending_quit: false, ..e }),
    ensures
        quit_aside(e.jump_to_match(idx), calm.jump_to_match(idx), e.pending_quit),
        quit_aside(e.with_query(query), calm.with_query(query), e.pending_quit),
        e.search_status() == calm.search_status(),
        e.replace_status() == calm.replace_status(),
        e.nearest_match() == calm.nearest_match(),
{
}

/// The search prompt.
proof fn lemma_search_key_aside(
    e: EditorView,
    code: KeyCode,
    modifiers: KeyModifiers,
)
    requires
        e.prompt is Search,
    ensures
        quit_waits(e, code, modifiers),
{
    let calm = EditorView { pending_quit: false, ..e };
    let edit = field_edit(e.prompt->Search_buf, e.prompt->Search_cur, code, modifiers);
    let prompt = PromptView::Search { buf: edit.buf, cur: edit.cur };
    let edited = EditorView { prompt, ..e };
    let calm_edited = EditorView { prompt, ..calm };
    lemma_search_aside(e, calm, e.search_match_idx + 1, edit.buf);
    lemma_search_aside(edited, calm_edited, 0, edit.buf);
    let searched = edited.with_query(edit.buf);
    let calm_searched = calm_edited.with_query(edit.buf);
    lemma_search_aside(searched, calm_searched, searched.nearest_match(), edit.buf);
    lemma_search_aside(
        searched.jump_to_match(searched.nearest_match()),
        calm_searched.jump_to_match(searched.nearest_match()),
        0,
        edit.buf,
    );
    lemma_search_aside(
        e.jump_to_match(e.search_match_idx + 1),
        calm.jump_to_match(e.search_match_idx + 1),
        0,
        edit.buf,
    );
}

/// The replace prompt, while the query is edited.
proof fn lemma_replace_query_aside(
    e: EditorView,
    code: KeyCode,
    modifiers: KeyModifiers,
)
    requires
        e.prompt is Replace,
        e.prompt->step == ReplaceStep::SearchInput,
    ensures
        quit_waits(e, code, modifiers),
{
    let calm = EditorView { pending_quit: false, ..e };
    let p = e.prompt;
    let edit = field_edit(p->search_buf, p->search_cur, code, modifiers);
    let prompt = PromptView::Replace {
        search_buf: edit.buf,
        replace_buf: p->replace_buf,
        search_cur: edit.cur,
        replace_cur: p->replace_cur,
        step: ReplaceStep::SearchInput,
    };
    let edited = EditorView { prompt, ..e };
    let calm_edited = EditorView { prompt, ..calm };
    lemma_search_aside(edited, calm_edited, 0, edit.buf);
    lemma_search_aside(
        edited.with_query(edit.buf),
        calm_edited.with_query(edit.buf),
        0,
        edit.buf,
    );
}

/// The replace prompt, while the replacement is edited.
proof fn lemma_replacement_aside(
    e: EditorView,
    code: KeyCode,
    modifiers: KeyModifiers,
)
    requires
        e.prompt is Replace,
        e.prompt->step == ReplaceStep::ReplaceInput,
    ensures
        quit_waits(e, code, modifiers),
{
}

/// The prompts without a search.
proof fn lemma_question_aside(e: EditorView, code: KeyCode, modifiers: KeyModifiers)
    requires
        e.prompt is QuitConfirm || e.prompt is SymlinkConfirm || e.prompt is EncodingSelect,
    ensures
        quit_waits(e, code, modifiers),
{
}

/// The prompt for a file name.
proof fn lemma_name_aside(e: EditorView, code: KeyCode, modifiers: KeyModifiers)
    requires
        e.prompt is SaveAs,
    ensures
        quit_waits(e, code, modifiers),
{
}

/// That quitting is due changes nothing of what a prompt does with a key.
pub proof fn law_due_quit_waits(e: EditorView, code: KeyCode, modifiers: KeyModifiers)
    requires
        !(e.prompt is Closed),
    ensures
        quit_waits(e, code, modifiers),
{
    match e.prompt {
        PromptView::Search { buf, cur } => {
            lemma_search_key_aside(e, code, modifiers);
        },
        PromptView::Replace { search_buf, replace_buf, search_cur, replace_cur, step } => {
            if step == ReplaceStep::SearchInput {
                lemma_replace_query_aside(e, code, modifiers);
            } else {
                lemma_replacement_aside(e, code, modifiers);
            }
        },
        PromptView::SaveAs { buf, cur } => {
            lemma_name_aside(e, code, modifiers);
        },
        _ => {
            lemma_question_aside(e, code, modifiers);
        },
    }
}

// ── Switches ─────────────────────────────────────────────────────────────

/// Ctrl+B switches wrapping of lines, from the left edge of the text, and Ctrl+H
/// the help panel.
pub proof fn law_switches(e: EditorView)
    requires
        e.prompt is Closed,
    ensures
        e.key(KeyCode::Char('b'), KeyModifiers::Control) == (
            EditorView {
                word_wrap: !e.word_wrap,
                left: 0,
                status: if e.word_wrap {
                    "Word wrap: OFF"@
                } else {
                    "Word wrap: ON"@
                },
                ..e
            },
            ActionView::Continue,
        ),
        e.key(KeyCode::Char('h'), KeyModifiers::Control) == (
            EditorView { show_help: !e.show_help, ..e },
            ActionView::Continue,
        ),
{
}

} // verus!
