//! Keys while the editor is asking for something.

use vstd::prelude::*;
use crate::action::{Action, ActionView, AfterSave};
use crate::encoding::{FileEncoding, LineEnding};
use crate::field::{edit_field, field_edit};
use crate::files::copy_path;
use crate::key::{KeyCode, KeyModifiers};
use crate::message::text3;
use crate::search::{found, lemma_found_in_text, nearest};
use crate::state::{EncStep, Editor, EditorView, PathView, Prompt, PromptView, ReplaceStep};
use crate::text::{copy_line, push_chars, string_of};

verus! {

impl EditorView {
    /// Query and matches belong to an open search or replace prompt; the
    /// matches are those of the query.
    pub open spec fn search_ok(self) -> bool {
        &&& 0 <= self.search_match_idx
        &&& self.search_matches.len() > 0 ==> self.search_match_idx < self.search_matches.len()
        &&& self.search_matches == found(self.lines, self.search_query)
        &&& match self.prompt {
            PromptView::Search { buf, cur } => self.search_query == buf,
            PromptView::Replace { search_buf, replace_buf, search_cur, replace_cur, step } =>
                self.search_query == search_buf,
            _ => self.search_query.len() == 0,
        }
    }

    /// The state between two keys.
    pub open spec fn inv(self) -> bool {
        self.wf() && self.search_ok()
    }

    /// A prompt is closed with a message.
    pub open spec fn closed_with(self, status: Seq<char>) -> EditorView {
        EditorView { prompt: PromptView::Closed, status, ..self }
    }

    /// The search or replace prompt is left.
    pub open spec fn close_search(self) -> EditorView {
        EditorView {
            search_query: Seq::empty(),
            search_matches: Seq::empty(),
            ..self.closed_with("Ctrl+S: Save / Ctrl+Q: Quit / Ctrl+H: Help"@)
        }
    }

    /// A key while quitting with unsaved changes is to be confirmed.
    pub open spec fn quit_confirm_key(self, code: KeyCode) -> (EditorView, ActionView) {
        let closed = EditorView { prompt: PromptView::Closed, ..self };
        if code == KeyCode::Char('s') || code == KeyCode::Char('S') {
            match self.path {
                Some(path) => (
                    closed,
                    ActionView::Save { full: path.full, after: AfterSave::Quit },
                ),
                None => (
                    (EditorView { quit_after_save: true, ..closed }).start_save_as(),
                    ActionView::Continue,
                ),
            }
        } else if code == KeyCode::Char('u') || code == KeyCode::Char('U') {
            (EditorView { pending_quit: true, ..closed }, ActionView::Continue)
        } else if code == KeyCode::Char('c') || code == KeyCode::Char('C') || code
            == KeyCode::Esc {
            (self.closed_with("Quit cancelled."@), ActionView::Continue)
        } else {
            (self, ActionView::Continue)
        }
    }

    /// A key while a file name is asked for.
    pub open spec fn save_as_key(
        self,
        buf: Seq<char>,
        cur: int,
        code: KeyCode,
        modifiers: KeyModifiers,
    ) -> (EditorView, ActionView) {
        match code {
            KeyCode::Esc => (
                EditorView { quit_after_save: false, ..self.closed_with("Cancelled."@) },
                ActionView::Continue,
            ),
            KeyCode::Enter => if buf.len() == 0 {
                (
                    EditorView {
                        quit_after_save: false,
                        ..self.closed_with("Cancelled – no filename given."@)
                    },
                    ActionView::Continue,
                )
            } else {
                (
                    EditorView { prompt: PromptView::Closed, ..self },
                    ActionView::Save { full: buf, after: AfterSave::CheckQuit },
                )
            },
            _ => {
                let edit = field_edit(buf, cur, code, modifiers);
                (
                    EditorView {
                        prompt: PromptView::SaveAs { buf: edit.buf, cur: edit.cur },
                        status: if edit.changed {
                            "Save as: "@ + edit.buf
                        } else {
                            self.status
                        },
                        ..self
                    },
                    ActionView::Continue,
                )
            },
        }
    }

    /// The query changes: the matches with it.
    pub open spec fn with_query(self, query: Seq<char>) -> EditorView {
        (EditorView { search_query: query, ..self }).update_search()
    }

    /// The first match at or behind the cursor.
    pub open spec fn nearest_match(self) -> int {
        nearest(self.search_matches, (self.row, self.col), 0)
    }

    /// A key in the search prompt.
    pub open spec fn search_key(
        self,
        buf: Seq<char>,
        cur: int,
        code: KeyCode,
        modifiers: KeyModifiers,
    ) -> EditorView {
        match code {
            KeyCode::Esc => self.close_search(),
            KeyCode::Enter => {
                let next = self.jump_to_match(self.search_match_idx + 1);
                EditorView { status: next.search_status(), ..next }
            },
            _ => {
                let edit = field_edit(buf, cur, code, modifiers);
                let edited = EditorView {
                    prompt: PromptView::Search { buf: edit.buf, cur: edit.cur },
                    ..self
                };
                let next = if edit.changed {
                    let searched = edited.with_query(edit.buf);
                    searched.jump_to_match(searched.nearest_match())
                } else {
                    edited
                };
                EditorView { status: next.search_status(), ..next }
            },
        }
    }

    /// A key that is taken for one of the search prompt: where that prompt is not
    /// open, there is no field to edit.
    pub open spec fn search_prompt_key(self, code: KeyCode, modifiers: KeyModifiers) -> EditorView {
        match self.prompt {
            PromptView::Search { buf, cur } => self.search_key(buf, cur, code, modifiers),
            _ => match code {
                KeyCode::Esc => self.close_search(),
                KeyCode::Enter => {
                    let next = self.jump_to_match(self.search_match_idx + 1);
                    EditorView { status: next.search_status(), ..next }
                },
                _ => EditorView { status: self.search_status(), ..self },
            },
        }
    }

    /// A key in the replace prompt, while the query is edited.
    pub open spec fn replace_search_key(
        self,
        search_buf: Seq<char>,
        replace_buf: Seq<char>,
        search_cur: int,
        replace_cur: int,
        code: KeyCode,
        modifiers: KeyModifiers,
    ) -> EditorView {
        match code {
            KeyCode::Esc => self.close_search(),
            KeyCode::Enter => {
                let next = EditorView {
                    prompt: PromptView::Replace {
                        search_buf,
                        replace_buf,
                        search_cur,
                        replace_cur: 0,
                        step: ReplaceStep::ReplaceInput,
                    },
                    ..self
                };
                EditorView { status: next.replace_status(), ..next }
            },
            _ => {
                let edit = field_edit(search_buf, search_cur, code, modifiers);
                let edited = EditorView {
                    prompt: PromptView::Replace {
                        search_buf: edit.buf,
                        replace_buf,
                        search_cur: edit.cur,
                        replace_cur,
                        step: ReplaceStep::SearchInput,
                    },
                    ..self
                };
                let next = if edit.changed {
                    let searched = edited.with_query(edit.buf);
                    if searched.search_matches.len() > 0 {
                        EditorView { search_match_idx: searched.nearest_match(), ..searched }
                    } else {
                        searched
                    }
                } else {
                    edited
                };
                EditorView { status: next.replace_status(), ..next }
            },
        }
    }

    /// A key in the replace prompt, while the replacement is edited.
    pub open spec fn replace_with_key(
        self,
        search_buf: Seq<char>,
        replace_buf: Seq<char>,
        search_cur: int,
        replace_cur: int,
        code: KeyCode,
        modifiers: KeyModifiers,
    ) -> EditorView {
        match code {
            KeyCode::Esc => self.close_search(),
            KeyCode::Enter => EditorView {
                prompt: PromptView::Closed,
                search_query: Seq::empty(),
                search_matches: Seq::empty(),
                ..self.replace_all(replace_buf)
            },
            _ => {
                let edit = field_edit(replace_buf, replace_cur, code, modifiers);
                let next = EditorView {
                    prompt: PromptView::Replace {
                        search_buf,
                        replace_buf: edit.buf,
                        search_cur,
                        replace_cur: edit.cur,
                        step: ReplaceStep::ReplaceInput,
                    },
                    ..self
                };
                EditorView { status: next.replace_status(), ..next }
            },
        }
    }

    /// A key while overwriting a symbolic link is to be confirmed.
    pub open spec fn symlink_confirm_key(self, path: PathView, code: KeyCode) -> (
        EditorView,
        ActionView,
    ) {
        if code == KeyCode::Char('y') || code == KeyCode::Char('Y') {
            (
                EditorView { prompt: PromptView::Closed, ..self },
                ActionView::Write { path, after: AfterSave::CheckQuit },
            )
        } else if code == KeyCode::Char('n') || code == KeyCode::Char('N') || code
            == KeyCode::Esc {
            (self.closed_with("Save cancelled."@), ActionView::Continue)
        } else {
            (self, ActionView::Continue)
        }
    }

    /// An encoding is chosen; the line ending is asked for next.
    pub open spec fn encoding_chosen(self, enc: FileEncoding) -> EditorView {
        EditorView {
            prompt: PromptView::EncodingSelect(EncStep::ChooseLineEnding(enc)),
            status: "Line ending: [L] LF  [C] CRLF  Esc: Cancel"@,
            ..self
        }
    }

    /// Encoding and line ending are set.
    pub open spec fn format_chosen(self, enc: FileEncoding, ending: LineEnding) -> EditorView {
        EditorView {
            file_encoding: enc,
            line_ending: ending,
            ..self.closed_with(
                "Set to "@ + enc.label_text() + match ending {
                    LineEnding::Lf => " / LF — Ctrl+S to save."@,
                    LineEnding::Crlf => " / CRLF — Ctrl+S to save."@,
                },
            )
        }
    }

    /// A key while encoding or line ending is asked for.
    pub open spec fn enc_select_key(self, step: EncStep, code: KeyCode) -> EditorView {
        if code == KeyCode::Esc {
            self.closed_with("Cancelled."@)
        } else {
            match step {
                EncStep::ChooseEncoding => if code == KeyCode::Char('1') {
                    self.encoding_chosen(FileEncoding::Utf8)
                } else if code == KeyCode::Char('2') {
                    self.encoding_chosen(FileEncoding::Utf8Bom)
                } else if code == KeyCode::Char('3') {
                    self.encoding_chosen(FileEncoding::ShiftJis)
                } else if code == KeyCode::Char('4') {
                    self.encoding_chosen(FileEncoding::EucJp)
                } else {
                    self
                },
                EncStep::ChooseLineEnding(enc) => if code == KeyCode::Char('l') || code
                    == KeyCode::Char('L') {
                    self.format_chosen(enc, LineEnding::Lf)
                } else if code == KeyCode::Char('c') || code == KeyCode::Char('C') {
                    self.format_chosen(enc, LineEnding::Crlf)
                } else {
                    self
                },
            }
        }
    }

    /// A key while a prompt is open.
    pub open spec fn prompt_key(self, code: KeyCode, modifiers: KeyModifiers) -> (
        EditorView,
        ActionView,
    ) {
        match self.prompt {
            PromptView::Closed => (self, ActionView::Continue),
            PromptView::QuitConfirm => self.quit_confirm_key(code),
            PromptView::SaveAs { buf, cur } => self.save_as_key(buf, cur, code, modifiers),
            PromptView::EncodingSelect(step) => (
                self.enc_select_key(step, code),
                ActionView::Continue,
            ),
            PromptView::SymlinkConfirm(path) => self.symlink_confirm_key(path, code),
            PromptView::Search { buf, cur } => (
                self.search_key(buf, cur, code, modifiers),
                ActionView::Continue,
            ),
            PromptView::Replace { search_buf, replace_buf, search_cur, replace_cur, step } => (
                match step {
                    ReplaceStep::SearchInput => self.replace_search_key(
                        search_buf,
                        replace_buf,
                        search_cur,
                        replace_cur,
                        code,
                        modifiers,
                    ),
                    ReplaceStep::ReplaceInput => self.replace_with_key(
                        search_buf,
                        replace_buf,
                        search_cur,
                        replace_cur,
                        code,
                        modifiers,
                    ),
                },
                ActionView::Continue,
            ),
        }
    }

    /// Whether a key carries out a replacement.
    pub open spec fn replaces(self, code: KeyCode) -> bool {
        self.prompt is Replace && self.prompt->step == ReplaceStep::ReplaceInput && code
            == KeyCode::Enter
    }
}

/// Following a match keeps the state in order.
proof fn lemma_jump_search_ok(e: EditorView, idx: int)
    requires
        e.search_ok(),
        0 <= idx,
    ensures
        e.jump_to_match(idx).search_ok(),
{
    if e.search_matches.len() > 0 {
        assert(0 <= idx % (e.search_matches.len() as int) < e.search_matches.len());
    }
}

impl Editor {
    /// Hands a key to the input field of the search prompt; the matches follow
    /// the query.
    fn edit_query(&mut self, code: KeyCode, modifiers: KeyModifiers) -> (changed: bool)
        requires
            old(self)@.inv(),
        ensures
            old(self)@.prompt is Search ==> {
                let v = old(self)@;
                let edit = field_edit(v.prompt->Search_buf, v.prompt->Search_cur, code, modifiers);
                let edited = EditorView {
                    prompt: PromptView::Search { buf: edit.buf, cur: edit.cur },
                    ..v
                };
                &&& changed == edit.changed
                &&& final(self)@ == (if changed {
                    edited.with_query(edit.buf)
                } else {
                    edited
                })
            },
            !(old(self)@.prompt is Search) ==> !changed && final(self)@ == old(self)@,
            final(self)@.inv(),
    {
        let mut query: Vec<char> = Vec::new();
        let mut changed = false;
        match &mut self.prompt {
            Prompt::Search { buf, cur } => {
                changed = edit_field(buf, cur, code, modifiers);
                query = copy_line(buf);
            },
            _ => {},
        }
        if changed {
            self.search_query = query;
            self.update_search();
        }
        changed
    }

    /// Goes to a match and keeps the state in order.
    fn follow_match(&mut self, idx: usize)
        requires
            old(self)@.inv(),
            old(self)@.fits(),
        ensures
            final(self)@ == old(self)@.jump_to_match(idx as int),
            final(self)@.inv(),
    {
        proof {
            lemma_found_in_text(self@);
            lemma_jump_search_ok(self@, idx as int);
        }
        self.jump_to_match(idx);
    }

    /// Shows the message of the search prompt.
    fn show_search_status(&mut self)
        requires
            old(self)@.inv(),
        ensures
            final(self)@ == (EditorView { status: old(self)@.search_status(), ..old(self)@ }),
            final(self)@.inv(),
    {
        self.status = self.search_status();
    }

    /// A key in the search prompt.
    #[verifier::rlimit(40)]
    pub fn handle_search_key(&mut self, code: KeyCode, modifiers: KeyModifiers)
        requires
            old(self)@.inv(),
            old(self)@.fits(),
        ensures
            final(self)@ == old(self)@.search_prompt_key(code, modifiers),
            final(self)@.inv(),
    {
        match code {
            KeyCode::Esc => {
                self.leave_search();
            },
            KeyCode::Enter => {
                if self.search_matches.len() > 0 {
                    let total = self.search_matches.len();
                    assert(self.search_match_idx < total);
                    self.follow_match(self.search_match_idx + 1);
                }
                self.show_search_status();
            },
            _ => {
                if self.edit_query(code, modifiers) {
                    let idx = self.find_nearest_match_from(self.row, self.col);
                    self.follow_match(idx);
                }
                self.show_search_status();
            },
        }
    }

    /// Leaves the search or replace prompt.
    fn leave_search(&mut self)
        requires
            old(self)@.inv(),
        ensures
            final(self)@ == old(self)@.close_search(),
            final(self)@.inv(),
    {
        self.prompt = Prompt::Closed;
        self.search_query.clear();
        self.search_matches.clear();
        self.status = "Ctrl+S: Save / Ctrl+Q: Quit / Ctrl+H: Help".to_owned();
        assert(self@ =~= old(self)@.close_search());
    }

    /// Hands a key to the query field of the replace prompt; the matches follow
    /// the query.
    fn edit_replace_query(&mut self, code: KeyCode, modifiers: KeyModifiers) -> (changed: bool)
        requires
            old(self)@.inv(),
            old(self)@.prompt is Replace,
        ensures
            ({
                let v = old(self)@;
                let edit = field_edit(
                    v.prompt->search_buf,
                    v.prompt->search_cur,
                    code,
                    modifiers,
                );
                let edited = EditorView {
                    prompt: PromptView::Replace {
                        search_buf: edit.buf,
                        replace_buf: v.prompt->replace_buf,
                        search_cur: edit.cur,
                        replace_cur: v.prompt->replace_cur,
                        step: v.prompt->step,
                    },
                    ..v
                };
                &&& changed == edit.changed
                &&& final(self)@ == (if changed {
                    edited.with_query(edit.buf)
                } else {
                    edited
                })
            }),
            final(self)@.inv(),
    {
        let mut query: Vec<char> = Vec::new();
        let mut changed = false;
        match &mut self.prompt {
            Prompt::Replace { search_buf, replace_buf, search_cur, replace_cur, step } => {
                changed = edit_field(search_buf, search_cur, code, modifiers);
                query = copy_line(search_buf);
            },
            _ => {},
        }
        if changed {
            self.search_query = query;
            self.update_search();
        }
        changed
    }

    /// Shows the message of the replace prompt.
    fn show_replace_status(&mut self)
        requires
            old(self)@.inv(),
        ensures
            final(self)@ == (EditorView { status: old(self)@.replace_status(), ..old(self)@ }),
            final(self)@.inv(),
    {
        self.update_replace_status();
    }

    /// A key in the replace prompt, while the query is edited.
    #[verifier::rlimit(40)]
    fn handle_replace_search_key(&mut self, code: KeyCode, modifiers: KeyModifiers)
        requires
            old(self)@.inv(),
            old(self)@.prompt is Replace,
            old(self)@.prompt->step == ReplaceStep::SearchInput,
        ensures
            final(self)@ == old(self)@.replace_search_key(
                old(self)@.prompt->search_buf,
                old(self)@.prompt->replace_buf,
                old(self)@.prompt->search_cur,
                old(self)@.prompt->replace_cur,
                code,
                modifiers,
            ),
            final(self)@.inv(),
    {
        match code {
            KeyCode::Esc => {
                self.leave_search();
            },
            KeyCode::Enter => {
                match &mut self.prompt {
                    Prompt::Replace { search_buf, replace_buf, search_cur, replace_cur, step } => {
                        *step = ReplaceStep::ReplaceInput;
                        *replace_cur = 0;
                    },
                    _ => {},
                }
                self.show_replace_status();
            },
            _ => {
                if self.edit_replace_query(code, modifiers) {
                    if self.search_matches.len() > 0 {
                        self.search_match_idx = self.find_nearest_match_from(self.row, self.col);
                    }
                }
                self.show_replace_status();
            },
        }
    }

    /// Carries out the replacement.
    fn finish_replace(&mut self)
        requires
            old(self)@.inv(),
            old(self)@.fits(),
            old(self)@.prompt is Replace,
        ensures
            final(self)@ == (EditorView {
                prompt: PromptView::Closed,
                search_query: Seq::empty(),
                search_matches: Seq::empty(),
                ..old(self)@.replace_all(old(self)@.prompt->replace_buf)
            }),
            final(self)@.doc_ok(),
            final(self)@.search_ok(),
    {
        proof {
            lemma_found_in_text(self@);
        }
        let mut with: Vec<char> = Vec::new();
        match &self.prompt {
            Prompt::Replace { search_buf, replace_buf, search_cur, replace_cur, step } => {
                with = copy_line(replace_buf);
            },
            _ => {},
        }
        self.replace_all(&with);
        self.prompt = Prompt::Closed;
        self.search_query.clear();
        self.search_matches.clear();
        assert(self@.search_matches =~= Seq::empty());
    }

    /// A key in the replace prompt, while the replacement is edited.
    #[verifier::rlimit(40)]
    fn handle_replace_with_key(&mut self, code: KeyCode, modifiers: KeyModifiers)
        requires
            old(self)@.inv(),
            old(self)@.fits(),
            old(self)@.prompt is Replace,
            old(self)@.prompt->step == ReplaceStep::ReplaceInput,
        ensures
            final(self)@ == old(self)@.replace_with_key(
                old(self)@.prompt->search_buf,
                old(self)@.prompt->replace_buf,
                old(self)@.prompt->search_cur,
                old(self)@.prompt->replace_cur,
                code,
                modifiers,
            ),
            final(self)@.doc_ok(),
            final(self)@.search_ok(),
            code != KeyCode::Enter ==> final(self)@.inv(),
    {
        match code {
            KeyCode::Esc => {
                self.leave_search();
            },
            KeyCode::Enter => {
                self.finish_replace();
            },
            _ => {
                match &mut self.prompt {
                    Prompt::Replace { search_buf, replace_buf, search_cur, replace_cur, step } => {
                        edit_field(replace_buf, replace_cur, code, modifiers);
                    },
                    _ => {},
                }
                self.show_replace_status();
            },
        }
    }

    /// A key in the replace prompt; tells whether that prompt is open.
    pub fn handle_replace_key(&mut self, code: KeyCode, modifiers: KeyModifiers) -> (handled: bool)
        requires
            old(self)@.inv(),
            old(self)@.fits(),
        ensures
            handled == (old(self)@.prompt is Replace),
            handled ==> (final(self)@, ActionView::Continue) == old(self)@.prompt_key(
                code,
                modifiers,
            ),
            !handled ==> final(self)@ == old(self)@,
            final(self)@.doc_ok(),
            final(self)@.search_ok(),
            !old(self)@.replaces(code) ==> final(self)@.inv(),
    {
        let searching = match &self.prompt {
            Prompt::Replace { search_buf, replace_buf, search_cur, replace_cur, step } => *step
                == ReplaceStep::SearchInput,
            _ => {
                return false;
            },
        };
        if searching {
            self.handle_replace_search_key(code, modifiers);
        } else {
            self.handle_replace_with_key(code, modifiers);
        }
        true
    }

    /// Closes the prompt with a message.
    fn close_with(&mut self, status: String)
        requires
            old(self)@.inv(),
            !(old(self)@.prompt is Search),
            !(old(self)@.prompt is Replace),
        ensures
            final(self)@ == old(self)@.closed_with(status@),
            final(self)@.inv(),
    {
        self.prompt = Prompt::Closed;
        self.status = status;
    }

    /// A key while overwriting a symbolic link is to be confirmed; `None` where
    /// that is not asked.
    pub fn handle_symlink_confirm_key(&mut self, code: KeyCode) -> (action: Option<Action>)
        requires
            old(self)@.inv(),
        ensures
            action is Some <==> old(self)@.prompt is SymlinkConfirm,
            action matches Some(a) ==> (final(self)@, a@) == old(self)@.symlink_confirm_key(
                old(self)@.prompt->SymlinkConfirm_0,
                code,
            ),
            action is None ==> final(self)@ == old(self)@,
            final(self)@.inv(),
    {
        let path = match &self.prompt {
            Prompt::SymlinkConfirm(path) => copy_path(path),
            _ => {
                return None;
            },
        };
        match code {
            KeyCode::Char('y') | KeyCode::Char('Y') => {
                self.prompt = Prompt::Closed;
                return Some(Action::Write { path, after: AfterSave::CheckQuit });
            },
            KeyCode::Char('n') | KeyCode::Char('N') | KeyCode::Esc => {
                self.close_with("Save cancelled.".to_owned());
            },
            _ => {},
        }
        Some(Action::Continue)
    }

    /// Asks for the line ending next.
    fn choose_encoding(&mut self, enc: FileEncoding)
        requires
            old(self)@.inv(),
            old(self)@.prompt is EncodingSelect,
        ensures
            final(self)@ == old(self)@.encoding_chosen(enc),
            final(self)@.inv(),
    {
        self.prompt = Prompt::EncodingSelect(EncStep::ChooseLineEnding(enc));
        self.status = "Line ending: [L] LF  [C] CRLF  Esc: Cancel".to_owned();
    }

    /// Sets encoding and line ending.
    fn choose_format(&mut self, enc: FileEncoding, ending: LineEnding)
        requires
            old(self)@.inv(),
            old(self)@.prompt is EncodingSelect,
        ensures
            final(self)@ == old(self)@.format_chosen(enc, ending),
            final(self)@.inv(),
    {
        self.file_encoding = enc;
        self.line_ending = ending;
        self.prompt = Prompt::Closed;
        let rest = match ending {
            LineEnding::Lf => " / LF — Ctrl+S to save.",
            LineEnding::Crlf => " / CRLF — Ctrl+S to save.",
        };
        self.status = text3("Set to ", enc.label(), rest);
    }

    /// A key while encoding or line ending is asked for; tells whether it is.
    pub fn handle_enc_select_key(&mut self, code: KeyCode) -> (handled: bool)
        requires
            old(self)@.inv(),
        ensures
            handled == (old(self)@.prompt is EncodingSelect),
            handled ==> final(self)@ == old(self)@.enc_select_key(
                old(self)@.prompt->EncodingSelect_0,
                code,
            ),
            !handled ==> final(self)@ == old(self)@,
            final(self)@.inv(),
    {
        let step = match &self.prompt {
            Prompt::EncodingSelect(step) => *step,
            _ => {
                return false;
            },
        };
        match step {
            EncStep::ChooseEncoding => match code {
                KeyCode::Esc => {
                    self.close_with("Cancelled.".to_owned());
                },
                KeyCode::Char('1') => {
                    self.choose_encoding(FileEncoding::Utf8);
                },
                KeyCode::Char('2') => {
                    self.choose_encoding(FileEncoding::Utf8Bom);
                },
                KeyCode::Char('3') => {
                    self.choose_encoding(FileEncoding::ShiftJis);
                },
                KeyCode::Char('4') => {
                    self.choose_encoding(FileEncoding::EucJp);
                },
                _ => {},
            },
            EncStep::ChooseLineEnding(enc) => match code {
                KeyCode::Esc => {
                    self.close_with("Cancelled.".to_owned());
                },
                KeyCode::Char('l') | KeyCode::Char('L') => {
                    self.choose_format(enc, LineEnding::Lf);
                },
                KeyCode::Char('c') | KeyCode::Char('C') => {
                    self.choose_format(enc, LineEnding::Crlf);
                },
                _ => {},
            },
        }
        true
    }

    /// A key while quitting with unsaved changes is to be confirmed.
    fn handle_quit_confirm_key(&mut self, code: KeyCode) -> (action: Action)
        requires
            old(self)@.inv(),
            old(self)@.prompt is QuitConfirm,
        ensures
            (final(self)@, action@) == old(self)@.quit_confirm_key(code),
            final(self)@.inv(),
    {
        match code {
            KeyCode::Char('s') | KeyCode::Char('S') => {
                self.prompt = Prompt::Closed;
                match &self.path {
                    Some(path) => {
                        return Action::Save { full: path.full.clone(), after: AfterSave::Quit };
                    },
                    None => {
                        self.quit_after_save = true;
                        self.start_save_as();
                    },
                }
            },
            KeyCode::Char('u') | KeyCode::Char('U') => {
                self.prompt = Prompt::Closed;
                self.pending_quit = true;
            },
            KeyCode::Char('c') | KeyCode::Char('C') | KeyCode::Esc => {
                self.close_with("Quit cancelled.".to_owned());
            },
            _ => {},
        }
        Action::Continue
    }

    /// Takes the file name that was asked for.
    fn accept_name(&mut self) -> (action: Action)
        requires
            old(self)@.inv(),
            old(self)@.prompt is SaveAs,
        ensures
            (final(self)@, action@) == old(self)@.save_as_key(
                old(self)@.prompt->SaveAs_buf,
                old(self)@.prompt->SaveAs_cur,
                KeyCode::Enter,
                KeyModifiers::Plain,
            ),
            final(self)@.inv(),
    {
        let name = match &self.prompt {
            Prompt::SaveAs { buf, cur } => string_of(buf),
            _ => String::new(),
        };
        if name.as_str().is_empty() {
            self.quit_after_save = false;
            self.close_with("Cancelled – no filename given.".to_owned());
            Action::Continue
        } else {
            self.prompt = Prompt::Closed;
            Action::Save { full: name, after: AfterSave::CheckQuit }
        }
    }

    /// A key while a file name is asked for.
    fn handle_save_as_key(&mut self, code: KeyCode, modifiers: KeyModifiers) -> (action: Action)
        requires
            old(self)@.inv(),
            old(self)@.prompt is SaveAs,
        ensures
            (final(self)@, action@) == old(self)@.save_as_key(
                old(self)@.prompt->SaveAs_buf,
                old(self)@.prompt->SaveAs_cur,
                code,
                modifiers,
            ),
            final(self)@.inv(),
    {
        match code {
            KeyCode::Esc => {
                self.quit_after_save = false;
                self.close_with("Cancelled.".to_owned());
                Action::Continue
            },
            KeyCode::Enter => self.accept_name(),
            _ => {
                let mut changed = false;
                let mut text = "Save as: ".to_owned();
                match &mut self.prompt {
                    Prompt::SaveAs { buf, cur } => {
                        changed = edit_field(buf, cur, code, modifiers);
                        push_chars(&mut text, buf);
                    },
                    _ => {},
                }
                if changed {
                    self.status = text;
                }
                Action::Continue
            },
        }
    }

    /// Hands a key to the open prompt; `None` where none is open.
    pub fn handle_prompt_key(&mut self, code: KeyCode, modifiers: KeyModifiers) -> (action: Option<
        Action,
    >)
        requires
            old(self)@.inv(),
            old(self)@.fits(),
        ensures
            action is None <==> old(self)@.prompt is Closed,
            action is None ==> final(self)@ == old(self)@,
            action matches Some(a) ==> (final(self)@, a@) == old(self)@.prompt_key(
                code,
                modifiers,
            ),
            final(self)@.doc_ok(),
            final(self)@.search_ok(),
            !old(self)@.replaces(code) ==> final(self)@.inv(),
    {
        match &self.prompt {
            Prompt::Closed => None,
            Prompt::QuitConfirm => Some(self.handle_quit_confirm_key(code)),
            Prompt::SaveAs { buf, cur } => Some(self.handle_save_as_key(code, modifiers)),
            Prompt::EncodingSelect(step) => {
                self.handle_enc_select_key(code);
                Some(Action::Continue)
            },
            Prompt::SymlinkConfirm(path) => self.handle_symlink_confirm_key(code),
            Prompt::Search { buf, cur } => {
                self.handle_search_key(code, modifiers);
                Some(Action::Continue)
            },
            Prompt::Replace { search_buf, replace_buf, search_cur, replace_cur, step } => {
                self.handle_replace_key(code, modifiers);
                Some(Action::Continue)
            },
        }
    }
}

} // verus!
