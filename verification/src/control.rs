//! Keys and the commands that they give.

use vstd::prelude::*;
use crate::action::{Action, ActionView};
use crate::key::{KeyCode, KeyModifiers};
use crate::message::text3;
use crate::state::{
    EncStep, Editor, EditorView, Prompt, PromptView, ReplaceStep, Selection, SelectionView,
};
use crate::text::{copy_line, joined};

verus! {

impl EditorView {
    /// Quitting; with unsaved changes the user is asked first.
    pub open spec fn quit(self) -> (EditorView, ActionView) {
        if self.modified {
            (
                EditorView {
                    prompt: PromptView::QuitConfirm,
                    status:
                        "Unsaved changes!  [S]ave and quit  [U]nsave and quit  [C]ancel"@,
                    ..self
                },
                ActionView::Continue,
            )
        } else {
            (self, ActionView::Quit)
        }
    }

    /// A selection begins at the cursor.
    pub open spec fn start_selection(self, is_cut: bool) -> EditorView {
        EditorView {
            selection: Some(SelectionView { anchor: self.cursor(), is_cut }),
            status: if is_cut {
                "Cut: move cursor to selection end, then Ctrl+X again."@
            } else {
                "Copy: move cursor to selection end, then Ctrl+C again."@
            },
            ..self
        }
    }

    /// A selection that was made to cut is now made to copy, or the other way
    /// round.
    pub open spec fn switch_selection(self, is_cut: bool) -> EditorView {
        EditorView {
            selection: Some(SelectionView { is_cut, ..self.selection->Some_0 }),
            status: if is_cut {
                "Switched to cut mode. Press Ctrl+X again to cut."@
            } else {
                "Switched to copy mode. Press Ctrl+C again to copy."@
            },
            ..self
        }
    }

    /// The selected text goes to the clipboard.
    pub open spec fn clip(self) -> (EditorView, ActionView) {
        (
            EditorView { clipboard: self.selected(), ..self },
            ActionView::Copy(joined(self.selected(), seq!['\n'])),
        )
    }

    /// Begins a selection to copy, or copies the selection.
    pub open spec fn copy(self) -> (EditorView, ActionView) {
        match self.selection {
            None => (self.start_selection(false), ActionView::Continue),
            Some(sel) => if sel.is_cut {
                (self.switch_selection(false), ActionView::Continue)
            } else {
                let (clipped, action) = self.clip();
                (EditorView { selection: None, status: "Copied."@, ..clipped }, action)
            },
        }
    }

    /// Begins a selection to cut, or cuts the selection.
    pub open spec fn cut(self) -> (EditorView, ActionView) {
        match self.selection {
            None => (self.start_selection(true), ActionView::Continue),
            Some(sel) => if sel.is_cut {
                let (clipped, action) = self.clip();
                (EditorView { status: "Cut."@, ..clipped.delete_selected() }, action)
            } else {
                (self.switch_selection(true), ActionView::Continue)
            },
        }
    }

    /// The user is asked for the encoding.
    pub open spec fn start_encoding(self) -> EditorView {
        EditorView {
            prompt: PromptView::EncodingSelect(EncStep::ChooseEncoding),
            status:
                "Encoding: [1] UTF-8  [2] UTF-8 BOM  [3] Shift-JIS  [4] EUC-JP  Esc: Cancel  (current: "@
                + self.file_encoding.label_text() + ")"@,
            ..self
        }
    }

    /// The search prompt opens with the last query.
    pub open spec fn start_search(self) -> EditorView {
        let opened = (EditorView {
            prompt: PromptView::Search {
                buf: self.search_query,
                cur: self.search_query.len() as int,
            },
            ..self
        }).update_search();
        let next = opened.jump_to_match(opened.nearest_match());
        EditorView { status: next.search_status(), ..next }
    }

    /// The replace prompt opens with the last query.
    pub open spec fn start_replace(self) -> EditorView {
        let next = (EditorView {
            prompt: PromptView::Replace {
                search_buf: self.search_query,
                replace_buf: Seq::empty(),
                search_cur: self.search_query.len() as int,
                replace_cur: 0,
                step: ReplaceStep::SearchInput,
            },
            ..self
        }).update_search();
        EditorView { status: next.replace_status(), ..next }
    }

    /// Lines are wrapped from now on, or no longer.
    pub open spec fn toggle_wrap(self) -> EditorView {
        EditorView {
            word_wrap: !self.word_wrap,
            left: 0,
            status: if self.word_wrap {
                "Word wrap: OFF"@
            } else {
                "Word wrap: ON"@
            },
            ..self
        }
    }

    /// The selection is given up.
    pub open spec fn cancel_selection(self) -> EditorView {
        if self.selection is Some {
            EditorView { selection: None, status: "Selection cancelled."@, ..self }
        } else {
            self
        }
    }

    /// A character with the control key.
    pub open spec fn control_key(self, c: char) -> (EditorView, ActionView) {
        if c == 'q' {
            self.quit()
        } else if c == 's' {
            self.save()
        } else if c == 'w' {
            (self.start_save_as(), ActionView::Continue)
        } else if c == 'z' {
            (self.undo(), ActionView::Continue)
        } else if c == 'a' {
            (self.select_all(), ActionView::Continue)
        } else if c == 'c' {
            self.copy()
        } else if c == 'x' {
            self.cut()
        } else if c == 'v' {
            (EditorView { selection: None, ..self }, ActionView::Paste)
        } else if c == 'e' {
            (self.start_encoding(), ActionView::Continue)
        } else if c == 'f' {
            (self.start_search(), ActionView::Continue)
        } else if c == 'r' {
            (self.start_replace(), ActionView::Continue)
        } else if c == 'b' {
            (self.toggle_wrap(), ActionView::Continue)
        } else if c == 'h' {
            (EditorView { show_help: !self.show_help, ..self }, ActionView::Continue)
        } else {
            (self, ActionView::Continue)
        }
    }

    /// A key other than a character.
    pub open spec fn special_key(self, code: KeyCode) -> EditorView {
        match code {
            KeyCode::Esc => self.cancel_selection(),
            KeyCode::Enter => self.insert_newline(),
            KeyCode::Tab => self.insert_char('\t'),
            KeyCode::Backspace => self.backspace(),
            KeyCode::Delete => self.delete(),
            KeyCode::Up => self.move_up(),
            KeyCode::Down => self.move_down(),
            KeyCode::Left => self.move_left(),
            KeyCode::Right => self.move_right(),
            KeyCode::Home => self.move_home(),
            KeyCode::End => self.move_end(),
            KeyCode::PageUp => self.page_up(),
            KeyCode::PageDown => self.page_down(),
            _ => self,
        }
    }

    /// A key while no prompt is open.
    pub open spec fn command(self, code: KeyCode, modifiers: KeyModifiers) -> (
        EditorView,
        ActionView,
    ) {
        match code {
            KeyCode::Char(c) => if modifiers == KeyModifiers::Control {
                self.control_key(c)
            } else if modifiers.typing() {
                (self.insert_char(c), ActionView::Continue)
            } else {
                (self, ActionView::Continue)
            },
            _ => (self.special_key(code), ActionView::Continue),
        }
    }

    /// A key. An open prompt takes it, and may end the editor.
    pub open spec fn key(self, code: KeyCode, modifiers: KeyModifiers) -> (EditorView, ActionView) {
        if self.prompt is Closed {
            self.command(code, modifiers)
        } else {
            let (next, action) = self.prompt_key(code, modifiers);
            (
                next,
                if action is Continue && next.pending_quit {
                    ActionView::Quit
                } else {
                    action
                },
            )
        }
    }

    /// The terminal has another size.
    pub open spec fn resized(self, cols: int, rows: int) -> EditorView {
        EditorView { term_cols: cols, term_rows: rows, ..self }
    }

    /// Whether a key can be carried out: taking back a change and going down a
    /// page need a screen with room for text, and a selection must have begun
    /// in what is now the text.
    pub open spec fn accepts(self, code: KeyCode, modifiers: KeyModifiers) -> bool {
        if self.prompt is Closed {
            match code {
                KeyCode::Char(c) => if modifiers == KeyModifiers::Control {
                    if c == 'z' {
                        self.undo_stack.len() == 0 || self.text_rows() > 0
                    } else if c == 'c' {
                        self.selection matches Some(sel) ==> sel.is_cut || self.anchor_in_text()
                    } else if c == 'x' {
                        self.selection matches Some(sel) ==> !sel.is_cut || self.anchor_in_text()
                    } else {
                        true
                    }
                } else {
                    true
                },
                KeyCode::PageDown => self.top > 0 || self.text_rows() > 0,
                _ => true,
            }
        } else {
            true
        }
    }

    /// Whether a key may leave the cursor outside of the text or of the screen.
    pub open spec fn unsettles(self, code: KeyCode) -> bool {
        self.replaces(code) || (self.prompt is Closed && code == KeyCode::PageDown
            && self.text_rows() == 0)
    }
}

/// While nothing is searched for, only query, matches and prompt matter to the
/// search.
pub proof fn lemma_not_searching(a: EditorView, b: EditorView)
    requires
        a.search_ok(),
        a.search_query.len() == 0,
        b.search_query == a.search_query,
        b.search_matches == a.search_matches,
        b.search_match_idx == a.search_match_idx,
        !(b.prompt is Search),
        !(b.prompt is Replace),
    ensures
        b.search_ok(),
{
}

impl Editor {
    /// Quits, or asks first.
    fn quit(&mut self) -> (action: Action)
        requires
            old(self)@.inv(),
            old(self)@.prompt is Closed,
        ensures
            (final(self)@, action@) == old(self)@.quit(),
            final(self)@.inv(),
    {
        if self.modified {
            self.prompt = Prompt::QuitConfirm;
            self.status =
                "Unsaved changes!  [S]ave and quit  [U]nsave and quit  [C]ancel".to_owned();
            Action::Continue
        } else {
            Action::Quit
        }
    }

    /// Begins a selection.
    fn start_selection(&mut self, is_cut: bool)
        requires
            old(self)@.inv(),
        ensures
            final(self)@ == old(self)@.start_selection(is_cut),
            final(self)@.inv(),
    {
        self.selection = Some(
            Selection { anchor_row: self.row, anchor_col: self.col, is_cut },
        );
        self.status = (if is_cut {
            "Cut: move cursor to selection end, then Ctrl+X again."
        } else {
            "Copy: move cursor to selection end, then Ctrl+C again."
        }).to_owned();
    }

    /// Makes a selection to cut one to copy, or the other way round.
    fn switch_selection(&mut self, sel: Selection, is_cut: bool)
        requires
            old(self)@.inv(),
            old(self).selection == Some(sel),
        ensures
            final(self)@ == old(self)@.switch_selection(is_cut),
            final(self)@.inv(),
    {
        self.selection = Some(
            Selection { anchor_row: sel.anchor_row, anchor_col: sel.anchor_col, is_cut },
        );
        self.status = (if is_cut {
            "Switched to cut mode. Press Ctrl+X again to cut."
        } else {
            "Switched to copy mode. Press Ctrl+C again to copy."
        }).to_owned();
    }

    /// Takes the selected text into the clipboard.
    fn clip(&mut self) -> (action: Action)
        requires
            old(self)@.inv(),
            old(self)@.anchor_in_text(),
        ensures
            (final(self)@, action@) == old(self)@.clip(),
            final(self)@.inv(),
    {
        self.clipboard = self.collect_selected();
        Action::Copy(self.clipboard_to_string())
    }

    /// Begins a selection to copy, or copies.
    fn copy(&mut self) -> (action: Action)
        requires
            old(self)@.inv(),
            old(self)@.selection matches Some(sel) ==> sel.is_cut || old(self)@.anchor_in_text(),
        ensures
            (final(self)@, action@) == old(self)@.copy(),
            final(self)@.inv(),
    {
        match self.selection {
            None => {
                self.start_selection(false);
                Action::Continue
            },
            Some(sel) => {
                if sel.is_cut {
                    self.switch_selection(sel, false);
                    Action::Continue
                } else {
                    let action = self.clip();
                    self.selection = None;
                    self.status = "Copied.".to_owned();
                    action
                }
            },
        }
    }

    /// Begins a selection to cut, or cuts.
    fn cut(&mut self) -> (action: Action)
        requires
            old(self)@.inv(),
            old(self)@.fits(),
            old(self)@.prompt is Closed,
            old(self)@.selection matches Some(sel) ==> !sel.is_cut || old(self)@.anchor_in_text(),
        ensures
            (final(self)@, action@) == old(self)@.cut(),
            final(self)@.inv(),
    {
        match self.selection {
            None => {
                self.start_selection(true);
                Action::Continue
            },
            Some(sel) => {
                if sel.is_cut {
                    let action = self.clip();
                    let ghost clipped = self@;
                    self.delete_selected();
                    proof {
                        lemma_not_searching(clipped, self@);
                    }
                    self.status = "Cut.".to_owned();
                    action
                } else {
                    self.switch_selection(sel, true);
                    Action::Continue
                }
            },
        }
    }

    /// Asks for the encoding.
    fn start_encoding(&mut self)
        requires
            old(self)@.inv(),
            old(self)@.prompt is Closed,
        ensures
            final(self)@ == old(self)@.start_encoding(),
            final(self)@.inv(),
    {
        self.prompt = Prompt::EncodingSelect(EncStep::ChooseEncoding);
        self.status = text3(
            "Encoding: [1] UTF-8  [2] UTF-8 BOM  [3] Shift-JIS  [4] EUC-JP  Esc: Cancel  (current: ",
            self.file_encoding.label(),
            ")",
        );
    }

    /// Opens the search prompt.
    fn start_search(&mut self)
        requires
            old(self)@.inv(),
            old(self)@.fits(),
            old(self)@.prompt is Closed,
        ensures
            final(self)@ == old(self)@.start_search(),
            final(self)@.inv(),
    {
        let prefill = copy_line(&self.search_query);
        let cur = prefill.len();
        self.prompt = Prompt::Search { buf: prefill, cur };
        self.update_search();
        assert(self@.inv());
        if self.search_matches.len() > 0 {
            let idx = self.find_nearest_match_from(self.row, self.col);
            self.jump_to_match(idx);
        }
        self.status = self.search_status();
    }

    /// Opens the replace prompt.
    fn start_replace(&mut self)
        requires
            old(self)@.inv(),
            old(self)@.prompt is Closed,
        ensures
            final(self)@ == old(self)@.start_replace(),
            final(self)@.inv(),
    {
        let prefill = copy_line(&self.search_query);
        let cur = prefill.len();
        self.prompt = Prompt::Replace {
            search_buf: prefill,
            replace_buf: Vec::new(),
            search_cur: cur,
            replace_cur: 0,
            step: ReplaceStep::SearchInput,
        };
        self.update_search();
        assert(self@.inv());
        self.update_replace_status();
    }

    /// Wraps lines from now on, or no longer.
    fn toggle_wrap(&mut self)
        requires
            old(self)@.inv(),
        ensures
            final(self)@ == old(self)@.toggle_wrap(),
            final(self)@.inv(),
    {
        self.word_wrap = !self.word_wrap;
        self.left = 0;
        self.status = (if self.word_wrap {
            "Word wrap: ON"
        } else {
            "Word wrap: OFF"
        }).to_owned();
    }

    /// Gives up the selection.
    fn cancel_selection(&mut self)
        requires
            old(self)@.inv(),
        ensures
            final(self)@ == old(self)@.cancel_selection(),
            final(self)@.inv(),
    {
        if self.selection.is_some() {
            self.selection = None;
            self.status = "Selection cancelled.".to_owned();
        }
    }

    /// Takes back the last change.
    fn take_back(&mut self)
        requires
            old(self)@.inv(),
            old(self)@.prompt is Closed,
            old(self)@.undo_stack.len() == 0 || old(self)@.text_rows() > 0,
        ensures
            final(self)@ == old(self)@.undo(),
            final(self)@.inv(),
    {
        self.undo();
        proof {
            lemma_not_searching(old(self)@, self@);
        }
    }

    /// Carries out the command of a character with the control key.
    fn handle_control_key(&mut self, c: char) -> (action: Action)
        requires
            old(self)@.inv(),
            old(self)@.fits(),
            old(self)@.prompt is Closed,
            old(self)@.accepts(KeyCode::Char(c), KeyModifiers::Control),
        ensures
            (final(self)@, action@) == old(self)@.control_key(c),
            final(self)@.inv(),
    {
        match c {
            'q' => self.quit(),
            's' => self.save(),
            'w' => {
                self.start_save_as();
                Action::Continue
            },
            'z' => {
                self.take_back();
                Action::Continue
            },
            'a' => {
                self.select_all();
                Action::Continue
            },
            'c' => self.copy(),
            'x' => self.cut(),
            'v' => {
                self.selection = None;
                Action::Paste
            },
            'e' => {
                self.start_encoding();
                Action::Continue
            },
            'f' => {
                self.start_search();
                Action::Continue
            },
            'r' => {
                self.start_replace();
                Action::Continue
            },
            'b' => {
                self.toggle_wrap();
                Action::Continue
            },
            'h' => {
                self.show_help = !self.show_help;
                Action::Continue
            },
            _ => Action::Continue,
        }
    }

    /// Changes the text.
    fn handle_edit_key(&mut self, code: KeyCode)
        requires
            old(self)@.inv(),
            old(self)@.fits(),
            old(self)@.prompt is Closed,
            code == KeyCode::Enter || code == KeyCode::Tab || code == KeyCode::Backspace || code
                == KeyCode::Delete,
        ensures
            final(self)@ == old(self)@.special_key(code),
            final(self)@.inv(),
    {
        match code {
            KeyCode::Enter => self.insert_newline(),
            KeyCode::Tab => self.insert_tab(),
            KeyCode::Backspace => self.backspace(),
            _ => self.delete(),
        }
        proof {
            lemma_not_searching(old(self)@, self@);
        }
    }

    /// Moves the cursor.
    fn handle_move_key(&mut self, code: KeyCode)
        requires
            old(self)@.inv(),
            old(self)@.fits(),
            old(self)@.prompt is Closed,
            code == KeyCode::Up || code == KeyCode::Down || code == KeyCode::Left || code
                == KeyCode::Right || code == KeyCode::Home || code == KeyCode::End || code
                == KeyCode::PageUp || code == KeyCode::PageDown,
            old(self)@.accepts(code, KeyModifiers::Plain),
        ensures
            final(self)@ == old(self)@.special_key(code),
            final(self)@.doc_ok(),
            final(self)@.search_ok(),
            !old(self)@.unsettles(code) ==> final(self)@.inv(),
    {
        match code {
            KeyCode::Up => self.move_up(),
            KeyCode::Down => self.move_down(),
            KeyCode::Left => self.move_left(),
            KeyCode::Right => self.move_right(),
            KeyCode::Home => self.move_home(),
            KeyCode::End => self.move_end(),
            KeyCode::PageUp => self.page_up(),
            _ => self.page_down(),
        }
    }

    /// Types a character.
    fn type_char(&mut self, c: char)
        requires
            old(self)@.inv(),
            old(self)@.fits(),
            old(self)@.prompt is Closed,
        ensures
            final(self)@ == old(self)@.insert_char(c),
            final(self)@.inv(),
    {
        self.insert_char(c);
        proof {
            lemma_not_searching(old(self)@, self@);
        }
    }

    /// Carries out a key while no prompt is open.
    fn handle_command(&mut self, code: KeyCode, modifiers: KeyModifiers) -> (action: Action)
        requires
            old(self)@.inv(),
            old(self)@.fits(),
            old(self)@.prompt is Closed,
            old(self)@.accepts(code, modifiers),
        ensures
            (final(self)@, action@) == old(self)@.command(code, modifiers),
            final(self)@.doc_ok(),
            final(self)@.search_ok(),
            !old(self)@.unsettles(code) ==> final(self)@.inv(),
    {
        match code {
            KeyCode::Char(c) => {
                if modifiers == KeyModifiers::Control {
                    return self.handle_control_key(c);
                }
                if modifiers.is_typing() {
                    self.type_char(c);
                }
            },
            KeyCode::Esc => self.cancel_selection(),
            KeyCode::Enter | KeyCode::Tab | KeyCode::Backspace | KeyCode::Delete => {
                self.handle_edit_key(code);
            },
            KeyCode::Other => {},
            _ => self.handle_move_key(code),
        }
        Action::Continue
    }

    /// Carries out a key, and tells what is left to be done.
    pub fn handle_key(&mut self, code: KeyCode, modifiers: KeyModifiers) -> (action: Action)
        requires
            old(self)@.inv(),
            old(self)@.fits(),
            old(self)@.accepts(code, modifiers),
        ensures
            (final(self)@, action@) == old(self)@.key(code, modifiers),
            final(self)@.doc_ok(),
            final(self)@.search_ok(),
            !old(self)@.unsettles(code) ==> final(self)@.inv(),
    {
        match self.handle_prompt_key(code, modifiers) {
            Some(Action::Continue) => {
                if self.pending_quit {
                    Action::Quit
                } else {
                    Action::Continue
                }
            },
            Some(action) => action,
            None => self.handle_command(code, modifiers),
        }
    }

    /// Whether a position stands in the text.
    fn is_in_text(&self, row: usize, col: usize) -> (inside: bool)
        ensures
            inside == self@.in_text((row as int, col as int)),
    {
        row < self.lines.len() && col <= self.lines[row].len()
    }

    /// Whether a key can be carried out.
    pub fn can_handle(&self, code: KeyCode, modifiers: KeyModifiers) -> (ok: bool)
        ensures
            ok == self@.accepts(code, modifiers),
    {
        match &self.prompt {
            Prompt::Closed => {},
            _ => {
                return true;
            },
        }
        match code {
            KeyCode::Char(c) => {
                if modifiers != KeyModifiers::Control {
                    return true;
                }
                match c {
                    'z' => self.undo_stack.len() == 0 || self.text_rows() > 0,
                    'c' => match self.selection {
                        Some(sel) => sel.is_cut || self.is_in_text(sel.anchor_row, sel.anchor_col),
                        None => true,
                    },
                    'x' => match self.selection {
                        Some(sel) => !sel.is_cut || self.is_in_text(
                            sel.anchor_row,
                            sel.anchor_col,
                        ),
                        None => true,
                    },
                    _ => true,
                }
            },
            KeyCode::PageDown => self.top > 0 || self.text_rows() > 0,
            _ => true,
        }
    }

    /// Carries out a key where that can be done; otherwise nothing happens.
    pub fn try_key(&mut self, code: KeyCode, modifiers: KeyModifiers) -> (action: Option<Action>)
        requires
            old(self)@.inv(),
        ensures
            match action {
                Some(a) => {
                    &&& old(self)@.fits() && old(self)@.accepts(code, modifiers)
                    &&& (final(self)@, a@) == old(self)@.key(code, modifiers)
                },
                None => {
                    &&& !old(self)@.fits() || !old(self)@.accepts(code, modifiers)
                    &&& final(self)@ == old(self)@
                },
            },
            final(self)@.doc_ok(),
            final(self)@.search_ok(),
            final(self)@.inv() || final(self)@.prompt is Closed,
    {
        if self.fits() && self.can_handle(code, modifiers) {
            Some(self.handle_key(code, modifiers))
        } else {
            None
        }
    }

    /// Takes over the size of the terminal.
    pub fn resize(&mut self, cols: u16, rows: u16)
        ensures
            final(self)@ == (EditorView {
                term_cols: cols as int,
                term_rows: rows as int,
                ..old(self)@
            }),
            final(self)@ == old(self)@.resized(cols as int, rows as int),
            old(self)@.inv() ==> final(self)@.inv(),
    {
        self.term_cols = cols;
        self.term_rows = rows;
    }
}

} // verus!
