//! What the editor asks of its surroundings.

use vstd::prelude::*;
use crate::state::{FilePath, PathView};

verus! {

/// What is to happen once a file is saved.
#[derive(Clone, Copy, Debug, PartialEq, Eq, Structural)]
pub enum AfterSave {
    /// Editing goes on.
    Stay,
    /// The editor quits if quitting is pending.
    CheckQuit,
    /// The editor quits.
    Quit,
}

/// What is to be done after a key.
#[derive(Debug)]
pub enum Action {
    /// Nothing.
    Continue,
    /// The editor ends.
    Quit,
    /// The file is to be saved under this path: see `Editor::save_to`.
    Save { full: String, after: AfterSave },
    /// The file is to be written to this path without further questions: see
    /// `Editor::write_file`.
    Write { path: FilePath, after: AfterSave },
    /// The text goes to the system's clipboard.
    Copy(String),
    /// The text of the system's clipboard is to be pasted: see `Editor::paste`.
    Paste,
}

#[verifier::ext_equal]
pub enum ActionView {
    Continue,
    Quit,
    Save { full: Seq<char>, after: AfterSave },
    Write { path: PathView, after: AfterSave },
    Copy(Seq<char>),
    Paste,
}

impl View for Action {
    type V = ActionView;

    open spec fn view(&self) -> ActionView {
        match *self {
            Action::Continue => ActionView::Continue,
            Action::Quit => ActionView::Quit,
            Action::Save { full, after } => ActionView::Save { full: full@, after },
            Action::Write { path, after } => ActionView::Write { path: path@, after },
            Action::Copy(text) => ActionView::Copy(text@),
            Action::Paste => ActionView::Paste,
        }
    }
}

} // verus!
