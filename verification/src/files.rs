//! Opening and saving files.

use vstd::prelude::*;
use vstd::string::StringExecFns;
use crate::action::{Action, ActionView, AfterSave};
use crate::encoding::{
    decode_bytes, decoded, detect_encoding, detect_line_ending, dominant_ending, encode_string,
    encoded, encoding_of, readable, FileEncoding,
};
use crate::message::{decimal, push_number, text2, text3};
use crate::state::{
    Editor, EditorView, FilePath, PathView, Prompt, PromptView, MAX_FILE_BYTES,
};
use crate::text::{
    chars_of, group_rows, join_lines, joined, joined_within, push_chars, rows, split_lines,
    text_lines,
};

verus! {

broadcast use group_rows;

/// What was found under the path of a file to be opened.
#[derive(Debug)]
pub enum FileContents {
    /// There is no such file.
    Missing,
    /// The bytes of the file.
    Read(Vec<u8>),
    /// The file could not be read, for the given reason.
    Failed(String),
}

/// The lines that a text is edited as: at least one.
pub open spec fn document(text: Seq<char>) -> Seq<Seq<char>> {
    if text_lines(text).len() == 0 {
        seq![Seq::empty()]
    } else {
        text_lines(text)
    }
}

/// The bytes that a document is written as.
pub open spec fn document_bytes(e: EditorView) -> Seq<u8> {
    encoded(joined(e.lines, e.line_ending.separator_text()), e.file_encoding)
}

/// A copy of a path.
pub fn copy_path(path: &FilePath) -> (copy: FilePath)
    ensures
        copy@ == path@,
{
    FilePath { full: path.full.clone(), name: path.name.clone() }
}

impl EditorView {
    /// The message for a file that is larger than what is opened.
    pub open spec fn too_large_status(size: nat) -> Seq<char> {
        "Error: file too large ("@ + decimal(size / 1024 / 1024) + " MB). Limit is "@ + decimal(
            MAX_FILE_BYTES as nat / 1024 / 1024,
        ) + " MB."@
    }

    /// A file of a size is to be opened: whether it is, and the message where it
    /// is not.
    pub open spec fn admit_size(self, size: nat) -> (EditorView, bool) {
        if size <= MAX_FILE_BYTES {
            (self, true)
        } else {
            (EditorView { status: EditorView::too_large_status(size), ..self }, false)
        }
    }

    /// A text that was read in an encoding replaces the text.
    pub open spec fn load_text(self, text: Seq<char>, enc: FileEncoding) -> EditorView {
        EditorView {
            lines: document(text),
            file_encoding: enc,
            line_ending: dominant_ending(text),
            ..self
        }
    }

    /// The text of a file replaces the text.
    pub open spec fn open_bytes(self, path: PathView, bytes: Seq<u8>) -> EditorView {
        let enc = encoding_of(bytes);
        EditorView {
            status: "Opened: "@ + path.name
                + "  |  Ctrl+S: Save / Ctrl+Q: Quit / Ctrl+H: Help"@,
            path: Some(path),
            ..self.load_text(decoded(bytes, enc), enc)
        }
    }

    /// A file is opened.
    pub open spec fn open(self, path: PathView, contents: FileContents) -> EditorView {
        match contents {
            FileContents::Missing => EditorView {
                status: "New file: "@ + path.name
                    + "  |  Ctrl+S: Save / Ctrl+Q: Quit / Ctrl+H: Help"@,
                path: Some(path),
                ..self
            },
            FileContents::Read(bytes) => self.open_bytes(path, bytes@),
            FileContents::Failed(reason) => EditorView {
                status: "Error reading file: "@ + reason@,
                path: Some(path),
                ..self
            },
        }
    }

    /// A symbolic link is to be overwritten: the user is asked first.
    pub open spec fn ask_symlink(self, path: PathView) -> EditorView {
        EditorView {
            status: "\""@ + path.full + "\" is a symlink. Save to target anyway? [Y]es / [N]o"@,
            prompt: PromptView::SymlinkConfirm(path),
            ..self
        }
    }

    /// The file has been written.
    pub open spec fn file_written(self, path: PathView) -> EditorView {
        EditorView {
            modified: false,
            status: "Saved: "@ + path.full,
            path: Some(path),
            quit_after_save: false,
            pending_quit: self.pending_quit || self.quit_after_save,
            ..self
        }
    }

    /// The file is to be saved under a path: the bytes to be written there, or a
    /// question where it is a symbolic link.
    pub open spec fn save_to(self, path: PathView, is_symlink: bool) -> (
        EditorView,
        Option<Seq<u8>>,
    ) {
        if is_symlink {
            (self.ask_symlink(path), None)
        } else {
            (self, Some(document_bytes(self)))
        }
    }

    /// Saving has ended, and whether the editor ends with it.
    pub open spec fn finish_save(self, after: AfterSave) -> (EditorView, bool) {
        match after {
            AfterSave::Stay => (self, false),
            AfterSave::CheckQuit => (self, self.pending_quit),
            AfterSave::Quit => (EditorView { pending_quit: true, ..self }, true),
        }
    }

    /// The user is asked for a file name.
    pub open spec fn start_save_as(self) -> EditorView {
        let prefill = match self.path {
            Some(path) => path.name,
            None => Seq::empty(),
        };
        EditorView {
            status: "Save as: "@ + prefill,
            prompt: PromptView::SaveAs { buf: prefill, cur: prefill.len() as int },
            ..self
        }
    }

    /// The file is to be saved; the user is asked for a name where there is
    /// none.
    pub open spec fn save(self) -> (EditorView, ActionView) {
        match self.path {
            Some(path) => (
                self,
                ActionView::Save { full: path.full, after: AfterSave::Stay },
            ),
            None => (self.start_save_as(), ActionView::Continue),
        }
    }

    /// The characters of a document that can be encoded at once.
    pub open spec fn can_encode(self) -> bool {
        self.file_encoding == FileEncoding::ShiftJis || self.file_encoding == FileEncoding::EucJp
            ==> joined(self.lines, self.line_ending.separator_text()).len() <= usize::MAX / 64
    }
}

impl Editor {
    /// Whether a file of this size is opened. Otherwise the message says why
    /// it is not.
    pub fn admit_size(&mut self, size: u64) -> (admitted: bool)
        ensures
            admitted == (size <= MAX_FILE_BYTES),
            final(self)@ == (EditorView {
                status: if admitted {
                    old(self)@.status
                } else {
                    EditorView::too_large_status(size as nat)
                },
                ..old(self)@
            }),
            (final(self)@, admitted) == old(self)@.admit_size(size as nat),
    {
        if size > MAX_FILE_BYTES {
            let mut text = "Error: file too large (".to_owned();
            push_number(&mut text, size / 1024 / 1024);
            text.append(" MB). Limit is ");
            push_number(&mut text, MAX_FILE_BYTES / 1024 / 1024);
            text.append(" MB.");
            self.status = text;
            return false;
        }
        true
    }

    /// Takes over a text that was read in an encoding.
    pub fn load_text(&mut self, text: &str, enc: FileEncoding)
        ensures
            final(self)@ == old(self)@.load_text(text@, enc),
            final(self)@.lines.len() > 0,
    {
        self.line_ending = detect_line_ending(text);
        self.lines = split_lines(text);
        if self.lines.len() == 0 {
            self.lines.push(Vec::new());
            assert(rows(self.lines@) =~= seq![Seq::<char>::empty()]);
        }
        self.file_encoding = enc;
    }

    /// Opens a file.
    pub fn open(&mut self, path: FilePath, contents: FileContents)
        requires
            contents matches FileContents::Read(bytes) ==> readable(bytes@),
        ensures
            final(self)@ == old(self)@.open(path@, contents),
            old(self)@.wf() && old(self)@.cursor() == (0int, 0int) ==> final(self)@.wf(),
            old(self)@.inv() && old(self)@.cursor() == (0int, 0int) && old(self)@.prompt is Closed
                ==> final(self)@.inv(),
    {
        match contents {
            FileContents::Missing => {
                self.status = text3(
                    "New file: ",
                    path.name.as_str(),
                    "  |  Ctrl+S: Save / Ctrl+Q: Quit / Ctrl+H: Help",
                );
            },
            FileContents::Read(bytes) => {
                let enc = detect_encoding(bytes.as_slice());
                let content = decode_bytes(bytes.as_slice(), enc);
                self.load_text(content.as_str(), enc);
                self.status = text3(
                    "Opened: ",
                    path.name.as_str(),
                    "  |  Ctrl+S: Save / Ctrl+Q: Quit / Ctrl+H: Help",
                );
            },
            FileContents::Failed(reason) => {
                self.status = text2("Error reading file: ", reason.as_str());
            },
        }
        self.path = Some(path);
    }

    /// Whether the document can be encoded at once.
    pub fn can_encode(&self) -> (ok: bool)
        ensures
            ok == self@.can_encode(),
    {
        match self.file_encoding {
            FileEncoding::ShiftJis | FileEncoding::EucJp => {
                joined_within(&self.lines, self.line_ending.separator(), usize::MAX / 64)
            },
            _ => true,
        }
    }

    /// The bytes to be written when the file is saved.
    pub fn write_file(&self) -> (bytes: Vec<u8>)
        requires
            self@.can_encode(),
        ensures
            bytes@ == document_bytes(self@),
    {
        let content = join_lines(&self.lines, self.line_ending.separator());
        encode_string(content.as_str(), self.file_encoding)
    }

    /// Saves under a path: gives the bytes to be written there, or, where the
    /// path is a symbolic link, asks the user first.
    pub fn save_to(&mut self, path: FilePath, is_symlink: bool) -> (bytes: Option<Vec<u8>>)
        requires
            !is_symlink ==> old(self)@.can_encode(),
        ensures
            is_symlink ==> bytes is None && final(self)@ == old(self)@.ask_symlink(path@),
            !is_symlink ==> final(self)@ == old(self)@ && bytes is Some && bytes->0@
                == document_bytes(old(self)@),
            ({
                let (after, written) = old(self)@.save_to(path@, is_symlink);
                &&& final(self)@ == after
                &&& bytes is Some == written is Some
                &&& bytes matches Some(b) ==> written == Some(b@)
            }),
            old(self)@.wf() ==> final(self)@.wf(),
            old(self)@.inv() && old(self)@.prompt is Closed ==> final(self)@.inv(),
    {
        if is_symlink {
            self.status = text3(
                "\"",
                path.full.as_str(),
                "\" is a symlink. Save to target anyway? [Y]es / [N]o",
            );
            self.prompt = Prompt::SymlinkConfirm(path);
            return None;
        }
        Some(self.write_file())
    }

    /// To be called once the file has been written.
    pub fn file_written(&mut self, path: FilePath)
        ensures
            final(self)@ == old(self)@.file_written(path@),
            old(self)@.wf() ==> final(self)@.wf(),
            old(self)@.inv() ==> final(self)@.inv(),
    {
        self.modified = false;
        self.status = text2("Saved: ", path.full.as_str());
        self.path = Some(path);
        if self.quit_after_save {
            self.quit_after_save = false;
            self.pending_quit = true;
        }
    }

    /// To be called at the end of saving; tells whether the editor ends now.
    pub fn finish_save(&mut self, after: AfterSave) -> (quit: bool)
        ensures
            final(self)@ == (EditorView {
                pending_quit: old(self)@.pending_quit || after == AfterSave::Quit,
                ..old(self)@
            }),
            quit == (after != AfterSave::Stay && final(self)@.pending_quit),
            (final(self)@, quit) == old(self)@.finish_save(after),
            old(self)@.wf() ==> final(self)@.wf(),
            old(self)@.inv() ==> final(self)@.inv(),
    {
        match after {
            AfterSave::Stay => false,
            AfterSave::CheckQuit => self.pending_quit,
            AfterSave::Quit => {
                self.pending_quit = true;
                true
            },
        }
    }

    /// Asks the user for a file name.
    pub fn start_save_as(&mut self)
        ensures
            final(self)@ == old(self)@.start_save_as(),
            old(self)@.wf() ==> final(self)@.wf(),
    {
        let prefill = match &self.path {
            Some(path) => chars_of(path.name.as_str()),
            None => Vec::new(),
        };
        let cur = prefill.len();
        let mut text = "Save as: ".to_owned();
        push_chars(&mut text, &prefill);
        self.status = text;
        self.prompt = Prompt::SaveAs { buf: prefill, cur };
    }

    /// Saves the file, or asks for a name where there is none.
    pub fn save(&mut self) -> (action: Action)
        ensures
            (final(self)@, action@) == old(self)@.save(),
            old(self)@.wf() ==> final(self)@.wf(),
    {
        match &self.path {
            Some(path) => Action::Save { full: path.full.clone(), after: AfterSave::Stay },
            None => {
                self.start_save_as();
                Action::Continue
            },
        }
    }
}

} // verus!
