//! The state of the editor.

use vstd::prelude::*;
use crate::encoding::{FileEncoding, LineEnding};
use crate::text::{mem_within, rows, text_mem};

verus! {

// ── Limits ───────────────────────────────────────────────────────────────

/// Larger files are not opened: 500 MB.
pub const MAX_FILE_BYTES: u64 = 524_288_000;

/// The memory that the undo history may take: 64 MB.
pub const UNDO_MEM_CAP: usize = 67_108_864;

/// The number of changes that can be undone.
pub const UNDO_MAX: usize = 1000;

/// The rows of the help panel.
pub const HELP_ROWS: usize = 8;

// ── Parts of the state ───────────────────────────────────────────────────

/// A path as the user wrote it, and the name of the file alone; the name is
/// empty where the path ends in none.
#[derive(Debug)]
pub struct FilePath {
    pub full: String,
    pub name: String,
}

/// Which input field of the replace prompt is being edited.
#[derive(Clone, Copy, Debug, PartialEq, Eq, Structural)]
pub enum ReplaceStep {
    SearchInput,
    ReplaceInput,
}

/// Which choice of the encoding prompt is being made.
#[derive(Clone, Copy, Debug, PartialEq, Eq, Structural)]
pub enum EncStep {
    ChooseEncoding,
    ChooseLineEnding(FileEncoding),
}

/// What the editor is asking for.
#[derive(Debug)]
pub enum Prompt {
    Closed,
    SaveAs { buf: Vec<char>, cur: usize },
    QuitConfirm,
    EncodingSelect(EncStep),
    SymlinkConfirm(FilePath),
    Search { buf: Vec<char>, cur: usize },
    Replace {
        search_buf: Vec<char>,
        replace_buf: Vec<char>,
        search_cur: usize,
        replace_cur: usize,
        step: ReplaceStep,
    },
}

/// The text and the cursor before a change.
#[derive(Debug)]
pub struct Snapshot {
    pub lines: Vec<Vec<char>>,
    pub row: usize,
    pub col: usize,
}

/// Where a selection began. It reaches to the cursor.
#[derive(Clone, Copy, Debug, PartialEq, Eq, Structural)]
pub struct Selection {
    pub anchor_row: usize,
    pub anchor_col: usize,
    pub is_cut: bool,
}

/// An editor with one document.
#[derive(Debug)]
pub struct Editor {
    pub lines: Vec<Vec<char>>,
    pub row: usize,
    pub col: usize,
    /// The first line on the screen.
    pub top: usize,
    /// The first column on the screen.
    pub left: usize,
    pub word_wrap: bool,
    pub term_cols: u16,
    pub term_rows: u16,
    pub path: Option<FilePath>,
    pub modified: bool,
    pub status: String,
    pub prompt: Prompt,
    pub undo_stack: Vec<Snapshot>,
    pub undo_total_mem: usize,
    pub show_help: bool,
    pub selection: Option<Selection>,
    pub file_encoding: FileEncoding,
    pub line_ending: LineEnding,
    pub clipboard: Vec<Vec<char>>,
    pub pending_quit: bool,
    pub quit_after_save: bool,
    pub search_query: Vec<char>,
    /// Row and column of each match.
    pub search_matches: Vec<(usize, usize)>,
    /// The highlighted match.
    pub search_match_idx: usize,
}

// ── Views ────────────────────────────────────────────────────────────────

/// A position in the text: row and column.
pub type Pos = (int, int);

/// Whether a position comes before another.
pub open spec fn pos_lt(a: Pos, b: Pos) -> bool {
    a.0 < b.0 || (a.0 == b.0 && a.1 < b.1)
}

/// Whether a position comes before another or is the same.
pub open spec fn pos_le(a: Pos, b: Pos) -> bool {
    a.0 < b.0 || (a.0 == b.0 && a.1 <= b.1)
}

/// Pairs of machine integers as positions.
pub open spec fn positions(pairs: Seq<(usize, usize)>) -> Seq<Pos> {
    Seq::new(pairs.len(), |i: int| (pairs[i].0 as int, pairs[i].1 as int))
}

#[verifier::ext_equal]
pub struct PathView {
    pub full: Seq<char>,
    pub name: Seq<char>,
}

impl View for FilePath {
    type V = PathView;

    open spec fn view(&self) -> PathView {
        PathView { full: self.full@, name: self.name@ }
    }
}

/// A path that may be missing.
pub open spec fn path_view(path: Option<FilePath>) -> Option<PathView> {
    match path {
        Some(p) => Some(p@),
        None => None,
    }
}

#[verifier::ext_equal]
pub enum PromptView {
    Closed,
    SaveAs { buf: Seq<char>, cur: int },
    QuitConfirm,
    EncodingSelect(EncStep),
    SymlinkConfirm(PathView),
    Search { buf: Seq<char>, cur: int },
    Replace {
        search_buf: Seq<char>,
        replace_buf: Seq<char>,
        search_cur: int,
        replace_cur: int,
        step: ReplaceStep,
    },
}

impl View for Prompt {
    type V = PromptView;

    open spec fn view(&self) -> PromptView {
        match *self {
            Prompt::Closed => PromptView::Closed,
            Prompt::SaveAs { buf, cur } => PromptView::SaveAs { buf: buf@, cur: cur as int },
            Prompt::QuitConfirm => PromptView::QuitConfirm,
            Prompt::EncodingSelect(step) => PromptView::EncodingSelect(step),
            Prompt::SymlinkConfirm(path) => PromptView::SymlinkConfirm(path@),
            Prompt::Search { buf, cur } => PromptView::Search { buf: buf@, cur: cur as int },
            Prompt::Replace { search_buf, replace_buf, search_cur, replace_cur, step } =>
                PromptView::Replace {
                search_buf: search_buf@,
                replace_buf: replace_buf@,
                search_cur: search_cur as int,
                replace_cur: replace_cur as int,
                step,
            },
        }
    }
}

#[verifier::ext_equal]
pub struct SnapshotView {
    pub lines: Seq<Seq<char>>,
    pub row: int,
    pub col: int,
}

impl View for Snapshot {
    type V = SnapshotView;

    open spec fn view(&self) -> SnapshotView {
        SnapshotView { lines: rows(self.lines@), row: self.row as int, col: self.col as int }
    }
}

/// A history of snapshots.
pub open spec fn snapshots(stack: Seq<Snapshot>) -> Seq<SnapshotView> {
    Seq::new(stack.len(), |i: int| stack[i]@)
}

#[verifier::ext_equal]
pub struct SelectionView {
    pub anchor: Pos,
    pub is_cut: bool,
}

/// A selection that may be missing.
pub open spec fn selection_view(selection: Option<Selection>) -> Option<SelectionView> {
    match selection {
        Some(s) => Some(
            SelectionView {
                anchor: (s.anchor_row as int, s.anchor_col as int),
                is_cut: s.is_cut,
            },
        ),
        None => None,
    }
}

#[verifier::ext_equal]
pub struct EditorView {
    pub lines: Seq<Seq<char>>,
    pub row: int,
    pub col: int,
    pub top: int,
    pub left: int,
    pub word_wrap: bool,
    pub term_cols: int,
    pub term_rows: int,
    pub path: Option<PathView>,
    pub modified: bool,
    pub status: Seq<char>,
    pub prompt: PromptView,
    pub undo_stack: Seq<SnapshotView>,
    pub undo_total_mem: int,
    pub show_help: bool,
    pub selection: Option<SelectionView>,
    pub file_encoding: FileEncoding,
    pub line_ending: LineEnding,
    pub clipboard: Seq<Seq<char>>,
    pub pending_quit: bool,
    pub quit_after_save: bool,
    pub search_query: Seq<char>,
    pub search_matches: Seq<Pos>,
    pub search_match_idx: int,
}

impl View for Editor {
    type V = EditorView;

    open spec fn view(&self) -> EditorView {
        EditorView {
            lines: rows(self.lines@),
            row: self.row as int,
            col: self.col as int,
            top: self.top as int,
            left: self.left as int,
            word_wrap: self.word_wrap,
            term_cols: self.term_cols as int,
            term_rows: self.term_rows as int,
            path: path_view(self.path),
            modified: self.modified,
            status: self.status@,
            prompt: self.prompt@,
            undo_stack: snapshots(self.undo_stack@),
            undo_total_mem: self.undo_total_mem as int,
            show_help: self.show_help,
            selection: selection_view(self.selection),
            file_encoding: self.file_encoding,
            line_ending: self.line_ending,
            clipboard: rows(self.clipboard@),
            pending_quit: self.pending_quit,
            quit_after_save: self.quit_after_save,
            search_query: self.search_query@,
            search_matches: positions(self.search_matches@),
            search_match_idx: self.search_match_idx as int,
        }
    }
}

// ── Invariants ───────────────────────────────────────────────────────────

impl SnapshotView {
    /// The cursor of a snapshot stands in its text.
    pub open spec fn ok(self) -> bool {
        &&& 0 <= self.row < self.lines.len()
        &&& 0 <= self.col <= self.lines[self.row].len()
    }
}

/// The memory that a history takes.
pub open spec fn stack_mem(stack: Seq<SnapshotView>) -> nat
    decreases stack.len(),
{
    if stack.len() == 0 {
        0
    } else {
        stack_mem(stack.drop_last()) + text_mem(stack.last().lines)
    }
}

/// A history is made of snapshots with their cursor in their text, and its
/// memory is accounted for.
#[verifier::opaque]
pub open spec fn history_ok(stack: Seq<SnapshotView>, total_mem: int) -> bool {
    &&& forall|i: int| 0 <= i < stack.len() ==> (#[trigger] stack[i]).ok()
    &&& total_mem == stack_mem(stack)
    &&& total_mem <= isize::MAX
}

impl PromptView {
    /// The cursors of the input fields stand in their contents.
    pub open spec fn ok(self) -> bool {
        match self {
            PromptView::SaveAs { buf, cur } => 0 <= cur <= buf.len(),
            PromptView::Search { buf, cur } => 0 <= cur <= buf.len(),
            PromptView::Replace { search_buf, replace_buf, search_cur, replace_cur, step } => {
                &&& 0 <= search_cur <= search_buf.len()
                &&& 0 <= replace_cur <= replace_buf.len()
            },
            _ => true,
        }
    }
}

impl EditorView {
    /// An empty document in a terminal of a size.
    pub open spec fn fresh(term_cols: int, term_rows: int) -> EditorView {
        EditorView {
            lines: seq![Seq::empty()],
            row: 0,
            col: 0,
            top: 0,
            left: 0,
            word_wrap: false,
            term_cols,
            term_rows,
            path: None,
            modified: false,
            status: "Ctrl+S: Save / Ctrl+Q: Quit / Ctrl+H: Help"@,
            prompt: PromptView::Closed,
            undo_stack: Seq::empty(),
            undo_total_mem: 0,
            show_help: false,
            selection: None,
            file_encoding: FileEncoding::Utf8,
            line_ending: LineEnding::Lf,
            clipboard: Seq::empty(),
            pending_quit: false,
            quit_after_save: false,
            search_query: Seq::empty(),
            search_matches: Seq::empty(),
            search_match_idx: 0,
        }
    }

    /// There is a line at the cursor, and history and prompt are in order.
    pub open spec fn doc_ok(self) -> bool {
        &&& 0 <= self.row < self.lines.len()
        &&& 0 <= self.col
        &&& 0 <= self.top
        &&& 0 <= self.left
        &&& 0 <= self.term_cols <= u16::MAX
        &&& 0 <= self.term_rows <= u16::MAX
        &&& history_ok(self.undo_stack, self.undo_total_mem)
        &&& self.prompt.ok()
    }

    /// The state between two keys: the cursor stands in its line, and not
    /// above the screen.
    pub open spec fn wf(self) -> bool {
        &&& self.doc_ok()
        &&& self.col <= self.lines[self.row].len()
        &&& self.top <= self.row
    }

    /// The text is one that a machine can hold.
    pub open spec fn fits(self) -> bool {
        &&& text_mem(self.lines) <= isize::MAX
        &&& self.lines.len() <= isize::MAX
    }

    /// Whether a position stands in the text.
    pub open spec fn in_text(self, p: Pos) -> bool {
        &&& 0 <= p.0 < self.lines.len()
        &&& 0 <= p.1 <= self.lines[p.0].len()
    }

    /// The rows of the screen that show text: the status bar, the message bar
    /// and the help panel take the others.
    pub open spec fn text_rows(self) -> int {
        let reserved: int = if self.show_help {
            2 + HELP_ROWS
        } else {
            2
        };
        if self.term_rows > reserved {
            self.term_rows - reserved
        } else {
            0
        }
    }
}

impl Editor {
    /// An editor with an empty document.
    pub fn new(term_cols: u16, term_rows: u16) -> (editor: Editor)
        ensures
            editor@ == (EditorView {
                lines: seq![Seq::empty()],
                row: 0,
                col: 0,
                top: 0,
                left: 0,
                word_wrap: false,
                term_cols: term_cols as int,
                term_rows: term_rows as int,
                path: None,
                modified: false,
                status: "Ctrl+S: Save / Ctrl+Q: Quit / Ctrl+H: Help"@,
                prompt: PromptView::Closed,
                undo_stack: Seq::empty(),
                undo_total_mem: 0,
                show_help: false,
                selection: None,
                file_encoding: FileEncoding::Utf8,
                line_ending: LineEnding::Lf,
                clipboard: Seq::empty(),
                pending_quit: false,
                quit_after_save: false,
                search_query: Seq::empty(),
                search_matches: Seq::empty(),
                search_match_idx: 0,
            }),
            editor@ == EditorView::fresh(term_cols as int, term_rows as int),
            editor@.inv(),
            editor@.fits(),
    {
        let mut lines: Vec<Vec<char>> = Vec::new();
        lines.push(Vec::new());
        let editor = Editor {
            lines,
            row: 0,
            col: 0,
            top: 0,
            left: 0,
            word_wrap: false,
            term_cols,
            term_rows,
            path: None,
            modified: false,
            status: "Ctrl+S: Save / Ctrl+Q: Quit / Ctrl+H: Help".to_owned(),
            prompt: Prompt::Closed,
            undo_stack: Vec::new(),
            undo_total_mem: 0,
            show_help: false,
            selection: None,
            file_encoding: FileEncoding::Utf8,
            line_ending: LineEnding::Lf,
            clipboard: Vec::new(),
            pending_quit: false,
            quit_after_save: false,
            search_query: Vec::new(),
            search_matches: Vec::new(),
            search_match_idx: 0,
        };
        proof {
            let v = editor@;
            assert(v.lines =~= seq![Seq::<char>::empty()]);
            assert(v.undo_stack =~= Seq::<SnapshotView>::empty());
            assert(v.clipboard =~= Seq::<Seq<char>>::empty());
            assert(v.search_matches =~= Seq::<Pos>::empty());
            assert(v.search_query =~= Seq::<char>::empty());
            reveal_with_fuel(text_mem, 2);
            reveal(history_ok);
        }
        editor
    }

    /// The rows of the screen that show text.
    pub fn text_rows(&self) -> (n: usize)
        ensures
            n == self@.text_rows(),
            n <= u16::MAX,
    {
        let reserved: usize = if self.show_help {
            2 + HELP_ROWS
        } else {
            2
        };
        self.term_rows.saturating_sub(reserved as u16) as usize
    }

    /// Whether the text is one that every command can handle.
    pub fn fits(&self) -> (fits: bool)
        ensures
            fits == self@.fits(),
    {
        self.lines.len() <= isize::MAX as usize && mem_within(&self.lines, isize::MAX as usize)
    }
}

} // verus!
