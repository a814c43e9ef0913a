//! How files are opened and saved.

use vstd::prelude::*;
use vstd::utf8::{decode_utf8, encode_utf8, valid_utf8};
use crate::action::{ActionView, AfterSave};
use crate::encoding::{
    bare_lf_count, crlf_count, decoded, dominant_ending, encoded, encoding_named, encoding_of, readable,
    FileEncoding, LineEnding,
};
use crate::files::{document, document_bytes, FileContents};
use crate::key::{KeyCode, KeyModifiers};
use crate::laws_files::lemma_ascii_char;
use crate::laws_text::{law_split_after_join, lemma_joined_first, lemma_read_line, read_back, unbroken};
use crate::message::decimal;
use crate::outside::{
    euc_jp_decoded, euc_jp_encoded, guessed_encoding_name, shift_jis_decoded, shift_jis_encoded,
    utf8_lossy,
};
use crate::state::{
    EditorView, PathView, PromptView, HELP_ROWS, MAX_FILE_BYTES, UNDO_MAX, UNDO_MEM_CAP,
};
use crate::text::{joined, strip_cr, text_lines};

verus! {

// ── Limits ───────────────────────────────────────────────────────────────

/// Files up to 500 MB are opened; up to 1000 changes can be undone, within
/// 64 MB; the help panel has eight rows.
pub proof fn law_limits()
    ensures
        MAX_FILE_BYTES == 500 * 1024 * 1024,
        UNDO_MAX == 1000,
        UNDO_MEM_CAP == 64 * 1024 * 1024,
        HELP_ROWS == 8,
{
}

/// The message on a file that is too large gives its size and the limit, in
/// megabytes.
pub proof fn law_too_large(size: nat)
    ensures
        EditorView::too_large_status(size) == "Error: file too large ("@ + decimal(
            size / 1024 / 1024,
        ) + " MB). Limit is "@ + decimal(500) + " MB."@,
{
    assert(MAX_FILE_BYTES as nat / 1024 / 1024 == 500);
}

/// A file is opened exactly if it has at most 500 MB, 524,288,000 bytes; of a
/// larger one only the message tells.
pub proof fn law_size_admitted(e: EditorView, size: nat)
    ensures
        size <= 524_288_000 ==> e.admit_size(size) == (e, true),
        size > 524_288_000 ==> e.admit_size(size) == (
            EditorView { status: EditorView::too_large_status(size), ..e },
            false,
        ),
{
}

/// A new editor holds one empty line, without a file, changes, selection,
/// clipboard, history or search; it writes UTF-8 with line feeds and wraps no
/// lines.
pub proof fn law_fresh(term_cols: int, term_rows: int)
    ensures
        ({
            let e = EditorView::fresh(term_cols, term_rows);
            &&& e.lines.len() == 1 && e.lines[0].len() == 0
            &&& e.row == 0 && e.col == 0 && e.top == 0 && e.left == 0
            &&& e.term_cols == term_cols && e.term_rows == term_rows
            &&& e.path is None && !e.modified
            &&& e.prompt is Closed && e.selection is None
            &&& !e.show_help && !e.word_wrap
            &&& !e.pending_quit && !e.quit_after_save
            &&& e.undo_stack.len() == 0 && e.undo_total_mem == 0
            &&& e.clipboard.len() == 0
            &&& e.file_encoding == FileEncoding::Utf8 && e.line_ending == LineEnding::Lf
            &&& e.search_query.len() == 0 && e.search_matches.len() == 0
            &&& e.search_match_idx == 0
            &&& e.status == "Ctrl+S: Save / Ctrl+Q: Quit / Ctrl+H: Help"@
        }),
{
}

/// Another size of the terminal changes nothing else.
pub proof fn law_resized(e: EditorView, cols: int, rows: int)
    ensures
        e.resized(cols, rows) == (EditorView { term_cols: cols, term_rows: rows, ..e }),
{
}

// ── Saving ───────────────────────────────────────────────────────────────

/// Once a file has been written under a path, that path is the path of the
/// editor, whatever it was before, so that Ctrl+S saves there again; there are
/// no unsaved changes, and quitting that waited for the file is now due.
pub proof fn law_file_written(e: EditorView, path: PathView)
    ensures
        ({
            let after = e.file_written(path);
            &&& after.path == Some(path)
            &&& !after.modified
            &&& after.status == "Saved: "@ + path.full
            &&& after.pending_quit <==> e.pending_quit || e.quit_after_save
            &&& !after.quit_after_save
            &&& after == (EditorView {
                path: after.path,
                modified: after.modified,
                status: after.status,
                pending_quit: after.pending_quit,
                quit_after_save: after.quit_after_save,
                ..e
            })
            &&& e.prompt is Closed ==> after.key(KeyCode::Char('s'), KeyModifiers::Control) == (
                after,
                ActionView::Save { full: path.full, after: AfterSave::Stay },
            )
        }),
{
}

/// Saving under a path gives the bytes of the document, and changes nothing; a
/// symbolic link is not written before the user agreed.
pub proof fn law_save_to(e: EditorView, path: PathView)
    ensures
        e.save_to(path, false) == (e, Some(document_bytes(e))),
        e.save_to(path, true) == (e.ask_symlink(path), None::<Seq<u8>>),
{
}

/// The editor ends with saving if that was asked for, or where quitting is due
/// and saving was asked for by name; editing goes on after Ctrl+S.
pub proof fn law_save_finished(e: EditorView)
    ensures
        e.finish_save(AfterSave::Stay) == (e, false),
        e.finish_save(AfterSave::CheckQuit) == (e, e.pending_quit),
        e.finish_save(AfterSave::Quit) == (EditorView { pending_quit: true, ..e }, true),
{
}

/// A file that is saved under a name and written there is from then on saved
/// under that name without a question.
pub proof fn law_saved_as(e: EditorView, path: PathView, modifiers: KeyModifiers)
    requires
        e.prompt is SaveAs,
        e.prompt->SaveAs_buf == path.full,
        path.full.len() > 0,
        !e.pending_quit,
    ensures
        ({
            let (asked, action) = e.key(KeyCode::Enter, modifiers);
            let saved = asked.file_written(path);
            &&& action == (ActionView::Save { full: path.full, after: AfterSave::CheckQuit })
            &&& saved.lines == e.lines
            &&& saved.pending_quit == e.quit_after_save
            &&& saved.key(KeyCode::Char('s'), KeyModifiers::Control).1 == (ActionView::Save {
                full: path.full,
                after: AfterSave::Stay,
            })
        }),
{
}

/// Before a symbolic link is overwritten the editor asks, and changes nothing
/// else; yes writes to that very path.
pub proof fn law_symlink_asked(e: EditorView, path: PathView, modifiers: KeyModifiers)
    requires
        !e.pending_quit,
    ensures
        e.ask_symlink(path) == (EditorView {
            prompt: PromptView::SymlinkConfirm(path),
            status: "\""@ + path.full + "\" is a symlink. Save to target anyway? [Y]es / [N]o"@,
            ..e
        }),
        e.ask_symlink(path).key(KeyCode::Char('y'), modifiers).1 == (ActionView::Write {
            path,
            after: AfterSave::CheckQuit,
        }),
        e.ask_symlink(path).key(KeyCode::Char('n'), modifiers).1 is Continue,
{
}

// ── Opening ──────────────────────────────────────────────────────────────

/// Opening a file takes over its path in any case. A file that is missing or
/// cannot be read leaves the text; of one that was read, text, encoding and
/// line ending are taken over.
pub proof fn law_open(e: EditorView, path: PathView, contents: FileContents)
    ensures
        ({
            let after = e.open(path, contents);
            match contents {
                FileContents::Missing => after == (EditorView {
                    path: Some(path),
                    status: "New file: "@ + path.name
                        + "  |  Ctrl+S: Save / Ctrl+Q: Quit / Ctrl+H: Help"@,
                    ..e
                }),
                FileContents::Failed(reason) => after == (EditorView {
                    path: Some(path),
                    status: "Error reading file: "@ + reason@,
                    ..e
                }),
                FileContents::Read(bytes) => {
                    let text = decoded(bytes@, after.file_encoding);
                    &&& after == (EditorView {
                        path: Some(path),
                        status: "Opened: "@ + path.name
                            + "  |  Ctrl+S: Save / Ctrl+Q: Quit / Ctrl+H: Help"@,
                        lines: after.lines,
                        file_encoding: after.file_encoding,
                        line_ending: after.line_ending,
                        ..e
                    })
                    &&& after.file_encoding == encoding_of(bytes@)
                    &&& after.line_ending == dominant_ending(text)
                    &&& after.lines == document(text)
                    &&& after == (EditorView {
                        path: Some(path),
                        status: after.status,
                        ..e.load_text(text, after.file_encoding)
                    })
                },
            }
        }),
{
}

/// The encoding of a file: its first three bytes decide if they are the UTF-8
/// mark, then whether the bytes are valid UTF-8, and then the detector, of whose
/// names only the two Japanese encodings count.
pub proof fn law_encoding_found(bytes: Seq<u8>)
    ensures
        ({
            let name = guessed_encoding_name(bytes);
            encoding_of(bytes) == (if bytes.len() >= 3 && bytes[0] == 0xEF && bytes[1] == 0xBB
                && bytes[2] == 0xBF {
                FileEncoding::Utf8Bom
            } else if valid_utf8(bytes) {
                FileEncoding::Utf8
            } else if name == "Shift_JIS"@ {
                FileEncoding::ShiftJis
            } else if name == "EUC-JP"@ {
                FileEncoding::EucJp
            } else {
                FileEncoding::Utf8
            })
        }),
{
    if bytes.len() >= 3 {
        let mark = bytes.subrange(0, 3);
        assert(bytes[0] == mark[0] && bytes[1] == mark[1] && bytes[2] == mark[2]);
        if bytes[0] == 0xEF && bytes[1] == 0xBB && bytes[2] == 0xBF {
            assert(mark =~= seq![0xEFu8, 0xBBu8, 0xBFu8]);
        }
    }
}

/// The names of the detector that count.
pub proof fn law_encoding_named(name: Seq<char>)
    ensures
        encoding_named("Shift_JIS"@) == FileEncoding::ShiftJis,
        name != "Shift_JIS"@ && name == "EUC-JP"@ ==> encoding_named(name) == FileEncoding::EucJp,
        name != "Shift_JIS"@ && name != "EUC-JP"@ ==> encoding_named(name) == FileEncoding::Utf8,
{
}

/// Whether bytes and characters stand for each other one by one, as in ASCII.
pub open spec fn one_by_one(bytes: Seq<u8>, text: Seq<char>) -> bool {
    &&& bytes.len() == text.len()
    &&& forall|i: int| 0 <= i < text.len() ==> #[trigger] bytes[i] as char == #[trigger] text[i]
}

/// Whether every byte is one of ASCII.
pub open spec fn all_ascii(bytes: Seq<u8>) -> bool {
    forall|i: int| 0 <= i < bytes.len() ==> #[trigger] bytes[i] < 0x80
}

/// Whether every character is one of ASCII.
pub open spec fn all_ascii_text(text: Seq<char>) -> bool {
    forall|i: int| 0 <= i < text.len() ==> (#[trigger] text[i] as u32) < 0x80
}

/// The text that is read from bytes. UTF-8 that is valid is read as it stands,
/// and behind the mark where there is one; ASCII stands for itself in the
/// Japanese encodings.
pub proof fn law_text_read(bytes: Seq<u8>)
    ensures
        valid_utf8(bytes) ==> decoded(bytes, FileEncoding::Utf8) == decode_utf8(bytes),
        !valid_utf8(bytes) ==> decoded(bytes, FileEncoding::Utf8) == utf8_lossy(bytes),
        bytes.len() >= 3 ==> decoded(bytes, FileEncoding::Utf8Bom) == decoded(
            bytes.skip(3),
            FileEncoding::Utf8,
        ),
        all_ascii(bytes) ==> one_by_one(bytes, decoded(bytes, FileEncoding::ShiftJis)),
        all_ascii(bytes) ==> one_by_one(bytes, decoded(bytes, FileEncoding::EucJp)),
        !all_ascii(bytes) ==> decoded(bytes, FileEncoding::ShiftJis) == shift_jis_decoded(bytes),
        !all_ascii(bytes) ==> decoded(bytes, FileEncoding::EucJp) == euc_jp_decoded(bytes),
{
    if bytes.len() >= 3 {
        assert(bytes.skip(3) =~= bytes.subrange(3, bytes.len() as int));
    }
}

/// The bytes that are written for a text. Behind the UTF-8 mark they are those
/// of UTF-8; ASCII stands for itself in the Japanese encodings.
pub proof fn law_bytes_written(text: Seq<char>)
    ensures
        encoded(text, FileEncoding::Utf8) == encode_utf8(text),
        encoded(text, FileEncoding::Utf8Bom) == seq![0xEFu8, 0xBBu8, 0xBFu8] + encode_utf8(text),
        all_ascii_text(text) ==> one_by_one(encoded(text, FileEncoding::ShiftJis), text),
        all_ascii_text(text) ==> one_by_one(encoded(text, FileEncoding::EucJp), text),
        !all_ascii_text(text) ==> encoded(text, FileEncoding::ShiftJis) == shift_jis_encoded(text),
        !all_ascii_text(text) ==> encoded(text, FileEncoding::EucJp) == euc_jp_encoded(text),
{
    if all_ascii_text(text) {
        let bytes = encoded(text, FileEncoding::ShiftJis);
        assert forall|i: int| 0 <= i < text.len() implies #[trigger] bytes[i] as char
            == #[trigger] text[i] by {
            lemma_ascii_char(text[i]);
        }
    }
}

/// A document is written as its lines, joined by its line ending, in its
/// encoding.
pub proof fn law_document_written(e: EditorView)
    ensures
        ({
            let text = joined(
                e.lines,
                if e.line_ending == LineEnding::Crlf {
                    seq!['\r', '\n']
                } else {
                    seq!['\n']
                },
            );
            document_bytes(e) == encoded(text, e.file_encoding)
        }),
{
}

/// Files of UTF-8 can be read whatever their size, and other files as far as
/// the decoders can count; text can be written as far as they can, and always
/// in UTF-8.
pub proof fn law_within_reach(bytes: Seq<u8>, e: EditorView)
    ensures
        bytes.len() <= usize::MAX / 16 && bytes.len() <= u32::MAX ==> readable(bytes),
        valid_utf8(bytes) && encoding_of(bytes) == FileEncoding::Utf8 ==> readable(bytes),
        encoding_of(bytes) == FileEncoding::Utf8Bom && valid_utf8(bytes.skip(3)) ==> readable(
            bytes,
        ),
        e.file_encoding == FileEncoding::Utf8 || e.file_encoding == FileEncoding::Utf8Bom
            ==> e.can_encode(),
        e.file_encoding == FileEncoding::ShiftJis || e.file_encoding == FileEncoding::EucJp ==> (
        e.can_encode() <==> joined(e.lines, e.line_ending.separator_text()).len() <= usize::MAX
            / 64),
{
    law_encoding_found(bytes);
    if bytes.len() >= 3 {
        let mark = bytes.subrange(0, 3);
        assert(bytes[0] == mark[0] && bytes[1] == mark[1] && bytes[2] == mark[2]);
        assert(bytes.skip(3) =~= bytes.subrange(3, bytes.len() as int));
        if encoding_of(bytes) == FileEncoding::Utf8Bom {
            assert(mark =~= seq![0xEFu8, 0xBBu8, 0xBFu8]);
        }
    }
}

// ── Lines ────────────────────────────────────────────────────────────────

/// Joined lines are the first, the separator and the others, joined.
pub proof fn law_joined(lines: Seq<Seq<char>>, separator: Seq<char>)
    ensures
        lines.len() == 0 ==> joined(lines, separator) == Seq::<char>::empty(),
        lines.len() == 1 ==> joined(lines, separator) == lines[0],
        lines.len() > 1 ==> joined(lines, separator) == lines[0] + separator + joined(
            lines.drop_first(),
            separator,
        ),
{
    if lines.len() > 1 {
        lemma_joined_first(lines, separator);
    }
}

/// A line feed ends a line, together with one carriage return before it; what
/// follows is read likewise. What stands behind the last line feed is the last
/// line, if anything stands there.
pub proof fn law_lines_of_text(line: Seq<char>, rest: Seq<char>)
    requires
        !line.contains('\n'),
    ensures
        text_lines(line + seq!['\n'] + rest) == seq![
            if line.len() > 0 && line.last() == '\r' {
                line.drop_last()
            } else {
                line
            },
        ] + text_lines(rest),
        line.len() > 0 ==> text_lines(line) == seq![line],
        text_lines(Seq::empty()) == Seq::<Seq<char>>::empty(),
{
    let none = Seq::<char>::empty();
    let tail = seq!['\n'] + rest;
    assert(line + seq!['\n'] + rest =~= line + tail);
    lemma_read_line(none, line, tail);
    assert(none + line =~= line);
    assert(tail[0] == '\n');
    assert(tail.drop_first() =~= rest);
    assert(strip_cr(line) == (if line.len() > 0 && line.last() == '\r' {
        line.drop_last()
    } else {
        line
    }));
    lemma_read_line(none, line, none);
    assert(line + none =~= line);
}

/// A text is edited as its lines; one without a line as an empty line.
pub proof fn law_document(text: Seq<char>)
    ensures
        text_lines(text).len() > 0 ==> document(text) == text_lines(text),
        text_lines(text).len() == 0 ==> document(text) == seq![Seq::<char>::empty()],
{
}

/// A text of the system's clipboard is pasted line by line: what was joined is
/// pasted as the same lines, but for an empty line at the end of several.
pub proof fn law_pasted_lines(e: EditorView, lines: Seq<Seq<char>>, separator: Seq<char>)
    requires
        separator == seq!['\n'] || separator == seq!['\r', '\n'],
        unbroken(lines, separator),
        lines.len() > 0,
    ensures
        e.paste(Some(joined(lines, separator))).clipboard == read_back(lines),
{
    law_split_after_join(lines, separator);
}

/// What the lines of a file end in: line feeds alone if they outnumber those
/// with a carriage return before them, or if there is no carriage return.
pub proof fn law_ending_by_majority(text: Seq<char>, c: char)
    ensures
        dominant_ending(text) == (if bare_lf_count(text) > crlf_count(text) || !text.contains(
            '\r',
        ) {
            LineEnding::Lf
        } else {
            LineEnding::Crlf
        }),
        bare_lf_count(Seq::empty()) == 0,
        crlf_count(Seq::empty()) == 0,
        ({
            let behind_cr = text.len() > 0 && text.last() == '\r';
            &&& crlf_count(text.push(c)) == crlf_count(text) + (if c == '\n' && behind_cr {
                1nat
            } else {
                0nat
            })
            &&& bare_lf_count(text.push(c)) == bare_lf_count(text) + (if c == '\n' && !behind_cr {
                1nat
            } else {
                0nat
            })
        }),
{
    assert(text.push(c).drop_last() =~= text);
}

/// The names of encodings and line endings, and what line endings are.
pub proof fn law_formats()
    ensures
        FileEncoding::Utf8.label_text() == "UTF-8"@,
        FileEncoding::Utf8Bom.label_text() == "UTF-8 BOM"@,
        FileEncoding::ShiftJis.label_text() == "Shift-JIS"@,
        FileEncoding::EucJp.label_text() == "EUC-JP"@,
        LineEnding::Lf.label_text() == "LF"@,
        LineEnding::Crlf.label_text() == "CRLF"@,
        LineEnding::Lf.separator_text() == seq!['\n'],
        LineEnding::Crlf.separator_text() == seq!['\r', '\n'],
{
}

} // verus!
