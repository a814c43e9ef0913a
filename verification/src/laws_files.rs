//! What holds of reading and writing files.

use vstd::prelude::*;
use vstd::utf8::{
    char_u32_cast, decode_first_scalar, decode_utf8_encode_utf8, encode_utf8,
    encode_utf8_decode_utf8, encode_utf8_first_scalar, encode_utf8_valid_utf8,
    is_ascii_chars_encode_utf8,
};
use crate::encoding::{
    bare_lf_count, crlf_count, decoded, dominant_ending, encoded, encoding_of, readable,
    starts_with_bom, utf8_bom, utf8_file, FileEncoding, LineEnding,
};
use crate::files::{document_bytes, FileContents};
use crate::laws_text::{law_split_after_join, lemma_joined_first, read_back, separable, unbroken};
use crate::outside::{ascii_bytes, ascii_chars, bytes_as_chars, chars_as_bytes};
use crate::state::{EditorView, PathView};
use crate::text::joined;

verus! {

// ── Encodings ────────────────────────────────────────────────────────────

/// Only a text that begins with U+FEFF is written in UTF-8 with the UTF-8 mark
/// in front.
proof fn lemma_no_mark(text: Seq<char>)
    requires
        text.len() == 0 || text[0] != '\u{feff}',
    ensures
        !starts_with_bom(encode_utf8(text)),
{
    let bytes = encode_utf8(text);
    if starts_with_bom(bytes) {
        assert(bytes[0] == bytes.subrange(0, 3)[0]);
        assert(bytes[1] == bytes.subrange(0, 3)[1]);
        assert(bytes[2] == bytes.subrange(0, 3)[2]);
        encode_utf8_first_scalar(text);
        assert(vstd::utf8::codepoint_width_3(0xEFu8, 0xBBu8, 0xBFu8) == 0xFEFFu32) by (bit_vector);
        assert(decode_first_scalar(bytes) == 0xFEFF);
        char_u32_cast(text[0], 0xFEFF);
        char_u32_cast('\u{feff}', 0xFEFF);
    }
}

/// A character of ASCII is a byte.
pub proof fn lemma_ascii_char(c: char)
    requires
        (c as u32) < 0x80,
    ensures
        '\0' <= c <= '\u{7f}',
        c as u8 as char == c,
{
}

/// ASCII is written as the same bytes in UTF-8 and in the Japanese encodings.
proof fn lemma_ascii_bytes(text: Seq<char>)
    requires
        ascii_chars(text),
    ensures
        chars_as_bytes(text) == encode_utf8(text),
        ascii_bytes(chars_as_bytes(text)),
        bytes_as_chars(chars_as_bytes(text)) == text,
{
    assert forall|i: int| 0 <= i < text.len() implies '\0' <= #[trigger] text[i] <= '\u{7f}' by {
        lemma_ascii_char(text[i]);
    }
    is_ascii_chars_encode_utf8(text);
    assert(chars_as_bytes(text) =~= encode_utf8(text));
    assert forall|i: int| 0 <= i < text.len() implies #[trigger] chars_as_bytes(text)[i] < 0x80
        && chars_as_bytes(text)[i] as char == text[i] by {
        lemma_ascii_char(text[i]);
    }
    assert(bytes_as_chars(chars_as_bytes(text)) =~= text);
}

/// Whether a text can be written in an encoding and be read back: any text in
/// UTF-8, but for one that begins with U+FEFF and has no mark before it; ASCII
/// in the Japanese encodings.
pub open spec fn plain_in(text: Seq<char>, enc: FileEncoding) -> bool {
    match enc {
        FileEncoding::Utf8 => text.len() == 0 || text[0] != '\u{feff}',
        FileEncoding::Utf8Bom => true,
        FileEncoding::ShiftJis => ascii_chars(text),
        FileEncoding::EucJp => ascii_chars(text),
    }
}

/// Bytes that were written are read as the same text, in the encoding that
/// they were written in.
pub proof fn law_decode_after_encode(text: Seq<char>, enc: FileEncoding)
    requires
        enc == FileEncoding::ShiftJis || enc == FileEncoding::EucJp ==> ascii_chars(text),
    ensures
        decoded(encoded(text, enc), enc) == text,
{
    encode_utf8_valid_utf8(text);
    encode_utf8_decode_utf8(text);
    match enc {
        FileEncoding::Utf8 => {},
        FileEncoding::Utf8Bom => {
            let bytes = encoded(text, enc);
            assert(bytes.subrange(3, bytes.len() as int) =~= encode_utf8(text));
        },
        _ => {
            lemma_ascii_bytes(text);
        },
    }
}

/// Whether a text that was written in an encoding is read as the same text, in
/// the encoding that is then detected.
pub open spec fn recovered(text: Seq<char>, enc: FileEncoding) -> bool {
    decoded(encoded(text, enc), encoding_of(encoded(text, enc))) == text
}

/// Text in UTF-8, with the mark or without, is recovered, in the encoding that
/// it was written in, unless it begins with U+FEFF and has no mark before it.
/// ASCII is recovered from every encoding; its bytes are those of UTF-8, and are
/// detected as such.
pub proof fn law_detect_after_encode(text: Seq<char>, enc: FileEncoding)
    requires
        plain_in(text, enc),
    ensures
        recovered(text, enc),
        encoded(text, encoding_of(encoded(text, enc))) == encoded(text, enc),
        enc == FileEncoding::Utf8 || enc == FileEncoding::Utf8Bom ==> encoding_of(
            encoded(text, enc),
        ) == enc,
{
    let bytes = encoded(text, enc);
    law_decode_after_encode(text, enc);
    encode_utf8_valid_utf8(text);
    match enc {
        FileEncoding::Utf8 => {
            lemma_no_mark(text);
        },
        FileEncoding::Utf8Bom => {
            assert(bytes.subrange(0, 3) =~= utf8_bom());
        },
        _ => {
            lemma_ascii_bytes(text);
            if text.len() > 0 {
                assert((text[0] as u32) < 0x80);
            }
            lemma_no_mark(text);
            law_decode_after_encode(text, FileEncoding::Utf8);
        },
    }
}

/// Text in UTF-8 is written as valid UTF-8, behind the mark where there is one.
proof fn lemma_utf8_file(text: Seq<char>, enc: FileEncoding)
    requires
        plain_in(text, enc),
    ensures
        enc == FileEncoding::Utf8 || enc == FileEncoding::Utf8Bom ==> utf8_file(
            encoded(text, enc),
        ),
{
    let bytes = encoded(text, enc);
    encode_utf8_valid_utf8(text);
    if enc == FileEncoding::Utf8 {
        lemma_no_mark(text);
    } else if enc == FileEncoding::Utf8Bom {
        assert(bytes.subrange(0, 3) =~= utf8_bom());
        assert(bytes.subrange(3, bytes.len() as int) =~= encode_utf8(text));
    }
}

/// Bytes that are valid UTF-8, behind the mark where there is one, are written
/// back as they were read.
pub proof fn law_encode_after_decode(bytes: Seq<u8>)
    requires
        utf8_file(bytes),
    ensures
        encoded(decoded(bytes, encoding_of(bytes)), encoding_of(bytes)) == bytes,
{
    if starts_with_bom(bytes) {
        let rest = bytes.subrange(3, bytes.len() as int);
        decode_utf8_encode_utf8(rest);
        assert(bytes =~= bytes.subrange(0, 3) + rest);
    } else {
        decode_utf8_encode_utf8(bytes);
    }
}

// ── Line endings ─────────────────────────────────────────────────────────

/// A line without line feeds adds none.
proof fn lemma_count_line(text: Seq<char>, line: Seq<char>)
    requires
        !line.contains('\n'),
    ensures
        crlf_count(text + line) == crlf_count(text),
        bare_lf_count(text + line) == bare_lf_count(text),
    decreases line.len(),
{
    if line.len() == 0 {
        assert(text + line =~= text);
    } else {
        assert(line.contains(line.last()));
        assert forall|c: char| line.drop_last().contains(c) implies line.contains(c) by {
            let i = choose|i: int| 0 <= i < line.drop_last().len() && line.drop_last()[i] == c;
            assert(line[i] == c);
        }
        lemma_count_line(text, line.drop_last());
        assert((text + line).drop_last() =~= text + line.drop_last());
    }
}

/// Joined with LF, lines end in no carriage return but that of the last line.
proof fn lemma_joined_last(lines: Seq<Seq<char>>)
    requires
        lines.len() > 0,
        lines.last().len() > 0 ==> lines.last().last() != '\r',
    ensures
        ({
            let text = joined(lines, seq!['\n']);
            text.len() > 0 ==> text.last() != '\r'
        }),
{
    let text = joined(lines, seq!['\n']);
    if lines.len() == 1 {
        assert(text == lines.last());
    } else if lines.last().len() > 0 {
        assert(text.last() == lines.last().last());
    } else {
        assert(text.last() == '\n');
    }
}

/// The line feeds of joined lines are those between them.
proof fn lemma_count_joined(lines: Seq<Seq<char>>, ending: LineEnding)
    requires
        lines.len() > 0,
        forall|i: int| 0 <= i < lines.len() ==> !(#[trigger] lines[i]).contains('\n'),
        ending == LineEnding::Lf ==> forall|i: int|
            0 <= i < lines.len() - 1 && (#[trigger] lines[i]).len() > 0 ==> lines[i].last()
                != '\r',
    ensures
        ({
            let text = joined(lines, ending.separator_text());
            match ending {
                LineEnding::Lf => bare_lf_count(text) == lines.len() - 1 && crlf_count(text) == 0,
                LineEnding::Crlf => crlf_count(text) == lines.len() - 1 && bare_lf_count(text)
                    == 0,
            }
        }),
    decreases lines.len(),
{
    let none = Seq::<char>::empty();
    let separator = ending.separator_text();
    let text = joined(lines, separator);
    let last = lines.last();
    assert(!lines[lines.len() - 1].contains('\n'));
    if lines.len() == 1 {
        assert(none + last =~= text);
        lemma_count_line(none, last);
    } else {
        let front = lines.drop_last();
        let before = joined(front, separator);
        assert forall|i: int| 0 <= i < front.len() implies !(#[trigger] front[i]).contains(
            '\n',
        ) by {
            assert(front[i] == lines[i]);
        }
        if ending == LineEnding::Lf {
            assert forall|i: int|
                0 <= i < front.len() - 1 && (#[trigger] front[i]).len() > 0 implies front[i].last()
                != '\r' by {
                assert(front[i] == lines[i]);
            }
        }
        lemma_count_joined(front, ending);
        lemma_count_line(before + separator, last);
        match ending {
            LineEnding::Lf => {
                assert(front.last() == lines[lines.len() - 2]);
                lemma_joined_last(front);
                assert((before + separator).drop_last() =~= before);
                assert(bare_lf_count(before + separator) == bare_lf_count(before) + 1);
                assert(crlf_count(before + separator) == crlf_count(before));
            },
            LineEnding::Crlf => {
                let half = before.push('\r');
                assert((before + separator).drop_last() =~= half);
                assert(half.drop_last() =~= before);
                assert(crlf_count(half) == crlf_count(before));
                assert(bare_lf_count(half) == bare_lf_count(before));
                assert(crlf_count(before + separator) == crlf_count(before) + 1);
            },
        }
    }
}

/// The line ending of a text with several lines is detected, the last of which
/// may be empty.
pub proof fn law_ending_detected(lines: Seq<Seq<char>>, ending: LineEnding)
    requires
        lines.len() >= 2,
        unbroken(lines, ending.separator_text()),
    ensures
        dominant_ending(joined(lines, ending.separator_text())) == ending,
{
    let separator = ending.separator_text();
    let text = joined(lines, separator);
    lemma_count_joined(lines, ending);
    if ending == LineEnding::Crlf {
        let before = joined(lines.drop_last(), separator);
        assert(text[before.len() as int] == '\r');
    }
}

/// A text without a line break is read as one with bare line feeds, unless it
/// holds a carriage return.
pub proof fn law_ending_of_one_line(line: Seq<char>)
    requires
        !line.contains('\n'),
    ensures
        dominant_ending(line) == (if line.contains('\r') {
            LineEnding::Crlf
        } else {
            LineEnding::Lf
        }),
{
    let none = Seq::<char>::empty();
    assert(none + line =~= line);
    lemma_count_line(none, line);
}

// ── Files ────────────────────────────────────────────────────────────────

/// A file that was saved is opened as the same lines, but for an empty line at
/// the end of several, if its text is recovered from its bytes; with more than
/// one line, it is opened with the same line ending. In UTF-8 it can be opened
/// whatever its size, and is opened with the same encoding. It is marked as
/// changed only where the editor was before.
pub proof fn law_open_after_save(e: EditorView, fresh: EditorView, path: PathView)
    requires
        e.lines.len() > 0,
        unbroken(e.lines, e.line_ending.separator_text()),
        recovered(joined(e.lines, e.line_ending.separator_text()), e.file_encoding),
    ensures
        ({
            let text = joined(e.lines, e.line_ending.separator_text());
            let opened = fresh.open_bytes(path, document_bytes(e));
            &&& opened.lines == read_back(e.lines)
            &&& e.lines.len() >= 2 ==> opened.line_ending == e.line_ending
            &&& (e.file_encoding == FileEncoding::Utf8 || e.file_encoding
                == FileEncoding::Utf8Bom) && plain_in(text, e.file_encoding)
                ==> opened.file_encoding == e.file_encoding && readable(document_bytes(e))
            &&& opened.path == Some(path)
            &&& opened.modified == fresh.modified
        }),
{
    let text = joined(e.lines, e.line_ending.separator_text());
    if plain_in(text, e.file_encoding) {
        law_detect_after_encode(text, e.file_encoding);
        lemma_utf8_file(text, e.file_encoding);
    }
    law_split_after_join(e.lines, e.line_ending.separator_text());
    if e.lines.len() >= 2 {
        law_ending_detected(e.lines, e.line_ending);
    }
}

/// A text begins with its first line, or with a line ending if that is empty.
proof fn lemma_first_char(lines: Seq<Seq<char>>, ending: LineEnding)
    requires
        lines.len() > 0,
    ensures
        ({
            let text = joined(lines, ending.separator_text());
            text.len() > 0 ==> if lines[0].len() > 0 {
                text[0] == lines[0][0]
            } else {
                text[0] == ending.separator_text()[0]
            }
        }),
{
    if lines.len() >= 2 {
        lemma_joined_first(lines, ending.separator_text());
    }
}

/// A file that was saved in UTF-8 and is opened again, in an editor that holds
/// no changes, gives back its lines, its encoding and, with more than one line,
/// its line ending, and holds no changes; it can be opened whatever its size.
/// Its lines hold no line breaks, the last of several is not empty, and without
/// the mark the text does not begin with U+FEFF.
pub proof fn law_reopen_utf8(
    e: EditorView,
    fresh: EditorView,
    path: PathView,
    contents: FileContents,
)
    requires
        e.lines.len() > 0,
        e.file_encoding == FileEncoding::Utf8 || e.file_encoding == FileEncoding::Utf8Bom,
        separable(e.lines, e.line_ending.separator_text()),
        e.file_encoding == FileEncoding::Utf8 && e.lines[0].len() > 0 ==> e.lines[0][0]
            != '\u{feff}',
        contents matches FileContents::Read(bytes) && bytes@ == document_bytes(e),
        !fresh.modified,
    ensures
        readable(document_bytes(e)),
        ({
            let opened = fresh.open(path, contents);
            &&& opened.lines == e.lines
            &&& opened.file_encoding == e.file_encoding
            &&& e.lines.len() >= 2 ==> opened.line_ending == e.line_ending
            &&& opened.path == Some(path)
            &&& !opened.modified
        }),
{
    lemma_first_char(e.lines, e.line_ending);
    law_detect_after_encode(
        joined(e.lines, e.line_ending.separator_text()),
        e.file_encoding,
    );
    law_open_after_save(e, fresh, path);
}

/// Saving what was opened, without a change, writes the same bytes, if these are
/// written back as they were read, all lines end alike, and the last of them has
/// no line break behind it.
pub proof fn law_save_after_open(
    fresh: EditorView,
    path: PathView,
    bytes: Seq<u8>,
    lines: Seq<Seq<char>>,
    ending: LineEnding,
)
    requires
        encoded(decoded(bytes, encoding_of(bytes)), encoding_of(bytes)) == bytes,
        decoded(bytes, encoding_of(bytes)) == joined(lines, ending.separator_text()),
        lines.len() >= 2,
        separable(lines, ending.separator_text()),
    ensures
        document_bytes(fresh.open_bytes(path, bytes)) == bytes,
{
    law_split_after_join(lines, ending.separator_text());
    law_ending_detected(lines, ending);
}

/// An empty file is edited as one empty line, in UTF-8 with bare line feeds.
pub proof fn law_empty_file(fresh: EditorView, path: PathView)
    ensures
        fresh.open_bytes(path, Seq::empty()).lines == seq![Seq::<char>::empty()],
        fresh.open_bytes(path, Seq::empty()).file_encoding == FileEncoding::Utf8,
        fresh.open_bytes(path, Seq::empty()).line_ending == LineEnding::Lf,
{
    let none = Seq::<char>::empty();
    let lines = seq![none];
    assert(joined(lines, seq!['\n']) == none);
    assert(encode_utf8(none) =~= Seq::<u8>::empty());
    law_detect_after_encode(none, FileEncoding::Utf8);
    law_split_after_join(lines, seq!['\n']);
    law_ending_of_one_line(none);
}

} // verus!
