//! Character encodings and line endings of files.

use vstd::prelude::*;
use vstd::utf8::{decode_utf8, encode_utf8, valid_utf8};
use vstd::slice::{slice_subrange, slice_to_vec};
use crate::outside::{
    ascii_bytes, ascii_chars, bytes_as_chars, chars_as_bytes, euc_jp_decoded, euc_jp_encoded,
    guessed_encoding_name, shift_jis_decoded, shift_jis_encoded, utf8_lossy,
    decode_euc_jp, decode_shift_jis, decode_utf8_lossy, encode_euc_jp, encode_shift_jis,
    guess_encoding, is_utf8,
};
use crate::text::chars_of;

verus! {

/// The encodings that files are read and written in.
#[derive(Clone, Copy, Debug, PartialEq, Eq, Structural)]
pub enum FileEncoding {
    Utf8,
    Utf8Bom,
    ShiftJis,
    EucJp,
}

impl FileEncoding {
    /// The name shown in the status bar.
    pub open spec fn label_text(self) -> Seq<char> {
        match self {
            FileEncoding::Utf8 => "UTF-8"@,
            FileEncoding::Utf8Bom => "UTF-8 BOM"@,
            FileEncoding::ShiftJis => "Shift-JIS"@,
            FileEncoding::EucJp => "EUC-JP"@,
        }
    }

    pub fn label(self) -> (text: &'static str)
        ensures
            text@ == self.label_text(),
    {
        match self {
            FileEncoding::Utf8 => "UTF-8",
            FileEncoding::Utf8Bom => "UTF-8 BOM",
            FileEncoding::ShiftJis => "Shift-JIS",
            FileEncoding::EucJp => "EUC-JP",
        }
    }
}

/// What ends the lines of a file.
#[derive(Clone, Copy, Debug, PartialEq, Eq, Structural)]
pub enum LineEnding {
    Lf,
    Crlf,
}

impl LineEnding {
    /// The name shown in the status bar.
    pub open spec fn label_text(self) -> Seq<char> {
        match self {
            LineEnding::Lf => "LF"@,
            LineEnding::Crlf => "CRLF"@,
        }
    }

    /// The characters written between two lines.
    pub open spec fn separator_text(self) -> Seq<char> {
        match self {
            LineEnding::Lf => seq!['\n'],
            LineEnding::Crlf => seq!['\r', '\n'],
        }
    }

    pub fn label(self) -> (text: &'static str)
        ensures
            text@ == self.label_text(),
    {
        match self {
            LineEnding::Lf => "LF",
            LineEnding::Crlf => "CRLF",
        }
    }

    pub fn separator(self) -> (text: &'static str)
        ensures
            text@ == self.separator_text(),
    {
        proof {
            reveal_strlit("\n");
            reveal_strlit("\r\n");
        }
        let text = match self {
            LineEnding::Lf => "\n",
            LineEnding::Crlf => "\r\n",
        };
        assert(text@ =~= self.separator_text());
        text
    }
}


/// The bytes that mark a UTF-8 file.
pub open spec fn utf8_bom() -> Seq<u8> {
    seq![0xEFu8, 0xBBu8, 0xBFu8]
}

/// Whether the bytes begin with the UTF-8 mark.
pub open spec fn starts_with_bom(bytes: Seq<u8>) -> bool {
    bytes.len() >= 3 && bytes.subrange(0, 3) == utf8_bom()
}

/// The file encoding that goes by a name of the detector; anything but the
/// two Japanese encodings is read as UTF-8.
pub open spec fn encoding_named(name: Seq<char>) -> FileEncoding {
    if name == "Shift_JIS"@ {
        FileEncoding::ShiftJis
    } else if name == "EUC-JP"@ {
        FileEncoding::EucJp
    } else {
        FileEncoding::Utf8
    }
}

/// The encoding of a file's bytes: the UTF-8 mark decides first, then whether
/// the bytes are valid UTF-8, then the detector.
pub open spec fn encoding_of(bytes: Seq<u8>) -> FileEncoding {
    if starts_with_bom(bytes) {
        FileEncoding::Utf8Bom
    } else if valid_utf8(bytes) {
        FileEncoding::Utf8
    } else {
        encoding_named(guessed_encoding_name(bytes))
    }
}

/// The file encoding for the name of a guessed encoding.
pub fn encoding_for_name(name: &String) -> (enc: FileEncoding)
    ensures
        enc == encoding_named(name@),
{
    let shift_jis = "Shift_JIS".to_owned();
    let euc_jp = "EUC-JP".to_owned();
    if *name == shift_jis {
        FileEncoding::ShiftJis
    } else if *name == euc_jp {
        FileEncoding::EucJp
    } else {
        FileEncoding::Utf8
    }
}

/// Whether the bytes begin with the UTF-8 mark.
fn has_bom(bytes: &[u8]) -> (marked: bool)
    ensures
        marked == starts_with_bom(bytes@),
{
    if bytes.len() >= 3 && bytes[0] == 0xEF && bytes[1] == 0xBB && bytes[2] == 0xBF {
        assert(bytes@.subrange(0, 3) =~= utf8_bom());
        return true;
    }
    proof {
        if starts_with_bom(bytes@) {
            assert(bytes@[0] == bytes@.subrange(0, 3)[0]);
            assert(bytes@[1] == bytes@.subrange(0, 3)[1]);
            assert(bytes@[2] == bytes@.subrange(0, 3)[2]);
        }
    }
    false
}

/// Detect the character encoding of raw file bytes.
pub fn detect_encoding(bytes: &[u8]) -> (enc: FileEncoding)
    requires
        starts_with_bom(bytes@) || valid_utf8(bytes@) || bytes@.len() <= u32::MAX,
    ensures
        enc == encoding_of(bytes@),
{
    if has_bom(bytes) {
        return FileEncoding::Utf8Bom;
    }
    if is_utf8(bytes) {
        return FileEncoding::Utf8;
    }
    encoding_for_name(&guess_encoding(bytes))
}

/// The text of bytes read as UTF-8: what is valid is decoded as it stands.
pub open spec fn utf8_text(bytes: Seq<u8>) -> Seq<char> {
    if valid_utf8(bytes) {
        decode_utf8(bytes)
    } else {
        utf8_lossy(bytes)
    }
}

/// The text of bytes read as Shift_JIS: ASCII stands for itself.
pub open spec fn shift_jis_text(bytes: Seq<u8>) -> Seq<char> {
    if ascii_bytes(bytes) {
        bytes_as_chars(bytes)
    } else {
        shift_jis_decoded(bytes)
    }
}

/// The text of bytes read as EUC-JP: ASCII stands for itself.
pub open spec fn euc_jp_text(bytes: Seq<u8>) -> Seq<char> {
    if ascii_bytes(bytes) {
        bytes_as_chars(bytes)
    } else {
        euc_jp_decoded(bytes)
    }
}

/// The text of bytes in an encoding; the UTF-8 mark is no part of it.
pub open spec fn decoded(bytes: Seq<u8>, enc: FileEncoding) -> Seq<char> {
    match enc {
        FileEncoding::Utf8 => utf8_text(bytes),
        FileEncoding::Utf8Bom => utf8_text(bytes.subrange(3, bytes.len() as int)),
        FileEncoding::ShiftJis => shift_jis_text(bytes),
        FileEncoding::EucJp => euc_jp_text(bytes),
    }
}

/// Decode raw bytes to a text using the given encoding.
pub fn decode_bytes(bytes: &[u8], enc: FileEncoding) -> (text: String)
    requires
        match enc {
            FileEncoding::Utf8 => valid_utf8(bytes@) || bytes@.len() <= usize::MAX / 16,
            FileEncoding::Utf8Bom => {
                &&& bytes@.len() >= 3
                &&& valid_utf8(bytes@.subrange(3, bytes@.len() as int)) || bytes@.len()
                    <= usize::MAX / 16
            },
            FileEncoding::ShiftJis => bytes@.len() <= usize::MAX / 16,
            FileEncoding::EucJp => bytes@.len() <= usize::MAX / 16,
        },
    ensures
        text@ == decoded(bytes@, enc),
{
    match enc {
        FileEncoding::Utf8 => decode_utf8_lossy(bytes),
        FileEncoding::Utf8Bom => {
            let rest = slice_subrange(bytes, 3, bytes.len());
            decode_utf8_lossy(rest)
        },
        FileEncoding::ShiftJis => decode_shift_jis(bytes),
        FileEncoding::EucJp => decode_euc_jp(bytes),
    }
}

/// Whether bytes are valid UTF-8, behind the mark where there is one.
pub open spec fn utf8_file(bytes: Seq<u8>) -> bool {
    if starts_with_bom(bytes) {
        valid_utf8(bytes.subrange(3, bytes.len() as int))
    } else {
        valid_utf8(bytes)
    }
}

/// Whether the encoding of a file's bytes can be detected and the bytes be
/// decoded: UTF-8 of any size, other bytes up to the sizes that detector and
/// decoders can count.
pub open spec fn readable(bytes: Seq<u8>) -> bool {
    utf8_file(bytes) || (bytes.len() <= usize::MAX / 16 && (starts_with_bom(bytes) || bytes.len()
        <= u32::MAX))
}

/// Whether a file's bytes can be read.
pub fn can_read(bytes: &[u8]) -> (ok: bool)
    ensures
        ok == readable(bytes@),
{
    let marked = has_bom(bytes);
    let valid = if marked {
        is_utf8(slice_subrange(bytes, 3, bytes.len()))
    } else {
        is_utf8(bytes)
    };
    valid || (bytes.len() <= usize::MAX / 16 && (marked || bytes.len() as u64 <= u32::MAX as u64))
}

/// The bytes that Shift_JIS writes for a text: ASCII stands for itself.
pub open spec fn shift_jis_bytes(text: Seq<char>) -> Seq<u8> {
    if ascii_chars(text) {
        chars_as_bytes(text)
    } else {
        shift_jis_encoded(text)
    }
}

/// The bytes that EUC-JP writes for a text: ASCII stands for itself.
pub open spec fn euc_jp_bytes(text: Seq<char>) -> Seq<u8> {
    if ascii_chars(text) {
        chars_as_bytes(text)
    } else {
        euc_jp_encoded(text)
    }
}

/// The bytes of a text in an encoding.
pub open spec fn encoded(text: Seq<char>, enc: FileEncoding) -> Seq<u8> {
    match enc {
        FileEncoding::Utf8 => encode_utf8(text),
        FileEncoding::Utf8Bom => utf8_bom() + encode_utf8(text),
        FileEncoding::ShiftJis => shift_jis_bytes(text),
        FileEncoding::EucJp => euc_jp_bytes(text),
    }
}

/// Encode a text to bytes using the given encoding.
pub fn encode_string(text: &str, enc: FileEncoding) -> (bytes: Vec<u8>)
    requires
        enc == FileEncoding::ShiftJis || enc == FileEncoding::EucJp ==> text@.len() <= usize::MAX
            / 64,
    ensures
        bytes@ == encoded(text@, enc),
{
    match enc {
        FileEncoding::Utf8 => slice_to_vec(text.as_bytes()),
        FileEncoding::Utf8Bom => {
            let mut out: Vec<u8> = vec![0xEFu8, 0xBBu8, 0xBFu8];
            let mut rest = slice_to_vec(text.as_bytes());
            out.append(&mut rest);
            assert(out@ =~= utf8_bom() + encode_utf8(text@));
            out
        },
        FileEncoding::ShiftJis => encode_shift_jis(text),
        FileEncoding::EucJp => encode_euc_jp(text),
    }
}

/// How many line feeds of a text follow a carriage return.
pub open spec fn crlf_count(text: Seq<char>) -> nat
    decreases text.len(),
{
    if text.len() == 0 {
        0
    } else {
        let here: nat = if text.last() == '\n' && text.len() >= 2 && text[text.len() - 2] == '\r' {
            1
        } else {
            0
        };
        crlf_count(text.drop_last()) + here
    }
}

/// How many line feeds of a text follow no carriage return.
pub open spec fn bare_lf_count(text: Seq<char>) -> nat
    decreases text.len(),
{
    if text.len() == 0 {
        0
    } else {
        let here: nat = if text.last() == '\n' && !(text.len() >= 2 && text[text.len() - 2]
            == '\r') {
            1
        } else {
            0
        };
        bare_lf_count(text.drop_last()) + here
    }
}

/// The line ending that prevails in a text. Where LF does not outnumber CRLF,
/// a carriage return anywhere speaks for CRLF.
pub open spec fn dominant_ending(text: Seq<char>) -> LineEnding {
    if bare_lf_count(text) > crlf_count(text) || !text.contains('\r') {
        LineEnding::Lf
    } else {
        LineEnding::Crlf
    }
}

/// Detect the dominant line ending in a decoded string.
pub fn detect_line_ending(text: &str) -> (ending: LineEnding)
    ensures
        ending == dominant_ending(text@),
{
    let chars = chars_of(text);
    let mut crlf: usize = 0;
    let mut bare: usize = 0;
    let mut any_cr = false;
    let mut i: usize = 0;
    while i < chars.len()
        invariant
            i <= chars.len(),
            crlf == crlf_count(chars@.take(i as int)),
            bare == bare_lf_count(chars@.take(i as int)),
            crlf <= i,
            bare <= i,
            any_cr == chars@.take(i as int).contains('\r'),
        decreases chars.len() - i,
    {
        let ghost before = chars@.take(i as int);
        let ghost after = chars@.take(i + 1);
        assert(after.drop_last() =~= before);
        assert(after.last() == chars@[i as int]);
        assert(after =~= before.push(chars@[i as int]));
        if chars[i] == '\r' {
            any_cr = true;
            assert(after[i as int] == '\r');
        } else if chars[i] == '\n' {
            if i > 0 && chars[i - 1] == '\r' {
                crlf = crlf + 1;
            } else {
                bare = bare + 1;
            }
        }
        proof {
            if before.contains('\r') {
                let k = choose|k: int| 0 <= k < before.len() && before[k] == '\r';
                assert(after[k] == '\r');
            }
            if after.contains('\r') && chars@[i as int] != '\r' {
                let k = choose|k: int| 0 <= k < after.len() && after[k] == '\r';
                assert(before[k] == '\r');
            }
        }
        i = i + 1;
    }
    assert(chars@.take(i as int) =~= text@);
    if bare > crlf || !any_cr {
        LineEnding::Lf
    } else {
        LineEnding::Crlf
    }
}

} // verus!
