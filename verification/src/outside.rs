//! What the library takes from outside crates and from std without proof.
//!
//! Every item here states what the code behind it does. Results that take
//! pages to describe are given a name; the facts beside a name are those
//! that the source of the outside function shows.

use vstd::prelude::*;
use vstd::utf8::{decode_utf8, valid_utf8};

verus! {

/// The display width that `UnicodeWidthChar::width` gives a character.
pub uninterp spec fn char_width(c: char) -> Option<usize>;

/// `unicode_width::UnicodeWidthChar::width`: the number of terminal columns of
/// a character, `None` for the control characters. Printable ASCII takes one
/// column, and no character takes more than three.
#[verifier::external_body]
pub(crate) fn width_of(c: char) -> (w: Option<usize>)
    ensures
        w == char_width(c),
        w is None <==> is_control(c),
        0x20 <= c as u32 && (c as u32) < 0x7f ==> w == Some(1usize),
        w matches Some(n) ==> n <= 3,
{
    unicode_width::UnicodeWidthChar::width(c)
}

/// The C0 and C1 control characters and DEL.
pub open spec fn is_control(c: char) -> bool {
    (c as u32) < 0x20 || (0x7f <= c as u32 && (c as u32) < 0xa0)
}

/// Whether every byte is below 0x80.
pub open spec fn ascii_bytes(bytes: Seq<u8>) -> bool {
    forall|i: int| 0 <= i < bytes.len() ==> #[trigger] bytes[i] < 0x80
}

/// Whether every character is below U+0080.
pub open spec fn ascii_chars(text: Seq<char>) -> bool {
    forall|i: int| 0 <= i < text.len() ==> (#[trigger] text[i] as u32) < 0x80
}

/// The characters that ASCII bytes stand for.
pub open spec fn bytes_as_chars(bytes: Seq<u8>) -> Seq<char> {
    Seq::new(bytes.len(), |i: int| bytes[i] as char)
}

/// The bytes that ASCII characters stand for.
pub open spec fn chars_as_bytes(text: Seq<char>) -> Seq<u8> {
    Seq::new(text.len(), |i: int| text[i] as u8)
}

/// The text that `SHIFT_JIS.decode` reads from bytes.
pub uninterp spec fn shift_jis_decoded(bytes: Seq<u8>) -> Seq<char>;

/// `encoding_rs::SHIFT_JIS.decode`: the decoded text. ASCII bytes stand for
/// themselves. The size bound keeps the buffer that the function allocates
/// within the address space.
#[verifier::external_body]
pub(crate) fn decode_shift_jis(bytes: &[u8]) -> (text: String)
    requires
        bytes@.len() <= usize::MAX / 16,
    ensures
        text@ == shift_jis_decoded(bytes@),
        ascii_bytes(bytes@) ==> text@ == bytes_as_chars(bytes@),
{
    let (text, _, _) = encoding_rs::SHIFT_JIS.decode(bytes);
    text.into_owned()
}

/// The text that `EUC_JP.decode` reads from bytes.
pub uninterp spec fn euc_jp_decoded(bytes: Seq<u8>) -> Seq<char>;

/// `encoding_rs::EUC_JP.decode`: the decoded text. ASCII bytes stand for
/// themselves. The size bound keeps the buffer that the function allocates
/// within the address space.
#[verifier::external_body]
pub(crate) fn decode_euc_jp(bytes: &[u8]) -> (text: String)
    requires
        bytes@.len() <= usize::MAX / 16,
    ensures
        text@ == euc_jp_decoded(bytes@),
        ascii_bytes(bytes@) ==> text@ == bytes_as_chars(bytes@),
{
    let (text, _, _) = encoding_rs::EUC_JP.decode(bytes);
    text.into_owned()
}

/// The bytes that `SHIFT_JIS.encode` writes for a text.
pub uninterp spec fn shift_jis_encoded(text: Seq<char>) -> Seq<u8>;

/// `encoding_rs::SHIFT_JIS.encode`: the encoded bytes, with a numeric
/// character reference in place of a character that Shift_JIS lacks. ASCII
/// stands for itself. The size bound keeps the buffer that the function
/// allocates within the address space.
#[verifier::external_body]
pub(crate) fn encode_shift_jis(text: &str) -> (bytes: Vec<u8>)
    requires
        text@.len() <= usize::MAX / 64,
    ensures
        bytes@ == shift_jis_encoded(text@),
        ascii_chars(text@) ==> bytes@ == chars_as_bytes(text@),
{
    let (bytes, _, _) = encoding_rs::SHIFT_JIS.encode(text);
    bytes.into_owned()
}

/// The bytes that `EUC_JP.encode` writes for a text.
pub uninterp spec fn euc_jp_encoded(text: Seq<char>) -> Seq<u8>;

/// `encoding_rs::EUC_JP.encode`: the encoded bytes, with a numeric character
/// reference in place of a character that EUC-JP lacks. ASCII stands for
/// itself. The size bound keeps the buffer that the function allocates within
/// the address space.
#[verifier::external_body]
pub(crate) fn encode_euc_jp(text: &str) -> (bytes: Vec<u8>)
    requires
        text@.len() <= usize::MAX / 64,
    ensures
        bytes@ == euc_jp_encoded(text@),
        ascii_chars(text@) ==> bytes@ == chars_as_bytes(text@),
{
    let (bytes, _, _) = encoding_rs::EUC_JP.encode(text);
    bytes.into_owned()
}

/// The name of the encoding that the detector guesses for a whole file.
pub uninterp spec fn guessed_encoding_name(bytes: Seq<u8>) -> Seq<char>;

/// `chardetng::EncodingDetector::guess`, on a detector that was fed exactly
/// these bytes and told that they are all, with no top-level domain and with
/// UTF-8 allowed: the name of the guessed encoding. The size bound keeps the
/// detector's count of adjacent non-ASCII bytes within 32 bits.
#[verifier::external_body]
pub(crate) fn guess_encoding(bytes: &[u8]) -> (name: String)
    requires
        bytes@.len() <= u32::MAX,
    ensures
        name@ == guessed_encoding_name(bytes@),
{
    let mut detector = chardetng::EncodingDetector::new();
    detector.feed(bytes, true);
    String::from(detector.guess(None, true).name())
}

/// `std::str::from_utf8`: whether the bytes are valid UTF-8.
#[verifier::external_body]
pub(crate) fn is_utf8(bytes: &[u8]) -> (valid: bool)
    ensures
        valid == valid_utf8(bytes@),
{
    std::str::from_utf8(bytes).is_ok()
}

/// The text that `String::from_utf8_lossy` reads from bytes.
pub uninterp spec fn utf8_lossy(bytes: Seq<u8>) -> Seq<char>;

/// `String::from_utf8_lossy`: the decoded text, with U+FFFD in place of what
/// is not valid UTF-8. Valid UTF-8 is decoded as it stands; for other bytes, of
/// which each may be replaced by three, the size bound keeps the buffer that the
/// function allocates within the address space.
#[verifier::external_body]
pub(crate) fn decode_utf8_lossy(bytes: &[u8]) -> (text: String)
    requires
        valid_utf8(bytes@) || bytes@.len() <= usize::MAX / 16,
    ensures
        text@ == utf8_lossy(bytes@),
        valid_utf8(bytes@) ==> text@ == decode_utf8(bytes@),
{
    String::from_utf8_lossy(bytes).into_owned()
}

/// `String::push` appends one character.
pub assume_specification[ String::push ](s: &mut String, c: char)
    ensures
        final(s)@ == old(s)@.push(c),
;

} // verus!
