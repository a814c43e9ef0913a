use psez::encoding::{
    decode_bytes, detect_encoding, detect_line_ending, encode_string, encoding_for_name,
    FileEncoding, LineEnding,
};

const JAPANESE: &str = "これは日本語の文章です。文字コードを自動で判別します。";

#[test]
fn labels_and_separators() {
    assert_eq!(FileEncoding::Utf8.label(), "UTF-8");
    assert_eq!(FileEncoding::Utf8Bom.label(), "UTF-8 BOM");
    assert_eq!(FileEncoding::ShiftJis.label(), "Shift-JIS");
    assert_eq!(FileEncoding::EucJp.label(), "EUC-JP");
    assert_eq!(LineEnding::Lf.label(), "LF");
    assert_eq!(LineEnding::Crlf.label(), "CRLF");
    assert_eq!(LineEnding::Lf.separator(), "\n");
    assert_eq!(LineEnding::Crlf.separator(), "\r\n");
}

#[test]
fn utf8_mark_is_detected_first() {
    assert_eq!(detect_encoding(b"\xEF\xBB\xBFabc"), FileEncoding::Utf8Bom);
    assert_eq!(detect_encoding(b"\xEF\xBB\xBF"), FileEncoding::Utf8Bom);
    assert_eq!(detect_encoding(b"\xEF\xBB\xBF\xFF\xFF"), FileEncoding::Utf8Bom);
}

#[test]
fn valid_utf8_is_utf8() {
    assert_eq!(detect_encoding(b""), FileEncoding::Utf8);
    assert_eq!(detect_encoding(b"plain"), FileEncoding::Utf8);
    assert_eq!(detect_encoding(JAPANESE.as_bytes()), FileEncoding::Utf8);
}

#[test]
fn japanese_encodings_are_guessed() {
    let sjis = encode_string(JAPANESE, FileEncoding::ShiftJis);
    assert_eq!(detect_encoding(&sjis), FileEncoding::ShiftJis);
    let euc = encode_string(JAPANESE, FileEncoding::EucJp);
    assert_eq!(detect_encoding(&euc), FileEncoding::EucJp);
}

#[test]
fn other_guesses_are_read_as_utf8() {
    assert_eq!(detect_encoding(b"caf\xe9 cr\xe8me"), FileEncoding::Utf8);
    assert_eq!(encoding_for_name(&String::from("windows-1252")), FileEncoding::Utf8);
    assert_eq!(encoding_for_name(&String::from("UTF-8")), FileEncoding::Utf8);
    assert_eq!(encoding_for_name(&String::from("Shift_JIS")), FileEncoding::ShiftJis);
    assert_eq!(encoding_for_name(&String::from("EUC-JP")), FileEncoding::EucJp);
}

#[test]
fn bytes_are_decoded() {
    assert_eq!(decode_bytes("日本".as_bytes(), FileEncoding::Utf8), "日本");
    assert_eq!(decode_bytes(b"\xEF\xBB\xBFabc", FileEncoding::Utf8Bom), "abc");
    let sjis = [0x93u8, 0xFA, 0x96, 0x7B, 0x8C, 0xEA];
    assert_eq!(decode_bytes(&sjis, FileEncoding::ShiftJis), "日本語");
    let euc = [0xC6u8, 0xFC, 0xCB, 0xDC, 0xB8, 0xEC];
    assert_eq!(decode_bytes(&euc, FileEncoding::EucJp), "日本語");
}

#[test]
fn broken_utf8_is_replaced() {
    assert_eq!(decode_bytes(b"a\xFFb", FileEncoding::Utf8), "a\u{fffd}b");
    assert_eq!(decode_bytes(b"\xEF\xBB\xBFa\xFF", FileEncoding::Utf8Bom), "a\u{fffd}");
}

#[test]
fn texts_are_encoded() {
    assert_eq!(encode_string("日", FileEncoding::Utf8), vec![0xE6, 0x97, 0xA5]);
    assert_eq!(encode_string("a", FileEncoding::Utf8Bom), vec![0xEF, 0xBB, 0xBF, 0x61]);
    assert_eq!(
        encode_string("日本語", FileEncoding::ShiftJis),
        vec![0x93, 0xFA, 0x96, 0x7B, 0x8C, 0xEA]
    );
    assert_eq!(
        encode_string("日本語", FileEncoding::EucJp),
        vec![0xC6, 0xFC, 0xCB, 0xDC, 0xB8, 0xEC]
    );
}

#[test]
fn missing_characters_become_references() {
    assert_eq!(encode_string("😀", FileEncoding::ShiftJis), b"&#128512;".to_vec());
    assert_eq!(encode_string("😀", FileEncoding::EucJp), b"&#128512;".to_vec());
}

#[test]
fn encoded_texts_are_read_back() {
    for enc in [FileEncoding::Utf8, FileEncoding::Utf8Bom] {
        let bytes = encode_string(JAPANESE, enc);
        assert_eq!(detect_encoding(&bytes), enc);
        assert_eq!(decode_bytes(&bytes, enc), JAPANESE);
    }
    for enc in [FileEncoding::ShiftJis, FileEncoding::EucJp] {
        let bytes = encode_string(JAPANESE, enc);
        assert_eq!(decode_bytes(&bytes, enc), JAPANESE);
        assert_eq!(encode_string("plain\n", enc), b"plain\n".to_vec());
        assert_eq!(decode_bytes(b"plain\n", enc), "plain\n");
    }
}

#[test]
fn a_text_that_begins_with_the_mark_loses_it() {
    let bytes = encode_string("\u{feff}a", FileEncoding::Utf8);
    assert_eq!(detect_encoding(&bytes), FileEncoding::Utf8Bom);
    assert_eq!(decode_bytes(&bytes, FileEncoding::Utf8Bom), "a");
}

#[test]
fn crlf_prevails_in_a_uniform_file() {
    assert_eq!(detect_line_ending("a\r\nb\r\n"), LineEnding::Crlf);
}

#[test]
fn lf_prevails_in_a_uniform_file() {
    assert_eq!(detect_line_ending("a\nb\n"), LineEnding::Lf);
    assert_eq!(detect_line_ending(""), LineEnding::Lf);
    assert_eq!(detect_line_ending("a"), LineEnding::Lf);
}

#[test]
fn the_more_frequent_ending_prevails() {
    assert_eq!(detect_line_ending("a\r\nb\nc\nd\n"), LineEnding::Lf);
    assert_eq!(detect_line_ending("a\r\nb\r\nc\n"), LineEnding::Crlf);
    assert_eq!(detect_line_ending("a\r\nb\nc"), LineEnding::Crlf);
}

#[test]
fn a_lone_carriage_return_speaks_for_crlf() {
    assert_eq!(detect_line_ending("a\rb"), LineEnding::Crlf);
    assert_eq!(detect_line_ending("a\rb\nc"), LineEnding::Lf);
}
