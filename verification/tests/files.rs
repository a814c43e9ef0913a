use psez::action::{Action, AfterSave};
use psez::encoding::{can_read, FileEncoding, LineEnding};
use psez::files::FileContents;
use psez::key::{KeyCode, KeyModifiers};
use psez::state::{Editor, FilePath, Prompt, MAX_FILE_BYTES};

fn path(full: &str, name: &str) -> FilePath {
    FilePath { full: String::from(full), name: String::from(name) }
}

fn read(bytes: &[u8]) -> Editor {
    let mut editor = Editor::new(80, 24);
    editor.open(path("/tmp/a.txt", "a.txt"), FileContents::Read(bytes.to_vec()));
    editor
}

fn lines(editor: &Editor) -> Vec<String> {
    editor.lines.iter().map(|l| l.iter().collect()).collect()
}

fn key(editor: &mut Editor, code: KeyCode) -> Action {
    editor.handle_key(code, KeyModifiers::Plain)
}

#[test]
fn a_file_is_opened() {
    let editor = read(b"one\r\ntwo\r\n");
    assert_eq!(lines(&editor), vec!["one", "two"]);
    assert_eq!(editor.file_encoding, FileEncoding::Utf8);
    assert_eq!(editor.line_ending, LineEnding::Crlf);
    assert_eq!(
        editor.status,
        "Opened: a.txt  |  Ctrl+S: Save / Ctrl+Q: Quit / Ctrl+H: Help"
    );
    assert_eq!(editor.path.as_ref().map(|p| p.full.as_str()), Some("/tmp/a.txt"));
    assert!(!editor.modified);
}

#[test]
fn an_empty_file_has_one_line() {
    let editor = read(b"");
    assert_eq!(lines(&editor), vec![""]);
    assert_eq!(editor.file_encoding, FileEncoding::Utf8);
    assert_eq!(editor.line_ending, LineEnding::Lf);
}

#[test]
fn a_text_is_taken_over() {
    let mut editor = Editor::new(80, 24);
    editor.load_text("日\r\n本\r\n", FileEncoding::ShiftJis);
    assert_eq!(lines(&editor), vec!["日", "本"]);
    assert_eq!(editor.file_encoding, FileEncoding::ShiftJis);
    assert_eq!(editor.line_ending, LineEnding::Crlf);
    editor.load_text("", FileEncoding::EucJp);
    assert_eq!(lines(&editor), vec![""]);
}

#[test]
fn a_missing_file_is_new() {
    let mut editor = Editor::new(80, 24);
    editor.open(path("dir/b.txt", "b.txt"), FileContents::Missing);
    assert_eq!(lines(&editor), vec![""]);
    assert_eq!(
        editor.status,
        "New file: b.txt  |  Ctrl+S: Save / Ctrl+Q: Quit / Ctrl+H: Help"
    );
    assert!(editor.path.is_some());
}

#[test]
fn a_file_that_cannot_be_read_is_reported() {
    let mut editor = Editor::new(80, 24);
    editor.open(path("c", "c"), FileContents::Failed(String::from("denied")));
    assert_eq!(editor.status, "Error reading file: denied");
    assert!(editor.path.is_some());
}

#[test]
fn large_files_are_not_opened() {
    let mut editor = Editor::new(80, 24);
    assert!(editor.admit_size(MAX_FILE_BYTES));
    assert_eq!(editor.status, "Ctrl+S: Save / Ctrl+Q: Quit / Ctrl+H: Help");
    assert!(!editor.admit_size(MAX_FILE_BYTES + 1));
    assert_eq!(editor.status, "Error: file too large (500 MB). Limit is 500 MB.");
    assert!(!editor.admit_size(1024 * 1024 * 1024));
    assert_eq!(editor.status, "Error: file too large (1024 MB). Limit is 500 MB.");
}

#[test]
fn a_saved_file_is_opened_as_the_same_text() {
    for enc in [FileEncoding::Utf8, FileEncoding::Utf8Bom] {
        for ending in [LineEnding::Lf, LineEnding::Crlf] {
            let mut editor = Editor::new(80, 24);
            editor.lines = vec!["日本語".chars().collect(), vec![], "end".chars().collect()];
            editor.file_encoding = enc;
            editor.line_ending = ending;
            assert!(editor.can_encode());
            let opened = read(&editor.write_file());
            assert_eq!(lines(&opened), vec!["日本語", "", "end"]);
            assert_eq!(opened.file_encoding, enc);
            assert_eq!(opened.line_ending, ending);
        }
    }
}

#[test]
fn an_unchanged_file_is_written_as_it_was() {
    for bytes in [&b"one\ntwo"[..], &b"one\r\ntwo"[..], &b"\xEF\xBB\xBFone\ntwo"[..]] {
        assert_eq!(read(bytes).write_file(), bytes.to_vec());
    }
}

#[test]
fn ascii_is_the_same_in_japanese_encodings() {
    for enc in [FileEncoding::ShiftJis, FileEncoding::EucJp] {
        let mut editor = read(b"plain\ntext");
        editor.file_encoding = enc;
        assert!(editor.can_encode());
        assert_eq!(editor.write_file(), b"plain\ntext".to_vec());
    }
}

#[test]
fn a_final_line_break_is_not_written_back() {
    assert_eq!(read(b"one\n").write_file(), b"one".to_vec());
    let mut editor = Editor::new(80, 24);
    editor.lines = vec![vec!['a'], vec![]];
    assert_eq!(editor.write_file(), b"a\n".to_vec());
    assert_eq!(lines(&read(b"a\n")), vec!["a"]);
}

#[test]
fn a_final_line_break_does_not_hide_the_line_ending() {
    for ending in [LineEnding::Lf, LineEnding::Crlf] {
        let mut editor = Editor::new(80, 24);
        editor.lines = vec![vec!['a'], vec![], vec![]];
        editor.line_ending = ending;
        let opened = read(&editor.write_file());
        assert_eq!(lines(&opened), vec!["a", ""]);
        assert_eq!(opened.line_ending, ending);
    }
}

#[test]
fn shift_jis_files_are_written_in_shift_jis() {
    let mut editor = read("日本語".as_bytes());
    editor.file_encoding = FileEncoding::ShiftJis;
    assert_eq!(editor.write_file(), vec![0x93, 0xFA, 0x96, 0x7B, 0x8C, 0xEA]);
    editor.file_encoding = FileEncoding::EucJp;
    assert_eq!(editor.write_file(), vec![0xC6, 0xFC, 0xCB, 0xDC, 0xB8, 0xEC]);
}

#[test]
fn saving_under_the_known_path() {
    let mut editor = read(b"a");
    editor.insert_char('b');
    match editor.save() {
        Action::Save { full, after } => {
            assert_eq!(full, "/tmp/a.txt");
            assert_eq!(after, AfterSave::Stay);
        }
        _ => panic!(),
    }
    let bytes = editor.save_to(path("/tmp/a.txt", "a.txt"), false);
    assert_eq!(bytes, Some(b"ba".to_vec()));
    assert!(editor.modified);
    editor.file_written(path("/tmp/a.txt", "a.txt"));
    assert!(!editor.modified);
    assert_eq!(editor.status, "Saved: /tmp/a.txt");
    assert!(!editor.finish_save(AfterSave::Stay));
}

#[test]
fn saving_without_a_path_asks_for_one() {
    let mut editor = Editor::new(80, 24);
    assert!(matches!(editor.save(), Action::Continue));
    assert_eq!(editor.status, "Save as: ");
    for c in "x.txt".chars() {
        key(&mut editor, KeyCode::Char(c));
    }
    assert_eq!(editor.status, "Save as: x.txt");
    match key(&mut editor, KeyCode::Enter) {
        Action::Save { full, after } => {
            assert_eq!(full, "x.txt");
            assert_eq!(after, AfterSave::CheckQuit);
        }
        _ => panic!(),
    }
    assert!(matches!(editor.prompt, Prompt::Closed));
}

#[test]
fn save_as_offers_the_old_name() {
    let mut editor = read(b"a");
    editor.start_save_as();
    assert_eq!(editor.status, "Save as: a.txt");
    match &editor.prompt {
        Prompt::SaveAs { buf, cur } => {
            assert_eq!(buf.iter().collect::<String>(), "a.txt");
            assert_eq!(*cur, 5);
        }
        _ => panic!(),
    }
}

#[test]
fn an_empty_name_is_refused() {
    let mut editor = Editor::new(80, 24);
    editor.start_save_as();
    assert!(matches!(key(&mut editor, KeyCode::Enter), Action::Continue));
    assert_eq!(editor.status, "Cancelled – no filename given.");
    editor.start_save_as();
    key(&mut editor, KeyCode::Esc);
    assert_eq!(editor.status, "Cancelled.");
}

#[test]
fn a_symlink_is_confirmed_first() {
    let mut editor = read(b"a");
    assert_eq!(editor.save_to(path("/tmp/l", "l"), true), None);
    assert_eq!(editor.status, "\"/tmp/l\" is a symlink. Save to target anyway? [Y]es / [N]o");
    assert!(matches!(key(&mut editor, KeyCode::Char('x')), Action::Continue));
    assert!(matches!(editor.prompt, Prompt::SymlinkConfirm(_)));
    match key(&mut editor, KeyCode::Char('Y')) {
        Action::Write { path, after } => {
            assert_eq!(path.full, "/tmp/l");
            assert_eq!(after, AfterSave::CheckQuit);
        }
        _ => panic!(),
    }
    assert!(matches!(editor.prompt, Prompt::Closed));
}

#[test]
fn a_symlink_can_be_spared() {
    for code in [KeyCode::Char('n'), KeyCode::Char('N'), KeyCode::Esc] {
        let mut editor = read(b"a");
        editor.save_to(path("/tmp/l", "l"), true);
        assert!(matches!(key(&mut editor, code), Action::Continue));
        assert_eq!(editor.status, "Save cancelled.");
        assert!(matches!(editor.prompt, Prompt::Closed));
    }
}

#[test]
fn bytes_that_can_be_read() {
    assert!(can_read(b""));
    assert!(can_read("日本".as_bytes()));
    assert!(can_read(b"\xEF\xBB\xBFa"));
    assert!(can_read(b"\xEF\xBB\xBF\xFF"));
    assert!(can_read(b"\x93\xFA"));
}

#[test]
fn finishing_a_save() {
    let mut editor = read(b"a");
    assert!(!editor.finish_save(AfterSave::CheckQuit));
    assert!(editor.finish_save(AfterSave::Quit));
    assert!(editor.pending_quit);
    assert!(editor.finish_save(AfterSave::CheckQuit));
    assert!(!editor.finish_save(AfterSave::Stay));
}

#[test]
fn every_text_fits() {
    assert!(read(b"a\nb").fits());
}
