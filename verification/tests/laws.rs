use psez::action::Action;
use psez::draw::Draw;
use psez::encoding::{FileEncoding, LineEnding};
use psez::files::FileContents;
use psez::key::{KeyCode, KeyModifiers};
use psez::layout::{cell_count, columns_before, wrapped_before};
use psez::state::{EncStep, Editor, FilePath, Prompt, ReplaceStep, Selection};
use psez::text::{join_lines, split_lines};

fn draft(text: &str) -> Editor {
    let mut editor = Editor::new(80, 24);
    editor.lines = text.split('\n').map(|l| l.chars().collect()).collect();
    editor
}

fn flat(editor: &Editor) -> String {
    editor
        .lines
        .iter()
        .map(|l| l.iter().collect::<String>())
        .collect::<Vec<_>>()
        .join("\n")
}

fn at(editor: &Editor) -> (usize, usize) {
    (editor.row, editor.col)
}

#[test]
fn backspace_takes_back_a_character_and_a_line_break() {
    let mut editor = draft("日本\n語");
    editor.col = 1;
    editor.insert_char('x');
    editor.backspace();
    assert_eq!((flat(&editor), at(&editor)), (String::from("日本\n語"), (0, 1)));
    editor.insert_newline();
    editor.backspace();
    assert_eq!((flat(&editor), at(&editor)), (String::from("日本\n語"), (0, 1)));
}

#[test]
fn delete_is_backspace_from_the_right() {
    for col in 0..3 {
        let mut a = draft("ab\ncd");
        let mut b = draft("ab\ncd");
        a.col = col;
        b.col = col;
        a.delete();
        b.move_right();
        b.backspace();
        assert_eq!((flat(&a), at(&a)), (flat(&b), at(&b)));
    }
}

#[test]
fn undo_takes_back_every_editing_key() {
    let keys = [
        KeyCode::Char('x'),
        KeyCode::Tab,
        KeyCode::Enter,
        KeyCode::Backspace,
        KeyCode::Delete,
    ];
    for code in keys {
        let mut editor = draft("ab\ncd");
        editor.col = 1;
        editor.handle_key(code, KeyModifiers::Plain);
        assert_ne!(flat(&editor), "ab\ncd");
        assert!(editor.modified);
        editor.undo();
        assert_eq!((flat(&editor), at(&editor)), (String::from("ab\ncd"), (0, 1)));
        assert_eq!(editor.undo_stack.len(), 0);
    }
}

#[test]
fn moves_change_no_text() {
    let keys = [
        KeyCode::Up,
        KeyCode::Down,
        KeyCode::Left,
        KeyCode::Right,
        KeyCode::Home,
        KeyCode::End,
        KeyCode::PageUp,
        KeyCode::PageDown,
    ];
    for code in keys {
        let mut editor = draft("abc\n\nde");
        editor.col = 2;
        editor.handle_key(code, KeyModifiers::Plain);
        assert_eq!(flat(&editor), "abc\n\nde");
        assert!(editor.col <= editor.lines[editor.row].len());
        assert!(editor.top <= editor.row && editor.row < editor.top + editor.text_rows());
        assert!(!editor.modified);
    }
}

#[test]
fn right_takes_back_left() {
    let mut editor = draft("ab\nc");
    editor.row = 1;
    editor.move_left();
    editor.move_right();
    assert_eq!(at(&editor), (1, 0));
}

#[test]
fn joined_lines_are_split_again() {
    for separator in ["\n", "\r\n"] {
        for text in ["a", "", "a\nb", "\n\nx", "日\n\n本"] {
            let lines: Vec<Vec<char>> = text.split('\n').map(|l| l.chars().collect()).collect();
            let back = split_lines(&join_lines(&lines, separator));
            if text.is_empty() {
                assert!(back.is_empty());
            } else {
                assert_eq!(back, lines);
            }
        }
    }
}

#[test]
fn a_pasted_block_can_be_cut_out_again() {
    let mut editor = draft("abc\ndef");
    editor.col = 2;
    editor.paste(Some(String::from("1\n2\n3")));
    assert_eq!(flat(&editor), "ab1\n2\n3c\ndef");
    editor.selection = Some(Selection { anchor_row: 0, anchor_col: 2, is_cut: true });
    match editor.handle_key(KeyCode::Char('x'), KeyModifiers::Control) {
        Action::Copy(text) => assert_eq!(text, "1\n2\n3"),
        _ => panic!(),
    }
    assert_eq!((flat(&editor), at(&editor)), (String::from("abc\ndef"), (0, 2)));
}

#[test]
fn cut_text_comes_back_through_the_system() {
    let mut editor = draft("abc\ndef\nghi");
    editor.selection = Some(Selection { anchor_row: 0, anchor_col: 1, is_cut: true });
    editor.row = 2;
    editor.col = 2;
    match editor.handle_key(KeyCode::Char('x'), KeyModifiers::Control) {
        Action::Copy(text) => editor.paste(Some(text)),
        _ => panic!(),
    }
    assert_eq!((flat(&editor), at(&editor)), (String::from("abc\ndef\nghi"), (2, 2)));
}

#[test]
fn copying_gives_the_clipboard_what_cutting_does() {
    let mut texts = Vec::new();
    for (is_cut, key) in [(false, 'c'), (true, 'x')] {
        let mut editor = draft("abc\ndef");
        editor.selection = Some(Selection { anchor_row: 0, anchor_col: 1, is_cut });
        editor.row = 1;
        editor.col = 1;
        match editor.handle_key(KeyCode::Char(key), KeyModifiers::Control) {
            Action::Copy(text) => texts.push((text, editor.clipboard)),
            _ => panic!(),
        }
    }
    assert_eq!(texts[0], texts[1]);
}

#[test]
fn japanese_files_are_opened_as_they_were_saved() {
    let text = "これは日本語の文章です。\n文字コードを自動で判別します。\n以上。";
    for enc in [FileEncoding::ShiftJis, FileEncoding::EucJp] {
        let mut editor = draft(text);
        editor.file_encoding = enc;
        editor.line_ending = LineEnding::Crlf;
        let mut opened = Editor::new(80, 24);
        let path = FilePath { full: String::from("j"), name: String::from("j") };
        opened.open(path, FileContents::Read(editor.write_file()));
        assert_eq!(flat(&opened), text);
        assert_eq!(opened.file_encoding, enc);
        assert_eq!(opened.line_ending, LineEnding::Crlf);
        assert_eq!(opened.write_file(), editor.write_file());
    }
}

#[test]
fn escape_closes_every_prompt() {
    let prompts = || {
        vec![
            Prompt::SaveAs { buf: vec!['a'], cur: 1 },
            Prompt::QuitConfirm,
            Prompt::EncodingSelect(EncStep::ChooseEncoding),
            Prompt::EncodingSelect(EncStep::ChooseLineEnding(FileEncoding::EucJp)),
            Prompt::SymlinkConfirm(FilePath { full: String::from("l"), name: String::from("l") }),
            Prompt::Search { buf: vec![], cur: 0 },
            Prompt::Replace {
                search_buf: vec![],
                replace_buf: vec!['b'],
                search_cur: 0,
                replace_cur: 1,
                step: ReplaceStep::SearchInput,
            },
            Prompt::Replace {
                search_buf: vec![],
                replace_buf: vec!['b'],
                search_cur: 0,
                replace_cur: 0,
                step: ReplaceStep::ReplaceInput,
            },
        ]
    };
    for prompt in prompts() {
        let mut editor = draft("abc");
        editor.modified = true;
        editor.prompt = prompt;
        let action = editor.handle_key(KeyCode::Esc, KeyModifiers::Plain);
        assert!(matches!(action, Action::Continue));
        assert!(matches!(editor.prompt, Prompt::Closed));
        assert_eq!(flat(&editor), "abc");
        assert!(editor.modified);
        assert_eq!(editor.file_encoding, FileEncoding::Utf8);
    }
}

/// Row and column at which a terminal writes next.
fn tip(ops: &[Draw]) -> (usize, usize) {
    let mut place = (0, 0);
    for op in ops {
        match *op {
            Draw::MoveTo { col, row } => place = (row as usize, col as usize),
            Draw::Put(c) => place.1 += cell_count(c),
            _ => {}
        }
    }
    place
}

/// The place at which a character is first written.
fn place_of(ops: &[Draw], c: char) -> (usize, usize) {
    let i = ops.iter().position(|op| *op == Draw::Put(c)).unwrap();
    tip(&ops[..i])
}

#[test]
fn the_cursor_stands_on_its_character() {
    let text = "aあbいcうdえeお";
    for wrap in [false, true] {
        for cols in [5u16, 6, 7, 40] {
            for col in 0..10 {
                let mut editor = draft(text);
                editor.resize(cols, 24);
                editor.word_wrap = wrap;
                editor.col = col;
                let ops = editor.show().unwrap();
                let cursor = match ops[ops.len() - 2] {
                    Draw::MoveTo { col, row } => (row as usize, col as usize),
                    _ => panic!(),
                };
                let c = editor.lines[0][col];
                if ops.contains(&Draw::Put(c)) {
                    assert_eq!(place_of(&ops, c), cursor);
                }
                assert!(cursor.1 < cols as usize);
            }
        }
    }
}

#[test]
fn wrapped_lines_stay_within_the_screen() {
    let line: Vec<char> = "aあ\tbい\t\tうえおc\tか".chars().collect();
    for tw in 4..12 {
        let mut last = 0;
        for col in 0..=line.len() {
            let (row, x) = wrapped_before(tw, &line, col);
            assert!(x < tw);
            assert!(row >= last);
            last = row;
        }
    }
    assert_eq!(wrapped_before(1, &vec!['あ'], 1), (1, 2));
    assert_eq!(wrapped_before(2, &vec!['a', 'あ'], 2), (1, 2));
}

#[test]
fn tabs_end_at_stops() {
    for text in ["\t", "a\t", "ab\t", "abc\t", "abcd\t", "あ\t", "aあ\t"] {
        let line: Vec<char> = text.chars().collect();
        let n = line.len();
        assert_eq!(columns_before(&line, n) % 4, 0);
        assert!(columns_before(&line, n) > columns_before(&line, n - 1));
    }
}
