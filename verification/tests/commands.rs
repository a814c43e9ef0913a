use psez::action::{Action, AfterSave};
use psez::encoding::{FileEncoding, LineEnding};
use psez::files::FileContents;
use psez::key::{KeyCode, KeyModifiers};
use psez::state::{Editor, FilePath, Prompt};

fn sheet(text: &str) -> Editor {
    let mut editor = Editor::new(80, 24);
    editor.lines = text.split('\n').map(|l| l.chars().collect()).collect();
    editor
}

fn joined(editor: &Editor) -> String {
    editor
        .lines
        .iter()
        .map(|l| l.iter().collect::<String>())
        .collect::<Vec<_>>()
        .join("\n")
}

fn plain(editor: &mut Editor, code: KeyCode) -> Action {
    editor.handle_key(code, KeyModifiers::Plain)
}

fn ctrl(editor: &mut Editor, c: char) -> Action {
    editor.handle_key(KeyCode::Char(c), KeyModifiers::Control)
}

#[test]
fn keys_edit_the_text() {
    let mut editor = sheet("");
    plain(&mut editor, KeyCode::Char('a'));
    editor.handle_key(KeyCode::Char('B'), KeyModifiers::Shift);
    plain(&mut editor, KeyCode::Enter);
    plain(&mut editor, KeyCode::Tab);
    plain(&mut editor, KeyCode::Char('c'));
    assert_eq!(joined(&editor), "aB\n\tc");
    plain(&mut editor, KeyCode::Backspace);
    plain(&mut editor, KeyCode::Up);
    plain(&mut editor, KeyCode::Home);
    plain(&mut editor, KeyCode::Delete);
    assert_eq!(joined(&editor), "B\n\t");
    plain(&mut editor, KeyCode::End);
    plain(&mut editor, KeyCode::Right);
    assert_eq!((editor.row, editor.col), (1, 0));
    plain(&mut editor, KeyCode::Left);
    plain(&mut editor, KeyCode::Down);
    assert_eq!((editor.row, editor.col), (1, 1));
}

#[test]
fn keys_with_other_modifiers_type_nothing() {
    let mut editor = sheet("a");
    editor.handle_key(KeyCode::Char('x'), KeyModifiers::Other);
    ctrl(&mut editor, 'k');
    plain(&mut editor, KeyCode::Other);
    plain(&mut editor, KeyCode::Esc);
    assert_eq!(joined(&editor), "a");
    assert!(!editor.modified);
}

#[test]
fn quitting_without_changes() {
    let mut editor = sheet("a");
    assert!(matches!(ctrl(&mut editor, 'q'), Action::Quit));
}

#[test]
fn quitting_with_changes_asks() {
    let mut editor = sheet("a");
    plain(&mut editor, KeyCode::Char('x'));
    assert!(matches!(ctrl(&mut editor, 'q'), Action::Continue));
    assert_eq!(
        editor.status,
        "Unsaved changes!  [S]ave and quit  [U]nsave and quit  [C]ancel"
    );
    assert!(matches!(plain(&mut editor, KeyCode::Char('z')), Action::Continue));
    assert!(matches!(editor.prompt, Prompt::QuitConfirm));
    assert!(matches!(plain(&mut editor, KeyCode::Char('C')), Action::Continue));
    assert_eq!(editor.status, "Quit cancelled.");
    ctrl(&mut editor, 'q');
    assert!(matches!(plain(&mut editor, KeyCode::Char('u')), Action::Quit));
}

#[test]
fn quitting_with_saving() {
    let mut editor = Editor::new(80, 24);
    let path = || FilePath { full: String::from("f"), name: String::from("f") };
    editor.open(path(), FileContents::Missing);
    plain(&mut editor, KeyCode::Char('x'));
    ctrl(&mut editor, 'q');
    match plain(&mut editor, KeyCode::Char('s')) {
        Action::Save { full, after } => {
            assert_eq!(full, "f");
            assert_eq!(after, AfterSave::Quit);
            assert_eq!(editor.save_to(path(), false), Some(b"x".to_vec()));
            editor.file_written(path());
            assert!(editor.finish_save(after));
        }
        _ => panic!(),
    }
}

#[test]
fn quitting_with_saving_under_a_new_name() {
    let mut editor = sheet("");
    plain(&mut editor, KeyCode::Char('x'));
    ctrl(&mut editor, 'q');
    assert!(matches!(plain(&mut editor, KeyCode::Char('S')), Action::Continue));
    assert_eq!(editor.status, "Save as: ");
    plain(&mut editor, KeyCode::Char('f'));
    match plain(&mut editor, KeyCode::Enter) {
        Action::Save { full, after } => {
            let path = FilePath { full, name: String::from("f") };
            editor.file_written(path);
            assert!(editor.finish_save(after));
        }
        _ => panic!(),
    }
}

#[test]
fn giving_up_the_name_gives_up_quitting() {
    let mut editor = sheet("");
    plain(&mut editor, KeyCode::Char('x'));
    ctrl(&mut editor, 'q');
    plain(&mut editor, KeyCode::Char('s'));
    plain(&mut editor, KeyCode::Esc);
    assert!(!editor.quit_after_save);
    assert!(editor.modified);
}

#[test]
fn saving_and_save_as() {
    let mut editor = sheet("a");
    assert!(matches!(ctrl(&mut editor, 's'), Action::Continue));
    assert_eq!(editor.status, "Save as: ");
    plain(&mut editor, KeyCode::Esc);
    assert!(matches!(ctrl(&mut editor, 'w'), Action::Continue));
    assert!(matches!(editor.prompt, Prompt::SaveAs { .. }));
}

#[test]
fn changing_the_encoding_in_two_steps() {
    let choices = [
        ('1', FileEncoding::Utf8),
        ('2', FileEncoding::Utf8Bom),
        ('3', FileEncoding::ShiftJis),
        ('4', FileEncoding::EucJp),
    ];
    for (digit, enc) in choices {
        for (letter, ending) in [('l', LineEnding::Lf), ('C', LineEnding::Crlf)] {
            let mut editor = sheet("a");
            ctrl(&mut editor, 'e');
            assert_eq!(
                editor.status,
                "Encoding: [1] UTF-8  [2] UTF-8 BOM  [3] Shift-JIS  [4] EUC-JP  Esc: Cancel  (current: UTF-8)"
            );
            plain(&mut editor, KeyCode::Char('9'));
            plain(&mut editor, KeyCode::Char(digit));
            assert_eq!(editor.status, "Line ending: [L] LF  [C] CRLF  Esc: Cancel");
            assert_eq!(editor.file_encoding, FileEncoding::Utf8);
            plain(&mut editor, KeyCode::Char('9'));
            plain(&mut editor, KeyCode::Char(letter));
            assert_eq!(editor.file_encoding, enc);
            assert_eq!(editor.line_ending, ending);
            assert_eq!(
                editor.status,
                format!("Set to {} / {} — Ctrl+S to save.", enc.label(), ending.label())
            );
        }
    }
}

#[test]
fn the_change_of_encoding_can_be_cancelled() {
    let mut editor = sheet("a");
    ctrl(&mut editor, 'e');
    plain(&mut editor, KeyCode::Esc);
    assert_eq!(editor.status, "Cancelled.");
    ctrl(&mut editor, 'e');
    plain(&mut editor, KeyCode::Char('3'));
    plain(&mut editor, KeyCode::Esc);
    assert_eq!(editor.status, "Cancelled.");
    assert_eq!(editor.file_encoding, FileEncoding::Utf8);
}

#[test]
fn word_wrap_and_help_are_toggled() {
    let mut editor = sheet("a");
    editor.left = 3;
    ctrl(&mut editor, 'b');
    assert!(editor.word_wrap);
    assert_eq!(editor.left, 0);
    assert_eq!(editor.status, "Word wrap: ON");
    ctrl(&mut editor, 'b');
    assert!(!editor.word_wrap);
    assert_eq!(editor.status, "Word wrap: OFF");
    ctrl(&mut editor, 'h');
    assert!(editor.show_help);
    ctrl(&mut editor, 'h');
    assert!(!editor.show_help);
}

#[test]
fn keys_that_need_room_on_the_screen() {
    let mut editor = sheet("a\nb");
    assert!(editor.can_handle(KeyCode::PageDown, KeyModifiers::Plain));
    plain(&mut editor, KeyCode::Char('x'));
    editor.resize(80, 2);
    assert_eq!((editor.term_cols, editor.term_rows), (80, 2));
    assert!(!editor.can_handle(KeyCode::PageDown, KeyModifiers::Plain));
    assert!(!editor.can_handle(KeyCode::Char('z'), KeyModifiers::Control));
    assert!(editor.can_handle(KeyCode::PageUp, KeyModifiers::Plain));
    assert!(editor.can_handle(KeyCode::Char('z'), KeyModifiers::Plain));
}

#[test]
fn keys_that_cannot_be_carried_out() {
    let mut editor = sheet("a\nb");
    editor.resize(80, 2);
    assert!(editor.try_key(KeyCode::PageDown, KeyModifiers::Plain).is_none());
    assert_eq!((editor.row, editor.top), (0, 0));
    assert!(matches!(
        editor.try_key(KeyCode::Char('q'), KeyModifiers::Control),
        Some(Action::Quit)
    ));
}

#[test]
fn keys_of_prompts_that_are_not_open() {
    let mut editor = sheet("abc");
    assert!(!editor.handle_replace_key(KeyCode::Char('x'), KeyModifiers::Plain));
    assert!(!editor.handle_enc_select_key(KeyCode::Char('3')));
    assert!(editor.handle_symlink_confirm_key(KeyCode::Char('y')).is_none());
    assert!(editor.handle_prompt_key(KeyCode::Char('y'), KeyModifiers::Plain).is_none());
    assert!(matches!(editor.prompt, Prompt::Closed));
    assert_eq!(joined(&editor), "abc");
    assert_eq!(editor.status, "Ctrl+S: Save / Ctrl+Q: Quit / Ctrl+H: Help");
    ctrl(&mut editor, 'e');
    assert!(editor.handle_enc_select_key(KeyCode::Char('3')));
    editor.handle_search_key(KeyCode::Char('x'), KeyModifiers::Plain);
    assert_eq!(editor.status, "Search: ");
    assert!(matches!(editor.prompt, Prompt::EncodingSelect(_)));
}

#[test]
fn paging_through_keys() {
    let mut editor = sheet("0\n1\n2\n3\n4\n5\n6\n7\n8\n9");
    editor.resize(80, 6);
    plain(&mut editor, KeyCode::PageDown);
    assert_eq!((editor.top, editor.row), (4, 7));
    plain(&mut editor, KeyCode::PageUp);
    assert_eq!((editor.top, editor.row), (0, 0));
}

#[test]
fn a_search_that_is_left_moves_nothing() {
    let mut editor = sheet("abc\nabc");
    editor.row = 1;
    editor.col = 2;
    ctrl(&mut editor, 'f');
    plain(&mut editor, KeyCode::Esc);
    assert_eq!((editor.row, editor.col), (1, 2));
    assert_eq!(joined(&editor), "abc\nabc");
}
