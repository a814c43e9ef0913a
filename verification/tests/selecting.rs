use psez::action::Action;
use psez::key::{KeyCode, KeyModifiers};
use psez::state::{Editor, Selection};

fn document(text: &str) -> Editor {
    let mut editor = Editor::new(80, 24);
    editor.lines = text.split('\n').map(|l| l.chars().collect()).collect();
    editor
}

fn contents(editor: &Editor) -> String {
    editor
        .lines
        .iter()
        .map(|l| l.iter().collect::<String>())
        .collect::<Vec<_>>()
        .join("\n")
}

fn control(editor: &mut Editor, c: char) -> Action {
    editor.handle_key(KeyCode::Char(c), KeyModifiers::Control)
}

fn select(editor: &mut Editor, from: (usize, usize), to: (usize, usize), is_cut: bool) {
    editor.selection = Some(Selection { anchor_row: from.0, anchor_col: from.1, is_cut });
    editor.row = to.0;
    editor.col = to.1;
}

#[test]
fn selected_characters_are_those_between_the_ends() {
    let mut editor = document("abc\ndef");
    select(&mut editor, (1, 1), (0, 1), false);
    assert_eq!(editor.selection_range(), Some(((0, 1), (1, 1))));
    assert!(!editor.in_selection(0, 0));
    assert!(editor.in_selection(0, 1));
    assert!(editor.in_selection(1, 0));
    assert!(!editor.in_selection(1, 1));
}

#[test]
fn copying_takes_two_keys() {
    let mut editor = document("abc\ndef\nghi");
    assert!(matches!(control(&mut editor, 'c'), Action::Continue));
    assert_eq!(editor.status, "Copy: move cursor to selection end, then Ctrl+C again.");
    editor.row = 2;
    editor.col = 1;
    match control(&mut editor, 'c') {
        Action::Copy(text) => assert_eq!(text, "abc\ndef\ng"),
        _ => panic!(),
    }
    assert_eq!(editor.status, "Copied.");
    assert!(editor.selection.is_none());
    assert_eq!(contents(&editor), "abc\ndef\nghi");
    assert_eq!(editor.clipboard_to_string(), "abc\ndef\ng");
}

#[test]
fn cutting_takes_two_keys() {
    let mut editor = document("abc\ndef\nghi");
    editor.col = 1;
    assert!(matches!(control(&mut editor, 'x'), Action::Continue));
    assert_eq!(editor.status, "Cut: move cursor to selection end, then Ctrl+X again.");
    editor.row = 2;
    editor.col = 2;
    match control(&mut editor, 'x') {
        Action::Copy(text) => assert_eq!(text, "bc\ndef\ngh"),
        _ => panic!(),
    }
    assert_eq!(editor.status, "Cut.");
    assert_eq!(contents(&editor), "ai");
    assert_eq!((editor.row, editor.col), (0, 1));
    assert!(editor.modified);
    control(&mut editor, 'z');
    assert_eq!(contents(&editor), "abc\ndef\nghi");
}

#[test]
fn a_selection_can_switch_between_copy_and_cut() {
    let mut editor = document("abc");
    control(&mut editor, 'c');
    control(&mut editor, 'x');
    assert_eq!(editor.status, "Switched to cut mode. Press Ctrl+X again to cut.");
    control(&mut editor, 'c');
    assert_eq!(editor.status, "Switched to copy mode. Press Ctrl+C again to copy.");
    editor.handle_key(KeyCode::Esc, KeyModifiers::Plain);
    assert_eq!(editor.status, "Selection cancelled.");
    assert!(editor.selection.is_none());
}

#[test]
fn cut_text_comes_back() {
    let mut editor = document("abc\ndef\nghi");
    select(&mut editor, (2, 1), (0, 2), true);
    editor.clipboard = editor.collect_selected();
    editor.delete_selected();
    assert_eq!(contents(&editor), "abhi");
    editor.paste(None);
    assert_eq!(contents(&editor), "abc\ndef\nghi");
    assert_eq!((editor.row, editor.col), (2, 1));
}

#[test]
fn a_single_line_is_pasted_into_a_line() {
    let mut editor = document("ad");
    editor.col = 1;
    editor.paste(Some(String::from("bc")));
    assert_eq!(contents(&editor), "abcd");
    assert_eq!((editor.row, editor.col), (0, 3));
}

#[test]
fn several_lines_are_pasted() {
    let mut editor = document("ad");
    editor.col = 1;
    editor.paste(Some(String::from("1\r\n2\r\n3")));
    assert_eq!(contents(&editor), "a1\n2\n3d");
    assert_eq!((editor.row, editor.col), (2, 1));
    editor.undo();
    assert_eq!(contents(&editor), "ad");
}

#[test]
fn nothing_is_pasted_from_an_empty_clipboard() {
    let mut editor = document("a");
    editor.paste(None);
    assert_eq!(contents(&editor), "a");
    assert!(!editor.modified);
    assert_eq!(editor.undo_stack.len(), 0);
    editor.paste(Some(String::new()));
    assert_eq!(contents(&editor), "a");
    assert!(editor.modified);
    assert_eq!(editor.undo_stack.len(), 1);
}

#[test]
fn pasting_scrolls_to_the_cursor() {
    let mut editor = document("a");
    editor.term_rows = 5;
    editor.paste(Some(String::from("1\n2\n3\n4\n5")));
    assert_eq!((editor.row, editor.top), (4, 2));
}

#[test]
fn everything_can_be_selected() {
    let mut editor = document("abc\nde");
    control(&mut editor, 'a');
    assert_eq!(editor.status, "Selected all.");
    assert_eq!((editor.row, editor.col), (1, 2));
    match control(&mut editor, 'c') {
        Action::Copy(text) => assert_eq!(text, "abc\nde"),
        _ => panic!(),
    }
}

#[test]
fn a_trailing_empty_line_is_lost_in_the_system_clipboard() {
    let mut editor = document("ab\ncd");
    select(&mut editor, (0, 0), (1, 0), true);
    match control(&mut editor, 'x') {
        Action::Copy(text) => {
            assert_eq!(text, "ab\n");
            editor.paste(Some(text));
        }
        _ => panic!(),
    }
    assert_eq!(contents(&editor), "abcd");
}

#[test]
fn pasting_asks_for_the_system_clipboard() {
    let mut editor = document("ab");
    select(&mut editor, (0, 0), (0, 1), true);
    assert!(matches!(control(&mut editor, 'v'), Action::Paste));
    assert!(editor.selection.is_none());
}

#[test]
fn room_for_a_paste() {
    let mut editor = document("ab");
    assert!(editor.can_paste(&None));
    editor.term_rows = 2;
    assert!(editor.can_paste(&None));
    assert!(!editor.can_paste(&Some(String::from("x"))));
}

#[test]
fn a_selection_that_left_the_text_is_refused() {
    let mut editor = document("ab");
    select(&mut editor, (3, 0), (0, 1), false);
    assert!(!editor.can_handle(KeyCode::Char('c'), KeyModifiers::Control));
    assert!(editor.can_handle(KeyCode::Char('x'), KeyModifiers::Control));
}
