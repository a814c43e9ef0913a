use psez::field::edit_field;
use psez::key::{KeyCode, KeyModifiers};
use psez::state::{Editor, Snapshot, UNDO_MAX, UNDO_MEM_CAP};
use psez::text::{chars_of, join_lines, split_lines, string_of};
use psez::undo::snapshot_mem;

fn text_of(editor: &Editor) -> Vec<String> {
    editor.lines.iter().map(|l| l.iter().collect()).collect()
}

fn editor_with(text: &str) -> Editor {
    let mut editor = Editor::new(80, 24);
    editor.lines = text.split('\n').map(|l| l.chars().collect()).collect();
    editor
}

#[test]
fn a_new_editor_is_empty() {
    let editor = Editor::new(80, 24);
    assert_eq!(text_of(&editor), vec![""]);
    assert_eq!((editor.row, editor.col, editor.top, editor.left), (0, 0, 0, 0));
    assert_eq!(editor.status, "Ctrl+S: Save / Ctrl+Q: Quit / Ctrl+H: Help");
    assert!(!editor.modified);
    assert_eq!(editor.text_rows(), 22);
}

#[test]
fn the_help_panel_takes_eight_rows() {
    let mut editor = Editor::new(80, 24);
    editor.show_help = true;
    assert_eq!(editor.text_rows(), 14);
    editor.term_rows = 5;
    assert_eq!(editor.text_rows(), 0);
    editor.show_help = false;
    assert_eq!(editor.text_rows(), 3);
    editor.term_rows = 1;
    assert_eq!(editor.text_rows(), 0);
}

#[test]
fn typing_inserts_before_the_cursor() {
    let mut editor = editor_with("ac");
    editor.col = 1;
    editor.insert_char('b');
    assert_eq!(text_of(&editor), vec!["abc"]);
    assert_eq!(editor.col, 2);
    assert!(editor.modified);
    editor.insert_tab();
    assert_eq!(text_of(&editor), vec!["ab\tc"]);
}

#[test]
fn enter_breaks_the_line() {
    let mut editor = editor_with("日本語");
    editor.col = 2;
    editor.insert_newline();
    assert_eq!(text_of(&editor), vec!["日本", "語"]);
    assert_eq!((editor.row, editor.col), (1, 0));
}

#[test]
fn enter_scrolls_at_the_last_row() {
    let mut editor = editor_with("a\nb");
    editor.term_rows = 4;
    editor.row = 1;
    editor.insert_newline();
    assert_eq!((editor.row, editor.top), (2, 1));
}

#[test]
fn backspace_deletes_backwards() {
    let mut editor = editor_with("ab\ncd");
    editor.row = 1;
    editor.col = 1;
    editor.backspace();
    assert_eq!(text_of(&editor), vec!["ab", "d"]);
    editor.backspace();
    assert_eq!(text_of(&editor), vec!["abd"]);
    assert_eq!((editor.row, editor.col), (0, 2));
}

#[test]
fn backspace_at_the_start_does_nothing() {
    let mut editor = editor_with("ab");
    editor.backspace();
    assert_eq!(text_of(&editor), vec!["ab"]);
    assert!(!editor.modified);
    assert_eq!(editor.undo_stack.len(), 0);
}

#[test]
fn delete_deletes_forwards() {
    let mut editor = editor_with("ab\ncd");
    editor.col = 1;
    editor.delete();
    assert_eq!(text_of(&editor), vec!["a", "cd"]);
    editor.delete();
    assert_eq!(text_of(&editor), vec!["acd"]);
    assert_eq!((editor.row, editor.col), (0, 1));
}

#[test]
fn delete_at_the_end_does_nothing() {
    let mut editor = editor_with("ab");
    editor.col = 2;
    editor.delete();
    assert_eq!(text_of(&editor), vec!["ab"]);
    assert_eq!(editor.undo_stack.len(), 0);
}

#[test]
fn undo_takes_back_change_by_change() {
    let mut editor = editor_with("");
    editor.insert_char('a');
    editor.insert_newline();
    editor.insert_char('b');
    editor.undo();
    assert_eq!(text_of(&editor), vec!["a", ""]);
    assert_eq!((editor.row, editor.col), (1, 0));
    assert_eq!(editor.status, "Undo");
    editor.undo();
    assert_eq!(text_of(&editor), vec!["a"]);
    editor.undo();
    assert_eq!(text_of(&editor), vec![""]);
    editor.undo();
    assert_eq!(editor.status, "Nothing to undo.");
}

#[test]
fn undo_scrolls_to_the_cursor() {
    let mut editor = editor_with("a\nb\nc\nd\ne\nf");
    editor.term_rows = 4;
    editor.row = 5;
    editor.top = 4;
    editor.insert_char('x');
    editor.row = 0;
    editor.top = 0;
    editor.undo();
    assert_eq!((editor.row, editor.top), (5, 4));
}

#[test]
fn at_most_a_thousand_changes_are_kept() {
    let mut editor = editor_with("");
    for _ in 0..UNDO_MAX + 5 {
        editor.insert_char('x');
    }
    assert_eq!(editor.undo_stack.len(), 1000);
    for _ in 0..1000 {
        editor.undo();
    }
    assert_eq!(text_of(&editor), vec!["xxxxx"]);
    editor.undo();
    assert_eq!(editor.status, "Nothing to undo.");
}

#[test]
fn the_history_is_limited_by_its_memory() {
    let mut editor = Editor::new(80, 24);
    editor.lines = vec![vec!['x'; UNDO_MEM_CAP / 8]];
    editor.insert_char('a');
    editor.insert_char('b');
    assert_eq!(editor.undo_stack.len(), 1);
    assert_eq!(editor.undo_total_mem, UNDO_MEM_CAP / 2 + 4);
    editor.undo();
    assert_eq!(editor.lines[0].len(), UNDO_MEM_CAP / 8 + 1);
}

#[test]
fn a_snapshot_takes_four_bytes_per_character() {
    let snap = Snapshot { lines: vec![vec!['a', '日'], vec![], vec!['b']], row: 0, col: 0 };
    assert_eq!(snapshot_mem(&snap), 12);
}

#[test]
fn moving_over_line_ends() {
    let mut editor = editor_with("ab\nc");
    editor.move_end();
    assert_eq!((editor.row, editor.col), (0, 2));
    editor.move_right();
    assert_eq!((editor.row, editor.col), (1, 0));
    editor.move_left();
    assert_eq!((editor.row, editor.col), (0, 2));
    editor.move_down();
    assert_eq!((editor.row, editor.col), (1, 1));
    editor.move_right();
    assert_eq!((editor.row, editor.col), (1, 1));
    editor.move_up();
    assert_eq!((editor.row, editor.col), (0, 1));
    editor.move_home();
    editor.move_left();
    assert_eq!((editor.row, editor.col), (0, 0));
}

#[test]
fn moving_by_pages() {
    let mut editor = editor_with("0\n1\n2\n3\n4\n5\n6\n7\n8\n9");
    editor.term_rows = 6;
    editor.page_down();
    assert_eq!((editor.top, editor.row), (4, 7));
    editor.page_down();
    assert_eq!((editor.top, editor.row), (6, 9));
    editor.page_up();
    assert_eq!((editor.top, editor.row), (2, 2));
    editor.page_up();
    assert_eq!((editor.top, editor.row), (0, 0));
}

#[test]
fn moving_down_scrolls() {
    let mut editor = editor_with("0\n1\n2");
    editor.term_rows = 4;
    editor.move_down();
    assert_eq!(editor.top, 0);
    editor.move_down();
    assert_eq!((editor.row, editor.top), (2, 1));
    editor.move_up();
    editor.move_up();
    assert_eq!((editor.row, editor.top), (0, 0));
}

#[test]
fn lines_of_texts() {
    let lines = |text: &str| -> Vec<String> { split_lines(text).iter().map(string_of).collect() };
    assert_eq!(lines("a\nb"), vec!["a", "b"]);
    assert_eq!(lines("a\r\nb\r\n"), vec!["a", "b"]);
    assert_eq!(lines("a\n\n"), vec!["a", ""]);
    assert_eq!(lines("a\rb\r"), vec!["a\rb\r"]);
    assert!(lines("").is_empty());
    assert_eq!(join_lines(&vec![chars_of("a"), chars_of(""), chars_of("b")], "\r\n"), "a\r\n\r\nb");
}

#[test]
fn input_fields_are_edited() {
    let mut buf: Vec<char> = vec!['a', 'c'];
    let mut cur: usize = 1;
    assert!(edit_field(&mut buf, &mut cur, KeyCode::Char('b'), KeyModifiers::Plain));
    assert_eq!((buf.iter().collect::<String>(), cur), (String::from("abc"), 2));
    assert!(!edit_field(&mut buf, &mut cur, KeyCode::Char('b'), KeyModifiers::Control));
    assert!(!edit_field(&mut buf, &mut cur, KeyCode::Home, KeyModifiers::Plain));
    assert!(!edit_field(&mut buf, &mut cur, KeyCode::Backspace, KeyModifiers::Plain));
    assert!(edit_field(&mut buf, &mut cur, KeyCode::Delete, KeyModifiers::Plain));
    assert_eq!(buf.iter().collect::<String>(), "bc");
    assert!(!edit_field(&mut buf, &mut cur, KeyCode::End, KeyModifiers::Plain));
    assert_eq!(cur, 2);
    assert!(!edit_field(&mut buf, &mut cur, KeyCode::Right, KeyModifiers::Plain));
    assert!(edit_field(&mut buf, &mut cur, KeyCode::Backspace, KeyModifiers::Plain));
    assert_eq!((buf.iter().collect::<String>(), cur), (String::from("b"), 1));
}
