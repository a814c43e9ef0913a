use psez::key::{KeyCode, KeyModifiers};
use psez::state::{Editor, Prompt};

fn page(text: &str) -> Editor {
    let mut editor = Editor::new(80, 24);
    editor.lines = text.split('\n').map(|l| l.chars().collect()).collect();
    editor
}

fn lines_of(editor: &Editor) -> Vec<String> {
    editor.lines.iter().map(|l| l.iter().collect()).collect()
}

fn press(editor: &mut Editor, code: KeyCode) {
    editor.handle_key(code, KeyModifiers::Plain);
}

fn type_text(editor: &mut Editor, text: &str) {
    for c in text.chars() {
        press(editor, KeyCode::Char(c));
    }
}

fn open_search(editor: &mut Editor, query: &str) {
    editor.handle_key(KeyCode::Char('f'), KeyModifiers::Control);
    type_text(editor, query);
}

fn replace(editor: &mut Editor, query: &str, with: &str) {
    editor.handle_key(KeyCode::Char('r'), KeyModifiers::Control);
    type_text(editor, query);
    press(editor, KeyCode::Enter);
    type_text(editor, with);
    press(editor, KeyCode::Enter);
}

#[test]
fn all_matches_are_found() {
    let mut editor = page("abab\nxaba\naa");
    open_search(&mut editor, "ab");
    assert_eq!(editor.search_matches, vec![(0, 0), (0, 2), (1, 1)]);
    open_search(&mut editor, "");
    assert_eq!(editor.status, "Search: ab  [1/3]  Enter=next  Esc=close");
}

#[test]
fn matches_may_overlap() {
    let mut editor = page("aaaa");
    open_search(&mut editor, "aa");
    assert_eq!(editor.search_matches, vec![(0, 0), (0, 1), (0, 2)]);
}

#[test]
fn the_search_begins_at_the_cursor() {
    let mut editor = page("ab\nab\nab");
    editor.row = 1;
    open_search(&mut editor, "b");
    assert_eq!((editor.row, editor.col), (1, 1));
    assert_eq!(editor.search_match_idx, 1);
    assert_eq!(editor.find_nearest_match_from(2, 5), 0);
    assert_eq!(editor.find_nearest_match_from(0, 0), 0);
    assert_eq!(editor.find_nearest_match_from(2, 0), 2);
}

#[test]
fn enter_goes_from_match_to_match() {
    let mut editor = page("x1\nx2\nx3");
    open_search(&mut editor, "x");
    assert_eq!(editor.row, 0);
    press(&mut editor, KeyCode::Enter);
    assert_eq!(editor.row, 1);
    assert_eq!(editor.status, "Search: x  [2/3]  Enter=next  Esc=close");
    press(&mut editor, KeyCode::Enter);
    press(&mut editor, KeyCode::Enter);
    assert_eq!(editor.row, 0);
}

#[test]
fn a_missing_query_is_reported() {
    let mut editor = page("abc");
    open_search(&mut editor, "xyz");
    assert_eq!(editor.status, "Search: xyz  (not found)");
    press(&mut editor, KeyCode::Backspace);
    press(&mut editor, KeyCode::Backspace);
    press(&mut editor, KeyCode::Backspace);
    assert_eq!(editor.status, "Search: ");
}

#[test]
fn matches_are_highlighted() {
    let mut editor = page("ab ab");
    open_search(&mut editor, "ab");
    assert_eq!(editor.search_attr_at(0, 0), 2);
    assert_eq!(editor.search_attr_at(0, 1), 2);
    assert_eq!(editor.search_attr_at(0, 2), 0);
    assert_eq!(editor.search_attr_at(0, 3), 1);
    assert_eq!(editor.search_attr_at(0, 5), 0);
    assert_eq!(editor.search_attr_at(1, 0), 0);
}

#[test]
fn the_current_match_is_highlighted_as_a_whole() {
    let mut editor = page("aaa");
    editor.search_query = vec!['a', 'a'];
    editor.update_search();
    editor.search_match_idx = 1;
    assert_eq!(editor.search_attr_at(0, 0), 1);
    assert_eq!(editor.search_attr_at(0, 1), 2);
    assert_eq!(editor.search_attr_at(0, 2), 2);
    assert_eq!(editor.search_attr_at(0, 3), 0);
    editor.search_match_idx = 0;
    assert_eq!(editor.search_attr_at(0, 0), 2);
    assert_eq!(editor.search_attr_at(0, 1), 2);
    assert_eq!(editor.search_attr_at(0, 2), 1);
}

#[test]
fn a_replacement_that_shortens_the_line_is_undone() {
    let mut editor = page("xxxx");
    editor.col = 4;
    editor.search_query = vec!['x'];
    editor.update_search();
    editor.replace_all(&vec![]);
    assert_eq!(lines_of(&editor), vec![""]);
    assert_eq!(editor.col, 4);
    editor.undo();
    assert_eq!(lines_of(&editor), vec!["xxxx"]);
    assert_eq!((editor.row, editor.col), (0, 4));
    assert!(editor.modified);
    assert_eq!(editor.status, "Undo");
}

#[test]
fn escape_leaves_the_search() {
    let mut editor = page("ab");
    open_search(&mut editor, "b");
    press(&mut editor, KeyCode::Esc);
    assert!(matches!(editor.prompt, Prompt::Closed));
    assert!(editor.search_query.is_empty());
    assert!(editor.search_matches.is_empty());
    assert_eq!(editor.status, "Ctrl+S: Save / Ctrl+Q: Quit / Ctrl+H: Help");
}

#[test]
fn the_screen_follows_the_match() {
    let mut editor = page("a\nb\nc\nd\ne\nf\ng\nh");
    editor.term_rows = 6;
    open_search(&mut editor, "g");
    assert_eq!((editor.row, editor.top), (6, 4));
    press(&mut editor, KeyCode::Backspace);
    type_text(&mut editor, "a");
    assert_eq!((editor.row, editor.top), (0, 0));
}

#[test]
fn every_match_is_replaced() {
    let mut editor = page("one two one\none");
    replace(&mut editor, "one", "1");
    assert_eq!(lines_of(&editor), vec!["1 two 1", "1"]);
    assert_eq!(editor.status, "Replaced 3 occurrence(s).");
    assert!(editor.modified);
    editor.undo();
    assert_eq!(lines_of(&editor), vec!["one two one", "one"]);
}

#[test]
fn the_replacement_may_hold_the_query() {
    let mut editor = page("a-a");
    replace(&mut editor, "a", "aa");
    assert_eq!(lines_of(&editor), vec!["aa-aa"]);
}

#[test]
fn replacing_by_the_query_changes_no_text() {
    let mut editor = page("aaa b aaa");
    replace(&mut editor, "aa", "aa");
    assert_eq!(lines_of(&editor), vec!["aaa b aaa"]);
}

#[test]
fn overlapping_matches_are_replaced_from_the_end() {
    let mut editor = page("aaa");
    replace(&mut editor, "aa", "b");
    assert_eq!(lines_of(&editor), vec!["b"]);
}

#[test]
fn matches_can_be_deleted() {
    let mut editor = page("xaxbx");
    replace(&mut editor, "x", "");
    assert_eq!(lines_of(&editor), vec!["ab"]);
}

#[test]
fn nothing_to_replace() {
    let mut editor = page("abc");
    replace(&mut editor, "xyz", "1");
    assert_eq!(lines_of(&editor), vec!["abc"]);
    assert_eq!(editor.status, "No matches to replace.");
    assert!(!editor.modified);
}

#[test]
fn messages_of_the_replace_prompt() {
    let mut editor = page("abab");
    editor.handle_key(KeyCode::Char('r'), KeyModifiers::Control);
    assert_eq!(editor.status, "Replace — Search: ");
    type_text(&mut editor, "ab");
    assert_eq!(editor.status, "Replace — Search: ab  [2 found]  Enter=next  Esc=cancel");
    type_text(&mut editor, "c");
    assert_eq!(editor.status, "Replace — Search: abc  (not found)  Enter=next  Esc=cancel");
    press(&mut editor, KeyCode::Backspace);
    press(&mut editor, KeyCode::Enter);
    assert_eq!(editor.status, "Replace \"ab\" with: ");
    type_text(&mut editor, "x");
    assert_eq!(editor.status, "Replace \"ab\" with: x");
    press(&mut editor, KeyCode::Esc);
    assert!(matches!(editor.prompt, Prompt::Closed));
    assert_eq!(lines_of(&editor), vec!["abab"]);
}
