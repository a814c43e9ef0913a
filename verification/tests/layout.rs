use psez::layout::{
    boundary_ge, boundary_le, cell_count, columns_before, span_of, wrap_columns, wrap_pos_of,
    wrap_step, wrapped_before,
};
use psez::state::Editor;

fn chars(text: &str) -> Vec<char> {
    text.chars().collect()
}

fn screen_with(text: &str, cols: u16, rows: u16) -> Editor {
    let mut editor = Editor::new(cols, rows);
    editor.lines = text.split('\n').map(chars).collect();
    editor
}

#[test]
fn characters_take_their_east_asian_width() {
    assert_eq!(cell_count('a'), 1);
    assert_eq!(cell_count('あ'), 2);
    assert_eq!(cell_count('漢'), 2);
    assert_eq!(cell_count('ｱ'), 1);
    assert_eq!(cell_count('\u{0301}'), 0);
    assert_eq!(cell_count('\u{7}'), 0);
    assert_eq!(cell_count('\u{17d8}'), 3);
}

#[test]
fn tabs_reach_to_the_next_stop() {
    assert_eq!(span_of('\t', 0), 4);
    assert_eq!(span_of('\t', 1), 3);
    assert_eq!(span_of('\t', 3), 1);
    assert_eq!(span_of('\t', 4), 4);
    assert_eq!(columns_before(&chars("a\tb"), 2), 4);
    assert_eq!(columns_before(&chars("あ\tb"), 3), 5);
    assert_eq!(columns_before(&chars("日本語"), 3), 6);
}

#[test]
fn boundaries_before_and_behind_a_column() {
    let line = chars("あいう");
    assert_eq!(boundary_le(&line, 3), 2);
    assert_eq!(boundary_le(&line, 4), 4);
    assert_eq!(boundary_le(&line, 100), 6);
    assert_eq!(boundary_ge(&line, 3), 4);
    assert_eq!(boundary_ge(&line, 0), 0);
    assert_eq!(boundary_ge(&line, 100), 6);
}

#[test]
fn wrapping_step_by_step() {
    assert_eq!(wrap_step(10, 0, 0, 0, 'a'), (0, 1));
    assert_eq!(wrap_step(10, 9, 9, 0, 'a'), (1, 0));
    assert_eq!(wrap_step(10, 9, 9, 0, 'あ'), (1, 2));
    assert_eq!(wrap_step(10, 8, 8, 0, 'あ'), (1, 0));
    assert_eq!(wrap_step(10, 8, 8, 0, '\t'), (1, 2));
    assert_eq!(wrap_step(10, 4, 4, 2, '\t'), (2, 8));
}

#[test]
fn wrapping_by_columns() {
    assert_eq!(wrap_columns(10, 9, 0, 2, false), (1, 2));
    assert_eq!(wrap_columns(10, 9, 0, 2, true), (1, 1));
    assert_eq!(wrap_columns(10, 7, 3, 3, false), (4, 0));
    assert_eq!(wrap_columns(1, 2, 1, 2, false), (2, 3));
}

#[test]
fn wide_characters_are_never_split() {
    let line = chars("aあいう");
    assert_eq!(wrapped_before(4, &line, 4), (2, 0));
    assert_eq!(wrap_pos_of(4, &line, 0), (0, 0));
    assert_eq!(wrap_pos_of(4, &line, 1), (0, 1));
    assert_eq!(wrap_pos_of(4, &line, 2), (1, 0));
    assert_eq!(wrap_pos_of(4, &line, 3), (1, 2));
}

#[test]
fn a_terminal_without_columns_wraps_nothing() {
    assert_eq!(wrap_pos_of(0, &chars("abc"), 2), (0, 0));
}

#[test]
fn display_columns_of_the_editor() {
    let editor = screen_with("日本\tx", 80, 24);
    assert_eq!(editor.display_col(0, 0), 0);
    assert_eq!(editor.display_col(0, 2), 4);
    assert_eq!(editor.display_col(0, 3), 8);
    assert_eq!(editor.display_col(0, 4), 9);
    assert_eq!(editor.char_boundary_le(0, 5), 4);
    assert_eq!(editor.char_boundary_ge(0, 5), 8);
}

#[test]
fn visual_heights() {
    let mut editor = screen_with("abcdefghij\n\nabcd", 4, 24);
    assert_eq!(editor.visual_height(0), 1);
    editor.word_wrap = true;
    assert_eq!(editor.visual_height(0), 3);
    assert_eq!(editor.visual_height(1), 1);
    assert_eq!(editor.visual_height(2), 2);
    assert_eq!(editor.wrap_render_pos(0, 5), (1, 1));
    editor.term_cols = 0;
    assert_eq!(editor.visual_height(0), 1);
}

#[test]
fn the_screen_scrolls_sideways_to_the_cursor() {
    let mut editor = screen_with("あいうえおかきくけこ", 10, 24);
    editor.col = 10;
    editor.adjust_left();
    assert_eq!(editor.left, 12);
    editor.col = 9;
    editor.adjust_left();
    assert_eq!(editor.left, 12);
    editor.col = 2;
    editor.adjust_left();
    assert_eq!(editor.left, 4);
}

#[test]
fn a_screen_without_columns_does_not_scroll() {
    let mut editor = screen_with("abc", 0, 24);
    editor.col = 3;
    editor.left = 1;
    editor.adjust_left();
    assert_eq!(editor.left, 1);
}

#[test]
fn the_wrapped_screen_scrolls_down_to_the_cursor() {
    let mut editor = screen_with("abcdefgh\nabcdefgh\nx\ny", 4, 6);
    editor.word_wrap = true;
    editor.left = 7;
    editor.row = 2;
    editor.adjust_left();
    assert_eq!(editor.left, 0);
    assert_eq!(editor.top, 1);
    editor.row = 0;
    editor.adjust_left();
    assert_eq!(editor.top, 0);
}

#[test]
fn a_line_higher_than_the_screen_stays_on_top() {
    let mut editor = screen_with("a\nabcdefghijklmnopqrstuvwxyz", 4, 4);
    editor.word_wrap = true;
    editor.row = 1;
    editor.col = 26;
    editor.adjust_left();
    assert_eq!(editor.top, 1);
}
