use psez::draw::Draw;
use psez::key::{KeyCode, KeyModifiers};
use psez::state::{Editor, FilePath, Selection};

fn show(text: &str, cols: u16, rows: u16) -> Editor {
    let mut editor = Editor::new(cols, rows);
    editor.lines = text.split('\n').map(|l| l.chars().collect()).collect();
    editor.status = String::new();
    editor
}

/// The text written to each row of the screen.
fn rows_of(ops: &[Draw], rows: usize) -> Vec<String> {
    let mut screen = vec![String::new(); rows];
    let mut at = 0;
    for op in ops {
        match op {
            Draw::MoveTo { row, .. } => at = *row as usize,
            Draw::ClearLine => screen[at].clear(),
            Draw::Put(c) => screen[at].push(*c),
            _ => {}
        }
    }
    screen
}

fn cursor_of(ops: &[Draw]) -> (u16, u16) {
    match ops[ops.len() - 2] {
        Draw::MoveTo { col, row } => (row, col),
        _ => panic!(),
    }
}

#[test]
fn a_frame_hides_and_shows_the_cursor() {
    let editor = show("", 20, 4);
    assert!(editor.can_render());
    let ops = editor.render();
    assert_eq!(ops[0], Draw::HideCursor);
    assert_eq!(ops[1], Draw::MoveTo { col: 0, row: 0 });
    assert_eq!(ops[2], Draw::ClearLine);
    assert_eq!(ops[ops.len() - 1], Draw::ShowCursor);
    assert_eq!(cursor_of(&ops), (0, 0));
}

#[test]
fn rows_below_the_text_are_marked() {
    let ops = show("a\nb", 20, 6).render();
    let rows = rows_of(&ops, 6);
    assert_eq!(&rows[0..4], &["a", "b", "~", "~"]);
}

#[test]
fn the_status_bar() {
    let editor = show("abc", 40, 4);
    let rows = rows_of(&editor.render(), 4);
    let left = " [New File]  UTF-8  LF";
    assert_eq!(rows[2], format!("{}{:>13}     ", left, " 1:1 "));
    assert_eq!(rows[2].len(), 40);
}

#[test]
fn the_status_bar_of_a_changed_file() {
    let mut editor = show("abc", 60, 4);
    editor.path = Some(FilePath { full: String::from("d/日.txt"), name: String::from("日.txt") });
    editor.modified = true;
    editor.col = 2;
    let rows = rows_of(&editor.render(), 4);
    let left = " 日.txt [+]  UTF-8  LF";
    assert!(rows[2].starts_with(left));
    assert_eq!(rows[2].chars().count(), 60);
    assert_eq!(rows[2].trim_end(), format!("{}{:>32}", left, " 1:3 ").trim_end());
}

#[test]
fn a_narrow_status_bar_is_not_cut() {
    let rows = rows_of(&show("", 10, 4).render(), 4);
    assert_eq!(rows[2], " [New File]  UTF-8  LF 1:1 ");
}

#[test]
fn the_message_bar() {
    let mut editor = show("", 20, 4);
    editor.status = String::from("Saved: x");
    let rows = rows_of(&editor.render(), 4);
    assert_eq!(rows[3], "Saved: x");
}

#[test]
fn the_help_panel() {
    let mut editor = show("a", 80, 12);
    editor.show_help = true;
    let ops = editor.render();
    let rows = rows_of(&ops, 12);
    assert_eq!(&rows[0..2], &["a", "~"]);
    assert_eq!(rows[2], "─── Help (Ctrl+H to close) ──────────────────────────────────────────");
    assert_eq!(rows[7], " Ctrl+F: Search / Ctrl+R: Replace all / Ctrl+B: Toggle word wrap");
    assert_eq!(rows[9], " Arrow keys / Home / End / PageUp / PageDown: Move cursor");
    assert_eq!(ops.iter().filter(|op| **op == Draw::Dim).count(), 8);
}

#[test]
fn tabs_are_marked() {
    let ops = show("a\tb", 20, 4).render();
    assert_eq!(rows_of(&ops, 4)[0], "a>  b");
    let at = ops.iter().position(|op| *op == Draw::TabMark).unwrap();
    assert_eq!(ops[at - 1], Draw::ResetStyle);
    assert_eq!(ops[at + 1], Draw::Put('>'));
    assert_eq!(ops[at + 4], Draw::ResetStyle);
}

#[test]
fn long_lines_are_cut_at_the_edges() {
    let mut editor = show("あいうえお", 5, 4);
    assert_eq!(rows_of(&editor.render(), 4)[0], "あい ");
    editor.left = 1;
    assert_eq!(rows_of(&editor.render(), 4)[0], " いう");
    editor.left = 2;
    assert_eq!(rows_of(&editor.render(), 4)[0], "いう ");
    editor.left = 8;
    assert_eq!(rows_of(&editor.render(), 4)[0], "お");
}

#[test]
fn a_tab_is_cut_at_the_edges() {
    let mut editor = show("abc\tdef", 5, 4);
    editor.left = 3;
    assert_eq!(rows_of(&editor.render(), 4)[0], ">def");
    let mut editor = show("\tx", 3, 4);
    assert_eq!(rows_of(&editor.render(), 4)[0], ">  ");
    editor.left = 2;
    assert_eq!(rows_of(&editor.render(), 4)[0], "  x");
}

#[test]
fn the_cursor_follows_wide_characters() {
    let mut editor = show("日本語", 20, 4);
    editor.col = 2;
    assert_eq!(cursor_of(&editor.render()), (0, 4));
    editor.left = 2;
    assert_eq!(cursor_of(&editor.render()), (0, 2));
}

#[test]
fn wrapped_lines_go_on_in_the_next_row() {
    let mut editor = show("abcdefg\nxy", 5, 6);
    editor.word_wrap = true;
    let ops = editor.render();
    assert_eq!(&rows_of(&ops, 6)[0..4], &["abcde", "fg", "xy", "~"]);
    editor.row = 1;
    editor.col = 1;
    assert_eq!(cursor_of(&editor.render()), (2, 1));
    editor.row = 0;
    editor.col = 6;
    assert_eq!(cursor_of(&editor.render()), (1, 1));
}

#[test]
fn wide_characters_are_wrapped_whole() {
    let mut editor = show("aあいう", 4, 6);
    editor.word_wrap = true;
    editor.col = 2;
    let ops = editor.render();
    assert_eq!(&rows_of(&ops, 6)[0..3], &["aあ ", "いう", ""]);
    assert_eq!(cursor_of(&ops), (1, 0));
}

#[test]
fn a_tab_goes_on_in_the_next_row() {
    let mut editor = show("abcdef\tx", 7, 6);
    editor.word_wrap = true;
    let ops = editor.render();
    assert_eq!(&rows_of(&ops, 6)[0..2], &["abcdef ", " x"]);
    assert!(ops.iter().all(|op| *op != Draw::TabMark));
}

#[test]
fn wrapped_text_ends_with_the_screen() {
    let mut editor = show("abcdefghijkl", 4, 4);
    editor.word_wrap = true;
    let ops = editor.render();
    assert_eq!(&rows_of(&ops, 4)[0..2], &["abcd", "efgh"]);
    assert!(ops.iter().all(|op| *op != Draw::Put('j')));
}

#[test]
fn selections_are_reversed() {
    let mut editor = show("abc", 20, 4);
    editor.selection = Some(Selection { anchor_row: 0, anchor_col: 1, is_cut: false });
    editor.col = 2;
    let ops = editor.render();
    let at = ops.iter().position(|op| *op == Draw::Put('b')).unwrap();
    assert_eq!(&ops[at - 2..at], &[Draw::ResetStyle, Draw::Reverse]);
    assert_eq!(&ops[at + 1..at + 3], &[Draw::ResetStyle, Draw::Put('c')]);
}

#[test]
fn matches_are_coloured() {
    let mut editor = show("ab ab", 20, 4);
    editor.handle_key(KeyCode::Char('f'), KeyModifiers::Control);
    editor.handle_key(KeyCode::Char('b'), KeyModifiers::Plain);
    let ops = editor.render();
    let first = ops.iter().position(|op| *op == Draw::Put('b')).unwrap();
    assert_eq!(ops[first - 1], Draw::CurrentMatch);
    assert!(ops.contains(&Draw::OtherMatch));
}

#[test]
fn overlapping_matches_are_coloured() {
    let mut editor = show("aaa", 20, 4);
    editor.search_query = vec!['a', 'a'];
    editor.update_search();
    editor.search_match_idx = 1;
    let ops = editor.render();
    assert_eq!(
        &ops[3..9],
        &[
            Draw::ResetStyle,
            Draw::OtherMatch,
            Draw::Put('a'),
            Draw::ResetStyle,
            Draw::CurrentMatch,
            Draw::Put('a'),
        ]
    );
    assert_eq!(&ops[9..11], &[Draw::Put('a'), Draw::ResetStyle]);
}

#[test]
fn help_and_bars_fill_a_low_screen() {
    for rows in 2..12 {
        let mut editor = show("a", 20, rows);
        editor.show_help = true;
        let ops = editor.render();
        for row in 0..rows {
            let at = ops.iter().position(|op| *op == Draw::MoveTo { col: 0, row }).unwrap();
            assert_eq!(ops[at + 1], Draw::ClearLine);
        }
    }
}

#[test]
fn the_cursor_stands_in_the_input_field() {
    let mut editor = show("", 40, 4);
    editor.start_save_as();
    editor.handle_key(KeyCode::Char('日'), KeyModifiers::Plain);
    editor.handle_key(KeyCode::Char('a'), KeyModifiers::Plain);
    assert_eq!(cursor_of(&editor.render()), (3, 12));
    editor.handle_key(KeyCode::Left, KeyModifiers::Plain);
    assert_eq!(cursor_of(&editor.render()), (3, 11));
}

#[test]
fn the_cursor_stands_in_the_search_field() {
    let mut editor = show("", 40, 4);
    editor.handle_key(KeyCode::Char('f'), KeyModifiers::Control);
    editor.handle_key(KeyCode::Char('x'), KeyModifiers::Plain);
    assert_eq!(cursor_of(&editor.render()), (3, 9));
}

#[test]
fn the_cursor_stands_in_the_replace_fields() {
    let mut editor = show("", 40, 4);
    editor.handle_key(KeyCode::Char('r'), KeyModifiers::Control);
    editor.handle_key(KeyCode::Char('日'), KeyModifiers::Plain);
    assert_eq!(cursor_of(&editor.render()), (3, 22));
    editor.handle_key(KeyCode::Enter, KeyModifiers::Plain);
    assert_eq!(cursor_of(&editor.render()), (3, 19));
    editor.handle_key(KeyCode::Char('x'), KeyModifiers::Plain);
    assert_eq!(cursor_of(&editor.render()), (3, 20));
}

#[test]
fn a_screen_without_room_for_the_bars() {
    let mut editor = show("abc", 20, 1);
    assert!(!editor.can_render());
    assert!(editor.try_render().is_none());
    editor.term_rows = 2;
    assert!(editor.can_render());
    assert_eq!(editor.try_render(), Some(editor.render()));
    assert_eq!(rows_of(&editor.render(), 2)[1], "");
    editor.col = 4;
    assert!(!editor.can_render());
    editor.col = 0;
    editor.top = 1;
    assert!(!editor.can_render());
    editor.word_wrap = true;
    assert!(editor.can_render());
}

#[test]
fn the_editor_is_shown_with_its_cursor() {
    let mut editor = show("abcdefghij", 4, 4);
    editor.col = 9;
    let ops = editor.show().unwrap();
    assert_eq!(editor.left, 6);
    assert_eq!(rows_of(&ops, 4)[0], "ghij");
    assert_eq!(cursor_of(&ops), (0, 3));
    editor.col = 11;
    assert!(editor.show().is_none());
    assert_eq!(editor.left, 6);
    editor.col = 0;
    editor.term_rows = 1;
    assert!(editor.show().is_none());
}

#[test]
fn every_row_is_cleared_before_it_is_written() {
    let mut editor = show("abc\n日本語のとても長い行\n\tx", 8, 14);
    for wrap in [false, true] {
        for help in [false, true] {
            editor.word_wrap = wrap;
            editor.show_help = help;
            let ops = editor.render();
            let mut cleared = vec![false; 14];
            for i in 0..ops.len() - 2 {
                if let Draw::MoveTo { col, row } = ops[i] {
                    assert_eq!(col, 0);
                    assert_eq!(ops[i + 1], Draw::ClearLine);
                    cleared[row as usize] = true;
                }
                assert_ne!(ops[i], Draw::Put('\u{8}'));
            }
            assert_eq!(cleared, vec![true; 14]);
        }
    }
}
