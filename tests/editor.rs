use kilo_core::editor::Editor;
use kilo_core::highlight::{Color, Highlight, HighlightStyle};
use kilo_core::text::{BufferError, Location};

fn rows(editor: &Editor) -> Vec<String> {
    editor.get_view_contents().0
}

fn type_text(editor: &mut Editor, text: &str) {
    for c in text.chars() {
        if c == '\n' {
            editor.insert_line();
        } else {
            editor.insert_char(c);
        }
    }
}

fn check_placed(editor: &Editor) {
    let c = editor.get_buffer_cursor();
    let v = editor.get_view_cursor();
    assert!(c.line < editor.get_buffer_line_count());
    assert!(v.line < editor.get_view_height());
    assert!(v.col < editor.get_view_width());
    let line = editor.get_rendered_line(c.line);
    assert!(c.col <= line.chars().count());
}

#[test]
fn empty_buffer_insert_ab_then_break_at_col_one() {
    let mut editor = Editor::new(80, 24);
    editor.insert_char('a');
    editor.insert_char('b');
    editor.move_cursor_left();
    assert_eq!(editor.get_buffer_cursor(), Location::new(0, 1));
    editor.insert_line();
    assert_eq!(rows(&editor), vec!["a", "b"]);
    assert_eq!(editor.get_buffer_cursor(), Location::new(1, 0));
    assert_eq!(editor.get_buffer_line_count(), 2);
    assert!(editor.is_buffer_dirty());
}

#[test]
fn insert_line_at_start_and_end() {
    let mut editor = Editor::new(80, 24);
    editor.open_file("f", "ab");
    editor.insert_line();
    assert_eq!(rows(&editor), vec!["", "ab"]);
    assert_eq!(editor.get_buffer_cursor(), Location::new(1, 0));
    editor.move_cursor_to_line_end();
    editor.move_cursor_right();
    assert_eq!(editor.get_buffer_cursor(), Location::new(1, 2));
    editor.insert_line();
    assert_eq!(rows(&editor), vec!["", "ab", ""]);
    assert_eq!(editor.get_buffer_cursor(), Location::new(2, 0));
}

#[test]
fn backspace_joins_lines() {
    let mut editor = Editor::new(80, 24);
    editor.open_file("f", "ab\ncd");
    editor.move_cursor_down();
    editor.remove_char_behind();
    assert_eq!(rows(&editor), vec!["abcd"]);
    assert_eq!(editor.get_buffer_cursor(), Location::new(0, 2));
    editor.remove_char_behind();
    assert_eq!(rows(&editor), vec!["acd"]);
    assert_eq!(editor.get_buffer_cursor(), Location::new(0, 1));
    editor.move_cursor_to_buffer_top();
    editor.move_cursor_to_line_start();
    editor.remove_char_behind();
    assert_eq!(rows(&editor), vec!["acd"]);
}

#[test]
fn delete_joins_next_line() {
    let mut editor = Editor::new(80, 24);
    editor.open_file("f", "ab\ncd");
    editor.remove_char_in_front();
    assert_eq!(rows(&editor), vec!["b", "cd"]);
    editor.move_cursor_right();
    editor.remove_char_in_front();
    assert_eq!(rows(&editor), vec!["bcd"]);
    assert_eq!(editor.get_buffer_cursor(), Location::new(0, 1));
    editor.move_cursor_to_line_end();
    editor.move_cursor_right();
    editor.remove_char_in_front();
    assert_eq!(rows(&editor), vec!["bcd"]);
}

#[test]
fn vertical_moves_clamp_to_line_end() {
    let mut editor = Editor::new(80, 24);
    editor.open_file("f", "long line\nab\nanother long");
    editor.move_cursor_to_line_end();
    assert_eq!(editor.get_buffer_cursor(), Location::new(0, 8));
    editor.move_cursor_down();
    assert_eq!(editor.get_buffer_cursor(), Location::new(1, 2));
    editor.move_cursor_down();
    assert_eq!(editor.get_buffer_cursor(), Location::new(2, 2));
    editor.move_cursor_down();
    assert_eq!(editor.get_buffer_cursor(), Location::new(2, 2));
    editor.move_cursor_up();
    editor.move_cursor_up();
    editor.move_cursor_up();
    assert_eq!(editor.get_buffer_cursor(), Location::new(0, 2));
}

#[test]
fn horizontal_moves_cross_lines() {
    let mut editor = Editor::new(80, 24);
    editor.open_file("f", "ab\ncd");
    editor.move_cursor_left();
    assert_eq!(editor.get_buffer_cursor(), Location::new(0, 0));
    editor.move_cursor_down();
    editor.move_cursor_left();
    assert_eq!(editor.get_buffer_cursor(), Location::new(0, 2));
    editor.move_cursor_right();
    assert_eq!(editor.get_buffer_cursor(), Location::new(1, 0));
    editor.move_cursor_to_line_end();
    editor.move_cursor_right();
    editor.move_cursor_right();
    assert_eq!(editor.get_buffer_cursor(), Location::new(1, 2));
}

#[test]
fn view_scrolls_by_one_line() {
    let mut editor = Editor::new(10, 3);
    editor.open_file("f", "0\n1\n2\n3\n4\n5");
    editor.move_cursor_down();
    editor.move_cursor_down();
    assert_eq!(editor.get_view_cursor(), Location::new(2, 0));
    editor.move_cursor_down();
    assert_eq!(editor.get_view_cursor(), Location::new(2, 0));
    assert_eq!(rows(&editor), vec!["1", "2", "3"]);
    editor.move_cursor_up();
    editor.move_cursor_up();
    assert_eq!(rows(&editor), vec!["1", "2", "3"]);
    editor.move_cursor_up();
    assert_eq!(rows(&editor), vec!["0", "1", "2"]);
}

#[test]
fn view_scrolls_by_one_column() {
    let mut editor = Editor::new(3, 2);
    editor.open_file("f", "abcdef");
    editor.move_cursor_right();
    editor.move_cursor_right();
    assert_eq!(rows(&editor), vec!["abc"]);
    editor.move_cursor_right();
    assert_eq!(rows(&editor), vec!["bcd"]);
    assert_eq!(editor.get_view_cursor(), Location::new(0, 2));
    editor.move_cursor_to_line_start();
    assert_eq!(rows(&editor), vec!["abc"]);
    check_placed(&editor);
}

#[test]
fn buffer_top_and_bottom() {
    let mut editor = Editor::new(10, 3);
    editor.open_file("f", "0\n1\n2\n3\n4\n5\n6");
    editor.move_cursor_to_buffer_bottom();
    assert_eq!(editor.get_buffer_cursor(), Location::new(6, 0));
    assert_eq!(rows(&editor), vec!["4", "5", "6"]);
    editor.move_cursor_to_buffer_top();
    assert_eq!(editor.get_buffer_cursor(), Location::new(0, 0));
    assert_eq!(rows(&editor), vec!["0", "1", "2"]);
}

#[test]
fn page_moves_keep_view_offset() {
    let mut editor = Editor::new(10, 3);
    editor.open_file("f", "0\n1\n2\n3\n4\n5\n6\n7");
    editor.move_cursor_down();
    editor.move_one_view_down();
    assert_eq!(editor.get_buffer_cursor(), Location::new(4, 0));
    assert_eq!(editor.get_view_cursor(), Location::new(1, 0));
    editor.move_one_view_down();
    assert_eq!(rows(&editor), vec!["5", "6", "7"]);
    assert_eq!(editor.get_buffer_cursor(), Location::new(6, 0));
    editor.move_one_view_up();
    assert_eq!(rows(&editor), vec!["2", "3", "4"]);
    editor.move_one_view_up();
    assert_eq!(rows(&editor), vec!["0", "1", "2"]);
    assert_eq!(editor.get_buffer_cursor(), Location::new(1, 0));
}

#[test]
fn cursor_stays_placed_after_mixed_operations() {
    let mut editor = Editor::new(4, 2);
    type_text(&mut editor, "hello\tworld\nab\n\tx\nlast line here");
    check_placed(&editor);
    let ops: Vec<fn(&mut Editor)> = vec![
        Editor::move_cursor_up,
        Editor::move_cursor_left,
        Editor::remove_char_behind,
        Editor::move_one_view_up,
        Editor::move_cursor_right,
        Editor::remove_char_in_front,
        Editor::move_cursor_to_line_end,
        Editor::move_cursor_down,
        Editor::insert_line,
        Editor::move_cursor_to_buffer_bottom,
        Editor::move_one_view_down,
        Editor::move_cursor_to_buffer_top,
    ];
    for round in 0..5 {
        for (i, op) in ops.iter().enumerate() {
            op(&mut editor);
            check_placed(&editor);
            if (i + round) % 3 == 0 {
                editor.insert_char('\t');
                check_placed(&editor);
            }
        }
    }
}

#[test]
fn typing_after_tab_uses_displayed_columns() {
    let mut editor = Editor::new(80, 24);
    editor.insert_char('\t');
    assert_eq!(editor.get_buffer_cursor(), Location::new(0, 8));
    editor.insert_char('x');
    assert_eq!(editor.get_buffer_cursor(), Location::new(0, 9));
    assert_eq!(rows(&editor), vec![format!("{}x", " ".repeat(8))]);
    editor.move_cursor_left();
    editor.move_cursor_left();
    assert_eq!(editor.get_buffer_cursor(), Location::new(0, 7));
    editor.remove_char_in_front();
    assert_eq!(rows(&editor), vec!["x"]);
    assert_eq!(editor.get_buffer_cursor(), Location::new(0, 0));
}

#[test]
fn backspace_removes_whole_tab() {
    let mut editor = Editor::new(80, 24);
    type_text(&mut editor, "a\t");
    assert_eq!(editor.get_buffer_cursor(), Location::new(0, 8));
    editor.remove_char_behind();
    assert_eq!(rows(&editor), vec!["a"]);
    assert_eq!(editor.get_buffer_cursor(), Location::new(0, 1));
}

#[test]
fn search_pattern_searches_from_start_position() {
    let mut editor = Editor::new(80, 24);
    editor.open_file("f", "foo\nbar\nfoo");
    editor.start_search();
    assert!(editor.is_search_mode_active());
    editor.set_search_pattern("f");
    assert_eq!(editor.get_buffer_cursor(), Location::new(2, 0));
    editor.set_search_pattern("fo");
    assert_eq!(editor.get_buffer_cursor(), Location::new(2, 0));
    editor.set_search_pattern("ba");
    assert_eq!(editor.get_buffer_cursor(), Location::new(1, 0));
    editor.set_search_pattern("zzz");
    assert_eq!(editor.get_buffer_cursor(), Location::new(1, 0));
    editor.finish_search();
    assert!(!editor.is_search_mode_active());
    assert_eq!(editor.get_buffer_cursor(), Location::new(1, 0));
}

#[test]
fn next_search_result_moves_from_cursor() {
    let mut editor = Editor::new(80, 24);
    editor.open_file("f", "foo\nbar\nfoo");
    editor.start_search();
    editor.next_search_result();
    assert_eq!(editor.get_buffer_cursor(), Location::new(0, 0));
    editor.set_search_pattern("foo");
    assert_eq!(editor.get_buffer_cursor(), Location::new(2, 0));
    editor.next_search_result();
    assert_eq!(editor.get_buffer_cursor(), Location::new(0, 0));
    editor.set_search_direction(false);
    editor.next_search_result();
    assert_eq!(editor.get_buffer_cursor(), Location::new(2, 0));
    editor.next_search_result();
    assert_eq!(editor.get_buffer_cursor(), Location::new(0, 0));
}

#[test]
fn search_jump_scrolls_view() {
    let mut editor = Editor::new(5, 2);
    editor.open_file("f", "a\nb\nc\nd\ne\nxxxxxxxneedle");
    editor.start_search();
    editor.set_search_pattern("needle");
    assert_eq!(editor.get_buffer_cursor(), Location::new(5, 7));
    assert_eq!(editor.get_view_cursor(), Location::new(1, 0));
    assert_eq!(rows(&editor), vec!["", "needl"]);
    check_placed(&editor);
}

#[test]
fn search_match_after_tab_lands_on_displayed_column() {
    let mut editor = Editor::new(80, 24);
    editor.open_file("f", "\tword");
    editor.start_search();
    editor.set_search_pattern("word");
    assert_eq!(editor.get_buffer_cursor(), Location::new(0, 8));
}

#[test]
fn cancel_restores_cursor_and_view() {
    let mut editor = Editor::new(5, 2);
    editor.open_file("f", "a\nb\nc\nd\ne\nneedle");
    editor.move_cursor_down();
    let cursor = editor.get_buffer_cursor();
    let view = editor.get_view_cursor();
    let before = rows(&editor);
    editor.start_search();
    editor.set_search_pattern("needle");
    editor.move_cursor_right();
    editor.next_search_result();
    editor.move_cursor_to_buffer_bottom();
    assert_ne!(editor.get_buffer_cursor(), cursor);
    editor.cancel_search();
    assert!(!editor.is_search_mode_active());
    assert_eq!(editor.get_buffer_cursor(), cursor);
    assert_eq!(editor.get_view_cursor(), view);
    assert_eq!(rows(&editor), before);
}

#[test]
fn editing_ends_search() {
    let mut editor = Editor::new(80, 24);
    editor.start_search();
    editor.insert_char('x');
    assert!(!editor.is_search_mode_active());
}

#[test]
fn open_and_save_round_trip() {
    let mut editor = Editor::new(80, 24);
    assert!(matches!(editor.save_file(), Err(BufferError::NoFilePath)));
    editor.open_file("notes.txt", "one\n\ttwo\n");
    assert_eq!(editor.get_file_name().map(|p| p.as_str()), Some("notes.txt"));
    assert!(!editor.is_buffer_dirty());
    let request = editor.save_file().ok().unwrap();
    assert_eq!(request.path, "notes.txt");
    assert_eq!(request.contents, "one\n\ttwo");
    editor.insert_char('!');
    assert!(editor.is_buffer_dirty());
    let request = editor.save_file_as("other.txt");
    assert_eq!(request.contents, "!one\n\ttwo");
    editor.mark_saved("other.txt");
    assert!(!editor.is_buffer_dirty());
    assert_eq!(editor.get_file_name().map(|p| p.as_str()), Some("other.txt"));
}

#[test]
fn view_contents_are_clipped() {
    let mut editor = Editor::new(3, 2);
    editor.open_file("f", "abcdef\nxy\n\tz\nlast");
    assert_eq!(rows(&editor), vec!["abc", "xy"]);
    assert_eq!(editor.get_view_width(), 3);
    assert_eq!(editor.get_view_height(), 2);
    editor.move_cursor_to_buffer_bottom();
    assert_eq!(rows(&editor), vec!["   ", "las"]);
    assert_eq!(editor.get_rendered_line(2), format!("{}z", " ".repeat(8)));
}

#[test]
fn highlighting_is_clipped_and_cleared_on_edit() {
    let c = Color { r: 1, g: 2, b: 3, a: 255 };
    let style = HighlightStyle { foreground: c, background: c, bold: true, italic: false, underline: false };
    let mut editor = Editor::new(3, 2);
    editor.open_file("f.rs", "abcdef\nxy");
    assert_eq!(editor.get_view_contents().1, vec![Vec::<Highlight>::new(), Vec::new()]);
    editor.set_line_highlighting(0, vec![Highlight::new(style, 0, 2), Highlight::new(style, 2, 6)]);
    let (_, styles) = editor.get_view_contents();
    assert_eq!(styles[0], vec![Highlight::new(style, 0, 2), Highlight::new(style, 2, 3)]);
    editor.move_cursor_to_line_end();
    let (rows, styles) = editor.get_view_contents();
    assert_eq!(rows[0], "def");
    assert_eq!(styles[0], vec![Highlight::new(style, 0, 3)]);
    editor.insert_char('z');
    let (_, styles) = editor.get_view_contents();
    assert!(styles[0].is_empty());
}
