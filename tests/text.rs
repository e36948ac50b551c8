use kilo_core::text::{Buffer, BufferError, Location, Span};

fn line_string(buffer: &Buffer, n: usize) -> String {
    buffer.get_line(n).iter().collect()
}

fn all_lines(buffer: &Buffer) -> Vec<String> {
    buffer.lines().iter().map(|l| l.iter().collect()).collect()
}

#[test]
fn new_buffer_is_one_empty_line() {
    let buffer = Buffer::new();
    assert_eq!(all_lines(&buffer), vec![String::new()]);
    assert!(!buffer.is_dirty());
    assert!(buffer.file_path().is_none());
    assert_eq!(buffer.line_count(), 1);
}

#[test]
fn load_splits_at_newlines() {
    let buffer = Buffer::from_text("f.txt", "ab\ncd\n\nef");
    assert_eq!(all_lines(&buffer), vec!["ab", "cd", "", "ef"]);
    assert_eq!(buffer.file_path().map(|p| p.as_str()), Some("f.txt"));
    assert!(!buffer.is_dirty());
}

#[test]
fn load_then_save_is_byte_identical() {
    for text in ["", "a", "a\n\nb", "one\ntwo\nthree", "tab\there\nx", "é ü\nß"] {
        let buffer = Buffer::from_text("f.txt", text);
        assert_eq!(buffer.contents(), text);
        let request = buffer.save().ok().unwrap();
        assert_eq!(request.contents, text);
        assert_eq!(request.path, "f.txt");
    }
}

#[test]
fn final_newline_makes_no_extra_line() {
    let buffer = Buffer::from_text("f.txt", "a\n");
    assert_eq!(all_lines(&buffer), vec!["a"]);
    let buffer = Buffer::from_text("f.txt", "a\nb\n");
    assert_eq!(all_lines(&buffer), vec!["a", "b"]);
    let buffer = Buffer::from_text("f.txt", "\n");
    assert_eq!(all_lines(&buffer), vec![""]);
    let buffer = Buffer::from_text("f.txt", "a\n\n");
    assert_eq!(all_lines(&buffer), vec!["a", ""]);
}

#[test]
fn carriage_return_before_newline_is_dropped() {
    let buffer = Buffer::from_text("f.txt", "one\r\ntwo\r\n");
    assert_eq!(all_lines(&buffer), vec!["one", "two"]);
    let buffer = Buffer::from_text("f.txt", "a\rb\r");
    assert_eq!(all_lines(&buffer), vec!["a\rb\r"]);
    let buffer = Buffer::from_text("f.txt", "x\r\ny");
    assert_eq!(all_lines(&buffer), vec!["x", "y"]);
}

#[test]
fn empty_file_loads_as_one_empty_line() {
    let buffer = Buffer::from_text("e.txt", "");
    assert_eq!(all_lines(&buffer), vec![String::new()]);
}

#[test]
fn save_without_path_fails() {
    let buffer = Buffer::new();
    assert!(matches!(buffer.save(), Err(BufferError::NoFilePath)));
}

#[test]
fn save_as_and_mark_saved() {
    let mut buffer = Buffer::new();
    buffer.insert_char(Location::new(0, 0), 'x');
    assert!(buffer.is_dirty());
    let request = buffer.save_as("out.txt");
    assert_eq!(request.path, "out.txt");
    assert_eq!(request.contents, "x");
    assert!(buffer.is_dirty());
    buffer.mark_saved("out.txt");
    assert!(!buffer.is_dirty());
    assert_eq!(buffer.file_path().map(|p| p.as_str()), Some("out.txt"));
}

#[test]
fn insert_and_remove_chars_by_character_index() {
    let mut buffer = Buffer::from_text("f", "héllo");
    buffer.insert_char(Location::new(0, 2), 'X');
    assert_eq!(line_string(&buffer, 0), "héXllo");
    buffer.remove_char(Location::new(0, 1));
    assert_eq!(line_string(&buffer, 0), "hXllo");
    assert!(buffer.is_dirty());
}

#[test]
fn insert_line_adds_empty_line() {
    let mut buffer = Buffer::from_text("f", "a\nb");
    buffer.insert_line(1);
    assert_eq!(all_lines(&buffer), vec!["a", "", "b"]);
    buffer.insert_line(3);
    assert_eq!(all_lines(&buffer), vec!["a", "", "b", ""]);
}

#[test]
fn split_then_join_restores_line() {
    for col in 0..=5 {
        let mut buffer = Buffer::from_text("f", "x\nhello\ny");
        buffer.split_line(Location::new(1, col));
        assert_eq!(buffer.line_count(), 4);
        assert_eq!(line_string(&buffer, 1), &"hello"[..col]);
        assert_eq!(line_string(&buffer, 2), &"hello"[col..]);
        buffer.join_two_lines(1);
        assert_eq!(all_lines(&buffer), vec!["x", "hello", "y"]);
    }
}

#[test]
fn search_wraps_to_later_line_first() {
    let buffer = Buffer::from_text("f", "foo\nbar\nfoo");
    let span = buffer.find("foo", true, Location::new(0, 0)).unwrap();
    assert_eq!(span.start, Location::new(2, 0));
    assert_eq!(span.end, Location::new(2, 3));
}

#[test]
fn search_forward_comes_back_to_start() {
    let buffer = Buffer::from_text("f", "foo\nbar");
    let span = buffer.find("foo", true, Location::new(0, 0)).unwrap();
    assert_eq!(span.start, Location::new(0, 0));
    let span = buffer.find("o", true, Location::new(0, 1)).unwrap();
    assert_eq!(span.start, Location::new(0, 2));
    let span = buffer.find("o", true, Location::new(0, 2)).unwrap();
    assert_eq!(span.start, Location::new(0, 1));
}

#[test]
fn search_backward_goes_up_and_wraps() {
    let buffer = Buffer::from_text("f", "ab ab\ncd\nab");
    let span = buffer.find("ab", false, Location::new(0, 3)).unwrap();
    assert_eq!(span.start, Location::new(0, 0));
    let span = buffer.find("ab", false, Location::new(0, 0)).unwrap();
    assert_eq!(span.start, Location::new(2, 0));
    let span = buffer.find("ab", false, Location::new(1, 0)).unwrap();
    assert_eq!(span.start, Location::new(0, 3));
    let span = buffer.find("cd", false, Location::new(1, 0)).unwrap();
    assert_eq!(span, Span { start: Location::new(1, 0), end: Location::new(1, 2) });
}

#[test]
fn search_in_rest_of_start_line_first() {
    let buffer = Buffer::from_text("f", "a a a\na");
    let span = buffer.find("a", true, Location::new(0, 0)).unwrap();
    assert_eq!(span.start, Location::new(0, 2));
    let span = buffer.find("a", false, Location::new(0, 4)).unwrap();
    assert_eq!(span.start, Location::new(0, 2));
}

#[test]
fn search_without_match_or_pattern() {
    let buffer = Buffer::from_text("f", "foo\nbar");
    assert!(buffer.find("baz", true, Location::new(0, 0)).is_none());
    assert!(buffer.find("", true, Location::new(0, 0)).is_none());
    assert!(buffer.find("foo", false, Location::new(1, 3)).is_some());
}
