use kilo_core::highlight::{clip_highlights, Color, Highlight, HighlightStyle};
use kilo_core::render::{raw_index, render_chars, render_line};
use kilo_core::view::ViewGeometry;

fn style(tag: u8) -> HighlightStyle {
    let c = Color { r: tag, g: 0, b: 0, a: 255 };
    HighlightStyle { foreground: c, background: c, bold: false, italic: false, underline: false }
}

#[test]
fn tab_renders_as_eight_spaces() {
    assert_eq!(render_line("\t"), " ".repeat(8));
}

#[test]
fn tab_after_char_reaches_next_stop() {
    assert_eq!(render_line("a\tb"), format!("a{}b", " ".repeat(7)));
}

#[test]
fn tab_stops_count_rendered_width() {
    assert_eq!(render_line("\t\tx"), format!("{}x", " ".repeat(16)));
    assert_eq!(render_line("abcdefgh\t|"), format!("abcdefgh{}|", " ".repeat(8)));
    assert_eq!(render_line("abcdefg\t|"), "abcdefg |");
    assert_eq!(render_line("plain"), "plain");
    assert_eq!(render_line(""), "");
}

#[test]
fn render_chars_expands_tabs() {
    let line: Vec<char> = "ab\tc".chars().collect();
    let rendered: String = render_chars(&line).iter().collect();
    assert_eq!(rendered, "ab      c");
}

#[test]
fn raw_index_finds_covering_character() {
    let line: Vec<char> = "a\tb".chars().collect();
    assert_eq!(raw_index(&line, 0), 0);
    assert_eq!(raw_index(&line, 1), 1);
    assert_eq!(raw_index(&line, 5), 1);
    assert_eq!(raw_index(&line, 8), 2);
    assert_eq!(raw_index(&line, 9), 3);
    assert_eq!(raw_index(&line, 100), 3);
}

#[test]
fn view_geometry_last_line_and_col() {
    let v = ViewGeometry::new(3, 5, 10, 4);
    assert_eq!(v.last_line(), 6);
    assert_eq!(v.last_col(), 14);
    let empty = ViewGeometry::new(3, 5, 0, 0);
    assert_eq!(empty.last_line(), 3);
    assert_eq!(empty.last_col(), 5);
    let top = ViewGeometry::new(0, 0, 1, 1);
    assert_eq!(top.last_line(), 0);
    assert_eq!(top.last_col(), 0);
    let far = ViewGeometry::new(usize::MAX - 1, 0, 1, 5);
    assert_eq!(far.last_line(), usize::MAX);
}

#[test]
fn highlights_are_clipped_to_window() {
    let hs = vec![
        Highlight::new(style(1), 0, 4),
        Highlight::new(style(2), 4, 9),
        Highlight::new(style(3), 9, 20),
    ];
    let clipped = clip_highlights(&hs, 3, 10);
    assert_eq!(
        clipped,
        vec![
            Highlight::new(style(1), 0, 1),
            Highlight::new(style(2), 1, 6),
            Highlight::new(style(3), 6, 7),
        ]
    );
    let none = clip_highlights(&hs, 20, 25);
    assert!(none.is_empty());
}
