use nomad::editor::Editor;
use nomad::text::{chars_of, lines_from, string_of};

fn lines(e: &Editor) -> Vec<String> {
    e.content.iter().map(|l| l.iter().collect()).collect()
}

#[test]
fn load_three_lines_and_read_back() {
    let mut e = Editor::new();
    e.load("x\ny\nz");
    assert_eq!(lines(&e), vec!["x", "y", "z"]);
    assert_eq!((e.cursor_y, e.cursor_x), (0, 0));
    assert_eq!(e.get_content(), "x\ny\nz");
}

#[test]
fn load_empty_text_gives_one_empty_line() {
    let mut e = Editor::new();
    e.load("");
    assert_eq!(lines(&e), vec![""]);
    e.load("\n");
    assert_eq!(lines(&e), vec![""]);
}

#[test]
fn load_drops_one_trailing_newline() {
    let mut e = Editor::new();
    e.load("a\n");
    assert_eq!(lines(&e), vec!["a"]);
    e.load("a\n\n");
    assert_eq!(lines(&e), vec!["a", ""]);
    e.load("\nb");
    assert_eq!(lines(&e), vec!["", "b"]);
}

#[test]
fn load_keeps_carriage_returns() {
    let mut e = Editor::new();
    e.load("a\r\nb");
    assert_eq!(lines(&e), vec!["a\r", "b"]);
}

#[test]
fn load_resets_cursor() {
    let mut e = Editor::new();
    e.load("abc\ndef");
    e.move_cursor_to_end();
    e.load("q");
    assert_eq!((e.cursor_y, e.cursor_x), (0, 0));
}

#[test]
fn content_then_load_round_trips() {
    let mut e = Editor::new();
    e.content = vec![vec!['a', 'b'], vec![], vec!['c']];
    let text = e.get_content();
    assert_eq!(text, "ab\n\nc");
    let mut f = Editor::new();
    f.load(&text);
    assert_eq!(f.content, e.content);
}

#[test]
fn content_then_load_loses_trailing_empty_line() {
    let mut e = Editor::new();
    e.content = vec![vec!['a'], vec![]];
    let text = e.get_content();
    assert_eq!(text, "a\n");
    let mut f = Editor::new();
    f.load(&text);
    assert_eq!(lines(&f), vec!["a"]);
}

#[test]
fn content_has_no_trailing_newline() {
    let mut e = Editor::new();
    e.content = vec![vec!['a'], vec!['b']];
    assert_eq!(e.get_content(), "a\nb");
}

#[test]
fn text_conversions() {
    assert_eq!(chars_of("hé!"), vec!['h', 'é', '!']);
    assert_eq!(string_of(&vec!['o', 'k']), "ok");
    assert_eq!(
        lines_from("ab\ncd\n"),
        vec![vec!['a', 'b'], vec!['c', 'd']]
    );
}
