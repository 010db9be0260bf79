use nomad::editor::Editor;

fn editor_with(lines: &[&str], row: usize, col: usize) -> Editor {
    let mut e = Editor::new();
    e.content = lines.iter().map(|l| l.chars().collect()).collect();
    e.cursor_y = row;
    e.cursor_x = col;
    e
}

fn lines(e: &Editor) -> Vec<String> {
    e.content.iter().map(|l| l.iter().collect()).collect()
}

#[test]
fn new_editor_is_one_empty_line() {
    let e = Editor::new();
    assert_eq!(lines(&e), vec![String::new()]);
    assert_eq!((e.cursor_y, e.cursor_x), (0, 0));
    assert!(e.filename.is_none());
    assert_eq!(e.status_message, "");
    assert_eq!(e.get_content(), "");
}

#[test]
fn newline_at_end_of_line() {
    let mut e = editor_with(&["abc"], 0, 3);
    e.insert_newline();
    assert_eq!(lines(&e), vec!["abc", ""]);
    assert_eq!((e.cursor_y, e.cursor_x), (1, 0));
}

#[test]
fn newline_in_middle_splits_line() {
    let mut e = editor_with(&["hello", "x"], 0, 2);
    e.insert_newline();
    assert_eq!(lines(&e), vec!["he", "llo", "x"]);
    assert_eq!((e.cursor_y, e.cursor_x), (1, 0));
}

#[test]
fn backspace_at_line_start_merges() {
    let mut e = editor_with(&["ab", "cd"], 1, 0);
    e.delete_char();
    assert_eq!(lines(&e), vec!["abcd"]);
    assert_eq!((e.cursor_y, e.cursor_x), (0, 2));
}

#[test]
fn backspace_inside_line_removes_char() {
    let mut e = editor_with(&["abc"], 0, 2);
    e.delete_char();
    assert_eq!(lines(&e), vec!["ac"]);
    assert_eq!((e.cursor_y, e.cursor_x), (0, 1));
}

#[test]
fn backspace_at_buffer_start_is_noop() {
    let mut e = editor_with(&["abc", "d"], 0, 0);
    e.delete_char();
    assert_eq!(lines(&e), vec!["abc", "d"]);
    assert_eq!((e.cursor_y, e.cursor_x), (0, 0));
}

#[test]
fn move_right_at_end_stays() {
    let mut e = editor_with(&["hello"], 0, 5);
    e.move_cursor_right();
    assert_eq!((e.cursor_y, e.cursor_x), (0, 5));
    assert_eq!(lines(&e), vec!["hello"]);
}

#[test]
fn move_right_wraps_to_next_line() {
    let mut e = editor_with(&["ab", "c"], 0, 2);
    e.move_cursor_right();
    assert_eq!((e.cursor_y, e.cursor_x), (1, 0));
}

#[test]
fn move_right_repeated_reaches_end_and_stays() {
    let mut e = editor_with(&["ab", "", "cde"], 0, 1);
    // one step to the end of "ab", one onto "", one onto "cde", three along it
    for _ in 0..6 {
        e.move_cursor_right();
    }
    assert_eq!((e.cursor_y, e.cursor_x), (2, 3));
    for _ in 0..4 {
        e.move_cursor_right();
        assert_eq!((e.cursor_y, e.cursor_x), (2, 3));
    }
}

#[test]
fn move_left_wraps_to_previous_line_end() {
    let mut e = editor_with(&["abc", "d"], 1, 0);
    e.move_cursor_left();
    assert_eq!((e.cursor_y, e.cursor_x), (0, 3));
    let mut s = editor_with(&["abc"], 0, 0);
    s.move_cursor_left();
    assert_eq!((s.cursor_y, s.cursor_x), (0, 0));
}

#[test]
fn move_up_and_down_clamp_column() {
    let mut e = editor_with(&["ab", "hello", "xyz"], 1, 4);
    e.move_cursor_up();
    assert_eq!((e.cursor_y, e.cursor_x), (0, 2));
    e.move_cursor_up();
    assert_eq!((e.cursor_y, e.cursor_x), (0, 2));
    let mut d = editor_with(&["ab", "hello", "xyz"], 1, 4);
    d.move_cursor_down();
    assert_eq!((d.cursor_y, d.cursor_x), (2, 3));
    d.move_cursor_down();
    assert_eq!((d.cursor_y, d.cursor_x), (2, 3));
    let mut k = editor_with(&["ab", "hello"], 0, 1);
    k.move_cursor_down();
    assert_eq!((k.cursor_y, k.cursor_x), (1, 1));
}

#[test]
fn jump_to_start_and_end() {
    let mut e = editor_with(&["ab", "hello", "xyz!"], 1, 2);
    e.move_cursor_to_end();
    assert_eq!((e.cursor_y, e.cursor_x), (2, 4));
    e.move_cursor_to_start();
    assert_eq!((e.cursor_y, e.cursor_x), (0, 0));
}

#[test]
fn insert_char_advances_cursor() {
    let mut e = editor_with(&["ac"], 0, 1);
    e.insert_char('b');
    assert_eq!(lines(&e), vec!["abc"]);
    assert_eq!((e.cursor_y, e.cursor_x), (0, 2));
    e.move_cursor_to_end();
    e.insert_char('d');
    assert_eq!(lines(&e), vec!["abcd"]);
    assert_eq!((e.cursor_y, e.cursor_x), (0, 4));
}

#[test]
fn insert_char_counts_code_points() {
    let mut e = editor_with(&["héllo"], 0, 2);
    e.insert_char('ü');
    assert_eq!(lines(&e), vec!["héüllo"]);
    assert_eq!(e.cursor_x, 3);
    e.delete_char();
    e.delete_char();
    assert_eq!(lines(&e), vec!["hllo"]);
    assert_eq!(e.cursor_x, 1);
}

#[test]
fn newline_then_backspace_restores() {
    let mut e = editor_with(&["one", "hello", "two"], 1, 3);
    e.insert_newline();
    assert_eq!(lines(&e), vec!["one", "hel", "lo", "two"]);
    e.delete_char();
    assert_eq!(lines(&e), vec!["one", "hello", "two"]);
    assert_eq!((e.cursor_y, e.cursor_x), (1, 3));
}

#[test]
fn insert_then_backspace_restores() {
    let mut e = editor_with(&["hello"], 0, 2);
    e.insert_char('z');
    e.delete_char();
    assert_eq!(lines(&e), vec!["hello"]);
    assert_eq!((e.cursor_y, e.cursor_x), (0, 2));
}

#[test]
fn cursor_stays_in_bounds_through_edits() {
    let mut e = Editor::new();
    for c in "ab".chars() {
        e.insert_char(c);
    }
    e.insert_newline();
    e.insert_char('c');
    e.move_cursor_up();
    e.move_cursor_to_end();
    e.delete_char();
    e.delete_char();
    e.delete_char();
    e.delete_char();
    e.delete_char();
    e.delete_char();
    assert!(!e.content.is_empty());
    assert!(e.cursor_y < e.content.len());
    assert!(e.cursor_x <= e.content[e.cursor_y].len());
    assert_eq!(lines(&e), vec![""]);
}
