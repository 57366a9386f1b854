use rspread::editor::Editor;

fn editor_with(text: &str, caret: usize) -> Editor {
    let mut e = Editor::new();
    e.insert_at(text, caret);
    e
}

#[test]
fn new_editor_is_empty() {
    let e = Editor::new();
    assert_eq!(e.get_line(), "");
    assert_eq!(e.cur_x, 0);
    assert_eq!(e.len_utf8(), 0);
}

#[test]
fn add_inserts_at_caret_and_normalizes() {
    let mut e = editor_with("ac", 1);
    e.add('b');
    assert_eq!(e.get_line(), "abc");
    assert_eq!(e.cur_x, 2);
    e.add('\t');
    assert_eq!(e.get_line(), "ab    c");
    assert_eq!(e.cur_x, 6);
    e.add('\n');
    e.add('\r');
    assert_eq!(e.get_line(), "ab      c");
    assert_eq!(e.cur_x, 8);
}

#[test]
fn multibyte_characters_count_once() {
    let mut e = editor_with("äö", 2);
    assert_eq!(e.len_utf8(), 2);
    e.add('ü');
    e.left();
    e.backspace();
    assert_eq!(e.get_line(), "äü");
    assert_eq!(e.cur_x, 1);
}

#[test]
fn insert_at_clamps_caret() {
    let e = editor_with("abc", 10);
    assert_eq!(e.cur_x, 3);
    let e = editor_with("abc", 1);
    assert_eq!(e.cur_x, 1);
}

#[test]
fn left_right_stop_at_ends() {
    let mut e = editor_with("ab", 0);
    e.left();
    assert_eq!(e.cur_x, 0);
    e.right();
    e.right();
    e.right();
    assert_eq!(e.cur_x, 2);
    e.home();
    assert_eq!(e.cur_x, 0);
    e.end();
    assert_eq!(e.cur_x, 2);
}

#[test]
fn backspace_and_delete() {
    let mut e = editor_with("abc", 0);
    e.backspace();
    assert_eq!(e.get_line(), "abc");
    e.delete();
    assert_eq!(e.get_line(), "bc");
    e.end();
    e.delete();
    assert_eq!(e.get_line(), "bc");
    e.backspace();
    assert_eq!(e.get_line(), "b");
    assert_eq!(e.cur_x, 1);
}

#[test]
fn delete_left_and_right_all() {
    let mut e = editor_with("hello world", 5);
    e.delete_right_all();
    assert_eq!(e.get_line(), "hello");
    assert_eq!(e.cur_x, 5);
    let mut e = editor_with("hello world", 6);
    e.delete_left_all();
    assert_eq!(e.get_line(), "world");
    assert_eq!(e.cur_x, 0);
}

#[test]
fn word_motions() {
    let mut e = editor_with("one two  three", 14);
    e.word_left();
    assert_eq!(e.cur_x, 9);
    e.word_left();
    assert_eq!(e.cur_x, 4);
    e.word_right();
    assert_eq!(e.cur_x, 9);
    e.word_right();
    assert_eq!(e.cur_x, 14);
    e.home();
    e.word_left();
    assert_eq!(e.cur_x, 0);
}

#[test]
fn delete_word_removes_word_and_trailing_space() {
    let mut e = editor_with("one two  ", 9);
    e.delete_word();
    assert_eq!(e.get_line(), "one ");
    assert_eq!(e.cur_x, 4);
}

#[test]
fn indent_right_then_left() {
    let mut e = editor_with("x", 1);
    e.indent_right();
    assert_eq!(e.get_line(), "  x");
    assert_eq!(e.cur_x, 3);
    e.indent_left();
    assert_eq!(e.get_line(), "x");
    assert_eq!(e.cur_x, 1);
}

#[test]
fn indent_left_stops_at_non_space() {
    let mut e = editor_with(" ab", 0);
    e.indent_left();
    assert_eq!(e.get_line(), "ab");
    assert_eq!(e.cur_x, 0);
    let mut e = editor_with("a  b", 2);
    e.indent_left();
    assert_eq!(e.get_line(), "a  b");
    assert_eq!(e.cur_x, 2);
    let mut e = editor_with("    b", 4);
    e.indent_left();
    assert_eq!(e.get_line(), "  b");
    assert_eq!(e.cur_x, 2);
}

#[test]
fn insert_clipboard_types_each_character() {
    let mut e = editor_with("[]", 1);
    e.insert_clipboard("a\tb\nc");
    assert_eq!(e.get_line(), "[a    b c]");
    assert_eq!(e.cur_x, 9);
}

#[test]
fn clear_empties_line() {
    let mut e = editor_with("abc", 2);
    e.clear();
    assert_eq!(e.get_line(), "");
    assert_eq!(e.cur_x, 0);
}
