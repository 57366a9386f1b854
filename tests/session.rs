use rspread::command::Command;
use rspread::key::Key;
use rspread::mode::Mode;
use rspread::pos::Pos;
use rspread::session::{set_error_message, set_table, Session, State};
use rspread::table::Table;

fn press(s: &mut Session, key: Key) -> Option<String> {
    s.input(key, 30, "");
    s.execute("2024-01-02")
}

fn type_text(s: &mut Session, text: &str) {
    for c in text.chars() {
        press(s, Key::Char(c));
    }
}

#[test]
fn end_to_end_edit_of_empty_table() {
    let mut s = Session::new(Table::new());
    press(&mut s, Key::Char('l'));
    press(&mut s, Key::Char('j'));
    press(&mut s, Key::Char('j'));
    assert_eq!(s.cursor, Pos::new(2, 3));
    press(&mut s, Key::Char('a'));
    assert_eq!(s.mode, Mode::Insert);
    type_text(&mut s, "hello");
    press(&mut s, Key::Esc);
    assert_eq!(s.mode, Mode::Normal);
    assert!(s.table.column_count() >= 2);
    assert!(s.table.row_count() >= 3);
    assert_eq!(s.table.cell(1, 2), "hello");
    let names = s.table.column_names();
    assert_eq!(names[0], "Column 1");
    assert_eq!(names[1], "Column 2");
    assert_ne!(names[0], names[1]);
}

#[test]
fn commit_covers_cell_for_any_position() {
    let mut s = Session::new(Table::new());
    s.cursor = Pos::new(4, 2);
    press(&mut s, Key::Char('i'));
    type_text(&mut s, "v");
    press(&mut s, Key::Esc);
    assert!(s.table.cell_exists(3, 1));
    assert!(s.table.column_count() >= 4);
    assert!(s.table.row_count() >= 2);
}

#[test]
fn tab_commits_and_continues_right() {
    let mut s = Session::new(Table::new());
    press(&mut s, Key::Char('a'));
    type_text(&mut s, "x");
    press(&mut s, Key::Char('\t'));
    assert_eq!(s.cursor, Pos::new(2, 1));
    assert_eq!(s.mode, Mode::Insert);
    type_text(&mut s, "y");
    press(&mut s, Key::Esc);
    assert_eq!(s.table.row(0), vec!["x".to_string(), "y".to_string()]);
}

#[test]
fn enter_opens_new_line_with_indent() {
    let mut s = Session::new(Table::new());
    press(&mut s, Key::Char('a'));
    type_text(&mut s, "  item");
    press(&mut s, Key::Char('\n'));
    assert_eq!(s.cursor, Pos::new(1, 2));
    assert_eq!(s.mode, Mode::Insert);
    assert_eq!(s.editor.get_line(), "  ");
    type_text(&mut s, "next");
    press(&mut s, Key::Esc);
    assert_eq!(s.table.cell(0, 1), "  next");
}

#[test]
fn yank_cell_and_replace_paste_survive_source_change() {
    let mut s = Session::new(Table::new());
    press(&mut s, Key::Char('a'));
    type_text(&mut s, "src");
    press(&mut s, Key::Esc);
    let text = press(&mut s, Key::Ctrl('c'));
    assert_eq!(text, Some("src".to_string()));
    press(&mut s, Key::Char('a'));
    type_text(&mut s, "!");
    press(&mut s, Key::Esc);
    assert_eq!(s.table.cell(0, 0), "src!");
    press(&mut s, Key::Char('l'));
    press(&mut s, Key::Char('j'));
    press(&mut s, Key::Ctrl('v'));
    assert_eq!(s.table.cell(1, 1), "src");
}

#[test]
fn header_rename_paste_keeps_names_distinct() {
    let mut t = Table::new();
    t.create_column("a".to_string()).unwrap();
    t.create_column("b".to_string()).unwrap();
    let mut s = Session::new(t);
    s.cursor = Pos::new(2, 0);
    press(&mut s, Key::Ctrl('c'));
    s.cursor = Pos::new(1, 0);
    press(&mut s, Key::Char('p'));
    let names = s.table.column_names();
    assert_eq!(names, vec!["b(2)".to_string(), "b".to_string()]);
}

#[test]
fn unknown_key_sets_error_then_clears() {
    let mut s = Session::new(Table::new());
    press(&mut s, Key::Char('z'));
    assert_eq!(s.mode, Mode::Error);
    assert_eq!(s.message, "Unknown key: z");
    assert_eq!(s.cursor, Pos::new(1, 1));
    press(&mut s, Key::Char('j'));
    assert_eq!(s.mode, Mode::Normal);
    assert_eq!(s.message, "");
    assert_eq!(s.cursor, Pos::new(1, 1));
}

#[test]
fn delete_pending_cancels_silently() {
    let mut s = Session::new(Table::new());
    press(&mut s, Key::Char('d'));
    assert_eq!(s.mode, Mode::Delete);
    press(&mut s, Key::Char('x'));
    assert_eq!(s.mode, Mode::Normal);
    assert_eq!(s.command, Command::NoOp);
}

#[test]
fn yank_pending_escape_and_row_yank() {
    let mut s = Session::new(Table::new());
    press(&mut s, Key::Char('y'));
    assert_eq!(s.mode, Mode::Yank);
    press(&mut s, Key::Esc);
    assert_eq!(s.mode, Mode::Normal);
    press(&mut s, Key::Char('y'));
    s.input(Key::Char('y'), 30, "");
    assert_eq!(s.command, Command::YankRow);
    assert_eq!(s.mode, Mode::Normal);
}

#[test]
fn delete_line_removes_row_and_yanks_it() {
    let mut s = Session::new(Table::new());
    press(&mut s, Key::Char('a'));
    type_text(&mut s, "one");
    press(&mut s, Key::Char('\t'));
    type_text(&mut s, "two");
    press(&mut s, Key::Esc);
    s.cursor = Pos::new(1, 1);
    press(&mut s, Key::Char('d'));
    let text = press(&mut s, Key::Char('d'));
    assert_eq!(text, Some("one\ttwo".to_string()));
    assert_eq!(s.table.row_count(), 0);
    assert_eq!(s.cursor, Pos::new(1, 1));
}

#[test]
fn delete_column_removes_it() {
    let mut s = Session::new(Table::new());
    press(&mut s, Key::Char('a'));
    type_text(&mut s, "one");
    press(&mut s, Key::Char('\t'));
    type_text(&mut s, "two");
    press(&mut s, Key::Esc);
    s.cursor = Pos::new(1, 1);
    press(&mut s, Key::Char('d'));
    press(&mut s, Key::Char('c'));
    assert_eq!(s.table.column_names(), vec!["Column 2".to_string()]);
    assert_eq!(s.clipboard.cell(0, 0), "one");
}

#[test]
fn delete_cell_empties_it() {
    let mut s = Session::new(Table::new());
    press(&mut s, Key::Char('a'));
    type_text(&mut s, "v");
    press(&mut s, Key::Esc);
    let text = press(&mut s, Key::Char('x'));
    assert_eq!(text, Some("v".to_string()));
    assert_eq!(s.table.cell(0, 0), "");
}

#[test]
fn insert_rows_and_columns() {
    let mut s = Session::new(Table::new());
    press(&mut s, Key::Char('a'));
    type_text(&mut s, "v");
    press(&mut s, Key::Esc);
    press(&mut s, Key::Char('O'));
    assert_eq!(s.table.row_count(), 2);
    assert_eq!(s.table.cell(0, 1), "v");
    press(&mut s, Key::Char('I'));
    assert_eq!(s.table.column_count(), 2);
    assert_eq!(s.table.cell(1, 1), "v");
    assert_eq!(s.table.cell(0, 1), "");
}

#[test]
fn indent_commands_shift_cell_text() {
    let mut s = Session::new(Table::new());
    press(&mut s, Key::Char('a'));
    type_text(&mut s, "v");
    press(&mut s, Key::Esc);
    press(&mut s, Key::Char('>'));
    assert_eq!(s.table.cell(0, 0), "  v");
    press(&mut s, Key::Char('<'));
    assert_eq!(s.table.cell(0, 0), "v");
}

#[test]
fn paste_today_writes_date() {
    let mut s = Session::new(Table::new());
    s.cursor = Pos::new(2, 2);
    press(&mut s, Key::Char(','));
    assert_eq!(s.table.cell(1, 1), "2024-01-02");
}

#[test]
fn repeat_last_command() {
    let mut s = Session::new(Table::new());
    press(&mut s, Key::Char('a'));
    type_text(&mut s, "v");
    press(&mut s, Key::Esc);
    press(&mut s, Key::Char('>'));
    press(&mut s, Key::Char('.'));
    assert_eq!(s.table.cell(0, 0), "    v");
}

#[test]
fn insert_mode_editing_keys() {
    let mut s = Session::new(Table::new());
    press(&mut s, Key::Char('a'));
    type_text(&mut s, "ab cd");
    press(&mut s, Key::Ctrl('w'));
    assert_eq!(s.editor.get_line(), "ab ");
    press(&mut s, Key::Home);
    press(&mut s, Key::Delete);
    assert_eq!(s.editor.get_line(), "b ");
    s.input(Key::Ctrl('v'), 30, "xy");
    assert_eq!(s.editor.get_line(), "xyb ");
    press(&mut s, Key::Esc);
    assert_eq!(s.table.cell(0, 0), "xyb ");
}

#[test]
fn command_line_mode_exits_on_enter() {
    let mut s = Session::new(Table::new());
    press(&mut s, Key::Char(':'));
    assert_eq!(s.mode, Mode::Command);
    s.input(Key::Char('q'), 30, "");
    assert_eq!(s.editor.get_line(), "q");
    s.input(Key::Char('\n'), 30, "");
    assert_eq!(s.command, Command::CommandLineExit);
    assert_eq!(s.mode, Mode::Normal);
}

#[test]
fn navigation_edges_and_pages() {
    let mut t = Table::new();
    rspread::table::extend_table(&mut t, 3, 40);
    let mut s = Session::new(t);
    press(&mut s, Key::Char('$'));
    assert_eq!(s.cursor.x, 3);
    press(&mut s, Key::Char('G'));
    assert_eq!(s.cursor.y, 40);
    press(&mut s, Key::PageUp);
    assert_eq!(s.cursor.y, 15);
    press(&mut s, Key::Ctrl('u'));
    assert_eq!(s.cursor.y, 3);
    press(&mut s, Key::PageUp);
    assert_eq!(s.cursor.y, 1);
    press(&mut s, Key::Char('0'));
    assert_eq!(s.cursor.x, 1);
    press(&mut s, Key::Char('k'));
    assert_eq!(s.cursor.y, 0);
}

#[test]
fn set_table_remembers_previous() {
    let mut state = State {
        db_dir: "d".to_string(),
        db_name: "n".to_string(),
        table_name: "old".to_string(),
    };
    let mut previous = String::new();
    let mut cursor = Pos::new(4, 5);
    set_table("new", &mut state, &mut previous, &mut cursor);
    assert_eq!(previous, "old");
    assert_eq!(state.table_name, "new");
    assert_eq!(cursor, Pos::new(1, 1));
}

#[test]
fn set_error_message_enters_error_mode() {
    let mut message = String::new();
    let mut mode = Mode::Normal;
    set_error_message("boom", &mut message, &mut mode);
    assert_eq!(message, "boom");
    assert_eq!(mode, Mode::Error);
    assert_eq!(Mode::new(), Mode::Normal);
    assert_eq!(Command::new(), Command::NoOp);
    assert_eq!(Mode::ListTables.label(), "List Tables");
}
