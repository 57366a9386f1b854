use rspread::command::Command;
use rspread::editor::Editor;
use rspread::engine::{clipboard_text, editor_enter, editor_exit, paste, resolve_header_name, yank, Rect};
use rspread::mode::Mode;
use rspread::pos::{move_cursor, Pos};
use rspread::table::{Table, TableError};

fn table(columns: &[&str], rows: &[&[&str]]) -> Table {
    let mut t = Table::new();
    for c in columns {
        t.create_column(c.to_string()).unwrap();
    }
    for r in rows {
        t.push_row(r.iter().map(|s| s.to_string()).collect());
    }
    t
}

fn cell_rect(x: usize, y: usize) -> Rect {
    Rect { start_x: x, end_x: x + 1, start_y: y, end_y: y + 1 }
}

#[test]
fn move_cursor_clamps() {
    let mut c = Pos::new(1, 0);
    move_cursor(&mut c, -1, -1);
    assert_eq!(c, Pos::new(1, 0));
    move_cursor(&mut c, 2, 3);
    assert_eq!(c, Pos::new(3, 3));
    move_cursor(&mut c, 0, -20);
    assert_eq!(c, Pos::new(3, 1));
    move_cursor(&mut c, 0, -1);
    assert_eq!(c, Pos::new(3, 0));
}

#[test]
fn resolve_header_name_existing_or_generic() {
    let t = table(&["a", "Column 3"], &[]);
    assert_eq!(resolve_header_name(&t, 1), "a");
    assert_eq!(resolve_header_name(&t, 3), "Column 4");
    assert_eq!(resolve_header_name(&t, 4), "Column 4");
}

#[test]
fn editor_enter_seeds_cell_and_caret() {
    let t = table(&["a"], &[&["hello"]]);
    let mut e = Editor::new();
    editor_enter(&t, &Pos::new(1, 1), &mut e, -1);
    assert_eq!(e.get_line(), "hello");
    assert_eq!(e.cur_x, 5);
    editor_enter(&t, &Pos::new(1, 1), &mut e, 0);
    assert_eq!(e.cur_x, 0);
    editor_enter(&t, &Pos::new(1, 1), &mut e, -3);
    assert_eq!(e.cur_x, 3);
    editor_enter(&t, &Pos::new(1, 1), &mut e, -9);
    assert_eq!(e.cur_x, 0);
    editor_enter(&t, &Pos::new(1, 0), &mut e, -1);
    assert_eq!(e.get_line(), "a");
    editor_enter(&t, &Pos::new(2, 0), &mut e, -1);
    assert_eq!(e.get_line(), "Column 2");
    editor_enter(&t, &Pos::new(5, 5), &mut e, -1);
    assert_eq!(e.get_line(), "");
}

#[test]
fn editor_exit_extends_and_writes_cell() {
    let mut t = Table::new();
    let mut e = Editor::new();
    e.insert_at("x", 1);
    let mut mode = Mode::Insert;
    editor_exit(&mut t, &mut mode, &Pos::new(2, 3), &mut e).unwrap();
    assert_eq!(mode, Mode::Normal);
    assert_eq!(e.get_line(), "");
    assert_eq!((t.column_count(), t.row_count()), (2, 3));
    assert!(t.cell_exists(1, 2));
    assert_eq!(t.cell(1, 2), "x");
}

#[test]
fn editor_exit_empty_text_still_covers_cell() {
    let mut t = Table::new();
    let mut e = Editor::new();
    let mut mode = Mode::Insert;
    editor_exit(&mut t, &mut mode, &Pos::new(2, 3), &mut e).unwrap();
    assert_eq!((t.column_count(), t.row_count()), (2, 3));
    assert!(t.cell_exists(1, 2));
    assert_eq!(t.cell(1, 2), "");
}

#[test]
fn editor_exit_empty_header_does_not_extend() {
    let mut t = Table::new();
    let mut e = Editor::new();
    let mut mode = Mode::Insert;
    editor_exit(&mut t, &mut mode, &Pos::new(2, 0), &mut e).unwrap();
    assert_eq!((t.column_count(), t.row_count()), (0, 0));
}

#[test]
fn editor_exit_renames_header_or_reports_collision() {
    let mut t = table(&["a", "b"], &[]);
    let mut e = Editor::new();
    let mut mode = Mode::Insert;
    e.insert_at("c", 1);
    editor_exit(&mut t, &mut mode, &Pos::new(1, 0), &mut e).unwrap();
    assert_eq!(t.column_names(), vec!["c".to_string(), "b".to_string()]);
    e.insert_at("b", 1);
    let r = editor_exit(&mut t, &mut mode, &Pos::new(1, 0), &mut e);
    assert_eq!(r, Err(TableError::NameCollision));
    assert_eq!(e.get_line(), "");
    assert_eq!(mode, Mode::Normal);
    assert_eq!(t.column_names(), vec!["c".to_string(), "b".to_string()]);
}

#[test]
fn yank_cell_then_replace_paste_elsewhere() {
    let mut t = table(&["a", "b"], &[&["1", "2"], &["3", "4"]]);
    let mut clip = Table::new();
    yank(cell_rect(2, 1), &t, &mut clip);
    t.set_cell(1, 0, "changed".to_string());
    let mut cursor = Pos::new(3, 4);
    paste(&mut t, &mut clip, &mut cursor, Command::PasteReplace);
    assert_eq!(t.cell(2, 3), "2");
    assert_eq!(t.column_count(), 3);
    assert_eq!(t.row_count(), 4);
    assert_eq!(cursor, Pos::new(3, 4));
}

#[test]
fn yank_header_stages_name() {
    let t = table(&["a", "b"], &[&["1", "2"]]);
    let mut clip = Table::new();
    yank(Rect { start_x: 2, end_x: 3, start_y: 0, end_y: 1 }, &t, &mut clip);
    assert_eq!(clip.column_names(), vec!["b".to_string()]);
    assert_eq!(clip.cell(0, 0), "b");
}

#[test]
fn yank_outside_table_stages_nothing() {
    let t = table(&["a"], &[&["1"]]);
    let mut clip = Table::new();
    yank(cell_rect(4, 4), &t, &mut clip);
    assert_eq!(clip.column_count(), 0);
    assert_eq!(clip.row_count(), 0);
}

#[test]
fn header_paste_renames_with_copy_name_on_collision() {
    let mut t = table(&["a", "b"], &[]);
    let mut clip = table(&["x"], &[&["b"]]);
    let mut cursor = Pos::new(1, 0);
    paste(&mut t, &mut clip, &mut cursor, Command::PasteAfter);
    assert_eq!(t.column_names(), vec!["b(2)".to_string(), "b".to_string()]);
    let mut clip = table(&["x"], &[&["z"]]);
    paste(&mut t, &mut clip, &mut cursor, Command::PasteBefore);
    assert_eq!(t.column_names(), vec!["z".to_string(), "b".to_string()]);
}

#[test]
fn paste_rows_after_inserts_below_and_moves_down() {
    let mut t = table(&["a", "b"], &[&["1", "2"], &["3", "4"]]);
    let mut clip = table(&["a", "b"], &[&["x", "y"]]);
    let mut cursor = Pos::new(1, 1);
    paste(&mut t, &mut clip, &mut cursor, Command::PasteAfter);
    assert_eq!(t.row_count(), 3);
    assert_eq!(t.row(1), vec!["x".to_string(), "y".to_string()]);
    assert_eq!(t.row(2), vec!["3".to_string(), "4".to_string()]);
    assert_eq!(cursor, Pos::new(1, 2));
}

#[test]
fn paste_rows_before_widens_narrow_side() {
    let mut t = table(&["a"], &[&["1"]]);
    let mut clip = table(&["p", "q"], &[&["x", "y"]]);
    let mut cursor = Pos::new(1, 1);
    paste(&mut t, &mut clip, &mut cursor, Command::PasteBefore);
    assert_eq!(t.column_count(), 2);
    assert_eq!(t.row(0), vec!["x".to_string(), "y".to_string()]);
    assert_eq!(t.row(1), vec!["1".to_string(), "".to_string()]);
    assert_eq!(cursor, Pos::new(1, 1));
}

#[test]
fn paste_rows_below_table_extends_first() {
    let mut t = table(&["a"], &[&["1"]]);
    let mut clip = table(&["a"], &[&["x"]]);
    let mut cursor = Pos::new(1, 4);
    paste(&mut t, &mut clip, &mut cursor, Command::PasteBefore);
    assert_eq!(t.row_count(), 4);
    assert_eq!(t.cell(0, 2), "");
    assert_eq!(t.cell(0, 3), "x");
}

#[test]
fn paste_columns_renames_collisions() {
    let mut t = table(&["a", "b"], &[&["1", "2"]]);
    let mut clip = table(&["a", "c"], &[&["x", "y"], &["z", "w"]]);
    let mut cursor = Pos::new(1, 0);
    paste(&mut t, &mut clip, &mut cursor, Command::PasteAfter);
    assert_eq!(
        t.column_names(),
        vec!["a".to_string(), "a(2)".to_string(), "c".to_string(), "b".to_string()]
    );
    assert_eq!(t.row_count(), 2);
    assert_eq!(t.row(0), vec!["1".to_string(), "x".to_string(), "y".to_string(), "2".to_string()]);
    assert_eq!(t.row(1), vec!["".to_string(), "z".to_string(), "w".to_string(), "".to_string()]);
    assert_eq!(cursor, Pos::new(2, 0));
}

#[test]
fn paste_single_column_of_rows_inserts_column() {
    let mut t = table(&["a", "b"], &[&["1", "2"], &["3", "4"]]);
    let mut clip = table(&["b"], &[&["x"], &["y"]]);
    let mut cursor = Pos::new(1, 1);
    paste(&mut t, &mut clip, &mut cursor, Command::PasteBefore);
    assert_eq!(t.column_names(), vec!["b(2)".to_string(), "a".to_string(), "b".to_string()]);
    assert_eq!(t.cell(0, 1), "y");
}

#[test]
fn paste_with_empty_clipboard_inserts_no_rows() {
    let mut t = table(&["a"], &[&["1"]]);
    let mut clip = Table::new();
    let mut cursor = Pos::new(1, 1);
    paste(&mut t, &mut clip, &mut cursor, Command::PasteAfter);
    assert_eq!(t.row_count(), 1);
    assert_eq!(t.row(0), vec!["1".to_string()]);
    assert_eq!(cursor, Pos::new(1, 2));
}

#[test]
fn replace_with_empty_clipboard_changes_nothing() {
    let mut t = table(&["a"], &[&["1"]]);
    let mut clip = Table::new();
    let mut cursor = Pos::new(1, 1);
    paste(&mut t, &mut clip, &mut cursor, Command::PasteReplace);
    assert_eq!(t.row(0), vec!["1".to_string()]);
    assert_eq!(cursor, Pos::new(1, 1));
}

#[test]
fn clipboard_text_joins_with_tabs_and_newlines() {
    let t = table(&["a", "b"], &[&["1", "2"], &["3", ""]]);
    assert_eq!(clipboard_text(&t), "1\t2\n3\t");
    assert_eq!(clipboard_text(&Table::new()), "");
}

#[test]
fn table_error_message() {
    assert_eq!(TableError::NameCollision.message(), "Column name already exists");
}

#[test]
fn paste_columns_from_clipboard_without_rows() {
    let mut t = Table::new();
    let mut clip = table(&["a"], &[]);
    let mut cursor = Pos::new(1, 0);
    paste(&mut t, &mut clip, &mut cursor, Command::PasteAfter);
    assert_eq!(t.column_names(), vec!["Column 1".to_string(), "a".to_string()]);
    assert_eq!(t.row_count(), 0);
    assert_eq!(cursor, Pos::new(2, 0));
}

#[test]
fn paste_rows_from_clipboard_without_rows_widens_and_moves() {
    let mut t = table(&["x"], &[&["1"]]);
    let mut clip = table(&["a", "b"], &[]);
    let mut cursor = Pos::new(1, 1);
    paste(&mut t, &mut clip, &mut cursor, Command::PasteAfter);
    assert_eq!(t.column_count(), 2);
    assert_eq!(t.row_count(), 1);
    assert_eq!(t.row(0), vec!["1".to_string(), "".to_string()]);
    assert_eq!(cursor, Pos::new(1, 2));
}

#[test]
fn replace_from_clipboard_without_rows_changes_nothing() {
    let mut t = table(&["x"], &[&["1"]]);
    let mut clip = table(&["a"], &[]);
    let mut cursor = Pos::new(1, 1);
    paste(&mut t, &mut clip, &mut cursor, Command::PasteReplace);
    assert_eq!(t.row(0), vec!["1".to_string()]);
    assert_eq!(cursor, Pos::new(1, 1));
}

fn rows_without_columns(n: usize) -> Table {
    let mut t = Table::new();
    for _ in 0..n {
        t.push_row(vec![]);
    }
    t
}

#[test]
fn paste_rows_from_clipboard_without_columns() {
    let mut t = table(&["x"], &[&["1"], &["2"]]);
    let mut clip = rows_without_columns(1);
    let mut cursor = Pos::new(1, 1);
    paste(&mut t, &mut clip, &mut cursor, Command::PasteAfter);
    assert_eq!(t.row_count(), 3);
    assert_eq!(t.row(1), vec!["".to_string()]);
    assert_eq!(t.row(2), vec!["2".to_string()]);
    assert_eq!(cursor, Pos::new(1, 2));
    assert_eq!(clip.column_count(), 1);
}

#[test]
fn header_paste_from_clipboard_without_columns_reconciles_rows() {
    let mut t = table(&["x"], &[&["1"]]);
    let mut clip = rows_without_columns(3);
    let mut cursor = Pos::new(1, 0);
    paste(&mut t, &mut clip, &mut cursor, Command::PasteAfter);
    assert_eq!(t.row_count(), 3);
    assert_eq!(t.column_names(), vec!["x".to_string()]);
    assert_eq!(cursor, Pos::new(2, 0));
}
