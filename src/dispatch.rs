//! Carrying out the commands that input produces, on the session's tables.

use vstd::prelude::*;
use crate::command::Command;
use crate::editor::outdent_width;
use crate::engine::{
    clipboard_text, rows_text, commit_edit, editor_enter, editor_exit, entry_caret, paste, paste_result,
    seed_text, yank, yanked, Rect,
};
use crate::mode::Mode;
use crate::names::generic_name_for;
use crate::pos::{clamp_index, Pos};
use crate::session::{set_error_message, Session};
use crate::table::{blank_row, extend_table, extended, TableModel};

verus! {

broadcast use vstd::seq_lib::group_seq_properties;

/// The number of spaces that `s` starts with.
pub open spec fn leading_spaces(s: Seq<char>) -> nat
    decreases s.len(),
{
    if s.len() > 0 && s[0] == ' ' {
        1 + leading_spaces(s.drop_first())
    } else {
        0
    }
}

/// `n` spaces.
pub open spec fn spaces(n: nat) -> Seq<char> {
    Seq::new(n, |i: int| ' ')
}

/// The cursor after leaving text entry with `command`: one step left (not
/// past column 1), right, up (not past the header band) or down.
pub open spec fn exit_moved(c: Pos, command: Command) -> Pos {
    if command == Command::EditorExitLeft {
        if c.x > 1 {
            Pos { x: (c.x - 1) as usize, y: c.y }
        } else {
            c
        }
    } else if command == Command::EditorExitRight {
        Pos { x: clamp_index(c.x + 1, 1), y: c.y }
    } else if command == Command::EditorExitUp {
        if c.y > 0 {
            Pos { x: c.x, y: (c.y - 1) as usize }
        } else {
            c
        }
    } else if command == Command::EditorExitDown {
        Pos { x: c.x, y: clamp_index(c.y + 1, 0) }
    } else {
        c
    }
}

/// Opening a new line below data row `c.y`: an empty row goes in below it,
/// the cursor moves down, and the new cell starts with as many spaces as
/// the cell above starts with. Below the table the cursor only moves down;
/// on the header band nothing happens.
pub open spec fn new_line_result(t: TableModel, c: Pos) -> (TableModel, Pos) {
    if c.y == 0 {
        (t, c)
    } else if c.y <= t.rows.len() {
        let t1 = TableModel {
            columns: t.columns,
            rows: t.rows.insert(c.y as int, blank_row(t.columns.len())),
        };
        let above = if t.has_cell(c.x - 1, c.y - 1) {
            t.cell(c.x - 1, c.y - 1)
        } else {
            Seq::empty()
        };
        let t2 = if t1.has_cell(c.x - 1, c.y as int) {
            t1.with_cell(c.x - 1, c.y as int, spaces(leading_spaces(above)))
        } else {
            t1
        };
        (t2, Pos { x: c.x, y: clamp_index(c.y + 1, 0) })
    } else {
        (t, Pos { x: c.x, y: clamp_index(c.y + 1, 0) })
    }
}

/// The range that a yank command takes at the cursor: the cell, the whole
/// row, or the whole column.
pub open spec fn yank_rect(command: Command, c: Pos, t: TableModel) -> Rect {
    if command == Command::YankRow {
        Rect {
            start_x: 1,
            end_x: clamp_index(t.columns.len() + 1int, 1),
            start_y: c.y,
            end_y: clamp_index(c.y + 1, 0),
        }
    } else if command == Command::YankColumn {
        Rect {
            start_x: c.x,
            end_x: clamp_index(c.x + 1, 1),
            start_y: 1,
            end_y: clamp_index(t.rows.len() + 1int, 0),
        }
    } else {
        Rect {
            start_x: c.x,
            end_x: clamp_index(c.x + 1, 1),
            start_y: c.y,
            end_y: clamp_index(c.y + 1, 0),
        }
    }
}

/// The line after one indent step to the left or to the right.
pub open spec fn indented(s: Seq<char>, left: bool) -> Seq<char> {
    if left {
        s.subrange(outdent_width(s) as int, s.len() as int)
    } else {
        seq![' ', ' '] + s
    }
}

/// Clearing the cell at the cursor: a data cell is emptied; a column name
/// goes back to its generic name.
pub open spec fn cell_cleared(t: TableModel, c: Pos) -> TableModel {
    if c.y > 0 {
        if t.has_cell(c.x - 1, c.y - 1) {
            t.with_cell(c.x - 1, c.y - 1, Seq::empty())
        } else {
            t
        }
    } else if c.x <= t.columns.len() {
        t.with_column_name(c.x - 1, generic_name_for(t.columns, c.x as nat))
    } else {
        t
    }
}

/// Inserting an empty, generically named column at the cursor's column,
/// after growing the table to that column.
pub open spec fn column_inserted(t: TableModel, c: Pos) -> TableModel {
    let t1 = extended(t, c.x as nat, 0);
    t1.with_column_at(c.x - 1, generic_name_for(t1.columns, c.x as nat))
}

/// `t` with an empty row inserted before row `y`.
pub open spec fn with_blank_row(t: TableModel, y: int) -> TableModel {
    TableModel { columns: t.columns, rows: t.rows.insert(y, blank_row(t.columns.len())) }
}

/// What leaving text entry with `command` does (see `Session::exit_edit`):
/// the line is committed (see `commit_edit`); unless the table refused it or
/// the command is the plain exit, the cursor moves on (see `exit_moved` and
/// `new_line_result`) and editing starts there with the caret at the end.
pub open spec fn exits_to(before: Session, after: Session, command: Command) -> bool {
    let (t1, ok) = commit_edit(before.table@, before.cursor, before.editor.line@);
    if !ok {
        &&& after.table@ == t1
        &&& after.cursor == before.cursor
        &&& after.mode == Mode::Error
        &&& after.editor.line@ == Seq::<char>::empty()
    } else if command == Command::EditorNewLine {
        let (t2, c2) = new_line_result(t1, before.cursor);
        &&& after.table@ == t2
        &&& after.cursor == c2
        &&& if before.cursor.y == 0 {
            &&& after.mode == Mode::Normal
            &&& after.editor.line@ == Seq::<char>::empty()
        } else {
            &&& after.mode == Mode::Insert
            &&& after.editor.line@ == seed_text(t2, c2)
            &&& after.editor.cur_x == seed_text(t2, c2).len()
        }
    } else if command == Command::EditorExitLeft || command == Command::EditorExitRight
        || command == Command::EditorExitUp || command == Command::EditorExitDown {
        let c2 = exit_moved(before.cursor, command);
        &&& after.table@ == t1
        &&& after.cursor == c2
        &&& after.mode == Mode::Insert
        &&& after.editor.line@ == seed_text(t1, c2)
        &&& after.editor.cur_x == seed_text(t1, c2).len()
    } else {
        &&& after.table@ == t1
        &&& after.cursor == before.cursor
        &&& after.mode == Mode::Normal
        &&& after.editor.line@ == Seq::<char>::empty()
    }
    }

impl Session {
    fn report(&mut self, text: &str)
        ensures
            final(self).message@ == text@,
            final(self).mode == Mode::Error,
            final(self).table == old(self).table,
            final(self).clipboard == old(self).clipboard,
            final(self).cursor == old(self).cursor,
            final(self).editor == old(self).editor,
            final(self).command == old(self).command,
            final(self).last_command == old(self).last_command,
    {
        set_error_message(text, &mut self.message, &mut self.mode);
    }

    /// Starts text entry at the cursor, the caret placed by `offset` (see
    /// `entry_caret`).
    pub fn enter_edit(&mut self, offset: i32)
        requires
            old(self).wf(),
        ensures
            final(self).wf(),
            final(self).mode == Mode::Insert,
            final(self).editor.line@ == seed_text(old(self).table@, old(self).cursor),
            final(self).editor.cur_x == entry_caret(
                seed_text(old(self).table@, old(self).cursor).len(),
                offset as int,
            ),
            final(self).table@ == old(self).table@,
            final(self).clipboard@ == old(self).clipboard@,
            final(self).cursor == old(self).cursor,
    {
        self.mode = Mode::Insert;
        editor_enter(&self.table, &self.cursor, &mut self.editor, offset);
    }

    /// Leaves text entry with one of the exit commands: commits the line
    /// (see `commit_edit`); then, unless the commit was refused or the
    /// command is the plain exit, moves on (see `exit_moved` and
    /// `new_line_result`) and starts editing there with the caret at the end.
    pub fn exit_edit(&mut self, command: Command)
        requires
            old(self).wf(),
        ensures
            final(self).wf(),
            final(self).clipboard@ == old(self).clipboard@,
            exits_to(*old(self), *final(self), command),
    {
        if let Err(e) = editor_exit(&mut self.table, &mut self.mode, &self.cursor, &mut self.editor) {
            let text = e.message();
            self.report(text.as_str());
            return;
        }
        if !(command == Command::EditorExitLeft || command == Command::EditorExitRight || command
            == Command::EditorExitUp || command == Command::EditorExitDown || command
            == Command::EditorNewLine) {
            return;
        }
        if command == Command::EditorExitLeft {
            if self.cursor.x > 1 {
                self.cursor.x = self.cursor.x - 1;
            }
        } else if command == Command::EditorExitRight {
            if self.cursor.x < usize::MAX {
                self.cursor.x = self.cursor.x + 1;
            }
        } else if command == Command::EditorExitUp {
            if self.cursor.y > 0 {
                self.cursor.y = self.cursor.y - 1;
            }
        } else if command == Command::EditorExitDown {
            if self.cursor.y < usize::MAX {
                self.cursor.y = self.cursor.y + 1;
            }
        } else if command == Command::EditorNewLine {
            if self.cursor.y == 0 {
                return;
            }
            if self.cursor.y <= self.table.row_count() {
                let ghost t = self.table@;
                let above = if self.table.cell_exists(self.cursor.x - 1, self.cursor.y - 1) {
                    self.table.cell(self.cursor.x - 1, self.cursor.y - 1)
                } else {
                    String::new()
                };
                self.table.insert_empty_row_at(self.cursor.y);
                let chars = crate::text::chars_of(above.as_str());
                let mut n: usize = 0;
                assert(chars@.subrange(0, chars@.len() as int) =~= chars@);
                while n < chars.len() && chars[n] == ' '
                    invariant
                        n <= chars@.len(),
                        leading_spaces(chars@) == n + leading_spaces(chars@.subrange(n as int, chars@.len() as int)),
                    decreases chars.len() - n,
                {
                    assert(chars@.subrange(n as int, chars@.len() as int).drop_first() =~= chars@.subrange(n + 1, chars@.len() as int));
                    n += 1;
                }
                proof {
                    let rest = chars@.subrange(n as int, chars@.len() as int);
                    assert(leading_spaces(rest) == 0);
                }
                let mut pad: Vec<char> = Vec::new();
                let mut k: usize = 0;
                while k < n
                    invariant
                        k <= n,
                        pad@ =~= spaces(k as nat),
                    decreases n - k,
                {
                    pad.push(' ');
                    k += 1;
                }
                if self.table.cell_exists(self.cursor.x - 1, self.cursor.y) {
                    let text = crate::text::string_from_chars(&pad);
                    self.table.set_cell(self.cursor.x - 1, self.cursor.y, text);
                }
            }
            if self.cursor.y < usize::MAX {
                self.cursor.y = self.cursor.y + 1;
            }
        }
        self.mode = Mode::Insert;
        editor_enter(&self.table, &self.cursor, &mut self.editor, -1);
    }
}

impl Session {
    /// Inserts an empty, generically named column at the cursor (see
    /// `column_inserted`).
    pub fn insert_empty_column(&mut self)
        requires
            old(self).wf(),
        ensures
            final(self).wf(),
            final(self).table@ == column_inserted(old(self).table@, old(self).cursor),
            final(self).cursor == old(self).cursor,
            final(self).clipboard@ == old(self).clipboard@,
            final(self).mode == old(self).mode,
    {
        extend_table(&mut self.table, self.cursor.x, 0);
        let name = self.table.generate_column_name(self.cursor.x);
        let r = self.table.insert_column_at(self.cursor.x - 1, name);
        assert(r is Ok);
    }

    /// Inserts an empty row above the cursor's row, if that row exists.
    pub fn insert_empty_row_above(&mut self)
        requires
            old(self).wf(),
        ensures
            final(self).wf(),
            final(self).table@ == if old(self).cursor.y > 0 && old(self).table@.has_cell(
                0,
                old(self).cursor.y - 1,
            ) {
                with_blank_row(old(self).table@, old(self).cursor.y - 1)
            } else {
                old(self).table@
            },
            final(self).cursor == old(self).cursor,
            final(self).clipboard@ == old(self).clipboard@,
            final(self).mode == old(self).mode,
    {
        if self.cursor.y > 0 && self.table.cell_exists(0, self.cursor.y - 1) {
            self.table.insert_empty_row_at(self.cursor.y - 1);
        }
    }

    /// Inserts an empty row below the cursor's row, if the row below exists,
    /// and moves the cursor down.
    pub fn insert_empty_row_below(&mut self)
        requires
            old(self).wf(),
        ensures
            final(self).wf(),
            final(self).table@ == if old(self).cursor.y > 0 && old(self).table@.has_cell(
                0,
                old(self).cursor.y as int,
            ) {
                with_blank_row(old(self).table@, old(self).cursor.y as int)
            } else {
                old(self).table@
            },
            final(self).cursor == (Pos { x: old(self).cursor.x, y: clamp_index(old(self).cursor.y + 1, 0) }),
            final(self).clipboard@ == old(self).clipboard@,
            final(self).mode == old(self).mode,
    {
        if self.cursor.y > 0 && self.table.cell_exists(0, self.cursor.y) {
            self.table.insert_empty_row_at(self.cursor.y);
        }
        if self.cursor.y < usize::MAX {
            self.cursor.y = self.cursor.y + 1;
        }
    }

    /// Yanks the range that `command` takes at the cursor (see `yank_rect`)
    /// and returns the clipboard table as text.
    pub fn yank_command(&mut self, command: Command) -> (r: String)
        requires
            old(self).wf(),
        ensures
            final(self).wf(),
            final(self).clipboard@ == yanked(old(self).table@, yank_rect(command, old(self).cursor, old(self).table@)),
            r@ == rows_text(final(self).clipboard@.rows),
            final(self).table@ == old(self).table@,
            final(self).cursor == old(self).cursor,
            final(self).mode == old(self).mode,
    {
        let cc = self.table.column_count();
        let rc = self.table.row_count();
        let x = self.cursor.x;
        let y = self.cursor.y;
        let next_x = if x < usize::MAX { x + 1 } else { x };
        let next_y = if y < usize::MAX { y + 1 } else { y };
        let rect = if command == Command::YankRow {
            Rect { start_x: 1, end_x: if cc < usize::MAX { cc + 1 } else { cc }, start_y: y, end_y: next_y }
        } else if command == Command::YankColumn {
            Rect { start_x: x, end_x: next_x, start_y: 1, end_y: if rc < usize::MAX { rc + 1 } else { rc } }
        } else {
            Rect { start_x: x, end_x: next_x, start_y: y, end_y: next_y }
        };
        assert(rect == yank_rect(command, old(self).cursor, old(self).table@));
        yank(rect, &self.table, &mut self.clipboard);
        clipboard_text(&self.clipboard)
    }

    /// Yanks the cell at the cursor, then clears it (see `cell_cleared`).
    pub fn delete_cell(&mut self) -> (r: String)
        requires
            old(self).wf(),
        ensures
            final(self).wf(),
            final(self).clipboard@ == yanked(old(self).table@, yank_rect(Command::YankCell, old(self).cursor, old(self).table@)),
            r@ == rows_text(final(self).clipboard@.rows),
            final(self).table@ == cell_cleared(old(self).table@, old(self).cursor),
            final(self).cursor == old(self).cursor,
            final(self).mode == old(self).mode,
    {
        let text = self.yank_command(Command::YankCell);
        let x = self.cursor.x;
        let y = self.cursor.y;
        if y > 0 {
            if self.table.cell_exists(x - 1, y - 1) {
                self.table.set_cell(x - 1, y - 1, String::new());
            }
        } else if x <= self.table.column_count() {
            let name = self.table.generate_column_name(x);
            let r = self.table.rename_column(x - 1, name);
            assert(r is Ok);
        }
        text
    }

    /// Yanks and removes the cursor's row, if it exists; the cursor then
    /// stays within the table (but not above row 1).
    pub fn delete_line(&mut self) -> (r: Option<String>)
        requires
            old(self).wf(),
        ensures
            final(self).wf(),
            final(self).mode == old(self).mode,
            final(self).cursor.x == old(self).cursor.x,
            if old(self).cursor.y > 0 && old(self).table@.has_cell(0, old(self).cursor.y - 1) {
                &&& final(self).clipboard@ == yanked(old(self).table@, yank_rect(Command::YankRow, old(self).cursor, old(self).table@))
                &&& r is Some && r->0@ == rows_text(final(self).clipboard@.rows)
                &&& final(self).table@ == (TableModel {
                    columns: old(self).table@.columns,
                    rows: old(self).table@.rows.remove(old(self).cursor.y - 1),
                })
            } else {
                &&& final(self).clipboard@ == old(self).clipboard@
                &&& r is None
                &&& final(self).table@ == old(self).table@
            },
            final(self).cursor.y == if old(self).cursor.y > 1 && old(self).cursor.y > final(self).table@.rows.len() {
                (old(self).cursor.y - 1) as usize
            } else {
                old(self).cursor.y
            },
    {
        let mut r: Option<String> = None;
        if self.cursor.y > 0 && self.table.cell_exists(0, self.cursor.y - 1) {
            let text = self.yank_command(Command::YankRow);
            self.table.delete_row_at(self.cursor.y - 1);
            r = Some(text);
        }
        if self.cursor.y > 1 && self.cursor.y > self.table.row_count() {
            self.cursor.y = self.cursor.y - 1;
        }
        r
    }

    /// Yanks and removes the cursor's column, if it exists and the table has
    /// rows.
    pub fn delete_column(&mut self) -> (r: Option<String>)
        requires
            old(self).wf(),
        ensures
            final(self).wf(),
            final(self).mode == old(self).mode,
            final(self).cursor == old(self).cursor,
            if old(self).table@.has_cell(old(self).cursor.x - 1, 0) {
                &&& final(self).clipboard@ == yanked(old(self).table@, yank_rect(Command::YankColumn, old(self).cursor, old(self).table@))
                &&& r is Some && r->0@ == rows_text(final(self).clipboard@.rows)
                &&& final(self).table@ == old(self).table@.without_column(old(self).cursor.x - 1)
            } else {
                &&& final(self).clipboard@ == old(self).clipboard@
                &&& r is None
                &&& final(self).table@ == old(self).table@
            },
    {
        if self.table.cell_exists(self.cursor.x - 1, 0) {
            let text = self.yank_command(Command::YankColumn);
            self.table.delete_column(self.cursor.x - 1);
            Some(text)
        } else {
            None
        }
    }

    /// Shifts the text at the cursor one indent step left or right and
    /// commits it (see `indented` and `commit_edit`).
    pub fn indent(&mut self, left: bool)
        requires
            old(self).wf(),
        ensures
            final(self).wf(),
            ({
                let (t1, ok) = commit_edit(
                    old(self).table@,
                    old(self).cursor,
                    indented(seed_text(old(self).table@, old(self).cursor), left),
                );
                &&& final(self).table@ == t1
                &&& final(self).mode == (if ok { Mode::Normal } else { Mode::Error })
            }),
            final(self).cursor == old(self).cursor,
            final(self).clipboard@ == old(self).clipboard@,
            final(self).editor.line@ == Seq::<char>::empty(),
    {
        editor_enter(&self.table, &self.cursor, &mut self.editor, -1);
        if left {
            self.editor.indent_left();
        } else {
            self.editor.indent_right();
        }
        if let Err(e) = editor_exit(&mut self.table, &mut self.mode, &self.cursor, &mut self.editor) {
            let text = e.message();
            self.report(text.as_str());
        }
    }

    /// Writes `today` into the cursor's cell, growing the table to reach it;
    /// nothing happens on the header band.
    pub fn paste_today(&mut self, today: &str)
        requires
            old(self).wf(),
        ensures
            final(self).wf(),
            final(self).table@ == if old(self).cursor.y > 0 {
                extended(old(self).table@, old(self).cursor.x as nat, old(self).cursor.y as nat).with_cell(
                    old(self).cursor.x - 1,
                    old(self).cursor.y - 1,
                    today@,
                )
            } else {
                old(self).table@
            },
            final(self).cursor == old(self).cursor,
            final(self).clipboard@ == old(self).clipboard@,
            final(self).mode == old(self).mode,
    {
        if self.cursor.y > 0 {
            extend_table(&mut self.table, self.cursor.x, self.cursor.y);
            self.table.set_cell(self.cursor.x - 1, self.cursor.y - 1, today.to_owned());
        }
    }

    /// Pastes the clipboard table at the cursor (see `paste_result`).
    pub fn paste_command(&mut self, command: Command)
        requires
            old(self).wf(),
        ensures
            final(self).wf(),
            (final(self).table@, final(self).clipboard@, final(self).cursor) == paste_result(
                old(self).table@,
                old(self).clipboard@,
                old(self).cursor,
                command,
            ),
            final(self).mode == old(self).mode,
    {
        paste(&mut self.table, &mut self.clipboard, &mut self.cursor, command);
    }
}

/// Whether a command ends text entry.
pub open spec fn is_exit(command: Command) -> bool {
    command == Command::EditorExit || command == Command::EditorExitLeft || command
        == Command::EditorExitRight || command == Command::EditorExitUp || command
        == Command::EditorExitDown || command == Command::EditorNewLine
}

/// Whether `execute` leaves a command to the caller: quitting, switching
/// tables, the command line's text, and choosing from a list.
pub open spec fn is_outer(command: Command) -> bool {
    command == Command::Quit || command == Command::NoOp || command == Command::PreviousFile
        || command == Command::CommandLineExit || command == Command::ListTablesEnter || command
        == Command::ListDatabasesEnter
}

impl Session {
    /// Carries out the pending `command` on the session; `today` is the
    /// text that `PasteToday` writes. Returns the clipboard table as text
    /// when the command yanked. Commands that reach outside the session
    /// (see `is_outer`) change nothing.
    pub fn execute(&mut self, today: &str) -> (r: Option<String>)
        requires
            old(self).wf(),
        ensures
            final(self).wf(),
            final(self).command == old(self).command,
            final(self).last_command == old(self).last_command,
            ({
                let c = old(self).command;
                let t = old(self).table@;
                let cb = old(self).clipboard@;
                let p = old(self).cursor;
                let m = old(self).mode;
                &&& is_outer(c) ==> {
                    &&& final(self).table@ == t
                    &&& final(self).clipboard@ == cb
                    &&& final(self).cursor == p
                    &&& final(self).mode == m
                    &&& r is None
                }
                &&& (c == Command::InsertStart || c == Command::InsertEnd) ==> {
                    &&& final(self).mode == Mode::Insert
                    &&& final(self).table@ == t
                    &&& final(self).clipboard@ == cb
                    &&& final(self).cursor == p
                    &&& final(self).editor.line@ == seed_text(t, p)
                    &&& final(self).editor.cur_x == entry_caret(
                        seed_text(t, p).len(),
                        if c == Command::InsertStart { 0 } else { -1 },
                    )
                    &&& r is None
                }
                &&& c == Command::ChangeCell ==> {
                    &&& final(self).mode == Mode::Insert
                    &&& final(self).table@ == t
                    &&& final(self).clipboard@ == cb
                    &&& final(self).cursor == p
                    &&& final(self).editor.line@ == Seq::<char>::empty()
                    &&& final(self).editor.cur_x == 0
                    &&& r is None
                }
                &&& c == Command::CommandLineEnter ==> {
                    &&& final(self).mode == Mode::Command
                    &&& final(self).table@ == t
                    &&& final(self).clipboard@ == cb
                    &&& final(self).cursor == p
                    &&& final(self).editor == old(self).editor
                    &&& r is None
                }
                &&& is_exit(c) ==> {
                    &&& exits_to(*old(self), *final(self), c)
                    &&& final(self).clipboard@ == cb
                    &&& r is None
                }
                &&& c == Command::PasteToday ==> {
                    &&& final(self).table@ == (if p.y > 0 {
                        extended(t, p.x as nat, p.y as nat).with_cell(p.x - 1, p.y - 1, today@)
                    } else {
                        t
                    })
                    &&& final(self).clipboard@ == cb
                    &&& final(self).cursor == p
                    &&& final(self).mode == m
                    &&& r is None
                }
                &&& c == Command::InsertEmptyColumn ==> {
                    &&& final(self).table@ == column_inserted(t, p)
                    &&& final(self).clipboard@ == cb
                    &&& final(self).cursor == p
                    &&& final(self).mode == m
                    &&& r is None
                }
                &&& c == Command::InsertEmptyRowAbove ==> {
                    &&& final(self).table@ == (if p.y > 0 && t.has_cell(0, p.y - 1) {
                        with_blank_row(t, p.y - 1)
                    } else {
                        t
                    })
                    &&& final(self).clipboard@ == cb
                    &&& final(self).cursor == p
                    &&& final(self).mode == m
                    &&& r is None
                }
                &&& c == Command::InsertEmptyRowBelow ==> {
                    &&& final(self).table@ == (if p.y > 0 && t.has_cell(0, p.y as int) {
                        with_blank_row(t, p.y as int)
                    } else {
                        t
                    })
                    &&& final(self).clipboard@ == cb
                    &&& final(self).cursor == (Pos { x: p.x, y: clamp_index(p.y + 1, 0) })
                    &&& final(self).mode == m
                    &&& r is None
                }
                &&& c == Command::DeleteCell ==> {
                    &&& final(self).table@ == cell_cleared(t, p)
                    &&& final(self).clipboard@ == yanked(t, yank_rect(Command::YankCell, p, t))
                    &&& r is Some && r->0@ == rows_text(final(self).clipboard@.rows)
                    &&& final(self).cursor == p
                    &&& final(self).mode == m
                }
                &&& c == Command::DeleteLine ==> {
                    &&& final(self).mode == m
                    &&& if p.y > 0 && t.has_cell(0, p.y - 1) {
                        &&& final(self).clipboard@ == yanked(t, yank_rect(Command::YankRow, p, t))
                        &&& r is Some && r->0@ == rows_text(final(self).clipboard@.rows)
                        &&& final(self).table@ == (TableModel {
                            columns: t.columns,
                            rows: t.rows.remove(p.y - 1),
                        })
                    } else {
                        &&& final(self).clipboard@ == cb
                        &&& r is None
                        &&& final(self).table@ == t
                    }
                    &&& final(self).cursor == (Pos {
                        x: p.x,
                        y: if p.y > 1 && p.y > final(self).table@.rows.len() {
                            (p.y - 1) as usize
                        } else {
                            p.y
                        },
                    })
                }
                &&& c == Command::DeleteColumn ==> {
                    &&& final(self).mode == m
                    &&& final(self).cursor == p
                    &&& if t.has_cell(p.x - 1, 0) {
                        &&& final(self).clipboard@ == yanked(t, yank_rect(Command::YankColumn, p, t))
                        &&& r is Some && r->0@ == rows_text(final(self).clipboard@.rows)
                        &&& final(self).table@ == t.without_column(p.x - 1)
                    } else {
                        &&& final(self).clipboard@ == cb
                        &&& r is None
                        &&& final(self).table@ == t
                    }
                }
                &&& (c == Command::IndentLeft || c == Command::IndentRight) ==> {
                    let (t1, ok) = commit_edit(t, p, indented(seed_text(t, p), c == Command::IndentLeft));
                    &&& final(self).table@ == t1
                    &&& final(self).mode == (if ok { Mode::Normal } else { Mode::Error })
                    &&& final(self).cursor == p
                    &&& final(self).clipboard@ == cb
                    &&& final(self).editor.line@ == Seq::<char>::empty()
                    &&& r is None
                }
                &&& (c == Command::YankCell || c == Command::YankRow || c == Command::YankColumn) ==> {
                    &&& final(self).clipboard@ == yanked(t, yank_rect(c, p, t))
                    &&& final(self).table@ == t
                    &&& final(self).cursor == p
                    &&& final(self).mode == m
                    &&& r is Some && r->0@ == rows_text(final(self).clipboard@.rows)
                }
                &&& (c == Command::PasteReplace || c == Command::PasteBefore || c == Command::PasteAfter) ==> {
                    &&& (final(self).table@, final(self).clipboard@, final(self).cursor) == paste_result(t, cb, p, c)
                    &&& final(self).mode == m
                    &&& r is None
                }
            }),
    {
        let command = self.command;
        let last_command = self.last_command;
        let r = match command {
            Command::InsertStart => {
                self.enter_edit(0);
                None
            },
            Command::InsertEnd => {
                self.enter_edit(-1);
                None
            },
            Command::ChangeCell => {
                self.mode = Mode::Insert;
                self.editor.insert_at("", 0);
                proof {
                    reveal_strlit("");
                }
                None
            },
            Command::EditorExit | Command::EditorExitLeft | Command::EditorExitRight
            | Command::EditorExitUp | Command::EditorExitDown | Command::EditorNewLine => {
                self.exit_edit(command);
                None
            },
            Command::CommandLineEnter => {
                self.mode = Mode::Command;
                None
            },
            Command::PasteToday => {
                self.paste_today(today);
                None
            },
            Command::InsertEmptyColumn => {
                self.insert_empty_column();
                None
            },
            Command::InsertEmptyRowAbove => {
                self.insert_empty_row_above();
                None
            },
            Command::InsertEmptyRowBelow => {
                self.insert_empty_row_below();
                None
            },
            Command::DeleteCell => Some(self.delete_cell()),
            Command::DeleteLine => self.delete_line(),
            Command::DeleteColumn => self.delete_column(),
            Command::IndentLeft => {
                self.indent(true);
                None
            },
            Command::IndentRight => {
                self.indent(false);
                None
            },
            Command::YankCell | Command::YankRow | Command::YankColumn => Some(
                self.yank_command(command),
            ),
            Command::PasteReplace | Command::PasteBefore | Command::PasteAfter => {
                self.paste_command(command);
                None
            },
            _ => None,
        };
        self.command = command;
        self.last_command = last_command;
        r
    }
}

} // verus!
