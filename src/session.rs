//! An editing session: the table, the clipboard table, the cursor, the mode,
//! the line editor and the status message, driven one key at a time.

use vstd::prelude::*;
use crate::command::Command;
use crate::editor::{next_word, typed, typed_text, word_start, outdent_width, Editor};
use crate::key::Key;
use crate::mode::Mode;
use crate::pos::{move_cursor, moved, Pos};
use crate::table::{Table, TableModel};
use crate::text::string_from_chars;

verus! {

/// Where the session's data lives.
pub struct State {
    pub db_dir: String,
    pub db_name: String,
    pub table_name: String,
}

/// Sets the status message and enters the error mode.
pub fn set_error_message(new_message: &str, message: &mut String, mode: &mut Mode)
    ensures
        final(message)@ == new_message@,
        *final(mode) == Mode::Error,
{
    *message = new_message.to_owned();
    *mode = Mode::Error;
}

/// Switches to table `new_table_name`, remembering the current one, and
/// puts the cursor on the first cell.
pub fn set_table(
    new_table_name: &str,
    state: &mut State,
    previous_table_name: &mut String,
    cursor: &mut Pos,
)
    ensures
        final(previous_table_name)@ == old(state).table_name@,
        final(state).table_name@ == new_table_name@,
        final(state).db_dir@ == old(state).db_dir@,
        final(state).db_name@ == old(state).db_name@,
        *final(cursor) == (Pos { x: 1, y: 1 }),
{
    *previous_table_name = state.table_name.clone();
    state.table_name = new_table_name.to_owned();
    *cursor = Pos::new(1, 1);
}

/// Rows moved by a page in a window `h` rows high.
pub open spec fn page_rows(h: int) -> int {
    if h > 5 {
        h - 5
    } else {
        0
    }
}

/// Where a navigation key moves the cursor in the normal mode: `h`, `j`,
/// `k`, `l`, the arrows, tab and line feed step; the page keys move by a
/// page or half a page; `0` and Home go to the first column, `$` and End to
/// the last, `g` to the first row, `G` to the last.
pub open spec fn normal_moved(c: Pos, key: Key, t: TableModel, h: int) -> Pos {
    match key {
        Key::Char('j') | Key::Down | Key::Char('\n') => moved(c, 0, 1),
        Key::Char('k') | Key::Up => moved(c, 0, -1),
        Key::Char('h') | Key::Left | Key::BackTab => moved(c, -1, 0),
        Key::Char('l') | Key::Right | Key::Char('\t') => moved(c, 1, 0),
        Key::PageUp | Key::Ctrl('b') => moved(c, 0, -page_rows(h)),
        Key::PageDown | Key::Ctrl('f') => moved(c, 0, page_rows(h)),
        Key::Ctrl('u') => moved(c, 0, -(page_rows(h) / 2)),
        Key::Ctrl('d') => moved(c, 0, page_rows(h) / 2),
        Key::Char('0') | Key::Home => Pos { x: 1, y: c.y },
        Key::Char('$') | Key::End => Pos {
            x: if t.columns.len() > 0 { t.columns.len() as usize } else { 1 },
            y: c.y,
        },
        Key::Char('g') => Pos { x: c.x, y: 1 },
        Key::Char('G') => Pos { x: c.x, y: t.rows.len() as usize },
        _ => c,
    }
}

/// Where a key moves the cursor in a list: up and down only.
pub open spec fn list_moved(c: Pos, key: Key, t: TableModel, h: int) -> Pos {
    match key {
        Key::Char('j') | Key::Down => moved(c, 0, 1),
        Key::Char('k') | Key::Up => moved(c, 0, -1),
        Key::PageUp | Key::Ctrl('b') => moved(c, 0, -page_rows(h)),
        Key::PageDown | Key::Ctrl('f') => moved(c, 0, page_rows(h)),
        Key::Ctrl('u') => moved(c, 0, -(page_rows(h) / 2)),
        Key::Ctrl('d') => moved(c, 0, page_rows(h) / 2),
        Key::Char('g') => Pos { x: c.x, y: 1 },
        Key::Char('G') => Pos { x: c.x, y: t.rows.len() as usize },
        _ => c,
    }
}

/// Whether a key only moves the cursor in the normal mode.
pub open spec fn is_normal_motion(key: Key) -> bool {
    match key {
        Key::Char('j') | Key::Down | Key::Char('\n') | Key::Char('k') | Key::Up | Key::Char('h')
        | Key::Left | Key::BackTab | Key::Char('l') | Key::Right | Key::Char('\t') | Key::PageUp
        | Key::Ctrl('b') | Key::PageDown | Key::Ctrl('f') | Key::Ctrl('u') | Key::Ctrl('d')
        | Key::Char('0') | Key::Home | Key::Char('$') | Key::End | Key::Char('g') | Key::Char(
            'G',
        ) => true,
        _ => false,
    }
}

/// The command a key gives in the normal mode (`.` repeats `last`), if it
/// gives one.
pub open spec fn normal_command(key: Key, last: Command) -> Option<Command> {
    match key {
        Key::Char('q') => Some(Command::Quit),
        Key::Char('.') => Some(last),
        Key::Char(':') => Some(Command::CommandLineEnter),
        Key::Char('\'') | Key::Ctrl('6') => Some(Command::PreviousFile),
        Key::Char('<') => Some(Command::IndentLeft),
        Key::Char('>') => Some(Command::IndentRight),
        Key::Char(',') => Some(Command::PasteToday),
        Key::Char('I') => Some(Command::InsertEmptyColumn),
        Key::Char('O') => Some(Command::InsertEmptyRowAbove),
        Key::Char('o') => Some(Command::InsertEmptyRowBelow),
        Key::Char('i') => Some(Command::InsertStart),
        Key::Char('a') | Key::Char('A') | Key::F(2) => Some(Command::InsertEnd),
        Key::Char('x') | Key::Delete => Some(Command::DeleteCell),
        Key::Char('C') => Some(Command::ChangeCell),
        Key::Ctrl('c') => Some(Command::YankCell),
        Key::Ctrl('v') => Some(Command::PasteReplace),
        Key::Char('p') => Some(Command::PasteAfter),
        Key::Char('Y') => Some(Command::YankRow),
        Key::Char('P') => Some(Command::PasteBefore),
        _ => None,
    }
}

/// The command that ends text entry in the insert mode, if the key ends it.
pub open spec fn insert_exit_command(key: Key) -> Option<Command> {
    match key {
        Key::Esc => Some(Command::EditorExit),
        Key::Char('\t') => Some(Command::EditorExitRight),
        Key::BackTab => Some(Command::EditorExitLeft),
        Key::Up => Some(Command::EditorExitUp),
        Key::Down => Some(Command::EditorExitDown),
        Key::Char('\n') => Some(Command::EditorNewLine),
        _ => None,
    }
}

/// What an editing key does to the line and caret; `clip` is the system
/// clipboard's text, typed by Control-V.
pub open spec fn key_edit(line: Seq<char>, caret: int, key: Key, clip: Seq<char>) -> (Seq<char>, int) {
    match key {
        Key::Ctrl('v') => (
            line.subrange(0, caret) + typed_text(clip) + line.subrange(caret, line.len() as int),
            caret + typed_text(clip).len(),
        ),
        Key::Ctrl('a') | Key::Home => (line, 0),
        Key::Ctrl('e') | Key::End => (line, line.len() as int),
        Key::Ctrl('u') => (line.subrange(caret, line.len() as int), 0),
        Key::Ctrl('k') => (line.subrange(0, caret), caret),
        Key::Ctrl('w') => (
            line.subrange(0, word_start(line, caret)) + line.subrange(caret, line.len() as int),
            word_start(line, caret),
        ),
        Key::Left | Key::Ctrl('b') => (line, if caret > 0 { caret - 1 } else { 0 }),
        Key::Right | Key::Ctrl('f') => (line, if caret < line.len() { caret + 1 } else { caret }),
        Key::Ctrl('d') => (
            line.subrange(outdent_width(line) as int, line.len() as int),
            if caret >= outdent_width(line) { caret - outdent_width(line) } else { 0 },
        ),
        Key::Ctrl('t') => (seq![' ', ' '] + line, caret + 2),
        Key::Ctrl('g') => (line, word_start(line, caret)),
        Key::Ctrl('l') => (line, next_word(line, caret)),
        Key::Char(c) => (
            line.subrange(0, caret) + typed(c) + line.subrange(caret, line.len() as int),
            caret + typed(c).len(),
        ),
        Key::Ctrl('h') | Key::Backspace => if caret > 0 {
            (line.remove(caret - 1), caret - 1)
        } else {
            (line, caret)
        },
        Key::Delete => if caret < line.len() {
            (line.remove(caret), caret)
        } else {
            (line, caret)
        },
        _ => (line, caret),
    }
}

/// The message shown for a key that means nothing in the normal mode.
pub open spec fn unknown_key_message(key: Key) -> Seq<char> {
    let head = seq!['U', 'n', 'k', 'n', 'o', 'w', 'n', ' ', 'k', 'e', 'y'];
    match key {
        Key::Char(c) => head + seq![':', ' ', c],
        Key::Ctrl(c) => head + seq![':', ' ', 'C', 't', 'r', 'l', '-', c],
        _ => head,
    }
}

fn unknown_key_text(key: Key) -> (r: String)
    ensures
        r@ == unknown_key_message(key),
{
    let mut v: Vec<char> = vec!['U', 'n', 'k', 'n', 'o', 'w', 'n', ' ', 'k', 'e', 'y'];
    match key {
        Key::Char(c) => {
            v.push(':');
            v.push(' ');
            v.push(c);
        },
        Key::Ctrl(c) => {
            v.push(':');
            v.push(' ');
            v.push('C');
            v.push('t');
            v.push('r');
            v.push('l');
            v.push('-');
            v.push(c);
        },
        _ => {},
    }
    let r = string_from_chars(&v);
    assert(r@ =~= unknown_key_message(key));
    r
}

/// The state of one editing session.
pub struct Session {
    /// The table being edited.
    pub table: Table,
    /// The table that yanks stage and pastes read.
    pub clipboard: Table,
    pub cursor: Pos,
    pub mode: Mode,
    pub editor: Editor,
    /// The status line message.
    pub message: String,
    /// The command that the last key gave, still to be carried out.
    pub command: Command,
    /// The command before it, which `.` repeats.
    pub last_command: Command,
}

impl Session {
    /// Both tables are well formed, the cursor's column is at least 1 and
    /// the caret lies within the line.
    pub open spec fn wf(&self) -> bool {
        &&& self.table@.wf()
        &&& self.clipboard@.wf()
        &&& self.cursor.wf()
        &&& self.editor.wf()
    }

    /// A session on `table`, in the normal mode, with the cursor on the
    /// first cell and an empty clipboard.
    pub fn new(table: Table) -> (s: Session)
        requires
            table@.wf(),
        ensures
            s.wf(),
            s.table@ == table@,
            s.clipboard@.columns.len() == 0,
            s.clipboard@.rows.len() == 0,
            s.cursor == (Pos { x: 1, y: 1 }),
            s.mode == Mode::Normal,
            s.editor.line@ == Seq::<char>::empty(),
            s.editor.cur_x == 0,
            s.message@ == Seq::<char>::empty(),
            s.command == Command::NoOp,
            s.last_command == Command::NoOp,
    {
        Session {
            table,
            clipboard: Table::new(),
            cursor: Pos::new(1, 1),
            mode: Mode::new(),
            editor: Editor::new(),
            message: String::new(),
            command: Command::new(),
            last_command: Command::new(),
        }
    }

    /// Handles one key: updates the mode, the cursor or the line, and sets
    /// `command` to what the key asks for (or `NoOp`); the previous command
    /// moves to `last_command`. The tables are not touched. `window_height`
    /// sizes the page moves; `clipboard_text` is what Control-V types in the
    /// insert and command modes.
    pub fn input(&mut self, key: Key, window_height: i16, clipboard_text: &str)
        requires
            old(self).wf(),
        ensures
            final(self).wf(),
            final(self).table@ == old(self).table@,
            final(self).clipboard@ == old(self).clipboard@,
            final(self).last_command == old(self).command,
            old(self).mode == Mode::Normal ==> {
                if is_normal_motion(key) {
                    &&& final(self).cursor == normal_moved(old(self).cursor, key, old(self).table@, window_height as int)
                    &&& final(self).mode == Mode::Normal
                    &&& final(self).command == Command::NoOp
                    &&& final(self).editor == old(self).editor
                    &&& final(self).message == old(self).message
                } else if key == Key::Char('d') || key == Key::Char('y') {
                    &&& final(self).mode == (if key == Key::Char('d') { Mode::Delete } else { Mode::Yank })
                    &&& final(self).cursor == old(self).cursor
                    &&& final(self).command == Command::NoOp
                    &&& final(self).editor == old(self).editor
                    &&& final(self).message == old(self).message
                } else if normal_command(key, old(self).command) is Some {
                    &&& final(self).command == normal_command(key, old(self).command)->0
                    &&& final(self).mode == Mode::Normal
                    &&& final(self).cursor == old(self).cursor
                    &&& final(self).editor == old(self).editor
                    &&& final(self).message == old(self).message
                } else {
                    &&& final(self).mode == Mode::Error
                    &&& final(self).message@ == unknown_key_message(key)
                    &&& final(self).command == Command::NoOp
                    &&& final(self).cursor == old(self).cursor
                    &&& final(self).editor == old(self).editor
                }
            },
            (old(self).mode == Mode::Insert || old(self).mode == Mode::Command) ==> {
                &&& final(self).cursor == old(self).cursor
                &&& final(self).message == old(self).message
                &&& if insert_exit_command(key) is Some {
                    &&& final(self).mode == Mode::Normal
                    &&& final(self).command == (if old(self).mode == Mode::Insert {
                        insert_exit_command(key)->0
                    } else if key == Key::Char('\n') {
                        Command::CommandLineExit
                    } else {
                        Command::NoOp
                    })
                    &&& final(self).editor == old(self).editor
                } else {
                    &&& final(self).mode == old(self).mode
                    &&& final(self).command == Command::NoOp
                    &&& (final(self).editor.line@, final(self).editor.cur_x as int) == key_edit(
                        old(self).editor.line@,
                        old(self).editor.cur_x as int,
                        key,
                        clipboard_text@,
                    )
                }
            },
            old(self).mode == Mode::Yank ==> {
                &&& final(self).cursor == old(self).cursor
                &&& final(self).editor == old(self).editor
                &&& final(self).message == old(self).message
                &&& final(self).mode == (if key == Key::Esc || key == Key::Char('l') || key == Key::Char('y')
                    || key == Key::Char('c') {
                    Mode::Normal
                } else {
                    Mode::Yank
                })
                &&& final(self).command == (if key == Key::Char('l') || key == Key::Char('y') {
                    Command::YankRow
                } else if key == Key::Char('c') {
                    Command::YankColumn
                } else {
                    Command::NoOp
                })
            },
            old(self).mode == Mode::Delete ==> {
                &&& final(self).cursor == old(self).cursor
                &&& final(self).editor == old(self).editor
                &&& final(self).message == old(self).message
                &&& final(self).mode == Mode::Normal
                &&& final(self).command == (if key == Key::Char('d') {
                    Command::DeleteLine
                } else if key == Key::Char('c') {
                    Command::DeleteColumn
                } else {
                    Command::NoOp
                })
            },
            old(self).mode == Mode::Paste ==> {
                &&& final(self).cursor == old(self).cursor
                &&& final(self).editor == old(self).editor
                &&& final(self).message == old(self).message
                &&& final(self).mode == Mode::Normal
                &&& final(self).command == Command::NoOp
            },
            (old(self).mode == Mode::ListTables || old(self).mode == Mode::ListDatabases || old(self).mode
                == Mode::ListReadOnly) ==> {
                &&& final(self).cursor == list_moved(old(self).cursor, key, old(self).table@, window_height as int)
                &&& final(self).editor == old(self).editor
                &&& final(self).message == old(self).message
                &&& final(self).mode == old(self).mode
                &&& final(self).command == (if key == Key::Char('\n') && old(self).mode == Mode::ListTables {
                    Command::ListTablesEnter
                } else if key == Key::Char('\n') && old(self).mode == Mode::ListDatabases {
                    Command::ListDatabasesEnter
                } else if key == Key::Char(':') {
                    Command::CommandLineEnter
                } else {
                    Command::NoOp
                })
            },
            old(self).mode == Mode::Error ==> {
                &&& final(self).cursor == old(self).cursor
                &&& final(self).editor == old(self).editor
                &&& final(self).mode == Mode::Normal
                &&& final(self).message@ == Seq::<char>::empty()
                &&& final(self).command == Command::NoOp
            },
    {
        self.last_command = self.command;
        self.command = Command::NoOp;
        let page: i16 = if window_height > 5 {
            window_height - 5
        } else {
            0
        };
        let half: i16 = page / 2;
        match self.mode {
            Mode::Normal => match key {
                Key::Char('j') | Key::Down | Key::Char('\n') => move_cursor(&mut self.cursor, 0, 1),
                Key::Char('k') | Key::Up => move_cursor(&mut self.cursor, 0, -1),
                Key::Char('h') | Key::Left | Key::BackTab => move_cursor(&mut self.cursor, -1, 0),
                Key::Char('l') | Key::Right | Key::Char('\t') => move_cursor(&mut self.cursor, 1, 0),
                Key::PageUp | Key::Ctrl('b') => move_cursor(&mut self.cursor, 0, -page),
                Key::PageDown | Key::Ctrl('f') => move_cursor(&mut self.cursor, 0, page),
                Key::Ctrl('u') => move_cursor(&mut self.cursor, 0, -half),
                Key::Ctrl('d') => move_cursor(&mut self.cursor, 0, half),
                Key::Char('0') | Key::Home => self.cursor.x = 1,
                Key::Char('$') | Key::End => {
                    let n = self.table.column_count();
                    self.cursor.x = if n > 0 {
                        n
                    } else {
                        1
                    };
                },
                Key::Char('g') => self.cursor.y = 1,
                Key::Char('G') => self.cursor.y = self.table.row_count(),
                Key::Char('d') => self.mode = Mode::Delete,
                Key::Char('y') => self.mode = Mode::Yank,
                Key::Char('q') => self.command = Command::Quit,
                Key::Char('.') => self.command = self.last_command,
                Key::Char(':') => self.command = Command::CommandLineEnter,
                Key::Char('\'') | Key::Ctrl('6') => self.command = Command::PreviousFile,
                Key::Char('<') => self.command = Command::IndentLeft,
                Key::Char('>') => self.command = Command::IndentRight,
                Key::Char(',') => self.command = Command::PasteToday,
                Key::Char('I') => self.command = Command::InsertEmptyColumn,
                Key::Char('O') => self.command = Command::InsertEmptyRowAbove,
                Key::Char('o') => self.command = Command::InsertEmptyRowBelow,
                Key::Char('i') => self.command = Command::InsertStart,
                Key::Char('a') | Key::Char('A') | Key::F(2) => self.command = Command::InsertEnd,
                Key::Char('x') | Key::Delete => self.command = Command::DeleteCell,
                Key::Char('C') => self.command = Command::ChangeCell,
                Key::Ctrl('c') => self.command = Command::YankCell,
                Key::Ctrl('v') => self.command = Command::PasteReplace,
                Key::Char('p') => self.command = Command::PasteAfter,
                Key::Char('Y') => self.command = Command::YankRow,
                Key::Char('P') => self.command = Command::PasteBefore,
                _ => {
                    let text = unknown_key_text(key);
                    set_error_message(text.as_str(), &mut self.message, &mut self.mode);
                },
            },
            Mode::Insert | Mode::Command => match key {
                Key::Esc | Key::Char('\t') | Key::Char('\n') | Key::BackTab | Key::Up | Key::Down => {
                    if self.mode == Mode::Insert {
                        self.command = match key {
                            Key::Esc => Command::EditorExit,
                            Key::Char('\t') => Command::EditorExitRight,
                            Key::BackTab => Command::EditorExitLeft,
                            Key::Up => Command::EditorExitUp,
                            Key::Down => Command::EditorExitDown,
                            _ => Command::EditorNewLine,
                        };
                    } else if key == Key::Char('\n') {
                        self.command = Command::CommandLineExit;
                    }
                    self.mode = Mode::Normal;
                },
                Key::Ctrl('v') => self.editor.insert_clipboard(clipboard_text),
                Key::Ctrl('a') | Key::Home => self.editor.home(),
                Key::Ctrl('e') | Key::End => self.editor.end(),
                Key::Ctrl('u') => self.editor.delete_left_all(),
                Key::Ctrl('k') => self.editor.delete_right_all(),
                Key::Ctrl('w') => self.editor.delete_word(),
                Key::Left | Key::Ctrl('b') => self.editor.left(),
                Key::Right | Key::Ctrl('f') => self.editor.right(),
                Key::Ctrl('d') => self.editor.indent_left(),
                Key::Ctrl('t') => self.editor.indent_right(),
                Key::Ctrl('g') => self.editor.word_left(),
                Key::Ctrl('l') => self.editor.word_right(),
                Key::Char(c) => self.editor.add(c),
                Key::Ctrl('h') | Key::Backspace => self.editor.backspace(),
                Key::Delete => self.editor.delete(),
                _ => {},
            },
            Mode::Yank => match key {
                Key::Esc => self.mode = Mode::Normal,
                Key::Char('l') | Key::Char('y') => {
                    self.mode = Mode::Normal;
                    self.command = Command::YankRow;
                },
                Key::Char('c') => {
                    self.mode = Mode::Normal;
                    self.command = Command::YankColumn;
                },
                _ => {},
            },
            Mode::Delete => {
                match key {
                    Key::Char('d') => self.command = Command::DeleteLine,
                    Key::Char('c') => self.command = Command::DeleteColumn,
                    _ => {},
                }
                self.mode = Mode::Normal;
            },
            Mode::Paste => self.mode = Mode::Normal,
            Mode::ListReadOnly | Mode::ListTables | Mode::ListDatabases => match key {
                Key::Char('j') | Key::Down => move_cursor(&mut self.cursor, 0, 1),
                Key::Char('k') | Key::Up => move_cursor(&mut self.cursor, 0, -1),
                Key::PageUp | Key::Ctrl('b') => move_cursor(&mut self.cursor, 0, -page),
                Key::PageDown | Key::Ctrl('f') => move_cursor(&mut self.cursor, 0, page),
                Key::Ctrl('u') => move_cursor(&mut self.cursor, 0, -half),
                Key::Ctrl('d') => move_cursor(&mut self.cursor, 0, half),
                Key::Char('g') => self.cursor.y = 1,
                Key::Char('G') => self.cursor.y = self.table.row_count(),
                Key::Char('\n') => {
                    if self.mode == Mode::ListTables {
                        self.command = Command::ListTablesEnter;
                    } else if self.mode == Mode::ListDatabases {
                        self.command = Command::ListDatabasesEnter;
                    }
                },
                Key::Char(':') => self.command = Command::CommandLineEnter,
                _ => {},
            },
            Mode::Error => {
                self.mode = Mode::Normal;
                self.message = String::new();
            },
        }
    }
}

} // verus!
