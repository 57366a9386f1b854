//! The modes of an editing session.

use vstd::prelude::*;

verus! {

/// The active mode; exactly one at a time.
#[derive(Clone, Copy, Debug, PartialEq, Eq, Structural)]
pub enum Mode {
    /// Navigation.
    Normal,
    /// Text entry into a cell or a column name.
    Insert,
    /// Waiting for the second key of a yank.
    Yank,
    /// Waiting for the second key of a paste.
    Paste,
    /// Text entry on the command line.
    Command,
    /// Waiting for the second key of a delete.
    Delete,
    /// Choosing a table from a list.
    ListTables,
    /// Choosing a database from a list.
    ListDatabases,
    /// Looking at a list that cannot be chosen from.
    ListReadOnly,
    /// Showing an error; the next key clears it.
    Error,
}

/// The name of each mode in the status line.
pub open spec fn mode_label(m: Mode) -> Seq<char> {
    match m {
        Mode::Normal => "Normal"@,
        Mode::Insert => "Insert"@,
        Mode::Yank => "Yank"@,
        Mode::Paste => "Paste"@,
        Mode::Delete => "Delete"@,
        Mode::Command => "Command"@,
        Mode::ListTables => "List Tables"@,
        Mode::ListDatabases => "List Databases"@,
        Mode::ListReadOnly => "List Temp Table"@,
        Mode::Error => "Error"@,
    }
}

impl Mode {
    pub fn new() -> (m: Mode)
        ensures
            m == Mode::Normal,
    {
        Mode::Normal
    }

    /// The name shown in the status line.
    pub fn label(&self) -> (r: String)
        ensures
            r@ == mode_label(*self),
    {
        match self {
            Mode::Normal => "Normal".to_owned(),
            Mode::Insert => "Insert".to_owned(),
            Mode::Yank => "Yank".to_owned(),
            Mode::Paste => "Paste".to_owned(),
            Mode::Delete => "Delete".to_owned(),
            Mode::Command => "Command".to_owned(),
            Mode::ListTables => "List Tables".to_owned(),
            Mode::ListDatabases => "List Databases".to_owned(),
            Mode::ListReadOnly => "List Temp Table".to_owned(),
            Mode::Error => "Error".to_owned(),
        }
    }
}

} // verus!
