//! The intents that input produces and the dispatcher carries out.

use vstd::prelude::*;

verus! {

/// One intent, produced once per input event and carried out once.
#[derive(Clone, Copy, Debug, PartialEq, Eq, Structural)]
pub enum Command {
    Quit,
    NoOp,
    PreviousFile,
    EditorExit,
    EditorExitLeft,
    EditorExitRight,
    EditorExitUp,
    EditorExitDown,
    EditorNewLine,
    CommandLineEnter,
    CommandLineExit,
    ListTablesEnter,
    ListDatabasesEnter,
    InsertStart,
    InsertEnd,
    ChangeCell,
    DeleteCell,
    PasteToday,
    InsertEmptyColumn,
    InsertEmptyRowAbove,
    InsertEmptyRowBelow,
    DeleteLine,
    DeleteColumn,
    IndentLeft,
    IndentRight,
    YankCell,
    YankRow,
    YankColumn,
    PasteReplace,
    PasteBefore,
    PasteAfter,
}

impl Command {
    pub fn new() -> (c: Command)
        ensures
            c == Command::NoOp,
    {
        Command::NoOp
    }
}

} // verus!
