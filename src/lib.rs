//! Editing core of a modal, keyboard-driven grid editor: a line editor, a
//! mode state machine, and a yank/paste range engine over an in-memory table.

pub mod text;
pub mod names;
pub mod table;
pub mod editor;
pub mod pos;
pub mod mode;
pub mod command;
pub mod key;
pub mod engine;
pub mod session;
pub mod dispatch;
pub mod command_line;
