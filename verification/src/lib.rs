//! The editing core of a small text editor: a text buffer with a line index,
//! a cursor with selection, an undoable edit log, and the session that ties
//! them together.

pub mod buffer;
pub mod cursor;
pub mod error;
pub mod history;
pub mod line_index;
pub mod position;
pub mod session;
pub mod shell;
