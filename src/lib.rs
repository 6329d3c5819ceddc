//! A multi-buffer terminal text editor core: viewport arithmetic, cursor-follow
//! rendering, line buffers with editing, a modal search overlay and the
//! top-level input dispatcher.
//!
//! The text buffer is this library's own: character and line editing,
//! cursor movement with selection, paging, undo and redo of the last hundred
//! edits, and search. Search patterns are literal text, so no pattern is
//! ever malformed. The keys a buffer takes are the printable characters,
//! Enter, Tab, Backspace, Delete, the arrows, Home, End, Page Up, Page Down,
//! Ctrl-U (undo) and Ctrl-R (redo); there are no word motions and no cut,
//! copy or paste.
pub mod buffer;
pub mod editor;
pub mod find;
pub mod history;
pub mod input;
pub mod render;
pub mod scroll;
pub mod search;
pub mod text;
pub mod viewport;
