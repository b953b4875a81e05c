//! The core of a terminal text editor: a row-addressable text buffer, the
//! document that owns it, an undo/redo history and a small command language.

pub mod text;
pub mod row_store;
pub mod inverse;
pub mod event;
pub mod document;
pub mod undo;
pub mod history;
pub mod script;
pub mod vars;
pub mod interp;
pub mod config;
pub mod search;
pub mod render;
