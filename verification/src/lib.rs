//! Document model of a structural text editor: a text buffer that keeps a
//! syntax tree in step with its text and records an undo/redo history, and
//! the bookkeeping that routes buffer events to per-language tool processes.

pub mod buffer;
pub mod canonicalized_path;
pub mod context;
pub mod edit;
pub mod grammar;
pub mod history;
pub mod lsp;
pub mod nodes;
pub mod position;
pub mod rope;
pub mod search;
pub mod selection;
pub mod syntax;
pub mod text;
pub mod utils;
