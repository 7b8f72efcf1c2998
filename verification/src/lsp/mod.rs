//! Keeping the tool processes of the languages in step with the buffers.

pub mod language;
pub mod manager;
pub mod process;
