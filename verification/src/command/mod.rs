//! The commands of the program.

pub mod lsp;
pub mod once;
