//! Dependency policy enforcement: evaluation, caching and incremental diagnostics.

pub mod backend;
pub mod cli;
pub mod command;
pub mod config;
pub mod diagnostic;
pub mod enforcer;
pub mod highlight;
pub mod protocol;
pub mod util;
pub mod utils;
