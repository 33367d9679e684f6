//! Checking dependencies against a policy.

pub mod cache;
pub mod dependency;
pub mod error;
pub mod laws;
pub mod outcome;
pub mod render;
pub mod replay;
pub mod runner;
pub mod seedwing;
pub mod source;

pub use dependency::Dependency;
pub use outcome::Outcome;
