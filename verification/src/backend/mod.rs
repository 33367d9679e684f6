//! The editor backend: projects, their files and what is published for them.

pub mod file;
pub mod notification;
pub mod project;
pub mod publisher;
pub mod workspace;
