//! The decisions behind the command-line commands.
pub mod project;
