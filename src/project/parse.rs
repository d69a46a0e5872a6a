//! The models of files read from a project.
pub mod ansible;
