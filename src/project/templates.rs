//! The models behind the files a project template renders.
pub mod ansible;
pub mod git;
pub mod python;
pub mod vagrant;
