//! Resolves short project identifiers to remote repositories, plans their
//! synchronisation into a local tree and the installation of layered git hooks.
pub mod project;
pub mod util;
pub mod logging;
pub mod cli;
