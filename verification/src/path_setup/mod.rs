//! Making a project's modules and the installed tools reachable.

pub mod loader;
pub mod shell;
