//! Bundling a Lua project into one file.

pub mod bundle_core;
pub mod minifier;
pub mod parser;
pub mod resolver;
pub mod tree_shaker;
pub mod run;
