//! Lua package manager core: versions, constraints, paths and text handling.

pub mod build;
pub mod bundler;
pub mod cache;
pub mod cache_clean;
pub mod commands;
pub mod config;
pub mod error;
pub mod lua_manager;
pub mod lua_version;
pub mod manifest;
pub mod order;
pub mod outdated;
pub mod path;
pub mod path_setup;
pub mod plugins;
pub mod strmap;
pub mod templates;
pub mod version;
pub mod watch;
pub mod text;

pub use error::{format_error_with_help, ErrorHelp, LpmError, LpmResult};
