//! Installing and switching Lua versions.

pub mod downloader;
pub mod switcher;
pub mod wrappers;
