//! Building native modules: targets, prebuilt binaries, the Rust builder and
//! the environment cargo runs in.

pub mod targets;
pub mod prebuilt;
pub mod builder;
pub mod sandbox;
