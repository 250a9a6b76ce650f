//! The user's configuration (`config.yaml` in the LPM home) and its defaults.

use vstd::prelude::*;
use crate::error::LpmResult;
use crate::path::{cache_dir, home_in, no_cache_dir, path_result};
use crate::strmap::StringMap;
use crate::text::owned;

verus! {

/// The user's configuration.
#[derive(Debug)]
pub struct Config {
    /// LuaRocks manifest URL.
    pub luarocks_manifest_url: String,
    /// Cache directory; the platform's cache directory when absent.
    pub cache_dir: Option<String>,
    /// Whether to verify checksums on install.
    pub verify_checksums: bool,
    /// Whether to show diffs on update.
    pub show_diffs_on_update: bool,
    /// Default source of Lua binaries.
    pub lua_binary_source_url: Option<String>,
    /// Sources of Lua binaries by Lua version.
    pub lua_binary_sources: Option<StringMap>,
}

/// The LuaRocks manifest consulted when the configuration names none.
pub open spec fn luarocks_manifest_url() -> Seq<char> {
    "https://luarocks.org/manifests/luarocks/manifest"@
}

/// The LuaRocks manifest consulted when the configuration names none.
pub fn default_luarocks_manifest_url() -> (r: String)
    ensures
        r@ == luarocks_manifest_url(),
{
    owned("https://luarocks.org/manifests/luarocks/manifest")
}

/// The value of a switch that the configuration leaves out: on.
pub fn default_true() -> (b: bool)
    ensures
        b,
{
    true
}

impl Default for Config {
    fn default() -> (c: Self)
        ensures
            c.luarocks_manifest_url@ == luarocks_manifest_url(),
            c.cache_dir is None,
            c.verify_checksums,
            c.show_diffs_on_update,
            c.lua_binary_source_url is None,
            c.lua_binary_sources is None,
    {
        Config {
            luarocks_manifest_url: default_luarocks_manifest_url(),
            cache_dir: None,
            verify_checksums: default_true(),
            show_diffs_on_update: default_true(),
            lua_binary_source_url: None,
            lua_binary_sources: None,
        }
    }
}

impl Config {
    /// The cache directory: the configured one, else `lpm` in the
    /// platform's cache directory.
    pub fn get_cache_dir(&self) -> (r: LpmResult<String>)
        ensures
            match self.cache_dir {
                Some(d) => r matches Ok(p) && p@ == d@,
                None => exists|d: Option<Seq<char>>| path_result(r, home_in(d, no_cache_dir())),
            },
    {
        match &self.cache_dir {
            Some(d) => Ok(d.clone()),
            None => cache_dir(),
        }
    }
}

} // verus!
