//! Prebuilt native modules: compiled Rust libraries of Lua packages, kept in
//! the cache per package, version, Lua version and target.

use vstd::prelude::*;
use crate::build::targets::Target;
use crate::cache::Cache;
use crate::lua_version::detector::LuaVersion;
use crate::strmap::StringMap;
use crate::text::{concat3, decimal};

verus! {

/// The Lua version as a prebuilt binary is filed under: `major.minor`.
pub open spec fn lua_series(v: LuaVersion) -> Seq<char> {
    decimal(v.major as nat) + "."@ + decimal(v.minor as nat)
}

/// The key of a binary URL in a rockspec's `binary_urls` table:
/// `<major.minor>-<target triple>`.
pub open spec fn binary_url_key(lua_version: LuaVersion, target: Target) -> Seq<char> {
    lua_series(lua_version) + "-"@ + target.triple@
}

/// Manages the prebuilt binaries of Lua packages' native modules.
#[derive(Debug)]
pub struct PrebuiltBinaryManager {
    pub cache: Cache,
}

impl PrebuiltBinaryManager {
    /// A manager over a cache.
    pub fn new(cache: Cache) -> (m: Self)
        ensures
            m.cache == cache,
    {
        PrebuiltBinaryManager { cache }
    }

    /// Whether a prebuilt binary of the package is in the cache, filed under
    /// the Lua version's `major.minor` and the target's triple.
    pub fn has_prebuilt(&self, package: &str, version: &str, lua_version: &LuaVersion, target: &Target) -> bool {
        let series = lua_version.major_minor();
        self.cache.has_rust_build(package, version, series.as_str(), target.triple.as_str())
    }

    /// The path of the cached prebuilt binary, if it is present.
    pub fn get_prebuilt(
        &self,
        package: &str,
        version: &str,
        lua_version: &LuaVersion,
        target: &Target,
    ) -> (r: Option<String>)
        ensures
            r matches Some(p) ==> p@ == self.cache.rust_build_path_of(
                package@,
                version@,
                lua_series(*lua_version),
                target.triple@,
            ),
    {
        let series = lua_version.major_minor();
        self.cache.get_rust_build(package, version, series.as_str(), target.triple.as_str())
    }

    /// The URL of the binary for a Lua version and target in a rockspec's
    /// `binary_urls` table, keyed `<major.minor>-<triple>`.
    pub fn find_binary_url(
        rockspec_binary_urls: &StringMap,
        target: &Target,
        lua_version: &LuaVersion,
    ) -> (r: Option<String>)
        ensures
            match r {
                Some(u) => rockspec_binary_urls@.dom().contains(binary_url_key(*lua_version, *target))
                    && rockspec_binary_urls@[binary_url_key(*lua_version, *target)] == u@,
                None => !rockspec_binary_urls@.dom().contains(binary_url_key(*lua_version, *target)),
            },
    {
        let series = lua_version.major_minor();
        let key = concat3(series.as_str(), "-", target.triple.as_str());
        match rockspec_binary_urls.get(key.as_str()) {
            Some(u) => Some(u.clone()),
            None => None,
        }
    }
}

} // verus!
