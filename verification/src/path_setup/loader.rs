//! The `lpm.loader` Lua module, which puts a project's `lua_modules` on
//! Lua's search paths.

use vstd::prelude::*;
use crate::path::{join, join_path, lua_modules_dir};
use crate::text::{concat2, concat3};

verus! {

/// The text of the loader up to the `lua_modules` directory.
pub open spec fn loader_head() -> Seq<char> {
    "-- LPM Loader Module
-- Automatically sets up package.path and package.cpath for local dependencies
-- Compatible with Lua 5.1, 5.3, and 5.4

local lua_modules = [["@
}

/// The text of the loader between the directory and the native search path.
pub open spec fn loader_middle() -> Seq<char> {
    "]]

-- Add lua_modules to package.path
-- Supports both ?/init.lua and ?.lua patterns
local lpm_path = lua_modules .. [[/?/init.lua;]] ..
                 lua_modules .. [[/?.lua;]] ..
                 lua_modules .. [[/?/?.lua;]]

-- Add lua_modules to package.cpath for native modules
local lpm_cpath = [["@
}

/// The text of the loader after the native search path.
pub open spec fn loader_tail() -> Seq<char> {
    "]]

-- Prepend LPM paths to existing paths
package.path = lpm_path .. package.path
package.cpath = lpm_cpath .. package.cpath

-- Lua 5.1 compatibility: package.loaders vs package.searchers
-- Lua 5.1 uses package.loaders, Lua 5.2+ uses package.searchers
-- This loader works with both by modifying package.path/cpath directly
-- which is compatible with all versions

-- Return a table with utility functions
return {
    lua_modules = lua_modules,
    path = lpm_path,
    cpath = lpm_cpath,
}
"@
}

/// The extension of native modules on an operating system, as Rust names
/// the system: `dll` on Windows, `dylib` on macOS, `so` elsewhere.
pub open spec fn native_extension(os: Seq<char>) -> Seq<char> {
    if os == "windows"@ {
        "dll"@
    } else if os == "macos"@ {
        "dylib"@
    } else {
        "so"@
    }
}

/// The native search path of a `lua_modules` directory:
/// `<dir>/?.<ext>;<dir>/?/init.<ext>`.
pub open spec fn native_search_path(dir: Seq<char>, ext: Seq<char>) -> Seq<char> {
    dir + "/?."@ + ext + ";"@ + dir + "/?/init."@ + ext
}

/// The loader module of a project on an operating system.
pub open spec fn loader_text(project_root: Seq<char>, os: Seq<char>) -> Seq<char> {
    let dir = join_path(project_root, "lua_modules"@);
    loader_head() + dir + loader_middle() + native_search_path(dir, native_extension(os)) + loader_tail()
}

/// Generates the `lpm.loader` module.
pub struct PathSetup;

impl PathSetup {
    /// The `lpm.loader` module of a project, for the operating system `os`
    /// (as Rust names it: `windows`, `macos`, `linux`, ...): it prepends the
    /// project's `lua_modules` to `package.path` and `package.cpath`.
    pub fn generate_loader(project_root: &str, os: &str) -> (r: String)
        ensures
            r@ == loader_text(project_root@, os@),
    {
        proof {
            reveal_strlit("windows");
            reveal_strlit("macos");
        }
        let dir = lua_modules_dir(project_root);
        let ext = if crate::text::eq_str(os, "windows") {
            "dll"
        } else if crate::text::eq_str(os, "macos") {
            "dylib"
        } else {
            "so"
        };
        let p1 = concat3(dir.as_str(), "/?.", ext);
        let p2 = concat3(p1.as_str(), ";", dir.as_str());
        let cpath = concat3(p2.as_str(), "/?/init.", ext);
        let head = concat3(
            "-- LPM Loader Module
-- Automatically sets up package.path and package.cpath for local dependencies
-- Compatible with Lua 5.1, 5.3, and 5.4

local lua_modules = [[",
            dir.as_str(),
            "]]

-- Add lua_modules to package.path
-- Supports both ?/init.lua and ?.lua patterns
local lpm_path = lua_modules .. [[/?/init.lua;]] ..
                 lua_modules .. [[/?.lua;]] ..
                 lua_modules .. [[/?/?.lua;]]

-- Add lua_modules to package.cpath for native modules
local lpm_cpath = [[",
        );
        let body = concat2(head.as_str(), cpath.as_str());
        concat2(
            body.as_str(),
            "]]

-- Prepend LPM paths to existing paths
package.path = lpm_path .. package.path
package.cpath = lpm_cpath .. package.cpath

-- Lua 5.1 compatibility: package.loaders vs package.searchers
-- Lua 5.1 uses package.loaders, Lua 5.2+ uses package.searchers
-- This loader works with both by modifying package.path/cpath directly
-- which is compatible with all versions

-- Return a table with utility functions
return {
    lua_modules = lua_modules,
    path = lpm_path,
    cpath = lpm_cpath,
}
",
        )
    }

    /// The path of the installed loader: `lua_modules/lpm/loader.lua`.
    pub fn loader_path(project_root: &str) -> (r: String)
        ensures
            r@ == join_path(join_path(join_path(project_root@, "lua_modules"@), "lpm"@), "loader.lua"@),
    {
        join(Self::lpm_module_dir(project_root).as_str(), "loader.lua")
    }

    /// The directory of the `lpm` Lua module: `lua_modules/lpm`.
    pub fn lpm_module_dir(project_root: &str) -> (r: String)
        ensures
            r@ == join_path(join_path(project_root@, "lua_modules"@), "lpm"@),
    {
        join(lua_modules_dir(project_root).as_str(), "lpm")
    }

    /// What installing the loader writes: the directory to create, the
    /// loader file inside it, and the loader's text for the platform.
    pub fn loader_install(project_root: &str, os: &str) -> (r: LoaderInstall)
        ensures
            r.dir@ == join_path(join_path(project_root@, "lua_modules"@), "lpm"@),
            r.path@ == join_path(r.dir@, "loader.lua"@),
            r.content@ == loader_text(project_root@, os@),
    {
        let dir = Self::lpm_module_dir(project_root);
        let path = join(dir.as_str(), "loader.lua");
        let content = Self::generate_loader(project_root, os);
        LoaderInstall { dir, path, content }
    }
}

/// The files of an installed loader.
#[derive(Debug)]
pub struct LoaderInstall {
    /// The directory that holds the loader (created if missing).
    pub dir: String,
    /// The loader file.
    pub path: String,
    /// The text written to it.
    pub content: String,
}

} // verus!
