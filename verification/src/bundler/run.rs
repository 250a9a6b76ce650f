//! The `bundle` command: where the entry and the output are, and the
//! options a run or a watch uses.

use vstd::prelude::*;
use crate::bundler::bundle_core::BundleOptions;
use crate::error::LpmError;
use crate::path::{join, join_path};
use crate::text::{concat2, views};

verus! {

/// The options of the `bundle` command.
#[derive(Debug, Clone)]
pub struct BundleRunOptions {
    pub entry: Option<String>,
    pub output: Option<String>,
    pub minify: bool,
    pub source_map: bool,
    pub no_comments: bool,
    pub tree_shake: bool,
    pub dynamic_requires: bool,
    pub incremental: bool,
}

/// A path given on the command line, taken from the project root unless it
/// is absolute; the default when none is given.
pub open spec fn project_path(root: Seq<char>, given: Option<Seq<char>>, default: Seq<char>) -> Seq<char> {
    match given {
        Some(p) => join_path(root, p),
        None => join_path(root, default),
    }
}

/// The entry file: the given one, else `src/main.lua`.
pub fn entry_path(root: &str, entry: &Option<String>) -> (r: String)
    ensures
        r@ == project_path(root@, match entry {
            Some(e) => Some(e@),
            None => None,
        }, "src/main.lua"@),
{
    match entry {
        Some(e) => join(root, e.as_str()),
        None => join(root, "src/main.lua"),
    }
}

/// The output file: the given one, else `dist/bundle.lua`.
pub fn output_path(root: &str, output: &Option<String>) -> (r: String)
    ensures
        r@ == project_path(root@, match output {
            Some(o) => Some(o@),
            None => None,
        }, "dist/bundle.lua"@),
{
    match output {
        Some(o) => join(root, o.as_str()),
        None => join(root, "dist/bundle.lua"),
    }
}

/// The error for an entry file that does not exist.
pub fn entry_not_found(entry: &str) -> (e: LpmError)
    ensures
        e matches LpmError::Package(m) && m@ == "Entry file not found: "@ + entry@,
{
    LpmError::Package(concat2("Entry file not found: ", entry))
}

/// The module directories of a project: its `src` and `lib`.
fn project_module_paths(root: &str) -> (r: Vec<String>)
    ensures
        views(r@) == seq![join_path(root@, "src"@), join_path(root@, "lib"@)],
{
    let r = vec![join(root, "src"), join(root, "lib")];
    assert(views(r@) =~= seq![join_path(root@, "src"@), join_path(root@, "lib"@)]);
    r
}

/// The bundling options of a run of the command: standalone, searching the
/// project's `src` and `lib`, the rest as asked.
pub fn options_for_run(opts: &BundleRunOptions, root: &str) -> (o: BundleOptions)
    ensures
        o.minify == opts.minify,
        o.source_map == opts.source_map,
        o.comments == !opts.no_comments,
        o.standalone,
        views(o.module_paths@) == seq![join_path(root@, "src"@), join_path(root@, "lib"@)],
        o.tree_shake == opts.tree_shake,
        o.dynamic_requires == opts.dynamic_requires,
        o.incremental == opts.incremental,
{
    BundleOptions {
        minify: opts.minify,
        source_map: opts.source_map,
        comments: !opts.no_comments,
        standalone: true,
        module_paths: project_module_paths(root),
        tree_shake: opts.tree_shake,
        dynamic_requires: opts.dynamic_requires,
        incremental: opts.incremental,
    }
}

/// The bundling options of watch mode: comments kept, no dynamic-require
/// report, and incremental rebuilds.
pub fn options_for_watch(minify: bool, source_map: bool, tree_shake: bool, root: &str) -> (o: BundleOptions)
    ensures
        o.minify == minify,
        o.source_map == source_map,
        o.comments,
        o.standalone,
        views(o.module_paths@) == seq![join_path(root@, "src"@), join_path(root@, "lib"@)],
        o.tree_shake == tree_shake,
        !o.dynamic_requires,
        o.incremental,
{
    BundleOptions {
        minify,
        source_map,
        comments: true,
        standalone: true,
        module_paths: project_module_paths(root),
        tree_shake,
        dynamic_requires: false,
        incremental: true,
    }
}

} // verus!
