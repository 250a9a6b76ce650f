//! Bundling Lua modules into one file: options, the runtime that serves the
//! bundled modules, the text of a bundle, and when to rebuild it.

use vstd::prelude::*;
use crate::bundler::minifier::{minified, Minifier};
use crate::bundler::tree_shaker::TreeShaker;
use crate::error::{LpmError, LpmResult};
use crate::path::{join, stripped, path_has_prefix, strip_path_prefix};
use crate::text::{
    concat2, concat3, join as join_texts, lines, lines_of, owned, replace_pat, replace_str, starts_with, starts_with_str,
    trim, trim_str, views,
};

verus! {

/// How a bundle is made.
#[derive(Debug, Clone)]
pub struct BundleOptions {
    /// Minify output.
    pub minify: bool,
    /// Generate a source map.
    pub source_map: bool,
    /// Keep comments.
    pub comments: bool,
    /// Include the module runtime.
    pub standalone: bool,
    /// Directories searched for modules.
    pub module_paths: Vec<String>,
    /// Keep only what the entry module needs.
    pub tree_shake: bool,
    /// Report requires whose target is computed at run time.
    pub dynamic_requires: bool,
    /// Rebuild only when a source is newer than the bundle.
    pub incremental: bool,
}

impl Default for BundleOptions {
    fn default() -> (o: Self)
        ensures
            !o.minify,
            !o.source_map,
            o.comments,
            o.standalone,
            views(o.module_paths@) == seq!["src"@, "lib"@],
            !o.tree_shake,
            !o.dynamic_requires,
            !o.incremental,
    {
        let module_paths = vec![owned("src"), owned("lib")];
        assert(views(module_paths@) =~= seq!["src"@, "lib"@]);
        BundleOptions {
            minify: false,
            source_map: false,
            comments: true,
            standalone: true,
            module_paths,
            tree_shake: false,
            dynamic_requires: false,
            incremental: false,
        }
    }
}

/// The runtime put at the head of a standalone bundle: it overrides
/// `require` so that bundled modules are loaded from the bundle, once.
pub open spec fn runtime_text() -> Seq<char> {
    "-- LPM Bundler Runtime
-- This runtime provides a scoped require override for bundled modules
local _BUNDLER_RUNTIME = {
    modules = {},
    loaded = {},
    original_require = require,
}

-- Store original require before we override it
local original_require = _BUNDLER_RUNTIME.original_require

-- Create a scoped require function
local function bundled_require(name)
    -- Check if it's a bundled module
    if _BUNDLER_RUNTIME.modules[name] then
        if not _BUNDLER_RUNTIME.loaded[name] then
            local result = _BUNDLER_RUNTIME.modules[name]()
            _BUNDLER_RUNTIME.loaded[name] = result or true
        end
        return _BUNDLER_RUNTIME.loaded[name]
    end
    
    -- Fall back to original require for C modules, stdlib, etc.
    return original_require(name)
end

-- Override require in the global scope
-- This is safe because we preserve the original require
require = bundled_require

-- Also make the runtime available for debugging
__BUNDLER__ = _BUNDLER_RUNTIME
"@
}

/// The module name of a path relative to the project: without `.lua`, with
/// `/` and `\` written `.`.
pub open spec fn module_name_of(rel: Seq<char>) -> Seq<char> {
    replace_pat(replace_pat(replace_pat(rel, ".lua"@, ""@), "/"@, "."@), "\\"@, "."@)
}

/// One module's section of a bundle.
pub open spec fn module_section(name: Seq<char>, content: Seq<char>) -> Seq<char> {
    "\n-- Module: "@ + name + "\n"@ + "_BUNDLER_RUNTIME.modules['"@ + replace_pat(name, "'"@, "\\'"@)
        + "'] = function()\n"@ + content + "\nend\n"@
}

/// The sections of the modules, in order.
pub open spec fn module_sections(ms: Seq<(Seq<char>, Seq<char>)>) -> Seq<char>
    decreases ms.len(),
{
    if ms.len() == 0 {
        Seq::<char>::empty()
    } else {
        module_sections(ms.drop_last()) + module_section(ms.last().0, ms.last().1)
    }
}

/// The text of a bundle: the runtime (when standalone), each module's
/// section, and the `require` of the entry module.
pub open spec fn bundle_text(standalone: bool, ms: Seq<(Seq<char>, Seq<char>)>, entry: Seq<char>) -> Seq<char> {
    (if standalone { runtime_text() + "\n"@ } else { Seq::<char>::empty() }) + module_sections(ms)
        + "\n-- Entry point\n"@ + "require('"@ + entry + "')\n"@
}

/// (name, content) pairs as texts.
pub open spec fn pair_views(v: Seq<(String, String)>) -> Seq<(Seq<char>, Seq<char>)> {
    v.map_values(|m: (String, String)| (m.0@, m.1@))
}

/// A module's content as it goes into the bundle: minified, or without
/// comments, or as it is, as the options say.
pub open spec fn processed(options: BundleOptions, content: Seq<char>) -> Seq<char> {
    if options.minify {
        minified(content)
    } else if !options.comments {
        uncommented(content)
    } else {
        content
    }
}

/// Each module's content processed as the options say.
pub open spec fn processed_pairs(options: BundleOptions, ms: Seq<(Seq<char>, Seq<char>)>) -> Seq<(Seq<char>, Seq<char>)> {
    ms.map_values(|m: (Seq<char>, Seq<char>)| (m.0, processed(options, m.1)))
}

/// The lines a bundle keeps when comments are dropped: those that are not
/// `--` comments, `--[[` lines being kept.
pub open spec fn uncommented(content: Seq<char>) -> Seq<char> {
    join_texts(
        lines(content).filter(|l: Seq<char>| !starts_with(trim(l), "--"@) || starts_with(trim(l), "--[["@)),
        "\n"@,
    )
}

/// The message of a dynamic-require warning, line by line.
pub open spec fn dynamic_warning_lines(dynamic: Seq<Seq<char>>) -> Seq<Seq<char>> {
    seq!["⚠️  Warning: Found "@ + crate::text::decimal(dynamic.len()) + " dynamic require(s):"@]
        + dynamic.map_values(|d: Seq<char>| "   - "@ + d) + seq!["   These may not be included in the bundle."@]
}

/// Whether a bundle must be rebuilt: when it is missing, or when its time
/// is known and the entry or a Lua source is newer.
pub open spec fn rebuild_needed_of(
    output_exists: bool,
    output_time: Option<u128>,
    entry_time: Option<u128>,
    source_times: Seq<u128>,
) -> bool {
    if !output_exists {
        true
    } else {
        match output_time {
            None => false,
            Some(o) => (entry_time matches Some(e) && e > o) || exists|i: int|
                0 <= i < source_times.len() && #[trigger] source_times[i] > o,
        }
    }
}

/// Bundles Lua files into one.
#[derive(Debug)]
pub struct Bundler {
    pub root: String,
    pub entry: String,
    pub output: String,
    pub options: BundleOptions,
}

impl Bundler {
    pub fn new(root: String, entry: String, output: String, options: BundleOptions) -> (b: Self)
        ensures
            b.root@ == root@,
            b.entry@ == entry@,
            b.output@ == output@,
            b.options == options,
    {
        Bundler { root, entry, output, options }
    }

    /// The module runtime of standalone bundles.
    pub fn get_runtime(&self) -> (r: String)
        ensures
            r@ == runtime_text(),
    {
        owned(
            "-- LPM Bundler Runtime
-- This runtime provides a scoped require override for bundled modules
local _BUNDLER_RUNTIME = {
    modules = {},
    loaded = {},
    original_require = require,
}

-- Store original require before we override it
local original_require = _BUNDLER_RUNTIME.original_require

-- Create a scoped require function
local function bundled_require(name)
    -- Check if it's a bundled module
    if _BUNDLER_RUNTIME.modules[name] then
        if not _BUNDLER_RUNTIME.loaded[name] then
            local result = _BUNDLER_RUNTIME.modules[name]()
            _BUNDLER_RUNTIME.loaded[name] = result or true
        end
        return _BUNDLER_RUNTIME.loaded[name]
    end
    
    -- Fall back to original require for C modules, stdlib, etc.
    return original_require(name)
end

-- Override require in the global scope
-- This is safe because we preserve the original require
require = bundled_require

-- Also make the runtime available for debugging
__BUNDLER__ = _BUNDLER_RUNTIME
",
        )
    }

    /// The module name of the entry file: its path inside the project root,
    /// as `module_name_of` spells it. An entry outside the root is refused.
    pub fn get_entry_module_name(&self) -> (r: LpmResult<String>)
        ensures
            path_has_prefix(self.entry@, self.root@) ==> (r matches Ok(n) && n@ == module_name_of(
                stripped(self.entry@, self.root@),
            )),
            !path_has_prefix(self.entry@, self.root@) ==> (r matches Err(e) && e matches LpmError::Path(m) && m@
                == "Entry path "@ + self.entry@ + " is not within project root "@ + self.root@),
    {
        proof {
            reveal_strlit(".lua");
            reveal_strlit("/");
            reveal_strlit("\\");
        }
        match strip_path_prefix(self.entry.as_str(), self.root.as_str()) {
            Some(rel) => {
                let a = replace_str(rel.as_str(), ".lua", "");
                let b = replace_str(a.as_str(), "/", ".");
                Ok(replace_str(b.as_str(), "\\", "."))
            },
            None => {
                let a = concat3("Entry path ", self.entry.as_str(), " is not within project root ");
                Err(LpmError::Path(concat2(a.as_str(), self.root.as_str())))
            },
        }
    }

    /// Drops the `--` comment lines (keeping `--[[` lines) and joins the
    /// rest with newlines.
    pub fn strip_comments(&self, content: &str) -> (r: String)
        ensures
            r@ == uncommented(content@),
    {
        let ls = lines_of(content);
        let ghost lv = views(ls@);
        let ghost pred = |l: Seq<char>| !starts_with(trim(l), "--"@) || starts_with(trim(l), "--[["@);
        let mut kept: Vec<String> = Vec::new();
        let mut i: usize = 0;
        while i < ls.len()
            invariant
                i <= ls@.len(),
                lv == views(ls@),
                lv == lines(content@),
                pred == (|l: Seq<char>| !starts_with(trim(l), "--"@) || starts_with(trim(l), "--[["@)),
                views(kept@) == lv.take(i as int).filter(pred),
            decreases ls@.len() - i,
        {
            proof {
                reveal_with_fuel(Seq::<Seq<char>>::filter, 1);
                assert(lv.take(i + 1).drop_last() =~= lv.take(i as int));
                assert(lv[i as int] == ls@[i as int]@);
            }
            let t = trim_str(ls[i].as_str());
            if !starts_with_str(t.as_str(), "--") || starts_with_str(t.as_str(), "--[[") {
                let ghost before = views(kept@);
                kept.push(ls[i].clone());
                assert(views(kept@) =~= before.push(lv[i as int]));
            }
            i += 1;
        }
        assert(lv.take(ls@.len() as int) =~= lv);
        crate::text::join_strings(&kept, "\n")
    }

    /// A module's content as it goes into the bundle: minified, or without
    /// comments, or as it is, as the options say.
    pub fn process_module(&self, content: String) -> (r: LpmResult<String>)
        ensures
            r matches Ok(s) && s@ == if self.options.minify {
                minified(content@)
            } else if !self.options.comments {
                uncommented(content@)
            } else {
                content@
            },
    {
        if self.options.minify {
            let minifier = Minifier::new();
            minifier.minify(content.as_str())
        } else if !self.options.comments {
            Ok(self.strip_comments(content.as_str()))
        } else {
            Ok(content)
        }
    }

    /// The modules that go into the bundle, of those resolved (name and
    /// file): with tree-shaking, only the entry module (see
    /// `TreeShaker::shake`), which needs the entry inside the project root;
    /// otherwise all of them, in order.
    pub fn modules_to_bundle(&self, modules: &Vec<(String, String)>) -> (r: LpmResult<Vec<(String, String)>>)
        ensures
            !self.options.tree_shake ==> (r matches Ok(v) && pair_views(v@) == pair_views(modules@)),
            self.options.tree_shake ==> match r {
                Ok(v) => {
                    let name = module_name_of(stripped(self.entry@, self.root@));
                    &&& path_has_prefix(self.entry@, self.root@)
                    &&& v@.len() <= 1
                    &&& (v@.len() == 1 <==> exists|i: int| 0 <= i < modules@.len() && modules@[i].0@ == name)
                    &&& (v@.len() == 1 ==> exists|i: int|
                        0 <= i < modules@.len() && modules@[i].0@ == name && v@[0].0@ == name && v@[0].1@
                            == modules@[i].1@ && forall|j: int| 0 <= j < i ==> modules@[j].0@ != name)
                },
                Err(e) => !path_has_prefix(self.entry@, self.root@) && e is Path,
            },
    {
        if self.options.tree_shake {
            let name = match self.get_entry_module_name() {
                Ok(n) => n,
                Err(e) => {
                    return Err(e);
                },
            };
            Ok(TreeShaker::new().shake(modules, name.as_str()))
        } else {
            let mut v: Vec<(String, String)> = Vec::new();
            let mut i: usize = 0;
            while i < modules.len()
                invariant
                    i <= modules@.len(),
                    pair_views(v@) == pair_views(modules@).take(i as int),
                decreases modules@.len() - i,
            {
                let ghost before = pair_views(v@);
                v.push((modules[i].0.clone(), modules[i].1.clone()));
                assert(pair_views(v@) =~= before.push((modules@[i as int].0@, modules@[i as int].1@)));
                assert(pair_views(modules@).take(i + 1) =~= pair_views(modules@).take(i as int).push(
                    (modules@[i as int].0@, modules@[i as int].1@),
                ));
                i += 1;
            }
            assert(pair_views(modules@).take(i as int) =~= pair_views(modules@));
            Ok(v)
        }
    }

    /// The bundle of the chosen modules (name and file content, in order):
    /// each content processed as the options say, then the bundle text.
    pub fn assemble(&self, contents: &Vec<(String, String)>) -> (r: LpmResult<String>)
        ensures
            match r {
                Ok(b) => path_has_prefix(self.entry@, self.root@) && b@ == bundle_text(
                    self.options.standalone,
                    processed_pairs(self.options, pair_views(contents@)),
                    module_name_of(stripped(self.entry@, self.root@)),
                ),
                Err(e) => !path_has_prefix(self.entry@, self.root@),
            },
    {
        let mut done: Vec<(String, String)> = Vec::new();
        let mut i: usize = 0;
        while i < contents.len()
            invariant
                i <= contents@.len(),
                pair_views(done@) == processed_pairs(self.options, pair_views(contents@)).take(i as int),
            decreases contents@.len() - i,
        {
            let text = match self.process_module(contents[i].1.clone()) {
                Ok(t) => t,
                Err(e) => {
                    return Err(e);
                },
            };
            let ghost before = pair_views(done@);
            let ghost item = (contents@[i as int].0@, processed(self.options, contents@[i as int].1@));
            done.push((contents[i].0.clone(), text));
            assert(pair_views(done@) =~= before.push(item));
            assert(processed_pairs(self.options, pair_views(contents@)).take(i + 1) =~= processed_pairs(
                self.options,
                pair_views(contents@),
            ).take(i as int).push(item));
            i += 1;
        }
        assert(processed_pairs(self.options, pair_views(contents@)).take(i as int) =~= processed_pairs(
            self.options,
            pair_views(contents@),
        ));
        assert(done@.map_values(|m: (String, String)| (m.0@, m.1@)) =~= pair_views(done@));
        self.generate_bundle(&done)
    }

    /// The text of the bundle of the given modules (name and content, in
    /// the order given).
    pub fn generate_bundle(&self, modules: &Vec<(String, String)>) -> (r: LpmResult<String>)
        ensures
            match r {
                Ok(b) => path_has_prefix(self.entry@, self.root@) && b@ == bundle_text(
                    self.options.standalone,
                    modules@.map_values(|m: (String, String)| (m.0@, m.1@)),
                    module_name_of(stripped(self.entry@, self.root@)),
                ),
                Err(e) => !path_has_prefix(self.entry@, self.root@),
            },
    {
        proof {
            reveal_strlit("'");
        }
        let ghost ms = modules@.map_values(|m: (String, String)| (m.0@, m.1@));
        let mut bundle = String::new();
        if self.options.standalone {
            let rt = self.get_runtime();
            bundle.append(rt.as_str());
            bundle.append("\n");
        }
        let ghost head = bundle@;
        assert(head == (if self.options.standalone { runtime_text() + "\n"@ } else { Seq::<char>::empty() }));
        let mut i: usize = 0;
        while i < modules.len()
            invariant
                i <= modules@.len(),
                ms == modules@.map_values(|m: (String, String)| (m.0@, m.1@)),
                bundle@ == head + module_sections(ms.take(i as int)),
            decreases modules@.len() - i,
        {
            proof {
                reveal_strlit("'");
            }
            let name = modules[i].0.as_str();
            let content = modules[i].1.as_str();
            let escaped = replace_str(name, "'", "\\'");
            let a = concat3("\n-- Module: ", name, "\n");
            let b = concat3("_BUNDLER_RUNTIME.modules['", escaped.as_str(), "'] = function()\n");
            let ghost before = bundle@;
            bundle.append(a.as_str());
            bundle.append(b.as_str());
            bundle.append(content);
            bundle.append("\nend\n");
            proof {
                assert(ms.take(i + 1).drop_last() =~= ms.take(i as int));
                assert(ms.take(i + 1).last() == ms[i as int]);
                assert(bundle@ =~= before + module_section(name@, content@));
            }
            i += 1;
        }
        assert(ms.take(modules@.len() as int) =~= ms);
        let entry = match self.get_entry_module_name() {
            Ok(n) => n,
            Err(e) => {
                return Err(e);
            },
        };
        bundle.append("\n-- Entry point\n");
        let req = concat3("require('", entry.as_str(), "')\n");
        bundle.append(req.as_str());
        Ok(bundle)
    }

    /// Whether the bundle must be rebuilt, given whether it exists, its
    /// modification time, the entry's, and those of the Lua sources.
    pub fn rebuild_needed(
        output_exists: bool,
        output_time: Option<u128>,
        entry_time: Option<u128>,
        source_times: &Vec<u128>,
    ) -> (b: bool)
        ensures
            b == rebuild_needed_of(output_exists, output_time, entry_time, source_times@),
    {
        if !output_exists {
            return true;
        }
        let o = match output_time {
            None => {
                return false;
            },
            Some(o) => o,
        };
        match entry_time {
            Some(e) => {
                if e > o {
                    return true;
                }
            },
            None => {},
        }
        let mut i: usize = 0;
        while i < source_times.len()
            invariant
                i <= source_times@.len(),
                output_exists,
                output_time == Some(o),
                !(entry_time matches Some(e) && e > o),
                forall|j: int| 0 <= j < i ==> !(#[trigger] source_times@[j] > o),
            decreases source_times@.len() - i,
        {
            if source_times[i] > o {
                assert(source_times@[i as int] > o);
                return true;
            }
            i += 1;
        }
        false
    }

    /// The warning about dynamic requires, line by line, or nothing when
    /// there are none.
    pub fn dynamic_warning(dynamic: &Vec<String>) -> (r: Vec<String>)
        requires
            dynamic@.len() < u64::MAX,
        ensures
            dynamic@.len() == 0 ==> r@.len() == 0,
            dynamic@.len() > 0 ==> views(r@) == dynamic_warning_lines(views(dynamic@)),
    {
        let mut r: Vec<String> = Vec::new();
        if dynamic.len() == 0 {
            return r;
        }
        let n = crate::text::u64_to_string(dynamic.len() as u64);
        r.push(concat3("⚠️  Warning: Found ", n.as_str(), " dynamic require(s):"));
        let ghost dv = views(dynamic@);
        let mut i: usize = 0;
        while i < dynamic.len()
            invariant
                i <= dynamic@.len(),
                dv == views(dynamic@),
                views(r@) == seq!["⚠️  Warning: Found "@ + crate::text::decimal(dv.len()) + " dynamic require(s):"@]
                    + dv.take(i as int).map_values(|d: Seq<char>| "   - "@ + d),
            decreases dynamic@.len() - i,
        {
            let ghost before = views(r@);
            r.push(concat2("   - ", dynamic[i].as_str()));
            assert(views(r@) =~= before.push("   - "@ + dv[i as int]));
            assert(dv.take(i + 1).map_values(|d: Seq<char>| "   - "@ + d) =~= dv.take(i as int).map_values(
                |d: Seq<char>| "   - "@ + d,
            ).push("   - "@ + dv[i as int]));
            i += 1;
        }
        r.push(owned("   These may not be included in the bundle."));
        assert(dv.take(dv.len() as int) =~= dv);
        assert(views(r@) =~= dynamic_warning_lines(dv));
        r
    }
}

} // verus!
