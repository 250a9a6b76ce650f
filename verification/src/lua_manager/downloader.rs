//! Where Lua binaries are downloaded from, and which versions are known.

use vstd::prelude::*;
use crate::config::Config;
use crate::error::LpmError;
use crate::path::{join, join_path};
use crate::strmap::StringMap;
use crate::text::{concat2, concat3, eq_str, owned, views};

verus! {

/// The source of Lua binaries when the configuration names none.
pub open spec fn default_binary_source() -> Seq<char> {
    "https://github.com/dyne/luabinaries/releases/latest/download"@
}

/// The versions known to have prebuilt binaries.
pub open spec fn known_versions() -> Seq<Seq<char>> {
    seq!["5.1.5"@, "5.3.6"@, "5.4.8"@]
}

/// A version with its aliases resolved: `latest` and each `5.x` series name
/// their newest known release; anything else stands for itself.
pub open spec fn resolved_version(v: Seq<char>) -> Seq<char> {
    if v == "latest"@ {
        "5.4.8"@
    } else if v == "5.1"@ {
        "5.1.5"@
    } else if v == "5.3"@ {
        "5.3.6"@
    } else if v == "5.4"@ {
        "5.4.8"@
    } else {
        v
    }
}

/// Resolving a version twice gives what resolving it once gives: the
/// releases that aliases stand for are not aliases themselves.
pub proof fn lemma_resolve_idempotent(v: Seq<char>)
    ensures
        resolved_version(resolved_version(v)) == resolved_version(v),
{
    reveal_strlit("latest");
    reveal_strlit("5.1");
    reveal_strlit("5.3");
    reveal_strlit("5.4");
    reveal_strlit("5.1.5");
    reveal_strlit("5.3.6");
    reveal_strlit("5.4.8");
    let r = resolved_version(v);
    if r == "5.4.8"@ || r == "5.1.5"@ || r == "5.3.6"@ {
        assert(r.len() == 5);
        assert(r != "latest"@);
        assert(r != "5.1"@);
        assert(r != "5.3"@);
        assert(r != "5.4"@);
    }
}

/// Each alias stands for one of the known versions.
pub proof fn lemma_aliases_are_known(v: Seq<char>)
    requires
        v == "latest"@ || v == "5.1"@ || v == "5.3"@ || v == "5.4"@,
    ensures
        known_versions().contains(resolved_version(v)),
{
    reveal_strlit("latest");
    reveal_strlit("5.1");
    reveal_strlit("5.3");
    reveal_strlit("5.4");
    reveal_strlit("5.1.5");
    reveal_strlit("5.3.6");
    reveal_strlit("5.4.8");
    let r = resolved_version(v);
    if v == "latest"@ {
        assert(known_versions()[2] == r);
    } else if v == "5.1"@ {
        assert(v != "latest"@);
        assert(known_versions()[0] == r);
    } else if v == "5.3"@ {
        assert(v != "latest"@ && v != "5.1"@);
        assert(known_versions()[1] == r);
    } else {
        assert(v != "latest"@ && v != "5.1"@ && v != "5.3"@);
        assert(known_versions()[2] == r);
    }
}

/// Downloads Lua binaries into a cache directory, from a default source or
/// from the source configured for a version.
#[derive(Debug)]
pub struct LuaDownloader {
    pub cache_dir: String,
    pub default_source_url: String,
    pub version_sources: StringMap,
}

impl LuaDownloader {
    /// A downloader with the sources of a configuration.
    pub fn new(cache_dir: String, config: &Config) -> (d: Self)
        ensures
            d.cache_dir@ == cache_dir@,
            d.default_source_url@ == match config.lua_binary_source_url {
                Some(u) => u@,
                None => default_binary_source(),
            },
            d.version_sources@ == match config.lua_binary_sources {
                Some(m) => m@,
                None => Map::<Seq<char>, Seq<char>>::empty(),
            },
    {
        let default_source_url = match &config.lua_binary_source_url {
            Some(u) => u.clone(),
            None => owned("https://github.com/dyne/luabinaries/releases/latest/download"),
        };
        let version_sources = match &config.lua_binary_sources {
            Some(m) => m.clone_map(),
            None => StringMap::new(),
        };
        LuaDownloader { cache_dir, default_source_url, version_sources }
    }

    /// The source of a version's binaries: the one configured for it, else
    /// the default.
    pub fn get_source_url(&self, version: &str) -> (r: &str)
        ensures
            r@ == if self.version_sources@.dom().contains(version@) {
                self.version_sources@[version@]
            } else {
                self.default_source_url@
            },
    {
        match self.version_sources.get(version) {
            Some(s) => s.as_str(),
            None => self.default_source_url.as_str(),
        }
    }

    /// The URL of a binary file at a version's source: `<source>/<file>`.
    pub fn binary_url(&self, version: &str, filename: &str) -> (r: String)
        ensures
            r@ == (if self.version_sources@.dom().contains(version@) {
                self.version_sources@[version@]
            } else {
                self.default_source_url@
            }) + "/"@ + filename@,
    {
        concat3(self.get_source_url(version), "/", filename)
    }

    /// Where a downloaded binary is kept: its file name in the cache
    /// directory.
    pub fn destination(&self, filename: &str) -> (r: String)
        ensures
            r@ == join_path(self.cache_dir@, filename@),
    {
        join(self.cache_dir.as_str(), filename)
    }

    /// The error for a version that the source does not offer.
    pub fn unavailable_error(version: &str, source_url: &str) -> (e: LpmError)
        ensures
            e matches LpmError::Package(m) && m@ == "Lua "@ + version@
                + " is not available for this platform from source: "@ + source_url@
                + "\nAvailable versions: 5.1.5, 5.3.6, 5.4.8\nYou can set a version-specific source with: lpm config set lua_binary_sources."@
                + version@ + " <url>"@,
    {
        let a = concat3("Lua ", version, " is not available for this platform from source: ");
        let b = concat3(
            a.as_str(),
            source_url,
            "\nAvailable versions: 5.1.5, 5.3.6, 5.4.8\nYou can set a version-specific source with: lpm config set lua_binary_sources.",
        );
        LpmError::Package(concat3(b.as_str(), version, " <url>"))
    }

    /// List the versions known to have prebuilt binaries.
    pub fn list_available_versions(&self) -> (r: Vec<String>)
        ensures
            views(r@) == known_versions(),
    {
        let r = vec![owned("5.1.5"), owned("5.3.6"), owned("5.4.8")];
        assert(views(r@) =~= known_versions());
        r
    }

    /// Resolve version aliases to actual versions.
    pub fn resolve_version(&self, version: &str) -> (r: String)
        ensures
            r@ == resolved_version(version@),
    {
        if eq_str(version, "latest") {
            owned("5.4.8")
        } else if eq_str(version, "5.1") {
            owned("5.1.5")
        } else if eq_str(version, "5.3") {
            owned("5.3.6")
        } else if eq_str(version, "5.4") {
            owned("5.4.8")
        } else {
            owned(version)
        }
    }

    /// Whether a version is one of the known ones.
    pub fn is_known_version(&self, version: &str) -> (b: bool)
        ensures
            b == known_versions().contains(version@),
    {
        let known = self.list_available_versions();
        let mut i: usize = 0;
        while i < known.len()
            invariant
                i <= known@.len(),
                views(known@) == known_versions(),
                forall|j: int| 0 <= j < i ==> known@[j]@ != version@,
            decreases known@.len() - i,
        {
            if eq_str(known[i].as_str(), version) {
                assert(known_versions()[i as int] == known@[i as int]@);
                return true;
            }
            i += 1;
        }
        proof {
            if known_versions().contains(version@) {
                let j = choose|j: int| 0 <= j < known_versions().len() && known_versions()[j] == version@;
                assert(known@[j]@ == known_versions()[j]);
            }
        }
        false
    }
}

} // verus!
