//! Plugins: their metadata, where they are installed, and the registry
//! entries made from crates.io search results and GitHub releases.

use vstd::prelude::*;
use crate::error::{LpmError, LpmResult};
use crate::path::{join, join_path};
use crate::text::{concat2, concat3, contains, contains_str, ends_with, ends_with_str, eq_str, owned, starts_with, views};

verus! {

/// Another plugin a plugin needs.
#[derive(Debug, Clone)]
pub struct PluginDependency {
    /// Plugin name (without the `lpm-` prefix).
    pub name: String,
    /// Version constraint (such as `^1.0.0`).
    pub version: Option<String>,
}

/// Metadata of an installed plugin.
#[derive(Debug, Clone)]
pub struct PluginMetadata {
    /// Plugin name (without the `lpm-` prefix).
    pub name: String,
    pub version: String,
    pub description: Option<String>,
    pub author: Option<String>,
    pub homepage: Option<String>,
    pub dependencies: Vec<PluginDependency>,
    /// Minimum LPM version required.
    pub min_lpm_version: Option<String>,
}

impl PluginMetadata {
    /// Where a plugin's metadata is kept: `plugins/<name>.yaml` in the LPM
    /// home.
    pub fn metadata_path_in(lpm_home: &str, plugin_name: &str) -> (r: String)
        ensures
            r@ == join_path(join_path(lpm_home@, "plugins"@), plugin_name@ + ".yaml"@),
    {
        let dir = join(lpm_home, "plugins");
        let file = concat2(plugin_name, ".yaml");
        join(dir.as_str(), file.as_str())
    }

    /// The metadata of a plugin installed without any: its name and the
    /// version `unknown`.
    pub fn unknown(plugin_name: &str) -> (m: Self)
        ensures
            m.name@ == plugin_name@,
            m.version@ == "unknown"@,
            m.description is None,
            m.author is None,
            m.homepage is None,
            m.dependencies@.len() == 0,
            m.min_lpm_version is None,
    {
        PluginMetadata {
            name: owned(plugin_name),
            version: owned("unknown"),
            description: None,
            author: None,
            homepage: None,
            dependencies: Vec::new(),
            min_lpm_version: None,
        }
    }
}

/// An installed plugin: its metadata, its executable, and the version the
/// executable reports.
#[derive(Debug, Clone)]
pub struct PluginInfo {
    pub metadata: PluginMetadata,
    pub executable_path: String,
    pub installed_version: Option<String>,
}

impl PluginInfo {
    /// The version in use: the one the executable reports, else the
    /// metadata's.
    pub fn current_version(&self) -> (r: &String)
        ensures
            r@ == match self.installed_version {
                Some(v) => v@,
                None => self.metadata.version@,
            },
    {
        match &self.installed_version {
            Some(v) => v,
            None => &self.metadata.version,
        }
    }
}

/// A plugin as the registry describes it.
#[derive(Debug, Clone)]
pub struct RegistryEntry {
    pub name: String,
    /// Latest version.
    pub version: String,
    pub description: Option<String>,
    pub author: Option<String>,
    pub homepage: Option<String>,
    pub download_url: Option<String>,
    /// Available versions.
    pub versions: Vec<String>,
}

/// `str::to_lowercase`: the text in lower case, by Unicode's rules.
pub uninterp spec fn lowercase_of(s: Seq<char>) -> Seq<char>;

/// `str::to_lowercase`.
/// Trusted: the result is the function `lowercase_of` of the text.
#[verifier::external_body]
pub(crate) fn lowercase(s: &str) -> (r: String)
    ensures
        r@ == lowercase_of(s@),
{
    s.to_lowercase()
}

/// Whether a release asset's (lower-case) name looks like a plugin binary:
/// it holds `lpm-` and names an executable or a platform.
pub open spec fn is_binary_asset(lower: Seq<char>) -> bool {
    contains(lower, "lpm-"@) && (ends_with(lower, ".exe"@) || ends_with(lower, "x86_64"@) || ends_with(
        lower,
        "aarch64"@,
    ) || contains(lower, "linux"@) || contains(lower, "macos"@) || contains(lower, "darwin"@) || contains(
        lower,
        "windows"@,
    ))
}

/// The text without its leading `v`s.
pub open spec fn without_leading_v(s: Seq<char>) -> Seq<char>
    decreases s.len(),
{
    if s.len() > 0 && s[0] == 'v' {
        without_leading_v(s.drop_first())
    } else {
        s
    }
}

/// A release tag as a version: without one leading `v`.
pub open spec fn tag_version(tag: Seq<char>) -> Seq<char> {
    if tag.len() > 0 && tag[0] == 'v' { tag.drop_first() } else { tag }
}

/// Finds plugins: on GitHub (`lpm-org/lpm-<name>`, `<name>/lpm-<name>`),
/// then on crates.io (crates named `lpm-*`).
pub struct PluginRegistry;

impl PluginRegistry {
    /// The GitHub repositories a plugin is looked for in, in order.
    pub fn repo_patterns(name: &str) -> (r: Vec<String>)
        ensures
            views(r@) == seq!["lpm-org/lpm-"@ + name@, name@ + "/lpm-"@ + name@],
    {
        let r = vec![concat2("lpm-org/lpm-", name), concat3(name, "/lpm-", name)];
        assert(views(r@) =~= seq!["lpm-org/lpm-"@ + name@, name@ + "/lpm-"@ + name@]);
        r
    }

    /// The entry for a crates.io search result, when the crate is a plugin
    /// (its name starts with `lpm-`): named without the prefix, its latest
    /// version the only one listed.
    pub fn entry_from_crate(
        crate_name: &str,
        description: Option<String>,
        repository: Option<String>,
        max_version: &str,
    ) -> (r: Option<RegistryEntry>)
        ensures
            starts_with(crate_name@, "lpm-"@) <==> r is Some,
            r matches Some(e) ==> e.name@ == crate_name@.skip(4) && e.version@ == max_version@
                && views(e.versions@) == seq![max_version@] && e.author is None && e.download_url is None
                && e.description == description && e.homepage == repository,
    {
        match crate::text::strip_prefix_str(crate_name, "lpm-") {
            Some(plugin_name) => {
                proof {
                    reveal_strlit("lpm-");
                }
                let versions = vec![owned(max_version)];
                assert(views(versions@) =~= seq![max_version@]);
                Some(RegistryEntry {
                    name: plugin_name,
                    version: owned(max_version),
                    description,
                    author: None,
                    homepage: repository,
                    download_url: None,
                    versions,
                })
            },
            None => None,
        }
    }

    /// The entry for a GitHub release of a plugin: the tag without a leading
    /// `v` as the version, the release notes as the description, the
    /// repository's page, and the first binary-looking asset's URL.
    pub fn entry_from_release(
        repo: &str,
        plugin_name: &str,
        tag: &str,
        body: Option<String>,
        assets: &Vec<(String, String)>,
    ) -> (r: RegistryEntry)
        ensures
            r.name@ == plugin_name@,
            r.version@ == tag_version(tag@),
            views(r.versions@) == seq![without_leading_v(tag@)],
            r.description == body,
            r.author is None,
            r.homepage matches Some(h) && h@ == "https://github.com/"@ + repo@,
            match r.download_url {
                Some(u) => exists|i: int| 0 <= i < assets@.len() && is_binary_asset(lowercase_of(assets@[i].0@))
                    && u@ == assets@[i].1@ && forall|j: int| 0 <= j < i ==> !is_binary_asset(
                    #[trigger] lowercase_of(assets@[j].0@),
                ),
                None => forall|i: int| 0 <= i < assets@.len() ==> !is_binary_asset(
                    #[trigger] lowercase_of(assets@[i].0@),
                ),
            },
    {
        let mut download_url: Option<String> = None;
        let mut i: usize = 0;
        while i < assets.len()
            invariant_except_break
                download_url is None,
            invariant
                i <= assets@.len(),
                forall|j: int| 0 <= j < i ==> !is_binary_asset(#[trigger] lowercase_of(assets@[j].0@)),
            ensures
                match download_url {
                    Some(u) => exists|k: int| 0 <= k < assets@.len() && is_binary_asset(lowercase_of(assets@[k].0@))
                        && u@ == assets@[k].1@ && forall|j: int| 0 <= j < k ==> !is_binary_asset(
                        #[trigger] lowercase_of(assets@[j].0@),
                    ),
                    None => forall|j: int| 0 <= j < assets@.len() ==> !is_binary_asset(
                        #[trigger] lowercase_of(assets@[j].0@),
                    ),
                },
            decreases assets@.len() - i,
        {
            let lower = lowercase(assets[i].0.as_str());
            let l = lower.as_str();
            if contains_str(l, "lpm-") && (ends_with_str(l, ".exe") || ends_with_str(l, "x86_64") || ends_with_str(
                l,
                "aarch64",
            ) || contains_str(l, "linux") || contains_str(l, "macos") || contains_str(l, "darwin") || contains_str(
                l,
                "windows",
            )) {
                download_url = Some(assets[i].1.clone());
                assert(is_binary_asset(lowercase_of(assets@[i as int].0@)));
                break;
            }
            i += 1;
        }
        let v = crate::text::chars_of(tag);
        let version = if v.len() > 0 && v[0] == 'v' {
            crate::text::string_of(&v, 1, v.len())
        } else {
            owned(tag)
        };
        proof {
            if v@.len() > 0 && v@[0] == 'v' {
                assert(v@.subrange(1, v@.len() as int) =~= v@.drop_first());
            }
        }
        let trimmed = strip_leading_v(tag);
        let versions = vec![trimmed];
        assert(views(versions@) =~= seq![without_leading_v(tag@)]);
        RegistryEntry {
            name: owned(plugin_name),
            version,
            description: body,
            author: None,
            homepage: Some(concat2("https://github.com/", repo)),
            download_url,
            versions,
        }
    }
}

/// `str::trim_start_matches('v')`.
fn strip_leading_v(s: &str) -> (r: String)
    ensures
        r@ == without_leading_v(s@),
{
    let v = crate::text::chars_of(s);
    let mut i: usize = 0;
    assert(v@.skip(0) =~= v@);
    while i < v.len() && v[i] == 'v'
        invariant
            i <= v@.len(),
            v@ == s@,
            without_leading_v(s@) == without_leading_v(v@.skip(i as int)),
        decreases v@.len() - i,
    {
        assert(v@.skip(i as int).drop_first() =~= v@.skip(i + 1));
        i += 1;
    }
    proof {
        assert(v@.skip(0) =~= v@);
        assert(v@.skip(i as int) =~= v@.subrange(i as int, v@.len() as int));
    }
    crate::text::string_of(&v, i, v.len())
}

/// Installs and updates plugins.
pub struct PluginInstaller;

impl PluginInstaller {
    /// Where a plugin's executable is installed: `bin/lpm-<name>` in the LPM
    /// home.
    pub fn plugin_path(lpm_home: &str, plugin_name: &str) -> (r: String)
        ensures
            r@ == join_path(join_path(lpm_home@, "bin"@), "lpm-"@ + plugin_name@),
    {
        let bin = join(lpm_home, "bin");
        let file = concat2("lpm-", plugin_name);
        join(bin.as_str(), file.as_str())
    }

    /// The version installed: the one asked for, else the registry's latest.
    pub fn target_version(version: Option<&str>, entry: &RegistryEntry) -> (r: String)
        ensures
            r@ == match version {
                Some(v) => v@,
                None => entry.version@,
            },
    {
        match version {
            Some(v) => owned(v),
            None => entry.version.clone(),
        }
    }

    /// The URL to download a plugin from; an entry without one is refused.
    pub fn download_url(entry: &RegistryEntry, plugin_name: &str) -> (r: LpmResult<String>)
        ensures
            match entry.download_url {
                Some(u) => r matches Ok(s) && s@ == u@,
                None => r matches Err(e) && e matches LpmError::Package(m) && m@ == "No download URL available for plugin '"@
                    + plugin_name@ + "'"@,
            },
    {
        match &entry.download_url {
            Some(u) => Ok(u.clone()),
            None => Err(LpmError::Package(concat3("No download URL available for plugin '", plugin_name, "'"))),
        }
    }

    /// The metadata recorded for a freshly installed plugin.
    pub fn installed_metadata(plugin_name: &str, version: &str, entry: &RegistryEntry) -> (m: PluginMetadata)
        ensures
            m.name@ == plugin_name@,
            m.version@ == version@,
            m.description == entry.description,
            m.author == entry.author,
            m.homepage == entry.homepage,
            m.dependencies@.len() == 0,
            m.min_lpm_version is None,
    {
        PluginMetadata {
            name: owned(plugin_name),
            version: owned(version),
            description: entry.description.clone(),
            author: entry.author.clone(),
            homepage: entry.homepage.clone(),
            dependencies: Vec::new(),
            min_lpm_version: None,
        }
    }

    /// Whether a plugin needs updating: its version differs from the
    /// latest.
    pub fn needs_update(current: &str, latest: &str) -> (b: bool)
        ensures
            b == (current@ != latest@),
    {
        !eq_str(current, latest)
    }
}

} // verus!
