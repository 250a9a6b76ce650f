//! Building a package's Rust code into a Lua native module: the build
//! configuration it needs, the Cargo invocation, and where the library
//! ends up.

use vstd::prelude::*;
use crate::build::targets::{extension_for, Target};
use crate::error::{LpmError, LpmResult};
use crate::manifest::{BuildConfig, PackageManifest};
use crate::path::{asked_in_order, first_answered, join, join_path, lemma_first_answered_member, pick_present, probe_paths};
use crate::strmap::StringMap;
use crate::text::{concat2, concat3, eq_str, join as join_texts, join_strings, owned, views};

verus! {

/// A copy of a build configuration.
fn copy_build_config(c: &BuildConfig) -> (r: BuildConfig)
    ensures
        r.build_type@ == c.build_type@,
        r.manifest matches Some(m) ==> c.manifest matches Some(cm) && m@ == cm@,
        r.manifest is None <==> c.manifest is None,
        r.modules@ == c.modules@,
        r.modules.ordered() == c.modules.ordered(),
        views(r.features@) == views(c.features@),
        r.profile matches Some(p) ==> c.profile matches Some(cp) && p@ == cp@,
        r.profile is None <==> c.profile is None,
{
    let mut features: Vec<String> = Vec::new();
    let mut i: usize = 0;
    while i < c.features.len()
        invariant
            i <= c.features@.len(),
            views(features@) == views(c.features@).take(i as int),
        decreases c.features@.len() - i,
    {
        let ghost before = views(features@);
        features.push(c.features[i].clone());
        assert(views(features@) =~= before.push(c.features@[i as int]@));
        assert(views(c.features@).take(i + 1) =~= views(c.features@).take(i as int).push(c.features@[i as int]@));
        i += 1;
    }
    assert(views(c.features@).take(c.features@.len() as int) =~= views(c.features@));
    BuildConfig {
        build_type: c.build_type.clone(),
        manifest: match &c.manifest {
            Some(m) => Some(m.clone()),
            None => None,
        },
        modules: c.modules.clone_map(),
        features,
        profile: match &c.profile {
            Some(p) => Some(p.clone()),
            None => None,
        },
    }
}

/// The features a build asks for: the configured ones, with the `mlua`
/// feature of the Lua version added when it is not among them.
pub open spec fn build_features(configured: Seq<Seq<char>>, mlua: Seq<char>) -> Seq<Seq<char>> {
    if configured.contains(mlua) { configured } else { configured.push(mlua) }
}

/// The Cargo arguments of a build: `zigbuild --target <triple>` for a cross
/// build, else `build`; then the profile (after `--` for `zigbuild`) or
/// `--release`; then the features.
pub open spec fn cargo_args_of(
    zig: bool,
    triple: Seq<char>,
    profile: Option<Seq<char>>,
    features: Seq<Seq<char>>,
) -> Seq<Seq<char>> {
    let head = if zig { seq!["zigbuild"@, "--target"@, triple] } else { seq!["build"@] };
    let prof = match profile {
        Some(p) => if zig { seq!["--"@, "--profile"@, p] } else { seq!["--profile"@, p] },
        None => seq!["--release"@],
    };
    let feats = if features.len() > 0 { seq!["--features"@, join_texts(features, ","@)] } else { Seq::<Seq<char>>::empty() };
    head + prof + feats
}

/// A configured profile takes the place of `--release`, for native and
/// cross builds alike: `--profile` comes right before the profile's name,
/// and no argument is `--release` unless it is the target's triple, the
/// profile's name or the features text.
pub proof fn lemma_profile_replaces_release(zig: bool, triple: Seq<char>, p: Seq<char>, features: Seq<Seq<char>>)
    ensures
        ({
            let args = cargo_args_of(zig, triple, Some(p), features);
            &&& exists|k: int| 0 <= k < args.len() - 1 && #[trigger] args[k] == "--profile"@ && args[k + 1] == p
            &&& forall|i: int|
                0 <= i < args.len() && args[i] == "--release"@ ==> args[i] == triple || args[i] == p || args[i]
                    == join_texts(features, ","@)
        }),
{
    reveal_strlit("--profile");
    reveal_strlit("--release");
    reveal_strlit("build");
    reveal_strlit("zigbuild");
    reveal_strlit("--target");
    reveal_strlit("--");
    reveal_strlit("--features");
    let args = cargo_args_of(zig, triple, Some(p), features);
    if zig {
        assert(args[3] == "--"@);
        assert(args[4] == "--profile"@ && args[5] == p);
        assert(args[0] != "--release"@) by {
            assert(args[0][0] != "--release"@[0]);
        }
        assert(args[1] != "--release"@) by {
            assert(args[1].len() != "--release"@.len());
        }
        assert(args[3] != "--release"@) by {
            assert(args[3].len() != "--release"@.len());
        }
        assert(args[4] != "--release"@) by {
            assert(args[4][2] != "--release"@[2]);
        }
        if features.len() > 0 {
            assert(args[6] != "--release"@) by {
                assert(args[6][2] != "--release"@[2]);
            }
        }
    } else {
        assert(args[1] == "--profile"@ && args[2] == p);
        assert(args[0] != "--release"@) by {
            assert(args[0].len() != "--release"@.len());
        }
        assert(args[1] != "--release"@) by {
            assert(args[1][2] != "--release"@[2]);
        }
        if features.len() > 0 {
            assert(args[3] != "--release"@) by {
                assert(args[3][2] != "--release"@[2]);
            }
        }
    }
}

/// Without a configured profile the build is a release build: `--release`
/// follows the command (and, for a cross build, the target).
pub proof fn lemma_no_profile_is_release(zig: bool, triple: Seq<char>, features: Seq<Seq<char>>)
    ensures
        cargo_args_of(zig, triple, None, features)[if zig { 3int } else { 1int }] == "--release"@,
{
}

/// The directory Cargo writes a release build to: `target/release` for the
/// host's target, `target/<triple>/release` otherwise.
pub open spec fn release_dir(triple: Seq<char>, host_triple: Seq<char>) -> Seq<char> {
    if triple == host_triple { "target/release"@ } else { "target/"@ + triple + "/release"@ }
}

/// Builds Rust code into Lua native modules.
#[derive(Debug)]
pub struct RustBuilder {
    pub project_root: String,
    pub build_config: BuildConfig,
}

impl RustBuilder {
    /// A builder for a package whose manifest has a `rust` build
    /// configuration.
    pub fn new(project_root: &str, manifest: &PackageManifest) -> (r: LpmResult<Self>)
        ensures
            match manifest.build {
                None => r matches Err(e) && e matches LpmError::Package(m)
                    && m@ == "No build configuration found in package.yaml"@,
                Some(b) => if b.build_type@ == "rust"@ {
                    r matches Ok(rb) && rb.project_root@ == project_root@ && rb.build_config.build_type@ == b.build_type@
                        && rb.build_config.modules@ == b.modules@ && views(rb.build_config.features@) == views(b.features@)
                } else {
                    r matches Err(e) && e matches LpmError::Package(m) && m@ == "Build type '"@ + b.build_type@
                        + "' is not supported. Only 'rust' is supported"@
                },
            },
    {
        let b = match &manifest.build {
            Some(b) => b,
            None => {
                return Err(LpmError::Package(owned("No build configuration found in package.yaml")));
            },
        };
        if !eq_str(b.build_type.as_str(), "rust") {
            return Err(LpmError::Package(concat3(
                "Build type '",
                b.build_type.as_str(),
                "' is not supported. Only 'rust' is supported",
            )));
        }
        Ok(RustBuilder { project_root: owned(project_root), build_config: copy_build_config(b) })
    }

    /// The Cargo manifest of the build: the configured one, else
    /// `Cargo.toml`, in the project root.
    pub fn cargo_manifest_path(&self) -> (r: String)
        ensures
            r@ == join_path(self.project_root@, match self.build_config.manifest {
                Some(m) => m@,
                None => "Cargo.toml"@,
            }),
    {
        match &self.build_config.manifest {
            Some(m) => join(self.project_root.as_str(), m.as_str()),
            None => join(self.project_root.as_str(), "Cargo.toml"),
        }
    }

    /// The error for a missing Cargo manifest.
    pub fn missing_manifest_error(path: &str) -> (e: LpmError)
        ensures
            e matches LpmError::Package(m) && m@ == "Cargo.toml not found at "@ + path@,
    {
        LpmError::Package(concat2("Cargo.toml not found at ", path))
    }

    /// The features of a build for a Lua version's `mlua` feature.
    pub fn features_for(&self, mlua_feature: &str) -> (r: Vec<String>)
        ensures
            views(r@) == build_features(views(self.build_config.features@), mlua_feature@),
    {
        let mut r: Vec<String> = Vec::new();
        let mut found = false;
        let mut i: usize = 0;
        while i < self.build_config.features.len()
            invariant
                i <= self.build_config.features@.len(),
                views(r@) == views(self.build_config.features@).take(i as int),
                found == views(self.build_config.features@).take(i as int).contains(mlua_feature@),
            decreases self.build_config.features@.len() - i,
        {
            let f = &self.build_config.features[i];
            let ghost before = views(r@);
            let hit = eq_str(f.as_str(), mlua_feature);
            r.push(f.clone());
            proof {
                let fs = views(self.build_config.features@);
                assert(views(r@) =~= before.push(fs[i as int]));
                assert(fs.take(i + 1) =~= fs.take(i as int).push(fs[i as int]));
                if hit {
                    assert(fs.take(i + 1)[i as int] == mlua_feature@);
                } else if found {
                    let t0 = fs.take(i as int);
                    let j = choose|j: int| 0 <= j < t0.len() && t0[j] == mlua_feature@;
                    assert(fs.take(i + 1)[j] == mlua_feature@);
                } else {
                    let t1 = fs.take(i + 1);
                    if t1.contains(mlua_feature@) {
                        let j = choose|j: int| 0 <= j < t1.len() && t1[j] == mlua_feature@;
                        if j < i {
                            assert(fs.take(i as int)[j] == mlua_feature@);
                        }
                    }
                }
            }
            found = found || hit;
            i += 1;
        }
        assert(views(self.build_config.features@).take(self.build_config.features@.len() as int) =~= views(
            self.build_config.features@,
        ));
        if !found {
            let ghost before = views(r@);
            r.push(owned(mlua_feature));
            assert(views(r@) =~= before.push(mlua_feature@));
        }
        r
    }

    /// The Cargo arguments of a build for a target (a cross build when it is
    /// not the host's) and a Lua version's `mlua` feature.
    pub fn cargo_args(&self, target: &Target, host: &Target, mlua_feature: &str) -> (r: Vec<String>)
        ensures
            views(r@) == cargo_args_of(
                target.triple@ != host.triple@,
                target.triple@,
                match self.build_config.profile {
                    Some(p) => Some(p@),
                    None => None,
                },
                build_features(views(self.build_config.features@), mlua_feature@),
            ),
    {
        let zig = !eq_str(target.triple.as_str(), host.triple.as_str());
        let mut r: Vec<String> = Vec::new();
        if zig {
            r.push(owned("zigbuild"));
            r.push(owned("--target"));
            r.push(target.triple.clone());
        } else {
            r.push(owned("build"));
        }
        match &self.build_config.profile {
            Some(p) => {
                if zig {
                    r.push(owned("--"));
                }
                r.push(owned("--profile"));
                r.push(p.clone());
            },
            None => {
                r.push(owned("--release"));
            },
        }
        let features = self.features_for(mlua_feature);
        if features.len() > 0 {
            r.push(owned("--features"));
            r.push(join_strings(&features, ","));
        }
        proof {
            let want = cargo_args_of(
                zig,
                target.triple@,
                match &self.build_config.profile {
                    Some(p) => Some(p@),
                    None => None,
                },
                build_features(views(self.build_config.features@), mlua_feature@),
            );
            assert(views(r@) =~= want);
        }
        r
    }

    /// The directory of the release build for a target.
    pub fn release_dir_for(target: &Target, host: &Target) -> (r: String)
        ensures
            r@ == release_dir(target.triple@, host.triple@),
    {
        if eq_str(target.triple.as_str(), host.triple.as_str()) {
            owned("target/release")
        } else {
            concat3("target/", target.triple.as_str(), "/release")
        }
    }

    /// Where the built library of each configured module may be, in search
    /// order: the configured path in the project, the same path below the
    /// release directory, and `lib<module><ext>` in the release directory.
    pub open spec fn library_candidates(&self, target: Target, host: Target) -> Seq<Seq<char>> {
        let ms = self.build_config.modules.ordered();
        let dir = join_path(self.project_root@, release_dir(target.triple@, host.triple@));
        Seq::new(3 * ms.len(), |k: int| {
            let m = ms[k / 3];
            if k % 3 == 0 {
                join_path(self.project_root@, m.1)
            } else if k % 3 == 1 {
                join_path(dir, m.1)
            } else {
                join_path(dir, "lib"@ + m.0 + extension_for(target.triple@))
            }
        })
    }

    /// The candidate library files, in search order.
    pub fn library_candidate_paths(&self, target: &Target, host: &Target) -> (r: Vec<String>)
        ensures
            views(r@) == self.library_candidates(*target, *host),
    {
        let n = self.build_config.modules.len();
        let rel = Self::release_dir_for(target, host);
        let dir = join(self.project_root.as_str(), rel.as_str());
        let ext = target.module_extension();
        let ghost cands = self.library_candidates(*target, *host);
        let mut r: Vec<String> = Vec::new();
        let mut i: usize = 0;
        while i < n
            invariant
                n == self.build_config.modules.ordered().len(),
                i <= n,
                cands == self.library_candidates(*target, *host),
                cands.len() == 3 * n,
                dir@ == join_path(self.project_root@, release_dir(target.triple@, host.triple@)),
                ext@ == extension_for(target.triple@),
                views(r@) == cands.take(3 * i),
            decreases n - i,
        {
            let name = self.build_config.modules.key_at(i);
            let path = self.build_config.modules.value_at(i);
            let full = join(self.project_root.as_str(), path.as_str());
            let in_target = join(dir.as_str(), path.as_str());
            let lib_name = concat3("lib", name.as_str(), ext);
            let lib_path = join(dir.as_str(), lib_name.as_str());
            let ghost before = views(r@);
            r.push(full);
            r.push(in_target);
            r.push(lib_path);
            proof {
                assert(cands[3 * i] == full@);
                assert(cands[3 * i + 1] == in_target@);
                assert(cands[3 * i + 2] == lib_path@);
                assert(views(r@) =~= before.push(full@).push(in_target@).push(lib_path@));
                assert(cands.take(3 * i + 3) =~= cands.take(3 * i).push(cands[3 * i]).push(cands[3 * i + 1]).push(
                    cands[3 * i + 2],
                ));
            }
            i += 1;
        }
        assert(cands.take(3 * n) =~= cands);
        r
    }

    /// The built library, given whether each candidate file (in the order
    /// of `library_candidates`, as far as answers are given) is present:
    /// the first that is; an error when none is.
    pub fn built_library_from(&self, target: &Target, host: &Target, present: &Vec<bool>) -> (r: LpmResult<String>)
        ensures
            match first_answered(self.library_candidates(*target, *host), present@) {
                Some(p) => r matches Ok(q) && q@ == p,
                None => r matches Err(e) && (e matches LpmError::Package(m) && m@
                    == "Could not find built library. Check that the build completed successfully and the module path is correct in package.yaml"@),
            },
    {
        let cands = self.library_candidate_paths(target, host);
        match pick_present(&cands, present) {
            Some(p) => Ok(p),
            None => Err(LpmError::Package(owned(
                "Could not find built library. Check that the build completed successfully and the module path is correct in package.yaml",
            ))),
        }
    }

    /// The first candidate library file that is present (see
    /// `built_library_from`, which says which one, given the file system's
    /// answers); an error when none is. The path handed back is always a
    /// candidate.
    pub fn find_built_library(&self, target: &Target, host: &Target) -> (r: LpmResult<String>)
        ensures
            match r {
                Ok(p) => self.library_candidates(*target, *host).contains(p@),
                Err(e) => e matches LpmError::Package(m) && m@
                    == "Could not find built library. Check that the build completed successfully and the module path is correct in package.yaml"@,
            },
            exists|a: Seq<bool>|
                asked_in_order(a, self.library_candidates(*target, *host).len() as int) && match first_answered(
                    self.library_candidates(*target, *host),
                    a,
                ) {
                    Some(p) => r matches Ok(q) && q@ == p,
                    None => r is Err,
                },
    {
        let cands = self.library_candidate_paths(target, host);
        let present = probe_paths(&cands);
        proof {
            lemma_first_answered_member(self.library_candidates(*target, *host), present@);
        }
        self.built_library_from(target, host, &present)
    }

    /// The URL of a prebuilt binary that the manifest names for a Lua
    /// version's `major.minor` and a target, under `<major.minor>-<triple>`.
    pub fn manifest_binary_url(manifest: &PackageManifest, lua_series: &str, target: &Target) -> (r: Option<String>)
        ensures
            match r {
                Some(u) => manifest.binary_urls@.dom().contains(lua_series@ + "-"@ + target.triple@)
                    && manifest.binary_urls@[lua_series@ + "-"@ + target.triple@] == u@,
                None => !manifest.binary_urls@.dom().contains(lua_series@ + "-"@ + target.triple@),
            },
    {
        let key = concat3(lua_series, "-", target.triple.as_str());
        match manifest.binary_urls.get(key.as_str()) {
            Some(u) => Some(u.clone()),
            None => None,
        }
    }
}

/// Where a native module comes from, in the order a build tries them.
#[derive(Debug)]
pub enum BuildSource {
    /// A prebuilt binary in the cache.
    Prebuilt(String),
    /// A build cached earlier.
    Cached(String),
    /// A prebuilt binary to download from the manifest's URL (a failed
    /// download falls back to compiling).
    Download(String),
    /// Compile the crate with Cargo.
    Compile,
}

/// The build's choice: a cached prebuilt binary first, then a cached build,
/// then a download from the manifest's binary URL, and compiling when there
/// is none of these.
pub fn build_source(prebuilt: Option<String>, cached: Option<String>, binary_url: Option<String>) -> (r: BuildSource)
    ensures
        prebuilt matches Some(p) ==> (r matches BuildSource::Prebuilt(q) && q == p),
        prebuilt is None ==> (cached matches Some(c) ==> (r matches BuildSource::Cached(q) && q == c)),
        prebuilt is None && cached is None ==> (binary_url matches Some(u) ==> (r matches BuildSource::Download(q)
            && q == u)),
        prebuilt is None && cached is None && binary_url is None ==> r is Compile,
{
    match prebuilt {
        Some(p) => BuildSource::Prebuilt(p),
        None => match cached {
            Some(c) => BuildSource::Cached(c),
            None => match binary_url {
                Some(u) => BuildSource::Download(u),
                None => BuildSource::Compile,
            },
        },
    }
}

} // verus!
