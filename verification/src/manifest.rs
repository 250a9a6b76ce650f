//! The package manifest (`package.yaml`): its fields, its defaults, its
//! validation and its dependency tables.

use vstd::prelude::*;
use crate::error::{LpmError, LpmResult};
use crate::strmap::StringMap;
use crate::text::{concat2, concat3, owned};

verus! {

/// How a native module of a package is built.
#[derive(Debug)]
pub struct BuildConfig {
    pub build_type: String,
    pub manifest: Option<String>,
    pub modules: StringMap,
    pub features: Vec<String>,
    pub profile: Option<String>,
}

/// The contents of a `package.yaml`.
#[derive(Debug)]
pub struct PackageManifest {
    pub name: String,
    pub version: String,
    pub description: Option<String>,
    pub homepage: Option<String>,
    pub license: Option<String>,
    pub lua_version: String,
    pub dependencies: StringMap,
    pub dev_dependencies: StringMap,
    pub scripts: StringMap,
    pub build: Option<BuildConfig>,
    /// Target triple to the URL of a prebuilt binary.
    pub binary_urls: StringMap,
}

/// The Lua version a manifest asks for when it names none.
pub open spec fn default_lua() -> Seq<char> {
    "5.4"@
}

/// The Lua version a manifest asks for when it names none: `5.4`.
pub fn default_lua_version() -> (r: String)
    ensures
        r@ == default_lua(),
{
    owned("5.4")
}

/// The first problem among dependency entries from index `i` on: an empty
/// name, or an empty version.
pub open spec fn dep_problem_from(
    es: Seq<(Seq<char>, Seq<char>)>,
    i: int,
    kind: Seq<char>,
) -> Option<Seq<char>>
    decreases es.len() - i,
{
    if i < 0 || i >= es.len() {
        None
    } else if es[i].0.len() == 0 {
        Some(kind + " name cannot be empty"@)
    } else if es[i].1.len() == 0 {
        Some(kind + " '"@ + es[i].0 + "' version cannot be empty"@)
    } else {
        dep_problem_from(es, i + 1, kind)
    }
}

/// The first problem of a manifest, in the order in which it is checked:
/// the name, the version, the Lua version, then each dependency and each
/// development dependency.
pub open spec fn manifest_problem(m: PackageManifest) -> Option<Seq<char>> {
    if m.name@.len() == 0 {
        Some("Package name cannot be empty"@)
    } else if m.version@.len() == 0 {
        Some("Package version cannot be empty"@)
    } else if m.lua_version@.len() == 0 {
        Some("lua_version cannot be empty"@)
    } else if dep_problem_from(m.dependencies.ordered(), 0, "Dependency"@) is Some {
        dep_problem_from(m.dependencies.ordered(), 0, "Dependency"@)
    } else {
        dep_problem_from(m.dev_dependencies.ordered(), 0, "Dev dependency"@)
    }
}

/// Checks the entries of a dependency table in order.
fn check_deps(deps: &StringMap, kind: &str) -> (r: Option<String>)
    ensures
        match r {
            Some(msg) => dep_problem_from(deps.ordered(), 0, kind@) == Some(msg@),
            None => dep_problem_from(deps.ordered(), 0, kind@) is None,
        },
{
    let n = deps.len();
    let mut i: usize = 0;
    while i < n
        invariant
            n == deps.ordered().len(),
            i <= n,
            dep_problem_from(deps.ordered(), 0, kind@) == dep_problem_from(deps.ordered(), i as int, kind@),
        decreases n - i,
    {
        let k = deps.key_at(i);
        let v = deps.value_at(i);
        if k.as_str().is_empty() {
            return Some(concat2(kind, " name cannot be empty"));
        }
        if v.as_str().is_empty() {
            let head = concat3(kind, " '", k.as_str());
            return Some(concat2(head.as_str(), "' version cannot be empty"));
        }
        i += 1;
    }
    None
}

impl PackageManifest {
    /// A manifest with the given name, version `1.0.0`, Lua `5.4`, and
    /// nothing else.
    pub fn default(name: String) -> (m: Self)
        ensures
            m.name@ == name@,
            m.version@ == "1.0.0"@,
            m.description is None,
            m.homepage is None,
            m.license is None,
            m.lua_version@ == default_lua(),
            m.dependencies@ == Map::<Seq<char>, Seq<char>>::empty(),
            m.dev_dependencies@ == Map::<Seq<char>, Seq<char>>::empty(),
            m.scripts@ == Map::<Seq<char>, Seq<char>>::empty(),
            m.build is None,
            m.binary_urls@ == Map::<Seq<char>, Seq<char>>::empty(),
            m.dependencies.ordered().len() == 0,
            m.dev_dependencies.ordered().len() == 0,
    {
        PackageManifest {
            name,
            version: owned("1.0.0"),
            description: None,
            homepage: None,
            license: None,
            lua_version: default_lua_version(),
            dependencies: StringMap::new(),
            dev_dependencies: StringMap::new(),
            scripts: StringMap::new(),
            build: None,
            binary_urls: StringMap::new(),
        }
    }

    /// Checks that the name, the version and the Lua version are not empty,
    /// and that no dependency has an empty name or version. The error names
    /// the first problem found.
    pub fn validate(&self) -> (r: LpmResult<()>)
        ensures
            match r {
                Ok(_) => manifest_problem(*self) is None,
                Err(e) => exists|msg: String|
                    e == LpmError::Package(msg) && manifest_problem(*self) == Some(msg@),
            },
    {
        if self.name.as_str().is_empty() {
            return Err(LpmError::Package(owned("Package name cannot be empty")));
        }
        if self.version.as_str().is_empty() {
            return Err(LpmError::Package(owned("Package version cannot be empty")));
        }
        if self.lua_version.as_str().is_empty() {
            return Err(LpmError::Package(owned("lua_version cannot be empty")));
        }
        match check_deps(&self.dependencies, "Dependency") {
            Some(msg) => {
                return Err(LpmError::Package(msg));
            },
            None => {},
        }
        match check_deps(&self.dev_dependencies, "Dev dependency") {
            Some(msg) => Err(LpmError::Package(msg)),
            None => Ok(()),
        }
    }

    /// The dependencies of a production build: the regular ones only.
    pub fn production_dependencies(&self) -> (r: &StringMap)
        ensures
            r == &self.dependencies,
    {
        &self.dependencies
    }

    /// Whether a package is a development dependency.
    pub fn is_dev_dependency(&self, package_name: &str) -> (b: bool)
        ensures
            b == self.dev_dependencies@.dom().contains(package_name@),
    {
        self.dev_dependencies.contains_key(package_name)
    }

    /// Regular and development dependencies together. Where a package is in
    /// both, the regular entry is kept; the development entries that are
    /// added follow the regular ones, in their own order.
    pub fn all_dependencies(&self) -> (all: StringMap)
        ensures
            all@ == self.dev_dependencies@.union_prefer_right(self.dependencies@),
            all.ordered() == self.dependencies.ordered() + self.dev_dependencies.ordered().filter(
                |e: (Seq<char>, Seq<char>)| !self.dependencies@.dom().contains(e.0),
            ),
    {
        let ghost deps = self.dependencies@;
        let ghost pred = |e: (Seq<char>, Seq<char>)| !deps.dom().contains(e.0);
        let mut all = self.dependencies.clone_map();
        let n = self.dev_dependencies.len();
        let mut i: usize = 0;
        proof {
            let es = self.dev_dependencies.ordered();
            assert(es.take(0) =~= Seq::<(Seq<char>, Seq<char>)>::empty());
            assert(es.take(0).filter(pred) =~= Seq::<(Seq<char>, Seq<char>)>::empty());
            assert(all.ordered() =~= self.dependencies.ordered() + es.take(0).filter(pred));
            assert(all@ =~= crate::strmap::entries_map(es.take(0)).union_prefer_right(deps));
        }
        while i < n
            invariant
                n == self.dev_dependencies.ordered().len(),
                i <= n,
                deps == self.dependencies@,
                pred == (|e: (Seq<char>, Seq<char>)| !deps.dom().contains(e.0)),
                crate::strmap::distinct_keys(self.dev_dependencies.ordered()),
                self.dev_dependencies@ == crate::strmap::entries_map(self.dev_dependencies.ordered()),
                all@ == crate::strmap::entries_map(self.dev_dependencies.ordered().take(i as int)).union_prefer_right(deps),
                all.ordered() == self.dependencies.ordered() + self.dev_dependencies.ordered().take(i as int).filter(pred),
            decreases n - i,
        {
            let ghost es = self.dev_dependencies.ordered();
            let k = self.dev_dependencies.key_at(i);
            let v = self.dev_dependencies.value_at(i);
            let present = all.contains_key(k.as_str());
            let ghost before = all.ordered();
            proof {
                reveal_with_fuel(Seq::<(Seq<char>, Seq<char>)>::filter, 1);
                assert(es.take(i + 1).drop_last() =~= es.take(i as int));
                assert(es.take(i + 1).last() == es[i as int]);
                crate::strmap::lemma_entries_map_take(es, i as int);
            }
            if !present {
                all.insert(k.clone(), v.clone());
                proof {
                    assert(!deps.dom().contains(k@));
                    assert(all.ordered() =~= self.dependencies.ordered() + es.take(i + 1).filter(pred));
                    assert(all@ =~= crate::strmap::entries_map(es.take(i + 1)).union_prefer_right(deps));
                }
            } else {
                proof {
                    assert(es.take(i + 1).filter(pred) =~= es.take(i as int).filter(pred));
                    assert(all@ =~= crate::strmap::entries_map(es.take(i + 1)).union_prefer_right(deps));
                }
            }
            i += 1;
        }
        proof {
            let es = self.dev_dependencies.ordered();
            assert(es.take(n as int) =~= es);
        }
        all
    }
}

} // verus!
