//! Which packages suit the installed Lua version.

use vstd::prelude::*;
use crate::error::{LpmError, LpmResult};
use crate::lua_version::constraint::{
    asks_past_last_patch, lua_constraint_result, lua_matches, parse_lua_version_constraint,
};
use crate::lua_version::detector::{lua_display, LuaVersion};
use crate::text::{concat2, views};

verus! {

/// The view of an optional string.
pub open spec fn opt_view(o: Option<String>) -> Option<Seq<char>> {
    match o {
        Some(s) => Some(s@),
        None => None,
    }
}

/// Whether a package that asks for `required` suits `installed`: always when
/// it asks for nothing; otherwise as its constraint says, or the error of a
/// constraint that cannot be read.
pub open spec fn package_compatible(installed: LuaVersion, required: Option<Seq<char>>) -> Result<
    bool,
    Seq<char>,
> {
    match required {
        None => Ok(true),
        Some(s) => match lua_constraint_result(s) {
            Ok(m) => Ok(lua_matches(m, installed)),
            Err(e) => Err(e),
        },
    }
}

/// A constraint text that can be read without arithmetic overflow.
pub open spec fn readable_requirement(required: Option<Seq<char>>) -> bool {
    required matches Some(s) ==> !asks_past_last_patch(s)
}

/// The names, in order, of the packages that suit `installed`; a package
/// whose constraint cannot be read is left out.
pub open spec fn compatible_names(installed: LuaVersion, ps: Seq<(String, Option<String>)>) -> Seq<
    Seq<char>,
>
    decreases ps.len(),
{
    if ps.len() == 0 {
        Seq::<Seq<char>>::empty()
    } else {
        let prev = compatible_names(installed, ps.drop_last());
        if package_compatible(installed, opt_view(ps.last().1)) == Ok::<bool, Seq<char>>(true) {
            prev.push(ps.last().0@)
        } else {
            prev
        }
    }
}

/// The message of the error for a project whose constraint the installed
/// version does not meet.
pub open spec fn unsatisfied_message(installed: LuaVersion, constraint: Seq<char>) -> Seq<char> {
    "Installed Lua version "@ + lua_display(installed) + " does not satisfy project requirement '"@
        + constraint + "'"@
}

/// Checks package compatibility with Lua versions.
pub struct PackageCompatibility;

impl PackageCompatibility {
    /// Check if a package is compatible with the installed Lua version.
    pub fn check_package(installed_version: &LuaVersion, package_lua_version: Option<&str>) -> (r:
        LpmResult<bool>)
        requires
            package_lua_version matches Some(s) ==> !asks_past_last_patch(s@),
        ensures
            match r {
                Ok(b) => package_compatible(
                    *installed_version,
                    match package_lua_version {
                        Some(s) => Some(s@),
                        None => None,
                    },
                ) == Ok::<bool, Seq<char>>(b),
                Err(e) => e matches LpmError::Version(m) && package_compatible(
                    *installed_version,
                    match package_lua_version {
                        Some(s) => Some(s@),
                        None => None,
                    },
                ) == Err::<bool, Seq<char>>(m@),
            },
    {
        let package_constraint = if let Some(lua_version) = package_lua_version {
            match parse_lua_version_constraint(lua_version) {
                Ok(c) => c,
                Err(e) => {
                    return Err(e);
                },
            }
        } else {
            // No constraint specified, assume compatible
            return Ok(true);
        };
        Ok(package_constraint.matches(installed_version))
    }

    /// Validate that the project's lua_version constraint matches the installed version.
    pub fn validate_project_constraint(installed_version: &LuaVersion, project_constraint: &str) -> (r:
        LpmResult<()>)
        requires
            !asks_past_last_patch(project_constraint@),
        ensures
            match lua_constraint_result(project_constraint@) {
                Ok(m) => if lua_matches(m, *installed_version) {
                    r is Ok
                } else {
                    r matches Err(e) && (e matches LpmError::Version(msg) && msg@
                        == unsatisfied_message(*installed_version, project_constraint@))
                },
                Err(msg) => r matches Err(e) && (e matches LpmError::Version(m) && m@ == msg),
            },
    {
        let constraint = match parse_lua_version_constraint(project_constraint) {
            Ok(c) => c,
            Err(e) => {
                return Err(e);
            },
        };
        if !constraint.matches(installed_version) {
            let mut msg = concat2("Installed Lua version ", installed_version.to_string().as_str());
            msg.append(" does not satisfy project requirement '");
            msg.append(project_constraint);
            msg.append("'");
            return Err(LpmError::Version(msg));
        }
        Ok(())
    }

    /// Filter packages by Lua version compatibility; `packages` holds
    /// `(name, lua_version)` pairs.
    pub fn filter_compatible_packages(
        installed_version: &LuaVersion,
        packages: &[(String, Option<String>)],
    ) -> (r: Vec<String>)
        requires
            forall|i: int|
                0 <= i < packages@.len() ==> readable_requirement(opt_view(#[trigger] packages@[i].1)),
        ensures
            views(r@) == compatible_names(*installed_version, packages@),
    {
        let mut out: Vec<String> = Vec::new();
        let mut i: usize = 0;
        while i < packages.len()
            invariant
                i <= packages@.len(),
                forall|k: int|
                    0 <= k < packages@.len() ==> readable_requirement(opt_view(#[trigger] packages@[k].1)),
                views(out@) == compatible_names(*installed_version, packages@.take(i as int)),
            decreases packages@.len() - i,
        {
            let entry = &packages[i];
            assert(readable_requirement(opt_view(packages@[i as int].1)));
            let required: Option<&str> = match &entry.1 {
                Some(s) => Some(s.as_str()),
                None => None,
            };
            let ghost before = views(out@);
            let res = Self::check_package(installed_version, required);
            proof {
                let t = packages@.take(i + 1);
                assert(t.drop_last() =~= packages@.take(i as int));
                assert(t.last() == packages@[i as int]);
            }
            match res {
                Ok(true) => {
                    out.push(entry.0.clone());
                    assert(views(out@) =~= before.push(entry.0@));
                },
                Ok(false) => {},
                Err(_) => {},  // Skip on parse error
            }
            i += 1;
        }
        assert(packages@.take(packages@.len() as int) =~= packages@);
        out
    }
}

} // verus!
