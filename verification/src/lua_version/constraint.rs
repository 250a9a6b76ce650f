//! Constraints on the Lua version a package needs.

use vstd::prelude::*;
use crate::error::{LpmError, LpmResult};
use crate::lua_version::detector::{lua_version_error, parsed_lua_version, LuaVersion};
use crate::text::{
    contains, contains_str, lemma_split_pat_len, split_pat, split_str, starts_with,
    starts_with_str, strip_prefix_str, trim, trim_str, views,
};

verus! {

/// Lua version constraint.
///
/// Supports exact ("5.4"), range (">=5.1", "<5.3") and multiple
/// ("5.1 || 5.3 || 5.4") constraints.
#[derive(Debug, Clone, PartialEq, Eq)]
pub enum LuaVersionConstraint {
    /// Exact version: "5.4"
    Exact(LuaVersion),
    /// Greater than or equal: ">=5.1"
    GreaterOrEqual(LuaVersion),
    /// Less than: "<5.3"
    LessThan(LuaVersion),
    /// Multiple versions (OR): "5.1 || 5.3 || 5.4"
    Multiple(Vec<LuaVersion>),
}

/// The mathematical content of a Lua version constraint.
pub ghost enum LuaConstraintModel {
    Exact(LuaVersion),
    GreaterOrEqual(LuaVersion),
    LessThan(LuaVersion),
    Multiple(Seq<LuaVersion>),
}

impl View for LuaVersionConstraint {
    type V = LuaConstraintModel;

    open spec fn view(&self) -> LuaConstraintModel {
        match self {
            LuaVersionConstraint::Exact(v) => LuaConstraintModel::Exact(*v),
            LuaVersionConstraint::GreaterOrEqual(v) => LuaConstraintModel::GreaterOrEqual(*v),
            LuaVersionConstraint::LessThan(v) => LuaConstraintModel::LessThan(*v),
            LuaVersionConstraint::Multiple(vs) => LuaConstraintModel::Multiple(vs@),
        }
    }
}

/// Same major and minor version.
pub open spec fn same_minor(a: LuaVersion, b: LuaVersion) -> bool {
    a.major == b.major && a.minor == b.minor
}

/// Some version in the list has the same major and minor version as `v`.
pub open spec fn listed_minor(ws: Seq<LuaVersion>, v: LuaVersion) -> bool {
    exists|i: int| 0 <= i < ws.len() && same_minor(v, #[trigger] ws[i])
}

/// When a Lua version meets a constraint (patch levels are not compared).
pub open spec fn lua_matches(c: LuaConstraintModel, v: LuaVersion) -> bool {
    match c {
        LuaConstraintModel::Exact(w) => same_minor(v, w),
        LuaConstraintModel::GreaterOrEqual(w) => v.major > w.major || (v.major == w.major
            && v.minor >= w.minor),
        LuaConstraintModel::LessThan(w) => v.major < w.major || (v.major == w.major && v.minor
            < w.minor),
        LuaConstraintModel::Multiple(ws) => listed_minor(ws, v),
    }
}

/// The version text of one alternative in a `||` list.
pub open spec fn alternative_body(p: Seq<char>) -> Seq<char> {
    let q = trim(p);
    if starts_with(q, ">="@) {
        q.skip(2)
    } else if starts_with(q, "<"@) {
        q.skip(1)
    } else {
        q
    }
}

/// Reading the versions of a list of texts: all of them, or the error of the
/// first one that names no supported version.
pub open spec fn parse_all(bs: Seq<Seq<char>>) -> Result<Seq<LuaVersion>, Seq<char>>
    decreases bs.len(),
{
    if bs.len() == 0 {
        Ok(Seq::<LuaVersion>::empty())
    } else {
        match parse_all(bs.drop_last()) {
            Err(e) => Err(e),
            Ok(vs) => match parsed_lua_version(bs.last()) {
                Some(v) => Ok(vs.push(v)),
                None => Err(lua_version_error(bs.last())),
            },
        }
    }
}

/// The constraint a text denotes, or the message of the error it gives.
pub open spec fn lua_constraint_result(s: Seq<char>) -> Result<LuaConstraintModel, Seq<char>> {
    let t = trim(s);
    if contains(t, "||"@) {
        match parse_all(split_pat(t, "||"@).map_values(|p: Seq<char>| alternative_body(p))) {
            Ok(vs) => Ok(LuaConstraintModel::Multiple(vs)),
            Err(e) => Err(e),
        }
    } else {
        let single = |body: Seq<char>|
            match parsed_lua_version(body) {
                Some(v) => Ok(v),
                None => Err(lua_version_error(body)),
            };
        if starts_with(t, ">="@) {
            match single(t.skip(2)) {
                Ok(v) => Ok(LuaConstraintModel::GreaterOrEqual(v)),
                Err(e) => Err(e),
            }
        } else if starts_with(t, "<="@) {
            match single(t.skip(2)) {
                Ok(v) => Ok(
                    LuaConstraintModel::LessThan(
                        LuaVersion { major: v.major, minor: (v.minor + 1) as u64, patch: 0 },
                    ),
                ),
                Err(e) => Err(e),
            }
        } else if starts_with(t, "<"@) {
            match single(t.skip(1)) {
                Ok(v) => Ok(LuaConstraintModel::LessThan(v)),
                Err(e) => Err(e),
            }
        } else if starts_with(t, ">"@) {
            match single(t.skip(1)) {
                Ok(v) => Ok(
                    LuaConstraintModel::GreaterOrEqual(
                        LuaVersion { major: v.major, minor: v.minor, patch: (v.patch + 1) as u64 },
                    ),
                ),
                Err(e) => Err(e),
            }
        } else {
            match single(t) {
                Ok(v) => Ok(LuaConstraintModel::Exact(v)),
                Err(e) => Err(e),
            }
        }
    }
}

/// The text asks for the version after `x.y.18446744073709551615`, whose patch
/// number does not exist.
pub open spec fn asks_past_last_patch(s: Seq<char>) -> bool {
    let t = trim(s);
    &&& !contains(t, "||"@)
    &&& !starts_with(t, ">="@)
    &&& !starts_with(t, "<"@)
    &&& starts_with(t, ">"@)
    &&& parsed_lua_version(t.skip(1)) matches Some(v) && v.patch == u64::MAX
}

/// How `parse_lua_version_constraint` answers a text.
pub open spec fn lua_constraint_parse_result(s: Seq<char>, r: LpmResult<LuaVersionConstraint>) -> bool {
    match r {
        Ok(c) => lua_constraint_result(s) == Ok::<LuaConstraintModel, Seq<char>>(c@),
        Err(e) => lua_constraint_result(s) is Err && (e matches LpmError::Version(m) && Err::<
            LuaConstraintModel,
            Seq<char>,
        >(m@) == lua_constraint_result(s)),
    }
}

impl LuaVersionConstraint {
    /// Check if a Lua version satisfies this constraint.
    pub fn matches(&self, version: &LuaVersion) -> (b: bool)
        ensures
            b == lua_matches(self@, *version),
    {
        match self {
            LuaVersionConstraint::Exact(v) => version.major == v.major && version.minor == v.minor,
            LuaVersionConstraint::GreaterOrEqual(v) => {
                version.major > v.major || (version.major == v.major && version.minor >= v.minor)
            },
            LuaVersionConstraint::LessThan(v) => {
                version.major < v.major || (version.major == v.major && version.minor < v.minor)
            },
            LuaVersionConstraint::Multiple(versions) => {
                let mut i: usize = 0;
                while i < versions.len()
                    invariant
                        self@ == LuaConstraintModel::Multiple(versions@),
                        i <= versions@.len(),
                        forall|k: int| 0 <= k < i ==> !same_minor(*version, #[trigger] versions@[k]),
                    decreases versions@.len() - i,
                {
                    if version.major == versions[i].major && version.minor == versions[i].minor {
                        assert(0 <= i < versions@.len() && same_minor(*version, versions@[i as int]));
                        let ghost j = i as int;
                        assert(exists|k: int| 0 <= k < versions@.len() && same_minor(*version, #[trigger] versions@[k])) by {
                            assert(0 <= j < versions@.len() && same_minor(*version, versions@[j]));
                        }
                        assert(listed_minor(versions@, *version));
                        return true;
                    }
                    i += 1;
                }
                false
            },
        }
    }
}

/// Parse a Lua version constraint string.
///
/// Examples: "5.4" -> Exact(5.4); ">=5.1" -> GreaterOrEqual(5.1);
/// "<5.3" -> LessThan(5.3); "5.1 || 5.3 || 5.4" -> Multiple([5.1, 5.3, 5.4]).
pub fn parse_lua_version_constraint(constraint: &str) -> (r: LpmResult<LuaVersionConstraint>)
    requires
        !asks_past_last_patch(constraint@),
    ensures
        lua_constraint_parse_result(constraint@, r),
{
    proof {
        reveal_strlit("||");
        reveal_strlit(">=");
        reveal_strlit("<=");
        reveal_strlit("<");
        reveal_strlit(">");
    }
    let t = trim_str(constraint);
    // Check for multiple versions (OR)
    if contains_str(t.as_str(), "||") {
        let pieces = split_str(t.as_str(), "||");
        let ghost bodies = split_pat(t@, "||"@).map_values(|p: Seq<char>| alternative_body(p));
        proof {
            lemma_split_pat_len(t@, "||"@);
        }
        let mut versions: Vec<LuaVersion> = Vec::new();
        let mut i: usize = 0;
        while i < pieces.len()
            invariant
                i <= pieces@.len(),
                pieces@.len() >= 1,
                t@ == trim(constraint@),
                contains(t@, "||"@),
                views(pieces@) == split_pat(t@, "||"@),
                bodies == split_pat(t@, "||"@).map_values(|p: Seq<char>| alternative_body(p)),
                parse_all(bodies.take(i as int)) == Ok::<Seq<LuaVersion>, Seq<char>>(versions@),
                versions@.len() == i,
            decreases pieces@.len() - i,
        {
            proof {
                reveal_strlit(">=");
                reveal_strlit("<");
                reveal_strlit("||");
            }
            assert(pieces@[i as int]@ == views(pieces@)[i as int]);
            assert(bodies[i as int] == alternative_body(views(pieces@)[i as int]));
            let s = trim_str(pieces[i].as_str());
            let body = if let Some(rest) = strip_prefix_str(s.as_str(), ">=") {
                rest
            } else if let Some(rest) = strip_prefix_str(s.as_str(), "<") {
                rest
            } else {
                s
            };
            assert(body@ == bodies[i as int]);
            proof {
                assert(bodies.take(i + 1).drop_last() =~= bodies.take(i as int));
                assert(bodies.take(i + 1).last() == bodies[i as int]);
            }
            match LuaVersion::parse(body.as_str()) {
                Ok(v) => {
                    versions.push(v);
                },
                Err(e) => {
                    proof {
                        lemma_parse_all_prefix_err(bodies, i as int + 1);
                    }
                    return Err(e);
                },
            }
            i += 1;
        }
        assert(bodies.take(pieces@.len() as int) =~= bodies);
        assert(bodies.len() == pieces@.len());
        if versions.len() == 0 {
            return Err(LpmError::Version(String::from_str("Empty version list in constraint")));
        }
        return Ok(LuaVersionConstraint::Multiple(versions));
    }
    // Check for range constraints

    if let Some(rest) = strip_prefix_str(t.as_str(), ">=") {
        let version = match LuaVersion::parse(rest.as_str()) {
            Ok(v) => v,
            Err(e) => {
                return Err(e);
            },
        };
        return Ok(LuaVersionConstraint::GreaterOrEqual(version));
    }
    if let Some(rest) = strip_prefix_str(t.as_str(), "<=") {
        // For <=, we'll treat it as < next minor version
        let version = match LuaVersion::parse(rest.as_str()) {
            Ok(v) => v,
            Err(e) => {
                return Err(e);
            },
        };
        let next_version = LuaVersion::new(version.major, version.minor + 1, 0);
        return Ok(LuaVersionConstraint::LessThan(next_version));
    }
    if let Some(rest) = strip_prefix_str(t.as_str(), "<") {
        let version = match LuaVersion::parse(rest.as_str()) {
            Ok(v) => v,
            Err(e) => {
                return Err(e);
            },
        };
        return Ok(LuaVersionConstraint::LessThan(version));
    }
    if let Some(rest) = strip_prefix_str(t.as_str(), ">") {
        // For >, we'll treat it as >= next patch version
        let version = match LuaVersion::parse(rest.as_str()) {
            Ok(v) => v,
            Err(e) => {
                return Err(e);
            },
        };
        let next_version = LuaVersion::new(version.major, version.minor, version.patch + 1);
        return Ok(LuaVersionConstraint::GreaterOrEqual(next_version));
    }
    // Default: exact version

    let version = match LuaVersion::parse(t.as_str()) {
        Ok(v) => v,
        Err(e) => {
            return Err(e);
        },
    };
    Ok(LuaVersionConstraint::Exact(version))
}

/// Once reading a prefix fails, reading any longer prefix fails the same way.
proof fn lemma_parse_all_prefix_err(bs: Seq<Seq<char>>, i: int)
    requires
        0 < i <= bs.len(),
        parse_all(bs.take(i)) is Err,
    ensures
        parse_all(bs) == parse_all(bs.take(i)),
    decreases bs.len() - i,
{
    if i < bs.len() {
        assert(bs.take(i + 1).drop_last() =~= bs.take(i));
        lemma_parse_all_prefix_err(bs, i + 1);
    } else {
        assert(bs.take(i) =~= bs);
    }
}

/// Lua constraints compare major and minor versions only: changing the patch
/// level never changes whether a version matches.
pub proof fn lemma_lua_matches_ignores_patch(c: LuaConstraintModel, v: LuaVersion, patch: u64)
    ensures
        lua_matches(c, v) == lua_matches(c, LuaVersion { major: v.major, minor: v.minor, patch }),
{
    let w = LuaVersion { major: v.major, minor: v.minor, patch };
    if let LuaConstraintModel::Multiple(ws) = c {
        if listed_minor(ws, v) {
            let i = choose|i: int| 0 <= i < ws.len() && same_minor(v, #[trigger] ws[i]);
            assert(same_minor(w, ws[i]));
        }
        if listed_minor(ws, w) {
            let i = choose|i: int| 0 <= i < ws.len() && same_minor(w, #[trigger] ws[i]);
            assert(same_minor(v, ws[i]));
        }
    }
}

/// A version is either at least `w` or below it, never both.
pub proof fn lemma_lua_at_least_or_below(v: LuaVersion, w: LuaVersion)
    ensures
        lua_matches(LuaConstraintModel::GreaterOrEqual(w), v) != lua_matches(
            LuaConstraintModel::LessThan(w),
            v,
        ),
{
}

/// `<=x` is read as "below the next minor version of x": that admits exactly
/// the versions whose major and minor are at most those of `x`.
pub proof fn lemma_at_most_meaning(w: LuaVersion, v: LuaVersion)
    requires
        w.minor < u64::MAX,
    ensures
        lua_matches(
            LuaConstraintModel::LessThan(
                LuaVersion { major: w.major, minor: (w.minor + 1) as u64, patch: 0 },
            ),
            v,
        ) <==> (v.major < w.major || (v.major == w.major && v.minor <= w.minor)),
{
}

} // verus!
