//! Whether a dependency is outdated, from the versions a registry offers,
//! the dependency's constraint and the version that is installed.

use vstd::prelude::*;
use crate::error::{LpmError, LpmResult};
use crate::version::{parse_constraint, parsed_constraint, satisfies, version_le, version_lt, Version, VersionConstraint};

verus! {

/// How a dependency stands against the newest version on offer.
#[derive(Debug, Clone, Copy, PartialEq, Eq)]
pub enum OutdatedStatus {
    /// Nothing newer that the constraint admits.
    UpToDate,
    /// The newest version is admitted and newer than what is installed (or
    /// nothing is installed).
    Outdated { current: Option<Version>, latest: Version },
    /// The registry offers no version of the package.
    NotFound,
}

/// `v` is the newest of the versions.
pub open spec fn is_newest(vs: Seq<Version>, v: Version) -> bool {
    &&& vs.contains(v)
    &&& forall|i: int| 0 <= i < vs.len() ==> version_le(#[trigger] vs[i], v)
}

/// The status for the newest version on offer, a constraint and the
/// installed version: up to date when the newest is not admitted or not
/// newer than what is installed; outdated otherwise.
pub open spec fn status_for(latest: Version, c: VersionConstraint, current: Option<Version>) -> OutdatedStatus {
    if !satisfies(latest, c) {
        OutdatedStatus::UpToDate
    } else {
        match current {
            Some(v) => if version_lt(v, latest) {
                OutdatedStatus::Outdated { current: Some(v), latest }
            } else {
                OutdatedStatus::UpToDate
            },
            None => OutdatedStatus::Outdated { current: None, latest },
        }
    }
}

/// The newest of the versions, if there are any.
pub fn newest_version(versions: &Vec<Version>) -> (r: Option<Version>)
    ensures
        match r {
            Some(v) => is_newest(versions@, v),
            None => versions@.len() == 0,
        },
{
    if versions.len() == 0 {
        return None;
    }
    let mut best = versions[0];
    let mut i: usize = 1;
    while i < versions.len()
        invariant
            1 <= i <= versions@.len(),
            versions@.contains(best),
            forall|j: int| 0 <= j < i ==> version_le(#[trigger] versions@[j], best),
        decreases versions@.len() - i,
    {
        let v = versions[i];
        if best.less_than(&v) {
            assert forall|j: int| 0 <= j < i + 1 implies version_le(#[trigger] versions@[j], v) by {
                if j < i {
                    assert(version_le(versions@[j], best));
                }
            }
            best = v;
        }
        i += 1;
    }
    Some(best)
}

/// Whether a dependency is outdated, given the versions the registry offers
/// (already read as versions), its constraint text and the installed
/// version. No versions on offer means the package was not found; a
/// constraint that does not parse is an error.
pub fn outdated_status(available: &Vec<Version>, constraint: &str, current: Option<Version>) -> (r: LpmResult<
    OutdatedStatus,
>)
    ensures
        available@.len() == 0 ==> r == Ok::<OutdatedStatus, LpmError>(OutdatedStatus::NotFound),
        available@.len() > 0 ==> match parsed_constraint(constraint@) {
            None => r is Err,
            Some(c) => exists|latest: Version|
                is_newest(available@, latest) && r == Ok::<OutdatedStatus, LpmError>(status_for(latest, c, current)),
        },
        forall|latest: Version, c: VersionConstraint, v: Version|
            #![trigger is_newest(available@, latest), satisfies(latest, c), lower_version(v, latest)]
            is_newest(available@, latest) && parsed_constraint(constraint@) == Some(c) && satisfies(latest, c)
                && current == Some(v) && lower_version(v, latest) ==> r == Ok::<OutdatedStatus, LpmError>(
                OutdatedStatus::Outdated { current: Some(v), latest },
            ),
{
    let latest = match newest_version(available) {
        Some(v) => v,
        None => {
            return Ok(OutdatedStatus::NotFound);
        },
    };
    let c = match parse_constraint(constraint) {
        Ok(c) => c,
        Err(e) => {
            return Err(e);
        },
    };
    if !latest.satisfies(&c) {
        return Ok(OutdatedStatus::UpToDate);
    }
    let r = match current {
        Some(v) => if v.less_than(&latest) {
            Ok(OutdatedStatus::Outdated { current: Some(v), latest })
        } else {
            Ok(OutdatedStatus::UpToDate)
        },
        None => Ok(OutdatedStatus::Outdated { current: None, latest }),
    };
    proof {
        assert forall|l: Version, c2: VersionConstraint, v: Version|
            #![trigger is_newest(available@, l), satisfies(l, c2), lower_version(v, l)]
            is_newest(available@, l) && parsed_constraint(constraint@) == Some(c2) && satisfies(l, c2)
                && current == Some(v) && lower_version(v, l) implies r == Ok::<OutdatedStatus, LpmError>(
            OutdatedStatus::Outdated { current: Some(v), latest: l },
        ) by {
            lemma_newest_unique(available@, l, latest);
            lemma_lower_installed_is_outdated(l, c2, v);
        }
    }
    r
}

/// `v` is lower than `w`: in major, then minor, then patch.
pub open spec fn lower_version(v: Version, w: Version) -> bool {
    ||| v.major < w.major
    ||| v.major == w.major && v.minor < w.minor
    ||| v.major == w.major && v.minor == w.minor && v.patch < w.patch
}

/// When the newest version on offer meets the constraint and the installed
/// version is lower than it, the dependency is outdated: the status names
/// the installed version and the newest one.
pub proof fn lemma_lower_installed_is_outdated(latest: Version, c: VersionConstraint, v: Version)
    requires
        satisfies(latest, c),
        lower_version(v, latest),
    ensures
        status_for(latest, c, Some(v)) == (OutdatedStatus::Outdated { current: Some(v), latest }),
{
}

/// When the installed version is the newest on offer or newer, the
/// dependency is up to date, whatever the constraint.
pub proof fn lemma_not_lower_is_up_to_date(latest: Version, c: VersionConstraint, v: Version)
    requires
        !lower_version(v, latest),
    ensures
        status_for(latest, c, Some(v)) == OutdatedStatus::UpToDate,
{
}

/// When the newest version on offer does not meet the constraint, the
/// dependency is up to date, whatever is installed.
pub proof fn lemma_newest_outside_constraint(latest: Version, c: VersionConstraint, current: Option<Version>)
    requires
        !satisfies(latest, c),
    ensures
        status_for(latest, c, current) == OutdatedStatus::UpToDate,
{
}

/// With nothing installed, a newest version that meets the constraint makes
/// the dependency outdated.
pub proof fn lemma_not_installed_is_outdated(latest: Version, c: VersionConstraint)
    requires
        satisfies(latest, c),
    ensures
        status_for(latest, c, None) == (OutdatedStatus::Outdated { current: None, latest }),
{
}

/// Two newest versions of the same list are the same version.
pub proof fn lemma_newest_unique(vs: Seq<Version>, a: Version, b: Version)
    requires
        is_newest(vs, a),
        is_newest(vs, b),
    ensures
        a == b,
{
    let i = choose|i: int| 0 <= i < vs.len() && vs[i] == a;
    let j = choose|j: int| 0 <= j < vs.len() && vs[j] == b;
    assert(version_le(vs[i], b));
    assert(version_le(vs[j], a));
}

} // verus!
