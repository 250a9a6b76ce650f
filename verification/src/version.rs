//! Semantic versions of packages and the constraints placed on them.

use vstd::prelude::*;
use crate::error::{LpmError, LpmResult};
use crate::text::{
    is_digit, is_ws, lemma_decimal, lemma_decimal_lacks, lemma_parse_decimal, lemma_replace_absent,
    lemma_split_char_three, lemma_trim_unchanged, lacks,
    concat2, decimal, ends_with, parse_u64, parse_u64_str, replace_pat, replace_str, split_char,
    split_char_str, starts_with, starts_with_str, ends_with_str, strip_prefix_str, strip_suffix_str, trim, trim_str, u64_to_string,
    views,
};

verus! {

/// A package version `major.minor.patch`.
#[derive(Debug, Clone, Copy, PartialEq, Eq, Structural, PartialOrd, Ord, Hash)]
pub struct Version {
    pub major: u64,
    pub minor: u64,
    pub patch: u64,
}

/// Version constraint types.
#[derive(Debug, Clone, Copy, PartialEq, Eq, Structural)]
pub enum VersionConstraint {
    /// Exact version: "1.2.3"
    Exact(Version),
    /// Compatible version: "^1.2.3" (>=1.2.3 <2.0.0)
    Compatible(Version),
    /// Patch version: "~1.2.3" (>=1.2.3 <1.3.0)
    Patch(Version),
    /// Greater than or equal: ">=1.2.3"
    GreaterOrEqual(Version),
    /// Less than: "<2.0.0"
    LessThan(Version),
    /// Any patch version: "1.2.x"
    AnyPatch(Version),
}

/// Lexicographic order on triples of integers.
pub open spec fn triple_lt(a: (int, int, int), b: (int, int, int)) -> bool {
    a.0 < b.0 || (a.0 == b.0 && (a.1 < b.1 || (a.1 == b.1 && a.2 < b.2)))
}

pub open spec fn triple(v: Version) -> (int, int, int) {
    (v.major as int, v.minor as int, v.patch as int)
}

/// `a < b` in the order of versions (major, then minor, then patch).
pub open spec fn version_lt(a: Version, b: Version) -> bool {
    triple_lt(triple(a), triple(b))
}

/// `a <= b` in the order of versions.
pub open spec fn version_le(a: Version, b: Version) -> bool {
    version_lt(a, b) || a == b
}

/// When a version meets a constraint.
pub open spec fn satisfies(v: Version, c: VersionConstraint) -> bool {
    match c {
        VersionConstraint::Exact(w) => v == w,
        VersionConstraint::Compatible(w) => version_le(w, v) && v.major == w.major
            && triple_lt(triple(v), (w.major + 1, 0, 0)),
        VersionConstraint::Patch(w) => version_le(w, v) && v.major == w.major && v.minor == w.minor
            && triple_lt(triple(v), (w.major as int, w.minor + 1, 0)),
        VersionConstraint::GreaterOrEqual(w) => version_le(w, v),
        VersionConstraint::LessThan(w) => version_lt(v, w),
        VersionConstraint::AnyPatch(w) => v.major == w.major && v.minor == w.minor,
    }
}

/// The pieces of a version text: `-` counts as `.` (so `3.0-1` reads as `3.0.1`).
pub open spec fn version_parts(s: Seq<char>) -> Seq<Seq<char>> {
    split_char(replace_pat(s, "-"@, "."@), '.')
}

/// The version a text denotes, if it is well formed: at least two pieces and
/// a numeric first piece; a minor or patch piece that is not a number counts
/// as 0, and a missing patch as 0.
pub open spec fn parsed_version(s: Seq<char>) -> Option<Version> {
    let parts = version_parts(s);
    if parts.len() < 2 {
        None
    } else {
        match parse_u64(parts[0]) {
            None => None,
            Some(major) => Some(
                Version {
                    major,
                    minor: match parse_u64(parts[1]) {
                        Some(m) => m,
                        None => 0,
                    },
                    patch: if parts.len() > 2 {
                        match parse_u64(parts[2]) {
                            Some(p) => p,
                            None => 0,
                        }
                    } else {
                        0
                    },
                },
            ),
        }
    }
}

/// The message of the error for a text that is not a version.
pub open spec fn version_error(s: Seq<char>) -> Seq<char> {
    if version_parts(s).len() < 2 {
        "Invalid version format: "@ + s
    } else {
        "Invalid major version: "@ + s
    }
}

/// The result `Version::parse` gives for a text.
pub open spec fn version_parse_result(s: Seq<char>, r: LpmResult<Version>) -> bool {
    match r {
        Ok(v) => parsed_version(s) == Some(v),
        Err(e) => parsed_version(s) is None && (e matches LpmError::Version(m) && m@ == version_error(s)),
    }
}

/// The text a version displays: `major.minor.patch`.
pub open spec fn version_display(v: Version) -> Seq<char> {
    decimal(v.major as nat) + "."@ + decimal(v.minor as nat) + "."@ + decimal(v.patch as nat)
}

/// The part of a constraint text (already trimmed) that is read as a version.
pub open spec fn constraint_body(t: Seq<char>) -> Seq<char> {
    if starts_with(t, "^"@) {
        t.skip(1)
    } else if starts_with(t, "~"@) {
        t.skip(1)
    } else if starts_with(t, ">="@) {
        t.skip(2)
    } else if starts_with(t, "<"@) {
        t.skip(1)
    } else if ends_with(t, ".x"@) {
        t.take(t.len() - 2)
    } else {
        t
    }
}

/// The constraint a trimmed text denotes once its version is known.
pub open spec fn constraint_with(t: Seq<char>, v: Version) -> VersionConstraint {
    if starts_with(t, "^"@) {
        VersionConstraint::Compatible(v)
    } else if starts_with(t, "~"@) {
        VersionConstraint::Patch(v)
    } else if starts_with(t, ">="@) {
        VersionConstraint::GreaterOrEqual(v)
    } else if starts_with(t, "<"@) {
        VersionConstraint::LessThan(v)
    } else if ends_with(t, ".x"@) {
        VersionConstraint::AnyPatch(v)
    } else {
        VersionConstraint::Exact(v)
    }
}

/// The constraint a text denotes, if it is well formed.
pub open spec fn parsed_constraint(s: Seq<char>) -> Option<VersionConstraint> {
    let t = trim(s);
    match parsed_version(constraint_body(t)) {
        Some(v) => Some(constraint_with(t, v)),
        None => None,
    }
}

impl Version {
    pub fn new(major: u64, minor: u64, patch: u64) -> (v: Self)
        ensures
            v.major == major,
            v.minor == minor,
            v.patch == patch,
    {
        Self { major, minor, patch }
    }

    /// Parse a version string (e.g., "1.2.3" or "3.0-1" from LuaRocks).
    pub fn parse(s: &str) -> (r: LpmResult<Self>)
        ensures
            version_parse_result(s@, r),
    {
        proof {
            reveal_strlit("-");
        }
        let normalized = replace_str(s, "-", ".");
        let parts = split_char_str(normalized.as_str(), '.');
        assert(views(parts@) == version_parts(s@));
        if parts.len() < 2 {
            return Err(LpmError::Version(concat2("Invalid version format: ", s)));
        }
        proof {
            assert(parts@[0]@ == views(parts@)[0]);
            assert(parts@[1]@ == views(parts@)[1]);
            if parts@.len() > 2 {
                assert(parts@[2]@ == views(parts@)[2]);
            }
        }
        let major = match parse_u64_str(parts[0].as_str()) {
            Some(m) => m,
            None => {
                return Err(LpmError::Version(concat2("Invalid major version: ", s)));
            },
        };
        let minor = match parse_u64_str(parts[1].as_str()) {
            Some(m) => m,
            None => 0,
        };
        let patch = if parts.len() > 2 {
            match parse_u64_str(parts[2].as_str()) {
                Some(p) => p,
                None => 0,
            }
        } else {
            0
        };
        Ok(Self { major, minor, patch })
    }

    /// Check if this version satisfies a constraint.
    pub fn satisfies(&self, constraint: &VersionConstraint) -> (b: bool)
        ensures
            b == satisfies(*self, *constraint),
    {
        match constraint {
            VersionConstraint::Exact(v) => *self == *v,
            VersionConstraint::Compatible(v) => {
                // `self < (v.major + 1, 0, 0)` holds whenever the majors agree.
                self.at_least(v) && self.major == v.major
            },
            VersionConstraint::Patch(v) => {
                // `self < (v.major, v.minor + 1, 0)` holds whenever major and minor agree.
                self.at_least(v) && self.major == v.major && self.minor == v.minor
            },
            VersionConstraint::GreaterOrEqual(v) => self.at_least(v),
            VersionConstraint::LessThan(v) => self.less_than(v),
            VersionConstraint::AnyPatch(v) => self.major == v.major && self.minor == v.minor,
        }
    }

    /// `self < other` in the order of versions.
    pub fn less_than(&self, other: &Version) -> (b: bool)
        ensures
            b == version_lt(*self, *other),
    {
        self.major < other.major || (self.major == other.major && (self.minor < other.minor || (
        self.minor == other.minor && self.patch < other.patch)))
    }

    /// `self >= other` in the order of versions.
    pub fn at_least(&self, other: &Version) -> (b: bool)
        ensures
            b == version_le(*other, *self),
    {
        !self.less_than(other)
    }

    /// The text this version displays: `major.minor.patch`.
    pub fn to_string(&self) -> (r: String)
        ensures
            r@ == version_display(*self),
    {
        let mut r = u64_to_string(self.major);
        r.append(".");
        r.append(u64_to_string(self.minor).as_str());
        r.append(".");
        r.append(u64_to_string(self.patch).as_str());
        r
    }
}

/// Parse a version constraint string.
pub fn parse_constraint(s: &str) -> (r: LpmResult<VersionConstraint>)
    ensures
        match r {
            Ok(c) => parsed_constraint(s@) == Some(c),
            Err(e) => parsed_constraint(s@) is None && (e matches LpmError::Version(m) && m@
                == version_error(constraint_body(trim(s@)))),
        },
{
    proof {
        reveal_strlit("^");
        reveal_strlit("~");
        reveal_strlit(">=");
        reveal_strlit("<");
        reveal_strlit(".x");
    }
    let t = trim_str(s);
    let body = if let Some(rest) = strip_prefix_str(t.as_str(), "^") {
        rest
    } else if let Some(rest) = strip_prefix_str(t.as_str(), "~") {
        rest
    } else if let Some(rest) = strip_prefix_str(t.as_str(), ">=") {
        rest
    } else if let Some(rest) = strip_prefix_str(t.as_str(), "<") {
        rest
    } else if let Some(base) = strip_suffix_str(t.as_str(), ".x") {
        base
    } else {
        t.clone()
    };
    assert(body@ == constraint_body(t@));
    let version = match Version::parse(body.as_str()) {
        Ok(v) => v,
        Err(e) => {
            return Err(e);
        },
    };
    if starts_with_str(t.as_str(), "^") {
        Ok(VersionConstraint::Compatible(version))
    } else if starts_with_str(t.as_str(), "~") {
        Ok(VersionConstraint::Patch(version))
    } else if starts_with_str(t.as_str(), ">=") {
        Ok(VersionConstraint::GreaterOrEqual(version))
    } else if starts_with_str(t.as_str(), "<") {
        Ok(VersionConstraint::LessThan(version))
    } else if ends_with_str(t.as_str(), ".x") {
        Ok(VersionConstraint::AnyPatch(version))
    } else {
        Ok(VersionConstraint::Exact(version))
    }
}

/// The text of a constraint: its operator followed by its version
/// (`1.2.3`, `^1.2.3`, `~1.2.3`, `>=1.2.3`, `<1.2.3`, `1.2.3.x`).
pub open spec fn constraint_text(c: VersionConstraint) -> Seq<char> {
    match c {
        VersionConstraint::Exact(v) => version_display(v),
        VersionConstraint::Compatible(v) => "^"@ + version_display(v),
        VersionConstraint::Patch(v) => "~"@ + version_display(v),
        VersionConstraint::GreaterOrEqual(v) => ">="@ + version_display(v),
        VersionConstraint::LessThan(v) => "<"@ + version_display(v),
        VersionConstraint::AnyPatch(v) => version_display(v) + ".x"@,
    }
}

proof fn lemma_display_shape(v: Version)
    ensures
        version_display(v).len() > 0,
        is_digit(version_display(v)[0]),
        is_digit(version_display(v).last()),
{
    lemma_decimal(v.major as nat);
    lemma_decimal(v.patch as nat);
    reveal_strlit(".");
    let d = version_display(v);
    let tail = decimal(v.patch as nat);
    assert(d.last() == tail.last());
    assert(d[0] == decimal(v.major as nat)[0]);
}

/// Reading the displayed text of a version gives the version back.
pub proof fn lemma_display_parses(v: Version)
    ensures
        parsed_version(version_display(v)) == Some(v),
{
    reveal_strlit(".");
    reveal_strlit("-");
    let x = decimal(v.major as nat);
    let y = decimal(v.minor as nat);
    let z = decimal(v.patch as nat);
    lemma_decimal_lacks(v.major as nat, '.');
    lemma_decimal_lacks(v.minor as nat, '.');
    lemma_decimal_lacks(v.patch as nat, '.');
    lemma_decimal_lacks(v.major as nat, '-');
    lemma_decimal_lacks(v.minor as nat, '-');
    lemma_decimal_lacks(v.patch as nat, '-');
    let d = version_display(v);
    assert(d =~= x + seq!['.'] + y + seq!['.'] + z);
    assert(lacks(d, '-')) by {
        assert forall|i: int| 0 <= i < d.len() implies d[i] != '-' by {
            if i < x.len() {
                assert(d[i] == x[i]);
            } else if i == x.len() {
            } else if i < x.len() + 1 + y.len() {
                assert(d[i] == y[i - x.len() - 1]);
            } else if i == x.len() + 1 + y.len() {
            } else {
                assert(d[i] == z[i - x.len() - 2 - y.len()]);
            }
        }
    }
    lemma_replace_absent(d, "-"@, "."@);
    lemma_split_char_three(x, y, z, '.');
    lemma_parse_decimal(v.major);
    lemma_parse_decimal(v.minor);
    lemma_parse_decimal(v.patch);
}

/// Replacing a one-character pattern in a text that starts with a part
/// free of it leaves that part as it is.
#[verifier::spinoff_prover]
proof fn lemma_replace_after_plain(a: Seq<char>, b: Seq<char>, p: Seq<char>, r: Seq<char>)
    requires
        p.len() == 1,
        lacks(a, p[0]),
    ensures
        replace_pat(a + b, p, r) == a + replace_pat(b, p, r),
    decreases a.len(),
{
    if a.len() == 0 {
        assert(a + b =~= b);
        assert(a + replace_pat(b, p, r) =~= replace_pat(b, p, r));
    } else {
        let ab = a + b;
        assert(ab[0] == a[0]);
        assert(ab.take(1)[0] == a[0]);
        assert(!starts_with(ab, p));
        let t = a.drop_first();
        assert(lacks(t, p[0])) by {
            assert forall|i: int| 0 <= i < t.len() implies t[i] != p[0] by {
                assert(t[i] == a[i + 1]);
            }
        }
        assert(ab.drop_first() =~= t + b);
        lemma_replace_after_plain(t, b, p, r);
        assert(seq![a[0]] + (t + replace_pat(b, p, r)) =~= a + replace_pat(b, p, r));
    }
}

/// A text of digits holds neither `.` nor `-`.
proof fn lemma_decimal_plain(n: u64)
    ensures
        lacks(decimal(n as nat), '.'),
        lacks(decimal(n as nat), '-'),
{
    lemma_decimal_lacks(n as nat, '.');
    lemma_decimal_lacks(n as nat, '-');
}

/// Three pieces without `-`, joined by `.`, hold no `-`.
proof fn lemma_dotted_lacks_dash(dx: Seq<char>, dy: Seq<char>, dz: Seq<char>)
    requires
        lacks(dx, '-'),
        lacks(dy, '-'),
        lacks(dz, '-'),
    ensures
        lacks(dx + seq!['.'] + dy + seq!['.'] + dz, '-'),
{
    let head = dx + seq!['.'] + dy + seq!['.'] + dz;
    assert forall|i: int| 0 <= i < head.len() implies head[i] != '-' by {
        if i < dx.len() {
            assert(head[i] == dx[i]);
        } else if i == dx.len() {
        } else if i < dx.len() + 1 + dy.len() {
            assert(head[i] == dy[i - dx.len() - 1]);
        } else if i == dx.len() + 1 + dy.len() {
        } else {
            assert(head[i] == dz[i - dx.len() - 2 - dy.len()]);
        }
    }
}

/// Four pieces joined by `.`.
proof fn lemma_join_four(dx: Seq<char>, dy: Seq<char>, dz: Seq<char>, dr: Seq<char>)
    ensures
        crate::text::join(seq![dx, dy, dz, dr], seq!['.']) == dx + seq!['.'] + dy + seq!['.'] + dz + seq!['.'] + dr,
{
    let sep = seq!['.'];
    let ps = seq![dx, dy, dz, dr];
    assert(seq![dx, dy].drop_last() =~= seq![dx]);
    assert(seq![dx, dy, dz].drop_last() =~= seq![dx, dy]);
    assert(ps.drop_last() =~= seq![dx, dy, dz]);
    assert(crate::text::join(seq![dx], sep) == dx);
    assert(crate::text::join(seq![dx, dy], sep) == dx + sep + dy);
    assert(crate::text::join(seq![dx, dy, dz], sep) == dx + sep + dy + sep + dz);
    assert(crate::text::join(ps, sep) == crate::text::join(seq![dx, dy, dz], sep) + sep + dr);
}

/// A LuaRocks version `x.y.z-r` reads as `x.y.z`: the revision after the
/// `-` is a fourth piece, and the patch is the third piece, not the last.
#[verifier::spinoff_prover]
#[verifier::rlimit(60)]
pub proof fn lemma_luarocks_revision(x: u64, y: u64, z: u64, rev: u64)
    ensures
        parsed_version(decimal(x as nat) + "."@ + decimal(y as nat) + "."@ + decimal(z as nat) + "-"@ + decimal(
            rev as nat,
        )) == Some(Version { major: x, minor: y, patch: z }),
{
    reveal_strlit(".");
    reveal_strlit("-");
    let dx = decimal(x as nat);
    let dy = decimal(y as nat);
    let dz = decimal(z as nat);
    let dr = decimal(rev as nat);
    lemma_decimal_plain(x);
    lemma_decimal_plain(y);
    lemma_decimal_plain(z);
    lemma_decimal_plain(rev);
    let s = dx + "."@ + dy + "."@ + dz + "-"@ + dr;
    let head = dx + seq!['.'] + dy + seq!['.'] + dz;
    lemma_dotted_lacks_dash(dx, dy, dz);
    assert(s =~= head + (seq!['-'] + dr));
    lemma_replace_after_plain(head, seq!['-'] + dr, "-"@, "."@);
    let tail = seq!['-'] + dr;
    assert(starts_with(tail, "-"@)) by {
        assert(tail.take(1) =~= "-"@);
    }
    assert(tail.skip(1) =~= dr);
    lemma_replace_absent(dr, "-"@, "."@);
    assert(replace_pat(tail, "-"@, "."@) == "."@ + dr);
    let n = head + ("."@ + dr);
    assert(replace_pat(s, "-"@, "."@) == n);
    let ps = seq![dx, dy, dz, dr];
    assert("."@ =~= seq!['.']);
    lemma_join_four(dx, dy, dz, dr);
    assert(crate::text::join(ps, seq!['.']) =~= n);
    assert forall|k: int| 0 <= k < ps.len() implies lacks(#[trigger] ps[k], '.') by {
    }
    crate::path::lemma_split_join(ps, '.');
    assert(version_parts(s) == ps);
    lemma_parse_decimal(x);
    lemma_parse_decimal(y);
    lemma_parse_decimal(z);
}

/// Reading the text of a constraint gives the constraint back.
pub proof fn lemma_constraint_text_parses(c: VersionConstraint)
    ensures
        parsed_constraint(constraint_text(c)) == Some(c),
{
    reveal_strlit("^");
    reveal_strlit("~");
    reveal_strlit(">=");
    reveal_strlit("<");
    reveal_strlit(".x");
    let v = match c {
        VersionConstraint::Exact(v) => v,
        VersionConstraint::Compatible(v) => v,
        VersionConstraint::Patch(v) => v,
        VersionConstraint::GreaterOrEqual(v) => v,
        VersionConstraint::LessThan(v) => v,
        VersionConstraint::AnyPatch(v) => v,
    };
    let d = version_display(v);
    lemma_display_shape(v);
    lemma_display_parses(v);
    let t = constraint_text(c);
    assert(t.len() > 0);
    assert(!is_ws(t[0]));
    assert(!is_ws(t.last()));
    lemma_trim_unchanged(t);
    match c {
        VersionConstraint::Exact(_) => {
            assert(t.take(1)[0] == d[0]);
            assert(!starts_with(t, "^"@) && !starts_with(t, "~"@) && !starts_with(t, "<"@));
            assert(!starts_with(t, ">="@));
            assert(!ends_with(t, ".x"@)) by {
                if ends_with(t, ".x"@) {
                    assert(t.skip(t.len() - 2)[1] == t.last());
                }
            }
        },
        VersionConstraint::Compatible(_) => {
            assert(t.take(1) =~= "^"@);
            assert(t.skip(1) =~= d);
        },
        VersionConstraint::Patch(_) => {
            assert(t.take(1) =~= "~"@);
            assert(t.skip(1) =~= d);
            assert(!starts_with(t, "^"@));
        },
        VersionConstraint::GreaterOrEqual(_) => {
            assert(t.take(2) =~= ">="@);
            assert(t.skip(2) =~= d);
            assert(!starts_with(t, "^"@));
            assert(!starts_with(t, "~"@));
        },
        VersionConstraint::LessThan(_) => {
            assert(t.take(1) =~= "<"@);
            assert(t.skip(1) =~= d);
            assert(!starts_with(t, "^"@));
            assert(!starts_with(t, "~"@));
            assert(!starts_with(t, ">="@));
        },
        VersionConstraint::AnyPatch(_) => {
            assert(t.take(1)[0] == d[0]);
            assert(!starts_with(t, "^"@) && !starts_with(t, "~"@) && !starts_with(t, "<"@));
            assert(!starts_with(t, ">="@));
            assert(t.skip(t.len() - 2) =~= ".x"@);
            assert(t.take(t.len() - 2) =~= d);
        },
    }
}

/// The documented ranges: `^w` means `w <= v < (w.major + 1).0.0`, `~w` means
/// `w <= v < w.major.(w.minor + 1).0`, `w.x` means the same major and minor.
pub proof fn lemma_constraint_ranges(v: Version, w: Version)
    ensures
        satisfies(v, VersionConstraint::Compatible(w)) <==> (version_le(w, v) && triple_lt(
            triple(v),
            (w.major + 1, 0, 0),
        )),
        satisfies(v, VersionConstraint::Patch(w)) <==> (version_le(w, v) && triple_lt(
            triple(v),
            (w.major as int, w.minor + 1, 0),
        )),
        satisfies(v, VersionConstraint::AnyPatch(w)) <==> (v.major == w.major && v.minor == w.minor),
{
}

/// Constraints from strictest to loosest: an exact match is within `~`, `~`
/// is within `^`, `^` is within `>=`, and `~` is within `.x`.
pub proof fn lemma_constraint_strength(v: Version, w: Version)
    ensures
        satisfies(v, VersionConstraint::Exact(w)) <==> v == w,
        satisfies(v, VersionConstraint::Exact(w)) ==> satisfies(v, VersionConstraint::Patch(w)),
        satisfies(v, VersionConstraint::Patch(w)) ==> satisfies(v, VersionConstraint::Compatible(w)),
        satisfies(v, VersionConstraint::Compatible(w)) ==> satisfies(
            v,
            VersionConstraint::GreaterOrEqual(w),
        ),
        satisfies(v, VersionConstraint::Patch(w)) ==> satisfies(v, VersionConstraint::AnyPatch(w)),
{
}

/// Every version is either at least `w` or below it, never both.
pub proof fn lemma_at_least_or_below(v: Version, w: Version)
    ensures
        satisfies(v, VersionConstraint::GreaterOrEqual(w)) != satisfies(
            v,
            VersionConstraint::LessThan(w),
        ),
{
}

/// The order of versions is a total order.
pub proof fn lemma_version_order(a: Version, b: Version, c: Version)
    ensures
        version_le(a, a),
        version_le(a, b) && version_le(b, a) ==> a == b,
        version_le(a, b) && version_le(b, c) ==> version_le(a, c),
        version_le(a, b) || version_le(b, a),
{
}

} // verus!
