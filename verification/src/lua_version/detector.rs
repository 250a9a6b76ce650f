//! A Lua version as reported by `lua -v`.

use vstd::prelude::*;
use crate::error::{LpmError, LpmResult};
use crate::text::{
    is_digit, is_ws, lemma_decimal, lemma_decimal_lacks, lemma_parse_decimal, lemma_split_char_three,
    lemma_trim_unchanged, trim_end, trim_start, ws_prefix_len, ws_suffix_len, concat2, decimal, parse_u64, parse_u64_str, split_char, split_char_str, starts_with,
    strip_prefix_str, trim, trim_str, u64_to_string, views, lemma_split_char_len, leading_digits,
    leading_digits_str, lemma_digit_prefix_len,
};

verus! {

/// Represents a detected Lua version.
#[derive(Debug, Clone, Copy, PartialEq, Eq, Structural, PartialOrd, Ord)]
pub struct LuaVersion {
    pub major: u64,
    pub minor: u64,
    pub patch: u64,
}

/// The version part of a `lua -v` line: trimmed, without a leading `Lua`.
pub open spec fn lua_version_text(s: Seq<char>) -> Seq<char> {
    let t = trim(s);
    if starts_with(t, "Lua"@) {
        trim(t.skip(3))
    } else {
        t
    }
}

pub open spec fn lua_parts(s: Seq<char>) -> Seq<Seq<char>> {
    split_char(lua_version_text(s), '.')
}

/// Piece `i` read as a number, 0 when missing or not a number.
pub open spec fn part_or_zero(ps: Seq<Seq<char>>, i: int) -> u64 {
    if i < ps.len() {
        match parse_u64(ps[i]) {
            Some(n) => n,
            None => 0,
        }
    } else {
        0
    }
}

/// Piece 2, the patch level, read up to its first non-digit (`lua -v`
/// prints its copyright notice right after it), 0 when missing or not a
/// number.
pub open spec fn patch_or_zero(ps: Seq<Seq<char>>) -> u64 {
    if 2 < ps.len() {
        match parse_u64(leading_digits(ps[2])) {
            Some(n) => n,
            None => 0,
        }
    } else {
        0
    }
}

/// The supported Lua versions are 5.1, 5.3 and 5.4.
pub open spec fn lua_supported(major: u64, minor: u64) -> bool {
    major == 5 && (minor == 1 || minor == 3 || minor == 4)
}

/// The version a `lua -v` line denotes, if it names a supported version.
pub open spec fn parsed_lua_version(s: Seq<char>) -> Option<LuaVersion> {
    let ps = lua_parts(s);
    match parse_u64(ps[0]) {
        None => None,
        Some(major) => {
            let v = LuaVersion { major, minor: part_or_zero(ps, 1), patch: patch_or_zero(ps) };
            if lua_supported(v.major, v.minor) {
                Some(v)
            } else {
                None
            }
        },
    }
}

/// `major.minor.patch`.
pub open spec fn lua_display(v: LuaVersion) -> Seq<char> {
    decimal(v.major as nat) + "."@ + decimal(v.minor as nat) + "."@ + decimal(v.patch as nat)
}

/// The message of the error for a line that names no supported version.
pub open spec fn lua_version_error(s: Seq<char>) -> Seq<char> {
    let ps = lua_parts(s);
    match parse_u64(ps[0]) {
        None => "Invalid major version: '"@ + ps[0] + "'"@,
        Some(major) => "Unsupported Lua version: "@ + lua_display(
            LuaVersion { major, minor: part_or_zero(ps, 1), patch: patch_or_zero(ps) },
        ) + ". LPM supports Lua 5.1, 5.3, and 5.4"@,
    }
}

/// The result `LuaVersion::parse` gives for a line.
pub open spec fn lua_parse_result(s: Seq<char>, r: LpmResult<LuaVersion>) -> bool {
    match r {
        Ok(v) => parsed_lua_version(s) == Some(v),
        Err(e) => parsed_lua_version(s) is None && (e matches LpmError::Version(m) && m@
            == lua_version_error(s)),
    }
}

/// The mlua feature for a version (Lua 5.4's for any other version).
pub open spec fn mlua_feature_of(v: LuaVersion) -> Seq<char> {
    if v.major == 5 && v.minor == 1 {
        "lua51"@
    } else if v.major == 5 && v.minor == 3 {
        "lua53"@
    } else {
        "lua54"@
    }
}

fn piece_or_zero(parts: &Vec<String>, i: usize) -> (n: u64)
    ensures
        n == part_or_zero(views(parts@), i as int),
{
    if i < parts.len() {
        assert(parts@[i as int]@ == views(parts@)[i as int]);
        match parse_u64_str(parts[i].as_str()) {
            Some(n) => n,
            None => 0,
        }
    } else {
        0
    }
}

fn patch_piece(parts: &Vec<String>) -> (n: u64)
    ensures
        n == patch_or_zero(views(parts@)),
{
    if 2 < parts.len() {
        assert(parts@[2]@ == views(parts@)[2]);
        let digits = leading_digits_str(parts[2].as_str());
        match parse_u64_str(digits.as_str()) {
            Some(n) => n,
            None => 0,
        }
    } else {
        0
    }
}

impl LuaVersion {
    /// Create a new Lua version.
    pub fn new(major: u64, minor: u64, patch: u64) -> (v: Self)
        ensures
            v == (LuaVersion { major, minor, patch }),
    {
        Self { major, minor, patch }
    }

    /// Parse a version string from `lua -v` output ("Lua 5.4.6", "5.3.6",
    /// "Lua 5.4.6  Copyright (C) 1994-2023 Lua.org, PUC-Rio", ...).
    pub fn parse(version_str: &str) -> (r: LpmResult<Self>)
        ensures
            lua_parse_result(version_str@, r),
    {
        proof {
            reveal_strlit("Lua");
        }
        let t = trim_str(version_str);
        let text = match strip_prefix_str(t.as_str(), "Lua") {
            Some(rest) => trim_str(rest.as_str()),
            None => t,
        };
        assert(text@ == lua_version_text(version_str@));
        let parts = split_char_str(text.as_str(), '.');
        proof {
            lemma_split_char_len(text@, '.');
        }
        if parts.len() == 0 {
            return Err(LpmError::Version(concat2("Invalid Lua version format: '", text.as_str())));
        }
        assert(parts@[0]@ == views(parts@)[0]);
        let major = match parse_u64_str(parts[0].as_str()) {
            Some(m) => m,
            None => {
                let mut msg = concat2("Invalid major version: '", parts[0].as_str());
                msg.append("'");
                return Err(LpmError::Version(msg));
            },
        };
        let minor = piece_or_zero(&parts, 1);
        let patch = patch_piece(&parts);
        if major != 5 || (minor != 1 && minor != 3 && minor != 4) {
            let v = LuaVersion { major, minor, patch };
            let mut msg = concat2("Unsupported Lua version: ", v.to_string().as_str());
            msg.append(". LPM supports Lua 5.1, 5.3, and 5.4");
            return Err(LpmError::Version(msg));
        }
        Ok(Self { major, minor, patch })
    }

    /// `major.minor.patch`.
    pub fn to_string(&self) -> (r: String)
        ensures
            r@ == lua_display(*self),
    {
        let mut r = u64_to_string(self.major);
        r.append(".");
        r.append(u64_to_string(self.minor).as_str());
        r.append(".");
        r.append(u64_to_string(self.patch).as_str());
        r
    }

    /// Get version as string (e.g., "5.4.6").
    pub fn version_string(&self) -> (r: String)
        ensures
            r@ == lua_display(*self),
    {
        self.to_string()
    }

    /// Get major.minor version (e.g., "5.4").
    pub fn major_minor(&self) -> (r: String)
        ensures
            r@ == decimal(self.major as nat) + "."@ + decimal(self.minor as nat),
    {
        let mut r = u64_to_string(self.major);
        r.append(".");
        r.append(u64_to_string(self.minor).as_str());
        r
    }

    /// Check if this is Lua 5.1.
    pub fn is_5_1(&self) -> (b: bool)
        ensures
            b == (self.major == 5 && self.minor == 1),
    {
        self.major == 5 && self.minor == 1
    }

    /// Check if this is Lua 5.3.
    pub fn is_5_3(&self) -> (b: bool)
        ensures
            b == (self.major == 5 && self.minor == 3),
    {
        self.major == 5 && self.minor == 3
    }

    /// Check if this is Lua 5.4.
    pub fn is_5_4(&self) -> (b: bool)
        ensures
            b == (self.major == 5 && self.minor == 4),
    {
        self.major == 5 && self.minor == 4
    }

    /// Get mlua feature flag for this version.
    pub fn mlua_feature(&self) -> (r: &'static str)
        ensures
            r@ == mlua_feature_of(*self),
    {
        if self.is_5_1() {
            "lua51"
        } else if self.is_5_3() {
            "lua53"
        } else if self.is_5_4() {
            "lua54"
        } else {
            // Default to Lua 5.4 for unknown versions
            "lua54"
        }
    }
}

/// Reads the installed Lua version from the first line `lua -v` prints.
pub struct LuaVersionDetector;

impl LuaVersionDetector {
    /// The version named by the first line of `lua -v` output.
    pub fn from_output(stdout: &str) -> (r: LpmResult<LuaVersion>)
        ensures
            lua_parse_result(trim(first_line(stdout@)), r),
    {
        let lines = crate::text::lines_of(stdout);
        let first = if lines.len() > 0 {
            assert(lines@[0]@ == views(lines@)[0]);
            trim_str(lines[0].as_str())
        } else {
            String::new()
        };
        assert(first@ == trim(first_line(stdout@)));
        LuaVersion::parse(first.as_str())
    }
}

/// The first line of a text, empty if it has none.
pub open spec fn first_line(s: Seq<char>) -> Seq<char> {
    let ls = crate::text::lines(s);
    if ls.len() > 0 {
        ls[0]
    } else {
        Seq::<char>::empty()
    }
}

proof fn lemma_lua_display_shape(v: LuaVersion)
    ensures
        lua_display(v).len() > 0,
        is_digit(lua_display(v)[0]),
        is_digit(lua_display(v).last()),
        lua_display(v) =~= decimal(v.major as nat) + seq!['.'] + decimal(v.minor as nat) + seq!['.']
            + decimal(v.patch as nat),
{
    lemma_decimal(v.major as nat);
    lemma_decimal(v.patch as nat);
    reveal_strlit(".");
    let d = lua_display(v);
    assert(d.last() == decimal(v.patch as nat).last());
    assert(d[0] == decimal(v.major as nat)[0]);
}

proof fn lemma_lua_parts_of_display(v: LuaVersion)
    ensures
        split_char(lua_display(v), '.') == seq![
            decimal(v.major as nat),
            decimal(v.minor as nat),
            decimal(v.patch as nat),
        ],
{
    lemma_lua_display_shape(v);
    lemma_decimal_lacks(v.major as nat, '.');
    lemma_decimal_lacks(v.minor as nat, '.');
    lemma_decimal_lacks(v.patch as nat, '.');
    lemma_split_char_three(decimal(v.major as nat), decimal(v.minor as nat), decimal(v.patch as nat), '.');
}

/// Reading the displayed text of a supported Lua version, with or without
/// the `Lua ` that `lua -v` prints before it, gives the version back.
pub proof fn lemma_lua_display_parses(v: LuaVersion)
    requires
        lua_supported(v.major, v.minor),
    ensures
        parsed_lua_version(lua_display(v)) == Some(v),
        parsed_lua_version("Lua "@ + lua_display(v)) == Some(v),
{
    reveal_strlit("Lua");
    reveal_strlit("Lua ");
    let d = lua_display(v);
    lemma_lua_display_shape(v);
    lemma_lua_parts_of_display(v);
    lemma_parse_decimal(v.major);
    lemma_parse_decimal(v.minor);
    lemma_parse_decimal(v.patch);
    lemma_decimal(v.patch as nat);
    lemma_digit_prefix_len(decimal(v.patch as nat));
    assert(leading_digits(decimal(v.patch as nat)) =~= decimal(v.patch as nat));
    // Without the prefix.
    lemma_trim_unchanged(d);
    assert(!starts_with(d, "Lua"@)) by {
        assert(d.take(3)[0] == d[0]);
    }
    assert(lua_version_text(d) == d);
    // With the prefix.
    let p = "Lua "@ + d;
    assert(p[0] == 'L');
    assert(p.last() == d.last());
    lemma_trim_unchanged(p);
    assert(p.take(3) =~= "Lua"@);
    let q = p.skip(3);
    assert(q =~= seq![' '] + d);
    assert(is_ws(q[0]));
    assert(q.drop_first() =~= d);
    assert(ws_prefix_len(d) == 0);
    assert(ws_prefix_len(q) == 1);
    assert(trim_start(q) =~= d);
    assert(ws_suffix_len(d) == 0);
    assert(trim_end(d) =~= d);
    assert(lua_version_text(p) == d);
}

/// Every version that is read is a supported one (5.1, 5.3 or 5.4), and its
/// mlua feature names it.
pub proof fn lemma_parsed_lua_supported(s: Seq<char>)
    ensures
        parsed_lua_version(s) matches Some(v) ==> lua_supported(v.major, v.minor) && mlua_feature_of(v)
            == (if v.minor == 1 {
            "lua51"@
        } else if v.minor == 3 {
            "lua53"@
        } else {
            "lua54"@
        }),
{
}

} // verus!
