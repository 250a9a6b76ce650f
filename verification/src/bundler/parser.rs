//! Finding the modules a Lua file requires.

use vstd::prelude::*;
use crate::error::{LpmError, LpmResult};
use crate::text::{chars_of, concat2, is_ws, is_ws_char, occurs_at, occurs_at_exec, string_of, trim, trim_str, views};

verus! {

/// Why a regular expression does not compile, or `None` when it does
/// (`regex::Regex::new`).
pub uninterp spec fn regex_compile_error(pattern: Seq<char>) -> Option<Seq<char>>;

/// The text of capture group 1 of each successive match of a regular
/// expression in a text, or `None` where the group took no part
/// (`regex::Regex::captures_iter`).
pub uninterp spec fn regex_group1(pattern: Seq<char>, text: Seq<char>) -> Seq<Option<Seq<char>>>;

/// Compiles a regular expression and collects capture group 1 of each of
/// its matches in `text`, in order.
/// Trusted: the outcome is the function `regex_compile_error` of the
/// pattern and, when it compiles, the function `regex_group1` of the
/// pattern and the text; the error is `regex::Error`'s message.
#[verifier::external_body]
fn regex_captures(pattern: &str, text: &str) -> (r: Result<Vec<Option<String>>, String>)
    ensures
        match r {
            Ok(caps) => regex_compile_error(pattern@) is None
                && caps@.map_values(|c: Option<String>| match c {
                    Some(s) => Some(s@),
                    None => None,
                }) == regex_group1(pattern@, text@),
            Err(m) => regex_compile_error(pattern@) == Some(m@),
        },
{
    match regex::Regex::new(pattern) {
        Ok(re) => Ok(re.captures_iter(text).map(|c| c.get(1).map(|m| m.as_str().to_string())).collect()),
        Err(e) => Err(e.to_string()),
    }
}

/// `require("m")` and `require('m')`, with or without spaces.
pub open spec fn quoted_require() -> Seq<char> {
    "require\\s*\\(\\s*['\"]([^'\"]+)['\"]\\s*\\)"@
}

/// `require([[m]])`.
pub open spec fn long_string_require() -> Seq<char> {
    "require\\s*\\(\\s*\\[\\[([^\\]]+)\\]\\]\\s*\\)"@
}

/// `require 'm'` and `require "m"`, without parentheses.
pub open spec fn bare_require() -> Seq<char> {
    "\\brequire\\s+['\"]([^'\"]+)['\"]"@
}

/// A regular-expression class of the two quote characters, `['"]`.
pub open spec fn either_quote() -> Seq<char> {
    seq!['[', '\'', '"', ']']
}

/// The quoted-name patterns admit either quote: `require("m")` and
/// `require('m')` are both the first pattern, `require "m"` and
/// `require 'm'` both the third. Each opens the name with a class of both
/// quote characters and closes it with the same class, around a captured
/// run of characters that are neither quote.
pub proof fn lemma_require_patterns_take_either_quote()
    ensures
        quoted_require() == "require\\s*\\(\\s*"@ + either_quote() + "([^'\"]+)"@ + either_quote() + "\\s*\\)"@,
        bare_require() == "\\brequire\\s+"@ + either_quote() + "([^'\"]+)"@ + either_quote(),
        either_quote().contains('\'') && either_quote().contains('"'),
{
    reveal_strlit("require\\s*\\(\\s*['\"]([^'\"]+)['\"]\\s*\\)");
    reveal_strlit("require\\s*\\(\\s*");
    reveal_strlit("([^'\"]+)");
    reveal_strlit("\\s*\\)");
    reveal_strlit("\\brequire\\s+['\"]([^'\"]+)['\"]");
    reveal_strlit("\\brequire\\s+");
    assert(quoted_require() =~= "require\\s*\\(\\s*"@ + either_quote() + "([^'\"]+)"@ + either_quote()
        + "\\s*\\)"@);
    assert(bare_require() =~= "\\brequire\\s+"@ + either_quote() + "([^'\"]+)"@ + either_quote());
    assert(either_quote()[1] == '\'');
    assert(either_quote()[2] == '"');
}

/// The captured texts, in order, of the matches where the group took part.
pub open spec fn present(caps: Seq<Option<Seq<char>>>) -> Seq<Seq<char>>
    decreases caps.len(),
{
    if caps.len() == 0 {
        Seq::<Seq<char>>::empty()
    } else {
        match caps.last() {
            Some(c) => present(caps.drop_last()).push(c),
            None => present(caps.drop_last()),
        }
    }
}

/// The modules named by the three forms of `require`, each form's matches
/// in order, the forms in the order above.
pub open spec fn required_by_patterns(content: Seq<char>) -> Seq<Seq<char>> {
    present(regex_group1(quoted_require(), content)) + present(regex_group1(long_string_require(), content))
        + present(regex_group1(bare_require(), content))
}

/// The first of the patterns that does not compile, with its message.
pub open spec fn first_bad_pattern() -> Option<Seq<char>> {
    if regex_compile_error(quoted_require()) is Some {
        regex_compile_error(quoted_require())
    } else if regex_compile_error(long_string_require()) is Some {
        regex_compile_error(long_string_require())
    } else {
        regex_compile_error(bare_require())
    }
}

/// Extracts the `require` targets of Lua code.
#[derive(Debug)]
pub struct LuaParser;

/// Appends the captured texts of the matches where the group took part.
fn push_present(out: &mut Vec<String>, caps: Vec<Option<String>>)
    ensures
        views(final(out)@) == views(old(out)@) + present(caps@.map_values(|c: Option<String>| match c {
            Some(s) => Some(s@),
            None => None,
        })),
{
    let ghost cv = caps@.map_values(|c: Option<String>| match c {
        Some(s) => Some(s@),
        None => None::<Seq<char>>,
    });
    let ghost start = views(out@);
    let mut i: usize = 0;
    while i < caps.len()
        invariant
            i <= caps@.len(),
            cv == caps@.map_values(|c: Option<String>| match c {
                Some(s) => Some(s@),
                None => None::<Seq<char>>,
            }),
            views(out@) == start + present(cv.take(i as int)),
        decreases caps@.len() - i,
    {
        assert(cv.take(i + 1).drop_last() =~= cv.take(i as int));
        match &caps[i] {
            Some(s) => {
                let ghost before = views(out@);
                out.push(s.clone());
                assert(views(out@) =~= before.push(s@));
            },
            None => {},
        }
        i += 1;
    }
    assert(cv.take(caps@.len() as int) =~= cv);
}

impl LuaParser {
    pub fn new() -> (p: Self) {
        LuaParser
    }

    /// The modules that Lua code requires, found by the three `require`
    /// patterns. (The syntax tree is not walked for requires, so it would
    /// yield none and fall back to the patterns; the code is not parsed.)
    pub fn extract_requires(&self, content: &str) -> (r: LpmResult<Vec<String>>)
        ensures
            match r {
                Ok(v) => first_bad_pattern() is None && views(v@) == required_by_patterns(content@),
                Err(e) => exists|m: Seq<char>| first_bad_pattern() == Some(m)
                    && (e matches LpmError::Package(msg) && msg@ == "Invalid regex: "@ + m),
            },
    {
        self.extract_requires_regex(content)
    }

    /// The modules named by the three `require` patterns, in order.
    pub fn extract_requires_regex(&self, content: &str) -> (r: LpmResult<Vec<String>>)
        ensures
            match r {
                Ok(v) => first_bad_pattern() is None && views(v@) == required_by_patterns(content@),
                Err(e) => exists|m: Seq<char>| first_bad_pattern() == Some(m)
                    && (e matches LpmError::Package(msg) && msg@ == "Invalid regex: "@ + m),
            },
    {
        let mut found: Vec<String> = Vec::new();
        assert(views(found@) =~= Seq::<Seq<char>>::empty());
        let p1 = "require\\s*\\(\\s*['\"]([^'\"]+)['\"]\\s*\\)";
        match regex_captures(p1, content) {
            Ok(caps) => push_present(&mut found, caps),
            Err(m) => {
                return Err(LpmError::Package(concat2("Invalid regex: ", m.as_str())));
            },
        }
        let p2 = "require\\s*\\(\\s*\\[\\[([^\\]]+)\\]\\]\\s*\\)";
        match regex_captures(p2, content) {
            Ok(caps) => push_present(&mut found, caps),
            Err(m) => {
                return Err(LpmError::Package(concat2("Invalid regex: ", m.as_str())));
            },
        }
        let p3 = "\\brequire\\s+['\"]([^'\"]+)['\"]";
        match regex_captures(p3, content) {
            Ok(caps) => push_present(&mut found, caps),
            Err(m) => {
                return Err(LpmError::Package(concat2("Invalid regex: ", m.as_str())));
            },
        }
        Ok(found)
    }
}

// ---------------------------------------------------------------------------
// Dynamic requires
// ---------------------------------------------------------------------------

/// The first position at or after `j` that does not hold white space (the
/// end of the text when there is none).
pub open spec fn skip_ws(s: Seq<char>, j: int) -> int
    decreases s.len() - j,
{
    if 0 <= j < s.len() && is_ws(s[j]) {
        skip_ws(s, j + 1)
    } else {
        j
    }
}

/// Where the argument of a call that starts at `j` ends: at the `)` that
/// closes the call, nested parentheses counted (`depth` of them are open),
/// or at the end of the text.
pub open spec fn arg_end(s: Seq<char>, j: int, depth: nat) -> int
    decreases s.len() - j,
{
    if !(0 <= j < s.len()) {
        j
    } else if s[j] == ')' && depth == 0 {
        j
    } else if s[j] == '(' {
        arg_end(s, j + 1, depth + 1)
    } else if s[j] == ')' {
        arg_end(s, j + 1, (depth - 1) as nat)
    } else {
        arg_end(s, j + 1, depth)
    }
}

/// A `require(` call at position `i` whose argument is computed at run
/// time: it does not start with a string literal (`'`, `"` or `[[`), and
/// is not empty.
pub open spec fn dynamic_require_at(s: Seq<char>, i: int) -> bool {
    &&& occurs_at(s, "require("@, i)
    &&& skip_ws(s, i + 8) < s.len()
    &&& s[skip_ws(s, i + 8)] != '\''
    &&& s[skip_ws(s, i + 8)] != '"'
    &&& s[skip_ws(s, i + 8)] != '['
    &&& s[skip_ws(s, i + 8)] != ')'
}

/// The argument of the `require(` call at `i`, trimmed.
pub open spec fn dynamic_arg(s: Seq<char>, i: int) -> Seq<char> {
    trim(s.subrange(i + 8, arg_end(s, i + 8, 0)))
}

/// The arguments of the dynamic requires at positions `i` and after, in
/// order.
pub open spec fn dynamic_from(s: Seq<char>, i: int) -> Seq<Seq<char>>
    decreases s.len() - i,
{
    if !(0 <= i < s.len()) {
        Seq::<Seq<char>>::empty()
    } else {
        (if dynamic_require_at(s, i) {
            seq![dynamic_arg(s, i)]
        } else {
            Seq::<Seq<char>>::empty()
        }) + dynamic_from(s, i + 1)
    }
}

/// The arguments of the dynamic requires of Lua code, in order.
pub open spec fn dynamic_requires_of(s: Seq<char>) -> Seq<Seq<char>> {
    dynamic_from(s, 0)
}

/// The first position at or after `j` that does not hold white space.
fn skip_ws_exec(v: &Vec<char>, j: usize) -> (k: usize)
    requires
        j <= v@.len(),
    ensures
        k as int == skip_ws(v@, j as int),
        j <= k <= v@.len(),
{
    let mut k = j;
    while k < v.len() && is_ws_char(v[k])
        invariant
            j <= k <= v@.len(),
            skip_ws(v@, k as int) == skip_ws(v@, j as int),
        decreases v@.len() - k,
    {
        k += 1;
    }
    k
}

/// Where the argument of a call that starts at `j` ends.
fn arg_end_exec(v: &Vec<char>, j: usize) -> (e: usize)
    requires
        j <= v@.len(),
    ensures
        e as int == arg_end(v@, j as int, 0),
        j <= e <= v@.len(),
{
    let mut k = j;
    let mut depth: usize = 0;
    while k < v.len() && !(v[k] == ')' && depth == 0)
        invariant
            j <= k <= v@.len(),
            depth <= k,
            arg_end(v@, k as int, depth as nat) == arg_end(v@, j as int, 0),
        decreases v@.len() - k,
    {
        if v[k] == '(' {
            depth = depth + 1;
        } else if v[k] == ')' {
            depth = depth - 1;
        }
        k += 1;
    }
    k
}

impl LuaParser {
    /// The requires of Lua code whose argument is computed at run time
    /// (`require(name)`, `require(prefix .. "x")`): each `require(` call
    /// whose argument does not start with a string literal, as the text of
    /// that argument, trimmed, in order.
    pub fn dynamic_requires(&self, content: &str) -> (r: Vec<String>)
        ensures
            views(r@) == dynamic_requires_of(content@),
    {
        proof {
            reveal_strlit("require(");
        }
        let v = chars_of(content);
        let pat = chars_of("require(");
        let mut r: Vec<String> = Vec::new();
        let mut i: usize = 0;
        while i < v.len()
            invariant
                v@ == content@,
                pat@ == "require("@,
                pat@.len() == 8,
                i <= v@.len(),
                views(r@) + dynamic_from(v@, i as int) == dynamic_from(v@, 0),
            decreases v@.len() - i,
        {
            let ghost before = views(r@);
            if occurs_at_exec(&v, &pat, i) {
                let k = skip_ws_exec(&v, i + 8);
                if k < v.len() && v[k] != '\'' && v[k] != '"' && v[k] != '[' && v[k] != ')' {
                    let e = arg_end_exec(&v, i + 8);
                    let raw = string_of(&v, i + 8, e);
                    let arg = trim_str(raw.as_str());
                    r.push(arg);
                    assert(views(r@) =~= before.push(dynamic_arg(v@, i as int)));
                    assert(dynamic_from(v@, i as int) == seq![dynamic_arg(v@, i as int)] + dynamic_from(
                        v@,
                        i + 1,
                    ));
                    assert(before + dynamic_from(v@, i as int) =~= views(r@) + dynamic_from(v@, i + 1));
                } else {
                    assert(dynamic_from(v@, i as int) =~= dynamic_from(v@, i + 1));
                }
            } else {
                assert(dynamic_from(v@, i as int) =~= dynamic_from(v@, i + 1));
            }
            i += 1;
        }
        assert(dynamic_from(v@, i as int) =~= Seq::<Seq<char>>::empty());
        assert(views(r@) =~= views(r@) + Seq::<Seq<char>>::empty());
        r
    }
}

} // verus!
