//! Line-based minification and comment stripping of Lua source.

use vstd::prelude::*;
use crate::error::LpmResult;
use crate::text::{contains, contains_str, join, lines, lines_of, push_char, starts_with, starts_with_str, trim, trim_str, views};

verus! {

/// What a line does to the state of a line scan: whether the line is kept,
/// and whether a multi-line comment is open after it. A line holding `--[[`
/// opens one, and a line inside one is dropped; of those, a line holding
/// `]]` closes it. Outside a comment, `]]` is code like any other. A line
/// starting with `--` (but not `--[[`) is a comment.
pub open spec fn line_step(t: Seq<char>, in_comment: bool) -> (bool, bool) {
    let opened = contains(t, "--[["@) || in_comment;
    if opened {
        (false, !contains(t, "]]"@))
    } else if starts_with(t, "--"@) && !starts_with(t, "--[["@) {
        (false, false)
    } else {
        (true, false)
    }
}

/// The trimmed lines that basic minification keeps from the first `n`
/// lines, and whether a multi-line comment is open after them. Empty lines
/// are dropped without touching the state.
pub open spec fn minify_scan(ls: Seq<Seq<char>>, n: int) -> (Seq<Seq<char>>, bool)
    decreases n,
{
    if n <= 0 {
        (Seq::<Seq<char>>::empty(), false)
    } else {
        let (kept, open) = minify_scan(ls, n - 1);
        let t = trim(ls[n - 1]);
        if t.len() == 0 {
            (kept, open)
        } else {
            let (keep, open2) = line_step(t, open);
            (if keep { kept.push(t) } else { kept }, open2)
        }
    }
}

/// The result of basic minification: the kept lines, trimmed, joined by
/// single spaces.
pub open spec fn minified(content: Seq<char>) -> Seq<char> {
    let ls = lines(content);
    join(minify_scan(ls, ls.len() as int).0, " "@)
}

/// The lines that comment stripping keeps from the first `n` lines, each
/// as it stands, and whether a multi-line comment is open after them.
pub open spec fn strip_scan(ls: Seq<Seq<char>>, n: int) -> (Seq<Seq<char>>, bool)
    decreases n,
{
    if n <= 0 {
        (Seq::<Seq<char>>::empty(), false)
    } else {
        let (kept, open) = strip_scan(ls, n - 1);
        let (keep, open2) = line_step(trim(ls[n - 1]), open);
        (if keep { kept.push(ls[n - 1]) } else { kept }, open2)
    }
}

/// Each line followed by a newline.
pub open spec fn with_newlines(ls: Seq<Seq<char>>) -> Seq<char>
    decreases ls.len(),
{
    if ls.len() == 0 {
        Seq::<char>::empty()
    } else {
        with_newlines(ls.drop_last()) + ls.last() + "\n"@
    }
}

/// The result of stripping comments.
pub open spec fn comments_stripped(content: Seq<char>) -> Seq<char> {
    let ls = lines(content);
    with_newlines(strip_scan(ls, ls.len() as int).0)
}

/// A line that holds both `--[[` and `]]` is a whole block comment: it is
/// dropped, and after it the minifier's scan is outside any comment, in the
/// state it was in before the line was opened.
pub proof fn lemma_minify_one_line_block_comment(ls: Seq<Seq<char>>, n: int)
    requires
        1 <= n <= ls.len(),
        trim(ls[n - 1]).len() > 0,
        contains(trim(ls[n - 1]), "--[["@),
        contains(trim(ls[n - 1]), "]]"@),
    ensures
        !minify_scan(ls, n).1,
        minify_scan(ls, n).0 == minify_scan(ls, n - 1).0,
{
}

/// Outside a comment, a non-empty line that neither starts with `--` nor
/// holds `--[[` is code: the minifier keeps it, trimmed, and stays outside
/// any comment.
pub proof fn lemma_minify_keeps_code(ls: Seq<Seq<char>>, n: int)
    requires
        1 <= n <= ls.len(),
        !minify_scan(ls, n - 1).1,
        trim(ls[n - 1]).len() > 0,
        !contains(trim(ls[n - 1]), "--[["@),
        !starts_with(trim(ls[n - 1]), "--"@),
    ensures
        minify_scan(ls, n).0 == minify_scan(ls, n - 1).0.push(trim(ls[n - 1])),
        !minify_scan(ls, n).1,
{
}

/// Inside a comment, a line without `]]` is dropped and the comment stays
/// open.
pub proof fn lemma_minify_inside_comment(ls: Seq<Seq<char>>, n: int)
    requires
        1 <= n <= ls.len(),
        minify_scan(ls, n - 1).1,
        trim(ls[n - 1]).len() > 0,
        !contains(trim(ls[n - 1]), "]]"@),
    ensures
        minify_scan(ls, n).0 == minify_scan(ls, n - 1).0,
        minify_scan(ls, n).1,
{
}

/// Comment stripping reads lines the same way: a line holding both `--[[`
/// and `]]` is dropped and closes the comment it opens.
pub proof fn lemma_strip_one_line_block_comment(ls: Seq<Seq<char>>, n: int)
    requires
        1 <= n <= ls.len(),
        contains(trim(ls[n - 1]), "--[["@),
        contains(trim(ls[n - 1]), "]]"@),
    ensures
        !strip_scan(ls, n).1,
        strip_scan(ls, n).0 == strip_scan(ls, n - 1).0,
{
}

/// Outside a comment, a line that neither starts with `--` nor holds
/// `--[[` is kept by comment stripping, as it stands.
pub proof fn lemma_strip_keeps_code(ls: Seq<Seq<char>>, n: int)
    requires
        1 <= n <= ls.len(),
        !strip_scan(ls, n - 1).1,
        !contains(trim(ls[n - 1]), "--[["@),
        !starts_with(trim(ls[n - 1]), "--"@),
    ensures
        strip_scan(ls, n).0 == strip_scan(ls, n - 1).0.push(ls[n - 1]),
        !strip_scan(ls, n).1,
{
}

/// The scan of a line that starts with `--`, looking for a quote before the
/// next `--`: it stops at once, so the line is always a comment.
fn scan_says_comment(t: &str) -> (is_comment: bool)
    requires
        starts_with(t@, "--"@),
    ensures
        is_comment,
{
    proof {
        reveal_strlit("--");
        assert(t@[0] == "--"@[0] && t@[1] == "--"@[1]);
    }
    let v = crate::text::chars_of(t);
    let mut is_comment = true;
    let mut in_string = false;
    let mut string_char: Option<char> = None;
    let mut i: usize = 0;
    while i < v.len()
        invariant
            i <= v@.len(),
            v@ == t@,
            v@.len() >= 2,
            v@[0] == '-' && v@[1] == '-',
            i == 0,
            is_comment,
            !in_string,
        decreases v@.len() - i,
    {
        let ch = v[i];
        if !in_string && (ch == '"' || ch == '\'') {
            in_string = true;
            string_char = Some(ch);
            is_comment = false;
        } else if in_string && string_char == Some(ch) {
            in_string = false;
            string_char = None;
        }
        if !in_string && ch == '-' && i + 1 < v.len() && v[i + 1] == '-' {
            break;
        }
        i += 1;
    }
    is_comment
}

/// Line-based Lua minifier.
#[derive(Debug)]
pub struct Minifier;

impl Minifier {
    pub fn new() -> (m: Self) {
        Minifier
    }

    /// Minifies Lua code: basic, line-based minification. (A syntax tree
    /// would give nothing more: no tree-based minification is done, so the
    /// code is not parsed.)
    pub fn minify(&self, content: &str) -> (r: LpmResult<String>)
        ensures
            r matches Ok(s) && s@ == minified(content@),
    {
        self.minify_basic(content)
    }

    /// Strips comments, keeping every other line as it stands, each
    /// followed by a newline.
    pub fn strip_comments(&self, content: &str) -> (r: LpmResult<String>)
        ensures
            r matches Ok(s) && s@ == comments_stripped(content@),
    {
        let ls = lines_of(content);
        let ghost lv = views(ls@);
        let mut result = String::new();
        let mut open = false;
        let mut i: usize = 0;
        while i < ls.len()
            invariant
                i <= ls@.len(),
                lv == views(ls@),
                lv == lines(content@),
                (strip_scan(lv, i as int).1 == open),
                result@ == with_newlines(strip_scan(lv, i as int).0),
            decreases ls@.len() - i,
        {
            let line = ls[i].as_str();
            let t = trim_str(line);
            proof {
                reveal_strlit("--[[");
                reveal_strlit("]]");
                assert(lv[i as int] == ls@[i as int]@);
            }
            let opened = contains_str(t.as_str(), "--[[") || open;
            let keep;
            if opened {
                open = !contains_str(t.as_str(), "]]");
                keep = false;
            } else if starts_with_str(t.as_str(), "--") && !starts_with_str(t.as_str(), "--[[") {
                keep = !scan_says_comment(t.as_str());
                open = false;
            } else {
                open = false;
                keep = true;
            }
            if keep {
                let ghost before = strip_scan(lv, i as int).0;
                result.append(line);
                result.append("\n");
                assert(before.push(lv[i as int]).drop_last() =~= before);
            }
            i += 1;
        }
        Ok(result)
    }

    /// Basic minification: drops empty lines and comments, trims the rest
    /// and joins them with single spaces.
    pub fn minify_basic(&self, content: &str) -> (r: LpmResult<String>)
        ensures
            r matches Ok(s) && s@ == minified(content@),
    {
        let ls = lines_of(content);
        let ghost lv = views(ls@);
        let mut result = String::new();
        let mut open = false;
        let mut i: usize = 0;
        while i < ls.len()
            invariant
                i <= ls@.len(),
                lv == views(ls@),
                lv == lines(content@),
                (minify_scan(lv, i as int).1 == open),
                result@ == join(minify_scan(lv, i as int).0, " "@),
                minify_scan(lv, i as int).0.len() == 0 <==> result@.len() == 0,
                forall|k: int| 0 <= k < minify_scan(lv, i as int).0.len() ==> #[trigger] minify_scan(lv, i as int).0[k].len() > 0,
            decreases ls@.len() - i,
        {
            let line = ls[i].as_str();
            let t = trim_str(line);
            proof {
                reveal_strlit("--[[");
                reveal_strlit("]]");
                reveal_strlit(" ");
                assert(lv[i as int] == ls@[i as int]@);
            }
            if !t.as_str().is_empty() {
                let opened = contains_str(t.as_str(), "--[[") || open;
                let keep;
                if opened {
                    open = !contains_str(t.as_str(), "]]");
                    keep = false;
                } else if starts_with_str(t.as_str(), "--") && !starts_with_str(t.as_str(), "--[[") {
                    keep = !scan_says_comment(t.as_str());
                    open = false;
                } else {
                    open = false;
                    keep = true;
                }
                if keep {
                    let ghost before = minify_scan(lv, i as int).0;
                    if !result.as_str().is_empty() {
                        push_char(&mut result, ' ');
                    }
                    result.append(t.as_str());
                    proof {
                        let after = before.push(t@);
                        assert(after.drop_last() =~= before);
                        if before.len() > 0 {
                            assert(after.len() != 1);
                            assert(result@ =~= join(before, " "@) + " "@ + t@);
                        } else {
                            assert(result@ =~= t@);
                        }
                    }
                }
            }
            i += 1;
        }
        Ok(result)
    }
}

} // verus!
