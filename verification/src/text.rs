//! Text handling over character sequences: trimming, prefixes, searching,
//! splitting, replacing, line splitting and decimal numbers.

use vstd::prelude::*;

verus! {

// ---------------------------------------------------------------------------
// Specifications
// ---------------------------------------------------------------------------

/// Unicode `White_Space`, the set that `char::is_whitespace` accepts.
pub open spec fn is_ws(c: char) -> bool {
    ||| c == ' '
    ||| ('\t' <= c && c <= '\r')
    ||| c == '\u{85}'
    ||| c == '\u{A0}'
    ||| c == '\u{1680}'
    ||| ('\u{2000}' <= c && c <= '\u{200A}')
    ||| c == '\u{2028}'
    ||| c == '\u{2029}'
    ||| c == '\u{202F}'
    ||| c == '\u{205F}'
    ||| c == '\u{3000}'
}

/// `char::is_whitespace`.
pub fn is_ws_char(c: char) -> (b: bool)
    ensures
        b == is_ws(c),
{
    c == ' ' || ('\t' <= c && c <= '\r') || c == '\u{85}' || c == '\u{A0}' || c == '\u{1680}'
        || ('\u{2000}' <= c && c <= '\u{200A}') || c == '\u{2028}' || c == '\u{2029}'
        || c == '\u{202F}' || c == '\u{205F}' || c == '\u{3000}'
}

/// Number of leading white-space characters.
pub open spec fn ws_prefix_len(s: Seq<char>) -> nat
    decreases s.len(),
{
    if s.len() > 0 && is_ws(s[0]) {
        1 + ws_prefix_len(s.drop_first())
    } else {
        0
    }
}

/// Number of trailing white-space characters.
pub open spec fn ws_suffix_len(s: Seq<char>) -> nat
    decreases s.len(),
{
    if s.len() > 0 && is_ws(s.last()) {
        1 + ws_suffix_len(s.drop_last())
    } else {
        0
    }
}

/// `str::trim_start`: the text without its leading white space.
pub open spec fn trim_start(s: Seq<char>) -> Seq<char> {
    s.skip(ws_prefix_len(s) as int)
}

/// `str::trim_end`: the text without its trailing white space.
pub open spec fn trim_end(s: Seq<char>) -> Seq<char> {
    s.take(s.len() - ws_suffix_len(s))
}

/// `str::trim`: the text without leading and trailing white space.
pub open spec fn trim(s: Seq<char>) -> Seq<char> {
    trim_end(trim_start(s))
}

/// `p` is a prefix of `s`.
pub open spec fn starts_with(s: Seq<char>, p: Seq<char>) -> bool {
    p.len() <= s.len() && s.take(p.len() as int) == p
}

/// `p` is a suffix of `s`.
pub open spec fn ends_with(s: Seq<char>, p: Seq<char>) -> bool {
    p.len() <= s.len() && s.skip(s.len() - p.len()) == p
}

/// `p` occurs in `s` at position `i`.
pub open spec fn occurs_at(s: Seq<char>, p: Seq<char>, i: int) -> bool {
    0 <= i && i + p.len() <= s.len() && s.subrange(i, i + p.len()) == p
}

/// `p` occurs somewhere in `s` (`str::contains`).
pub open spec fn contains(s: Seq<char>, p: Seq<char>) -> bool {
    exists|i: int| occurs_at(s, p, i)
}

// ---------------------------------------------------------------------------
// Building strings
// ---------------------------------------------------------------------------

/// Appends one character to a string.
/// Trusted: `String::push` appends the character at the end.
#[verifier::external_body]
pub(crate) fn push_char(s: &mut String, c: char)
    ensures
        final(s)@ == old(s)@.push(c),
{
    s.push(c);
}

/// The characters of a string slice, in order.
pub fn chars_of(s: &str) -> (v: Vec<char>)
    ensures
        v@ == s@,
{
    let mut v: Vec<char> = Vec::new();
    for c in it: s.chars()
        invariant
            v@ == it.seq().take(it.index() as int),
            it.seq() == s@,
    {
        v.push(c);
    }
    v
}

/// The string made of `v[lo..hi]`.
pub fn string_of(v: &[char], lo: usize, hi: usize) -> (r: String)
    requires
        lo <= hi <= v@.len(),
    ensures
        r@ == v@.subrange(lo as int, hi as int),
{
    let mut r = String::new();
    let mut i = lo;
    while i < hi
        invariant
            lo <= i <= hi <= v@.len(),
            r@ == v@.subrange(lo as int, i as int),
        decreases hi - i,
    {
        push_char(&mut r, v[i]);
        i += 1;
        assert(r@ =~= v@.subrange(lo as int, i as int));
    }
    r
}

/// A copy of a string slice as an owned string.
pub fn owned(s: &str) -> (r: String)
    ensures
        r@ == s@,
{
    String::from_str(s)
}

/// The concatenation of two string slices.
pub fn concat2(a: &str, b: &str) -> (r: String)
    ensures
        r@ == a@ + b@,
{
    let mut r = String::from_str(a);
    r.append(b);
    r
}

/// The concatenation of three string slices.
pub fn concat3(a: &str, b: &str, c: &str) -> (r: String)
    ensures
        r@ == a@ + b@ + c@,
{
    let mut r = String::from_str(a);
    r.append(b);
    r.append(c);
    r
}

// ---------------------------------------------------------------------------
// Trimming
// ---------------------------------------------------------------------------

proof fn lemma_ws_prefix_skip(s: Seq<char>, i: int)
    requires
        0 <= i <= s.len(),
        forall|k: int| 0 <= k < i ==> is_ws(#[trigger] s[k]),
    ensures
        ws_prefix_len(s) == i + ws_prefix_len(s.skip(i)),
    decreases i,
{
    if i > 0 {
        let t = s.drop_first();
        assert forall|k: int| 0 <= k < i - 1 implies is_ws(#[trigger] t[k]) by {
            assert(t[k] == s[k + 1]);
        }
        lemma_ws_prefix_skip(t, i - 1);
        assert(t.skip(i - 1) =~= s.skip(i));
    } else {
        assert(s.skip(0) =~= s);
    }
}

proof fn lemma_ws_suffix_take(s: Seq<char>, j: int)
    requires
        0 <= j <= s.len(),
        forall|k: int| j <= k < s.len() ==> is_ws(#[trigger] s[k]),
    ensures
        ws_suffix_len(s) == (s.len() - j) + ws_suffix_len(s.take(j)),
    decreases s.len() - j,
{
    if j < s.len() {
        let t = s.drop_last();
        assert forall|k: int| j <= k < t.len() implies is_ws(#[trigger] t[k]) by {
            assert(t[k] == s[k]);
        }
        lemma_ws_suffix_take(t, j);
        assert(t.take(j) =~= s.take(j));
    } else {
        assert(s.take(j) =~= s);
    }
}

/// Index of the first character that is not white space (or the length).
fn first_non_ws(v: &Vec<char>) -> (i: usize)
    ensures
        i == ws_prefix_len(v@),
        i <= v@.len(),
{
    let mut i: usize = 0;
    while i < v.len() && is_ws_char(v[i])
        invariant
            i <= v@.len(),
            forall|k: int| 0 <= k < i ==> is_ws(#[trigger] v@[k]),
        decreases v@.len() - i,
    {
        i += 1;
    }
    proof {
        lemma_ws_prefix_skip(v@, i as int);
        if i < v@.len() {
            assert(v@.skip(i as int)[0] == v@[i as int]);
        }
    }
    i
}

/// Index one past the last character that is not white space, at least `lo`.
fn last_non_ws_end(v: &Vec<char>, lo: usize) -> (j: usize)
    requires
        lo <= v@.len(),
    ensures
        lo <= j <= v@.len(),
        j == v@.len() - ws_suffix_len(v@.skip(lo as int)),
{
    let mut j: usize = v.len();
    while j > lo && is_ws_char(v[j - 1])
        invariant
            lo <= j <= v@.len(),
            forall|k: int| j <= k < v@.len() ==> is_ws(#[trigger] v@[k]),
        decreases j,
    {
        j -= 1;
    }
    proof {
        let t = v@.skip(lo as int);
        assert forall|k: int| j - lo <= k < t.len() implies is_ws(#[trigger] t[k]) by {
            assert(t[k] == v@[k + lo]);
        }
        lemma_ws_suffix_take(t, j - lo);
        if j > lo {
            assert(t.take(j - lo).last() == v@[j - 1]);
        } else {
            assert(t.take(0).len() == 0);
        }
    }
    j
}

/// `str::trim`.
pub fn trim_str(s: &str) -> (r: String)
    ensures
        r@ == trim(s@),
{
    let v = chars_of(s);
    let i = first_non_ws(&v);
    let j = last_non_ws_end(&v, i);
    proof {
        let t = v@.skip(i as int);
        assert(trim_start(s@) =~= t);
        assert(t.take(t.len() - ws_suffix_len(t)) =~= v@.subrange(i as int, j as int));
    }
    string_of(&v, i, j)
}

// ---------------------------------------------------------------------------
// Prefixes, suffixes and search
// ---------------------------------------------------------------------------

/// `p` occurs in `v` at position `at`.
pub(crate) fn occurs_at_exec(v: &Vec<char>, p: &Vec<char>, at: usize) -> (b: bool)
    ensures
        b == occurs_at(v@, p@, at as int),
{
    if at > v.len() || p.len() > v.len() - at {
        return false;
    }
    let vlen = v.len();
    let mut k: usize = 0;
    while k < p.len()
        invariant
            vlen == v@.len(),
            at + p@.len() <= v@.len(),
            k <= p@.len(),
            forall|m: int| 0 <= m < k ==> v@[at + m] == p@[m],
        decreases p@.len() - k,
    {
        assert(at + k < v@.len());
        if v[at + k] != p[k] {
            assert(v@.subrange(at as int, at + p@.len())[k as int] != p@[k as int]);
            return false;
        }
        k += 1;
    }
    assert(v@.subrange(at as int, at + p@.len()) =~= p@);
    true
}

/// `a == b` on string slices.
pub fn eq_str(a: &str, b: &str) -> (r: bool)
    ensures
        r == (a@ == b@),
{
    let v = chars_of(a);
    let w = chars_of(b);
    if v.len() != w.len() {
        return false;
    }
    let r = occurs_at_exec(&v, &w, 0);
    proof {
        if r {
            assert(v@.subrange(0, w@.len() as int) =~= v@);
        }
        if v@ == w@ {
            assert(v@.subrange(0, w@.len() as int) =~= v@);
        }
    }
    r
}

/// `str::starts_with`.
pub fn starts_with_str(s: &str, p: &str) -> (b: bool)
    ensures
        b == starts_with(s@, p@),
{
    let v = chars_of(s);
    let q = chars_of(p);
    let b = occurs_at_exec(&v, &q, 0);
    proof {
        if b {
            assert(v@.subrange(0, q@.len() as int) =~= v@.take(q@.len() as int));
        }
        if starts_with(s@, p@) {
            assert(v@.subrange(0, q@.len() as int) =~= v@.take(q@.len() as int));
        }
    }
    b
}

/// `str::ends_with`.
pub fn ends_with_str(s: &str, p: &str) -> (b: bool)
    ensures
        b == ends_with(s@, p@),
{
    let v = chars_of(s);
    let q = chars_of(p);
    if q.len() > v.len() {
        return false;
    }
    let b = occurs_at_exec(&v, &q, v.len() - q.len());
    proof {
        assert(v@.subrange(v@.len() - q@.len(), v@.len() as int) =~= v@.skip(v@.len() - q@.len()));
    }
    b
}

/// `str::strip_prefix`.
pub fn strip_prefix_str(s: &str, p: &str) -> (r: Option<String>)
    ensures
        r is Some <==> starts_with(s@, p@),
        r matches Some(t) ==> t@ == s@.skip(p@.len() as int),
{
    let v = chars_of(s);
    let q = chars_of(p);
    if starts_with_str(s, p) {
        Some(string_of(&v, q.len(), v.len()))
    } else {
        None
    }
}

/// `str::strip_suffix`.
pub fn strip_suffix_str(s: &str, p: &str) -> (r: Option<String>)
    ensures
        r is Some <==> ends_with(s@, p@),
        r matches Some(t) ==> t@ == s@.take(s@.len() - p@.len()),
{
    let v = chars_of(s);
    let q = chars_of(p);
    if ends_with_str(s, p) {
        let t = string_of(&v, 0, v.len() - q.len());
        assert(v@.subrange(0, v@.len() - q@.len()) =~= v@.take(v@.len() - q@.len()));
        Some(t)
    } else {
        None
    }
}

/// `str::contains` with a string pattern.
pub fn contains_str(s: &str, p: &str) -> (b: bool)
    ensures
        b == contains(s@, p@),
{
    let v = chars_of(s);
    let q = chars_of(p);
    if q.len() > v.len() {
        return false;
    }
    let last = v.len() - q.len();
    let mut i: usize = 0;
    loop
        invariant
            v@ == s@,
            q@ == p@,
            q@.len() <= v@.len(),
            last == v@.len() - q@.len(),
            i <= last,
            forall|k: int| 0 <= k < i ==> !occurs_at(v@, q@, k),
        decreases last - i,
    {
        if occurs_at_exec(&v, &q, i) {
            assert(occurs_at(v@, q@, i as int));
            return true;
        }
        if i == last {
            assert forall|k: int| #![auto] !occurs_at(v@, q@, k) by {
                if 0 <= k && k <= i {
                } else {
                }
            }
            return false;
        }
        i += 1;
    }
}

// ---------------------------------------------------------------------------
// Splitting, replacing, joining
// ---------------------------------------------------------------------------

/// The views of a sequence of strings.
pub open spec fn views(v: Seq<String>) -> Seq<Seq<char>> {
    v.map_values(|x: String| x@)
}

/// `str::split` with a character delimiter: the pieces between delimiters.
pub open spec fn split_char(s: Seq<char>, d: char) -> Seq<Seq<char>>
    decreases s.len(),
{
    if s.len() == 0 {
        seq![Seq::<char>::empty()]
    } else {
        let prev = split_char(s.drop_last(), d);
        if s.last() == d {
            prev.push(Seq::<char>::empty())
        } else {
            prev.update(prev.len() - 1, prev.last().push(s.last()))
        }
    }
}

pub proof fn lemma_split_char_len(s: Seq<char>, d: char)
    ensures
        split_char(s, d).len() >= 1,
    decreases s.len(),
{
    if s.len() > 0 {
        lemma_split_char_len(s.drop_last(), d);
    }
}

/// Puts `c` in front of the first piece.
pub open spec fn prepend_first(c: Seq<char>, ps: Seq<Seq<char>>) -> Seq<Seq<char>> {
    ps.update(0, c + ps[0])
}

/// `str::split` with a non-empty string pattern: matches are found from the
/// left and do not overlap.
pub open spec fn split_pat(s: Seq<char>, p: Seq<char>) -> Seq<Seq<char>>
    decreases s.len(),
{
    if s.len() < p.len() || p.len() == 0 {
        seq![s]
    } else if starts_with(s, p) {
        seq![Seq::<char>::empty()] + split_pat(s.skip(p.len() as int), p)
    } else {
        prepend_first(seq![s[0]], split_pat(s.drop_first(), p))
    }
}

pub proof fn lemma_split_pat_len(s: Seq<char>, p: Seq<char>)
    ensures
        split_pat(s, p).len() >= 1,
    decreases s.len(),
{
    if s.len() < p.len() || p.len() == 0 {
    } else if starts_with(s, p) {
        lemma_split_pat_len(s.skip(p.len() as int), p);
    } else {
        lemma_split_pat_len(s.drop_first(), p);
    }
}

/// `str::replace` with a non-empty pattern: every match, found from the left
/// without overlap, is replaced by `r`.
pub open spec fn replace_pat(s: Seq<char>, p: Seq<char>, r: Seq<char>) -> Seq<char>
    decreases s.len(),
{
    if s.len() < p.len() || p.len() == 0 {
        s
    } else if starts_with(s, p) {
        r + replace_pat(s.skip(p.len() as int), p, r)
    } else {
        seq![s[0]] + replace_pat(s.drop_first(), p, r)
    }
}

/// The pieces joined with `sep` between them (`[T]::join`).
pub open spec fn join(ps: Seq<Seq<char>>, sep: Seq<char>) -> Seq<char>
    decreases ps.len(),
{
    if ps.len() == 0 {
        Seq::<char>::empty()
    } else if ps.len() == 1 {
        ps[0]
    } else {
        join(ps.drop_last(), sep) + sep + ps.last()
    }
}

/// A line without its final carriage return, if it has one.
pub open spec fn strip_cr(l: Seq<char>) -> Seq<char> {
    if l.len() > 0 && l.last() == '\r' {
        l.drop_last()
    } else {
        l
    }
}

/// `str::lines`: the text split at `\n`; a line that ended with `\n` also
/// loses one `\r` before it; a final empty piece is not a line.
pub open spec fn lines(s: Seq<char>) -> Seq<Seq<char>> {
    let ps = split_char(s, '\n');
    let n = ps.len() - 1;
    Seq::new(n as nat, |i: int| strip_cr(ps[i])) + (if ps[n].len() > 0 {
        seq![ps[n]]
    } else {
        Seq::<Seq<char>>::empty()
    })
}

/// `str::split` with a character delimiter.
pub fn split_char_str(s: &str, d: char) -> (r: Vec<String>)
    ensures
        views(r@) == split_char(s@, d),
{
    let v = chars_of(s);
    let mut res: Vec<String> = Vec::new();
    let mut cur = String::new();
    let mut i: usize = 0;
    while i < v.len()
        invariant
            i <= v@.len(),
            views(res@).push(cur@) == split_char(v@.take(i as int), d),
        decreases v@.len() - i,
    {
        let c = v[i];
        proof {
            let t = v@.take(i + 1);
            assert(t.drop_last() =~= v@.take(i as int));
            assert(t.last() == c);
            lemma_split_char_len(v@.take(i as int), d);
        }
        if c == d {
            let done = cur;
            res.push(done);
            cur = String::new();
            assert(views(res@).push(cur@) =~= split_char(v@.take(i + 1), d));
        } else {
            push_char(&mut cur, c);
            assert(views(res@).push(cur@) =~= split_char(v@.take(i + 1), d));
        }
        i += 1;
    }
    res.push(cur);
    assert(v@.take(v@.len() as int) =~= v@);
    r_eq(res)
}

#[inline(always)]
fn r_eq(v: Vec<String>) -> (r: Vec<String>)
    ensures
        r == v,
{
    v
}

/// `str::split` with a non-empty string pattern.
pub fn split_str(s: &str, pat: &str) -> (r: Vec<String>)
    requires
        pat@.len() > 0,
    ensures
        views(r@) == split_pat(s@, pat@),
{
    let v = chars_of(s);
    let q = chars_of(pat);
    let mut res: Vec<String> = Vec::new();
    let mut cur = String::new();
    let mut i: usize = 0;
    proof {
        assert(v@.skip(0) =~= v@);
        lemma_split_pat_len(v@, q@);
        assert(prepend_first(cur@, split_pat(v@, q@)) =~= split_pat(v@, q@));
        assert(views(res@) + split_pat(v@, q@) =~= split_pat(v@, q@));
    }
    while i < v.len() && q.len() <= v.len() - i
        invariant
            i <= v@.len(),
            q@.len() > 0,
            q@ == pat@,
            v@ == s@,
            views(res@) + prepend_first(cur@, split_pat(v@.skip(i as int), q@)) == split_pat(v@, q@),
        decreases v@.len() - i,
    {
        let ghost rest = v@.skip(i as int);
        proof {
            lemma_split_pat_len(rest, q@);
        }
        if occurs_at_exec(&v, &q, i) {
            proof {
                assert(rest.take(q@.len() as int) =~= v@.subrange(i as int, i + q@.len()));
                assert(rest.skip(q@.len() as int) =~= v@.skip(i + q@.len()));
                lemma_split_pat_len(v@.skip(i + q@.len()), q@);
            }
            let done = cur;
            let ghost old_res = views(res@);
            res.push(done);
            cur = String::new();
            i += q.len();
            proof {
                let tail = split_pat(v@.skip(i as int), q@);
                assert(prepend_first(cur@, tail) =~= tail);
                assert(views(res@) =~= old_res.push(done@));
                assert(prepend_first(done@, split_pat(rest, q@)) =~= seq![done@] + tail);
                assert(views(res@) + prepend_first(cur@, tail) =~= old_res + (seq![done@] + tail));
            }
        } else {
            let c = v[i];
            proof {
                if starts_with(rest, q@) {
                    assert(rest.take(q@.len() as int) =~= v@.subrange(i as int, i + q@.len()));
                }
                assert(rest.drop_first() =~= v@.skip(i + 1));
                assert(rest[0] == c);
                lemma_split_pat_len(v@.skip(i + 1), q@);
            }
            let ghost old_cur = cur@;
            push_char(&mut cur, c);
            i += 1;
            proof {
                let tail = split_pat(v@.skip(i as int), q@);
                assert(old_cur + (seq![c] + tail[0]) =~= cur@ + tail[0]);
                assert(prepend_first(old_cur, prepend_first(seq![c], tail)) =~= prepend_first(cur@, tail));
            }
        }
    }
    let ghost rest = v@.skip(i as int);
    assert(split_pat(rest, q@) =~= seq![rest]);
    let tail = string_of(&v, i, v.len());
    cur.append(tail.as_str());
    res.push(cur);
    proof {
        assert(v@.subrange(i as int, v@.len() as int) =~= rest);
        assert(views(res@) =~= split_pat(v@, q@));
    }
    res
}

/// `str::replace` with a non-empty string pattern.
pub fn replace_str(s: &str, pat: &str, rep: &str) -> (r: String)
    requires
        pat@.len() > 0,
    ensures
        r@ == replace_pat(s@, pat@, rep@),
{
    let v = chars_of(s);
    let q = chars_of(pat);
    let mut out = String::new();
    let mut i: usize = 0;
    assert(v@.skip(0) =~= v@);
    while i < v.len() && q.len() <= v.len() - i
        invariant
            i <= v@.len(),
            q@.len() > 0,
            q@ == pat@,
            v@ == s@,
            out@ + replace_pat(v@.skip(i as int), q@, rep@) == replace_pat(v@, q@, rep@),
        decreases v@.len() - i,
    {
        let ghost rest = v@.skip(i as int);
        if occurs_at_exec(&v, &q, i) {
            proof {
                assert(rest.take(q@.len() as int) =~= v@.subrange(i as int, i + q@.len()));
                assert(rest.skip(q@.len() as int) =~= v@.skip(i + q@.len()));
            }
            let ghost old_out = out@;
            out.append(rep);
            i += q.len();
            assert(out@ + replace_pat(v@.skip(i as int), q@, rep@) =~= old_out + replace_pat(rest, q@, rep@));
        } else {
            let c = v[i];
            proof {
                if starts_with(rest, q@) {
                    assert(rest.take(q@.len() as int) =~= v@.subrange(i as int, i + q@.len()));
                }
                assert(rest.drop_first() =~= v@.skip(i + 1));
                assert(rest[0] == c);
            }
            let ghost old_out = out@;
            push_char(&mut out, c);
            i += 1;
            assert(out@ + replace_pat(v@.skip(i as int), q@, rep@) =~= old_out + replace_pat(rest, q@, rep@));
        }
    }
    let tail = string_of(&v, i, v.len());
    out.append(tail.as_str());
    assert(v@.subrange(i as int, v@.len() as int) =~= v@.skip(i as int));
    out
}

/// `[String]::join`.
pub fn join_strings(parts: &Vec<String>, sep: &str) -> (r: String)
    ensures
        r@ == join(views(parts@), sep@),
{
    let mut out = String::new();
    let mut i: usize = 0;
    while i < parts.len()
        invariant
            i <= parts@.len(),
            out@ == join(views(parts@).take(i as int), sep@),
        decreases parts@.len() - i,
    {
        let ghost before = views(parts@).take(i as int);
        if i > 0 {
            out.append(sep);
        }
        out.append(parts[i].as_str());
        proof {
            let after = views(parts@).take(i + 1);
            assert(after.drop_last() =~= before);
            assert(after.last() == parts@[i as int]@);
            if i == 0 {
                assert(after.len() == 1);
            }
        }
        i += 1;
    }
    assert(views(parts@).take(parts@.len() as int) =~= views(parts@));
    out
}

/// A line without its final carriage return.
fn strip_cr_string(l: String) -> (r: String)
    ensures
        r@ == strip_cr(l@),
{
    let v = chars_of(l.as_str());
    if v.len() > 0 && v[v.len() - 1] == '\r' {
        let r = string_of(&v, 0, v.len() - 1);
        assert(v@.subrange(0, v@.len() - 1) =~= v@.drop_last());
        r
    } else {
        l
    }
}

/// `str::lines`.
pub fn lines_of(s: &str) -> (r: Vec<String>)
    ensures
        views(r@) == lines(s@),
{
    let pieces = split_char_str(s, '\n');
    let ghost ps = split_char(s@, '\n');
    proof {
        lemma_split_char_len(s@, '\n');
    }
    let n = pieces.len() - 1;
    let mut out: Vec<String> = Vec::new();
    let mut i: usize = 0;
    while i < n
        invariant
            n == ps.len() - 1,
            i <= n,
            views(pieces@) == ps,
            views(out@) == Seq::new(i as nat, |k: int| strip_cr(ps[k])),
        decreases n - i,
    {
        let l = pieces[i].clone();
        assert(l@ == views(pieces@)[i as int]);
        let l2 = strip_cr_string(l);
        let ghost old_out = views(out@);
        out.push(l2);
        i += 1;
        assert(views(out@) =~= old_out.push(l2@));
        assert(views(out@) =~= Seq::new(i as nat, |k: int| strip_cr(ps[k])));
    }
    let last = pieces[n].clone();
    assert(last@ == views(pieces@)[n as int]);
    if last.as_str().is_empty() {
        assert(views(out@) =~= lines(s@));
    } else {
        out.push(last);
        assert(views(out@) =~= lines(s@));
    }
    out
}

// ---------------------------------------------------------------------------
// Decimal numbers
// ---------------------------------------------------------------------------

pub open spec fn is_digit(c: char) -> bool {
    '0' <= c && c <= '9'
}

pub open spec fn all_digits(s: Seq<char>) -> bool {
    forall|i: int| 0 <= i < s.len() ==> is_digit(#[trigger] s[i])
}

pub open spec fn digit_value(c: char) -> nat {
    (c as nat - '0' as nat) as nat
}

/// The value of a string of decimal digits, most significant first.
pub open spec fn digits_value(s: Seq<char>) -> nat
    decreases s.len(),
{
    if s.len() == 0 {
        0
    } else {
        digits_value(s.drop_last()) * 10 + digit_value(s.last())
    }
}

/// `<u64 as FromStr>::from_str`: an optional `+`, then one or more decimal
/// digits whose value fits in 64 bits.
pub open spec fn parse_u64(s: Seq<char>) -> Option<u64> {
    let body = if s.len() > 1 && s[0] == '+' {
        s.drop_first()
    } else {
        s
    };
    if body.len() > 0 && all_digits(body) && digits_value(body) <= u64::MAX {
        Some(digits_value(body) as u64)
    } else {
        None
    }
}

pub open spec fn digit_char(d: nat) -> char {
    (d + '0' as nat) as char
}

/// The decimal representation of a number (`Display` for integers).
pub open spec fn decimal(n: nat) -> Seq<char>
    decreases n,
{
    if n < 10 {
        seq![digit_char(n)]
    } else {
        decimal(n / 10).push(digit_char(n % 10))
    }
}

proof fn lemma_digits_value_prefix(s: Seq<char>, i: int)
    requires
        0 <= i <= s.len(),
    ensures
        digits_value(s.take(i)) <= digits_value(s),
    decreases s.len() - i,
{
    if i < s.len() {
        lemma_digits_value_prefix(s, i + 1);
        assert(s.take(i + 1).drop_last() =~= s.take(i));
    } else {
        assert(s.take(i) =~= s);
    }
}

/// The decimal representation has only digits, no leading `+`, and reads
/// back as the number.
pub proof fn lemma_decimal(n: nat)
    ensures
        decimal(n).len() > 0,
        all_digits(decimal(n)),
        digits_value(decimal(n)) == n,
        is_digit(decimal(n)[0]),
    decreases n,
{
    if n >= 10 {
        lemma_decimal(n / 10);
        let d = decimal(n);
        assert(d.drop_last() =~= decimal(n / 10));
        assert(d[0] == decimal(n / 10)[0]);
        assert(digit_value(digit_char(n % 10)) == n % 10);
        assert(d.last() == digit_char(n % 10));
        assert(digits_value(d) == digits_value(decimal(n / 10)) * 10 + digit_value(d.last()));
        assert((n / 10) * 10 + n % 10 == n) by (nonlinear_arith);
    } else {
        let d = decimal(n);
        assert(d.drop_last() =~= Seq::<char>::empty());
        assert(digit_value(digit_char(n)) == n);
        assert(digits_value(d) == digits_value(d.drop_last()) * 10 + digit_value(d.last()));
    }
}

/// Parsing the decimal representation of a 64-bit number gives the number.
pub proof fn lemma_parse_decimal(n: u64)
    ensures
        parse_u64(decimal(n as nat)) == Some(n),
{
    lemma_decimal(n as nat);
}

/// `str::parse::<u64>`, as `Option`.
#[verifier::spinoff_prover]
#[verifier::rlimit(40)]
pub fn parse_u64_str(s: &str) -> (r: Option<u64>)
    ensures
        r == parse_u64(s@),
{
    let v = chars_of(s);
    let start: usize = if v.len() > 1 && v[0] == '+' { 1 } else { 0 };
    let ghost body = if v@.len() > 1 && v@[0] == '+' { v@.drop_first() } else { v@ };
    assert(body =~= v@.skip(start as int));
    if start >= v.len() {
        return None;
    }
    let mut acc: u64 = 0;
    let mut i: usize = start;
    while i < v.len()
        invariant
            start <= i <= v@.len(),
            v@ == s@,
            body == (if v@.len() > 1 && v@[0] == '+' { v@.drop_first() } else { v@ }),
            body == v@.skip(start as int),
            all_digits(body.take(i - start)),
            acc == digits_value(body.take(i - start)),
        decreases v@.len() - i,
    {
        let c = v[i];
        proof {
            let t = body.take(i + 1 - start);
            assert(t.drop_last() =~= body.take(i - start));
            assert(t.last() == c);
        }
        if !('0' <= c && c <= '9') {
            assert(!is_digit(body[i - start]));
            return None;
        }
        let d = (c as u32 - '0' as u32) as u64;
        if acc > 1844674407370955161 || (acc == 1844674407370955161 && d > 5) {
            proof {
                lemma_digits_value_prefix(body, i + 1 - start);
                assert forall|k: int| 0 <= k < i + 1 - start implies is_digit(#[trigger] body.take(i + 1 - start)[k]) by {
                    if k < i - start {
                        assert(body.take(i + 1 - start)[k] == body.take(i - start)[k]);
                    }
                }
                assert(digits_value(body.take(i + 1 - start)) == acc * 10 + d);
            }
            return None;
        }
        acc = acc * 10 + d;
        i += 1;
        proof {
            let t = body.take(i - start);
            assert forall|k: int| 0 <= k < t.len() implies is_digit(#[trigger] t[k]) by {
                if k < t.len() - 1 {
                    assert(t[k] == body.take(i - 1 - start)[k]);
                }
            }
        }
    }
    assert(body.take(i - start) =~= body);
    Some(acc)
}

/// `u64::to_string`.
pub fn u64_to_string(n: u64) -> (r: String)
    ensures
        r@ == decimal(n as nat),
    decreases n,
{
    if n < 10 {
        let mut r = String::new();
        push_char(&mut r, ((n as u8) + 48u8) as char);
        assert(r@ =~= decimal(n as nat));
        r
    } else {
        let mut r = u64_to_string(n / 10);
        push_char(&mut r, (((n % 10) as u8) + 48u8) as char);
        r
    }
}

/// How many decimal digits a text starts with.
pub open spec fn digit_prefix_len(s: Seq<char>) -> nat
    decreases s.len(),
{
    if s.len() > 0 && is_digit(s[0]) {
        1 + digit_prefix_len(s.drop_first())
    } else {
        0
    }
}

/// The decimal digits a text starts with, up to its first other character.
pub open spec fn leading_digits(s: Seq<char>) -> Seq<char> {
    s.take(digit_prefix_len(s) as int)
}

/// A text's leading digits are no longer than it, and a text of digits is
/// all leading digits.
pub proof fn lemma_digit_prefix_len(s: Seq<char>)
    ensures
        digit_prefix_len(s) <= s.len(),
        all_digits(s) ==> digit_prefix_len(s) == s.len(),
    decreases s.len(),
{
    if s.len() > 0 {
        lemma_digit_prefix_len(s.drop_first());
        if all_digits(s) {
            assert forall|i: int| 0 <= i < s.drop_first().len() implies is_digit(#[trigger] s.drop_first()[i]) by {
                assert(s.drop_first()[i] == s[i + 1]);
            }
        }
    }
}

/// The decimal digits a string starts with.
pub fn leading_digits_str(s: &str) -> (r: String)
    ensures
        r@ == leading_digits(s@),
{
    let v = chars_of(s);
    let mut i: usize = 0;
    proof {
        lemma_digit_prefix_len(s@);
        assert(v@.skip(0) =~= v@);
    }
    while i < v.len() && '0' <= v[i] && v[i] <= '9'
        invariant
            i <= v@.len(),
            v@ == s@,
            digit_prefix_len(v@) == i + digit_prefix_len(v@.skip(i as int)),
        decreases v@.len() - i,
    {
        assert(v@.skip(i as int).drop_first() =~= v@.skip(i + 1));
        i += 1;
    }
    proof {
        if i < v@.len() {
            assert(v@.skip(i as int)[0] == v@[i as int]);
        }
    }
    string_of(&v, 0, i)
}

// ---------------------------------------------------------------------------
// Facts about splitting, replacing and trimming
// ---------------------------------------------------------------------------

/// `c` does not occur in `s`.
pub open spec fn lacks(s: Seq<char>, c: char) -> bool {
    forall|i: int| 0 <= i < s.len() ==> s[i] != c
}

/// Appending text without the delimiter extends the last piece.
pub proof fn lemma_split_char_append_plain(a: Seq<char>, b: Seq<char>, d: char)
    requires
        lacks(b, d),
    ensures
        split_char(a + b, d) == split_char(a, d).update(
            split_char(a, d).len() - 1,
            split_char(a, d).last() + b,
        ),
    decreases b.len(),
{
    lemma_split_char_len(a, d);
    if b.len() == 0 {
        assert(a + b =~= a);
        assert(split_char(a, d).last() + b =~= split_char(a, d).last());
        assert(split_char(a, d).update(split_char(a, d).len() - 1, split_char(a, d).last())
            =~= split_char(a, d));
    } else {
        let b0 = b.drop_last();
        assert(lacks(b0, d)) by {
            assert forall|i: int| 0 <= i < b0.len() implies b0[i] != d by {
                assert(b0[i] == b[i]);
            }
        }
        lemma_split_char_append_plain(a, b0, d);
        assert((a + b).drop_last() =~= a + b0);
        assert((a + b).last() == b.last());
        assert(b.last() != d);
        lemma_split_char_len(a + b0, d);
        assert(split_char(a, d).last() + b0 + seq![b.last()] =~= split_char(a, d).last() + b);
        assert((split_char(a, d).last() + b0).push(b.last()) =~= split_char(a, d).last() + b);
        assert(split_char(a + b, d) =~= split_char(a, d).update(
            split_char(a, d).len() - 1,
            split_char(a, d).last() + b,
        ));
    }
}

/// Appending the delimiter starts a new, empty piece.
pub proof fn lemma_split_char_append_delim(a: Seq<char>, d: char)
    ensures
        split_char(a.push(d), d) == split_char(a, d).push(Seq::<char>::empty()),
{
    assert(a.push(d).drop_last() =~= a);
}

/// Text without the delimiter is a single piece.
pub proof fn lemma_split_char_plain(b: Seq<char>, d: char)
    requires
        lacks(b, d),
    ensures
        split_char(b, d) == seq![b],
{
    let e = Seq::<char>::empty();
    lemma_split_char_append_plain(e, b, d);
    assert(e + b =~= b);
    assert(split_char(e, d) =~= seq![e]);
    assert(e + b =~= b);
    assert(split_char(e, d).update(0, e + b) =~= seq![b]);
}

/// Three pieces without the delimiter, joined by it, split back into them.
pub proof fn lemma_split_char_three(x: Seq<char>, y: Seq<char>, z: Seq<char>, d: char)
    requires
        lacks(x, d),
        lacks(y, d),
        lacks(z, d),
    ensures
        split_char(x + seq![d] + y + seq![d] + z, d) == seq![x, y, z],
{
    lemma_split_char_plain(x, d);
    lemma_split_char_append_delim(x, d);
    assert(x.push(d) =~= x + seq![d]);
    let e = Seq::<char>::empty();
    lemma_split_char_append_plain(x + seq![d], y, d);
    assert(seq![x].push(e).update(1, e + y) =~= seq![x, y]);
    assert(e + y =~= y);
    lemma_split_char_append_delim(x + seq![d] + y, d);
    assert((x + seq![d] + y).push(d) =~= x + seq![d] + y + seq![d]);
    lemma_split_char_append_plain(x + seq![d] + y + seq![d], z, d);
    assert(seq![x, y].push(e).update(2, e + z) =~= seq![x, y, z]);
    assert(e + z =~= z);
}

/// Replacing a one-character pattern that does not occur changes nothing.
pub proof fn lemma_replace_absent(s: Seq<char>, p: Seq<char>, r: Seq<char>)
    requires
        p.len() == 1,
        lacks(s, p[0]),
    ensures
        replace_pat(s, p, r) == s,
    decreases s.len(),
{
    if s.len() >= 1 {
        assert(s.take(1)[0] == s[0]);
        assert(!starts_with(s, p));
        let t = s.drop_first();
        assert(lacks(t, p[0])) by {
            assert forall|i: int| 0 <= i < t.len() implies t[i] != p[0] by {
                assert(t[i] == s[i + 1]);
            }
        }
        lemma_replace_absent(t, p, r);
        assert(seq![s[0]] + t =~= s);
    }
}

/// Text that neither starts nor ends with white space is its own trim.
pub proof fn lemma_trim_unchanged(s: Seq<char>)
    requires
        s.len() > 0,
        !is_ws(s[0]),
        !is_ws(s.last()),
    ensures
        trim(s) == s,
{
    assert(ws_prefix_len(s) == 0);
    assert(s.skip(0) =~= s);
    assert(ws_suffix_len(s) == 0);
    assert(s.take(s.len() as int) =~= s);
}

/// The decimal representation has no character other than digits.
pub proof fn lemma_decimal_lacks(n: nat, c: char)
    requires
        !is_digit(c),
    ensures
        lacks(decimal(n), c),
{
    lemma_decimal(n);
}


/// The words of a text and the word being read, scanning from the left:
/// white space ends a word.
pub open spec fn word_scan(s: Seq<char>) -> (Seq<Seq<char>>, Seq<char>)
    decreases s.len(),
{
    if s.len() == 0 {
        (Seq::<Seq<char>>::empty(), Seq::<char>::empty())
    } else {
        let (done, cur) = word_scan(s.drop_last());
        if is_ws(s.last()) {
            (if cur.len() > 0 { done.push(cur) } else { done }, Seq::<char>::empty())
        } else {
            (done, cur.push(s.last()))
        }
    }
}

/// `str::split_whitespace`: the maximal runs of characters that are not
/// white space, in order.
pub open spec fn words(s: Seq<char>) -> Seq<Seq<char>> {
    let (done, cur) = word_scan(s);
    if cur.len() > 0 { done.push(cur) } else { done }
}

/// `str::split_whitespace`.
pub fn words_of(s: &str) -> (r: Vec<String>)
    ensures
        views(r@) == words(s@),
{
    let v = chars_of(s);
    let mut done: Vec<String> = Vec::new();
    let mut cur = String::new();
    let mut i: usize = 0;
    while i < v.len()
        invariant
            i <= v@.len(),
            (views(done@), cur@) == word_scan(v@.take(i as int)),
        decreases v@.len() - i,
    {
        let c = v[i];
        proof {
            let t = v@.take(i + 1);
            assert(t.drop_last() =~= v@.take(i as int));
            assert(t.last() == c);
        }
        if is_ws_char(c) {
            if !cur.as_str().is_empty() {
                let w = cur;
                let ghost before = views(done@);
                done.push(w);
                assert(views(done@) =~= before.push(w@));
            }
            cur = String::new();
        } else {
            push_char(&mut cur, c);
        }
        i += 1;
    }
    assert(v@.take(v@.len() as int) =~= v@);
    if !cur.as_str().is_empty() {
        let ghost before = views(done@);
        done.push(cur);
        assert(views(done@) =~= before.push(word_scan(s@).1));
    }
    done
}

} // verus!
