//! Paths as text, in the Unix reading that `std::path` gives them: joining,
//! normalising, file names and extensions; and the directories of a project
//! and of the user's package manager home.

use vstd::prelude::*;
use crate::error::{LpmError, LpmResult};
use crate::text::{chars_of, concat2, eq_str, owned, push_char, string_of, views, split_char, split_char_str};

verus! {

/// `PathBuf::join`: an absolute segment replaces the path; otherwise the
/// segment is appended after a `/`, unless the path is empty or already ends
/// with one.
pub open spec fn join_path(base: Seq<char>, seg: Seq<char>) -> Seq<char> {
    if seg.len() > 0 && seg[0] == '/' {
        seg
    } else if base.len() == 0 {
        seg
    } else if base.last() == '/' {
        base + seg
    } else {
        base + "/"@ + seg
    }
}

/// `Path::join`.
pub fn join(base: &str, seg: &str) -> (r: String)
    ensures
        r@ == join_path(base@, seg@),
{
    let b = chars_of(base);
    let s = chars_of(seg);
    if s.len() > 0 && s[0] == '/' {
        owned(seg)
    } else if b.len() == 0 {
        owned(seg)
    } else if b[b.len() - 1] == '/' {
        concat2(base, seg)
    } else {
        let mut r = owned(base);
        r.append("/");
        r.append(seg);
        r
    }
}

/// The segments between `/` that name something: neither empty nor `.`.
pub open spec fn named_segments(s: Seq<char>) -> Seq<Seq<char>> {
    split_char(s, '/').filter(|p: Seq<char>| p.len() > 0 && p != "."@)
}

/// The text `Path::components().collect::<PathBuf>()` gives: a leading root,
/// a leading `.` kept as the first component, and the named segments
/// separated by single slashes.
pub open spec fn normalized(s: Seq<char>) -> Seq<char> {
    let segs = split_char(s, '/');
    let rooted = s.len() > 0 && s[0] == '/';
    let cur = !rooted && segs[0] == "."@;
    let body = join_segments(named_segments(s));
    let head = if rooted {
        "/"@
    } else if cur {
        if body.len() > 0 {
            "./"@
        } else {
            "."@
        }
    } else {
        Seq::<char>::empty()
    };
    head + body
}

/// Segments joined by `/`.
pub open spec fn join_segments(ps: Seq<Seq<char>>) -> Seq<char> {
    crate::text::join(ps, "/"@)
}

/// `Path::file_name`: the last named segment, unless that is `..`, when the
/// path has one.
pub open spec fn file_name(s: Seq<char>) -> Option<Seq<char>> {
    let segs = named_segments(s);
    if segs.len() == 0 || segs.last() == ".."@ {
        None
    } else {
        Some(segs.last())
    }
}

/// Index of the last `.` in a text, or -1.
pub open spec fn last_dot(s: Seq<char>) -> int
    decreases s.len(),
{
    if s.len() == 0 {
        -1
    } else if s.last() == '.' {
        s.len() - 1
    } else {
        last_dot(s.drop_last())
    }
}

/// `Path::extension`: the text after the last `.` of the file name, unless
/// that `.` opens the name or there is none.
pub open spec fn extension(s: Seq<char>) -> Option<Seq<char>> {
    match file_name(s) {
        None => None,
        Some(n) => if last_dot(n) <= 0 {
            None
        } else {
            Some(n.skip(last_dot(n) + 1))
        },
    }
}

proof fn lemma_last_dot(s: Seq<char>)
    ensures
        -1 <= last_dot(s) < s.len(),
        last_dot(s) >= 0 ==> s[last_dot(s)] == '.',
        forall|k: int| last_dot(s) < k < s.len() ==> s[k] != '.',
    decreases s.len(),
{
    if s.len() > 0 && s.last() != '.' {
        lemma_last_dot(s.drop_last());
        assert forall|k: int| last_dot(s) < k < s.len() implies s[k] != '.' by {
            if k < s.len() - 1 {
                assert(s[k] == s.drop_last()[k]);
            }
        }
    }
}

/// The segments of a path that name something, in order.
pub fn named_segments_of(s: &str) -> (r: Vec<String>)
    ensures
        views(r@) == named_segments(s@),
{
    proof {
        reveal_strlit(".");
    }
    let segs = split_char_str(s, '/');
    let ghost all = views(segs@);
    let ghost pred = |p: Seq<char>| p.len() > 0 && p != "."@;
    let mut out: Vec<String> = Vec::new();
    let mut i: usize = 0;
    while i < segs.len()
        invariant
            i <= segs@.len(),
            all == views(segs@),
            all == split_char(s@, '/'),
            pred == (|p: Seq<char>| p.len() > 0 && p != "."@),
            views(out@) == all.take(i as int).filter(pred),
        decreases segs@.len() - i,
    {
        proof {
            reveal_strlit(".");
            reveal_with_fuel(Seq::<Seq<char>>::filter, 1);
            assert(all.take(i + 1).drop_last() =~= all.take(i as int));
            assert(segs@[i as int]@ == all[i as int]);
        }
        let seg = segs[i].clone();
        let v = chars_of(seg.as_str());
        let dot = v.len() == 1 && v[0] == '.';
        proof {
            if dot {
                assert(seg@ =~= "."@);
            } else if seg@.len() == 1 {
                assert(seg@ != "."@) by {
                    assert(seg@[0] != "."@[0]);
                }
            }
        }
        if v.len() > 0 && !dot {
            let ghost before = views(out@);
            out.push(seg);
            assert(views(out@) =~= before.push(all[i as int]));
        }
        i += 1;
    }
    assert(all.take(segs@.len() as int) =~= all);
    out
}

/// `Path::file_name`.
pub fn file_name_of(s: &str) -> (r: Option<String>)
    ensures
        match r {
            Some(n) => file_name(s@) == Some(n@),
            None => file_name(s@) is None,
        },
{
    proof {
        reveal_strlit("..");
    }
    let segs = named_segments_of(s);
    if segs.len() == 0 {
        return None;
    }
    let last = segs[segs.len() - 1].clone();
    assert(last@ == views(segs@).last());
    let v = chars_of(last.as_str());
    if v.len() == 2 && v[0] == '.' && v[1] == '.' {
        assert(last@ =~= ".."@);
        None
    } else {
        assert(last@ != ".."@) by {
            if last@.len() == 2 {
                if v@[0] != '.' {
                    assert(last@[0] != ".."@[0]);
                } else {
                    assert(last@[1] != ".."@[1]);
                }
            }
        }
        Some(last)
    }
}

/// `Path::extension`.
pub fn extension_of(s: &str) -> (r: Option<String>)
    ensures
        match r {
            Some(e) => extension(s@) == Some(e@),
            None => extension(s@) is None,
        },
{
    let name = match file_name_of(s) {
        Some(n) => n,
        None => {
            return None;
        },
    };
    let v = chars_of(name.as_str());
    proof {
        lemma_last_dot(v@);
    }
    // Find the last dot.
    let mut j: usize = v.len();
    while j > 0 && v[j - 1] != '.'
        invariant
            j <= v@.len(),
            forall|k: int| j <= k < v@.len() ==> v@[k] != '.',
        decreases j,
    {
        j -= 1;
    }
    proof {
        if j > 0 {
            assert(v@[j - 1] == '.');
            // j - 1 is the last dot.
            if last_dot(v@) != j - 1 {
                if last_dot(v@) > j - 1 {
                    assert(v@[last_dot(v@)] == '.');
                }
            }
        } else {
            if last_dot(v@) >= 0 {
                assert(v@[last_dot(v@)] == '.');
            }
        }
    }
    if j <= 1 {
        None
    } else {
        Some(string_of(&v, j, v.len()))
    }
}

/// `Path::components().collect::<PathBuf>()`: the normalized form of a path.
pub fn normalize_path(path: &str) -> (r: String)
    ensures
        r@ == normalized(path@),
{
    proof {
        reveal_strlit("/");
        reveal_strlit(".");
        reveal_strlit("./");
    }
    let v = chars_of(path);
    let segs = split_char_str(path, '/');
    let named = named_segments_of(path);
    let body = crate::text::join_strings(&named, "/");
    let rooted = v.len() > 0 && v[0] == '/';
    proof {
        crate::text::lemma_split_char_len(path@, '/');
    }
    assert(segs@[0]@ == views(segs@)[0]);
    let first = chars_of(segs[0].as_str());
    let cur = !rooted && first.len() == 1 && first[0] == '.';
    proof {
        if !rooted {
            if cur {
                assert(segs@[0]@ =~= "."@);
            } else if segs@[0]@.len() == 1 {
                assert(segs@[0]@[0] != "."@[0]);
            }
        }
    }
    let body_empty = body.as_str().is_empty();
    if rooted {
        concat2("/", body.as_str())
    } else if cur {
        if !body_empty {
            concat2("./", body.as_str())
        } else {
            owned(".")
        }
    } else {
        body
    }
}

/// The components of a path as `Path::components` yields them on Unix: a
/// root, or a leading `.`, then the named segments.
pub open spec fn components(p: Seq<char>) -> Seq<Seq<char>> {
    let segs = split_char(p, '/');
    if p.len() > 0 && p[0] == '/' {
        seq!["/"@] + named_segments(p)
    } else if segs[0] == "."@ {
        seq!["."@] + named_segments(p)
    } else {
        named_segments(p)
    }
}

/// `Path::starts_with`: the components of `base` begin those of `p`.
pub open spec fn path_has_prefix(p: Seq<char>, base: Seq<char>) -> bool {
    let cp = components(p);
    let cb = components(base);
    cb.len() <= cp.len() && cp.take(cb.len() as int) == cb
}

/// The components of a path.
pub fn components_of(p: &str) -> (r: Vec<String>)
    ensures
        views(r@) == components(p@),
{
    proof {
        reveal_strlit("/");
        reveal_strlit(".");
        crate::text::lemma_split_char_len(p@, '/');
    }
    let v = crate::text::chars_of(p);
    let segs = split_char_str(p, '/');
    let named = named_segments_of(p);
    let mut out: Vec<String> = Vec::new();
    assert(segs@[0]@ == views(segs@)[0]);
    let first = crate::text::chars_of(segs[0].as_str());
    if v.len() > 0 && v[0] == '/' {
        out.push(owned("/"));
    } else if first.len() == 1 && first[0] == '.' {
        assert(segs@[0]@ =~= "."@);
        out.push(owned("."));
    } else {
        proof {
            if segs@[0]@.len() == 1 {
                assert(segs@[0]@[0] != "."@[0]);
            }
        }
    }
    let ghost head = views(out@);
    let mut i: usize = 0;
    while i < named.len()
        invariant
            i <= named@.len(),
            views(out@) == head + views(named@).take(i as int),
        decreases named@.len() - i,
    {
        let ghost before = views(out@);
        out.push(named[i].clone());
        assert(views(out@) =~= before.push(named@[i as int]@));
        assert(views(named@).take(i + 1) =~= views(named@).take(i as int).push(named@[i as int]@));
        assert(views(out@) =~= head + views(named@).take(i + 1));
        i += 1;
    }
    assert(views(named@).take(named@.len() as int) =~= views(named@));
    out
}

/// Whether a path begins with another, component by component.
pub fn path_starts_with(p: &str, base: &str) -> (b: bool)
    ensures
        b == path_has_prefix(p@, base@),
{
    let cp = components_of(p);
    let cb = components_of(base);
    if cb.len() > cp.len() {
        return false;
    }
    let mut i: usize = 0;
    while i < cb.len()
        invariant
            i <= cb@.len() <= cp@.len(),
            views(cp@) == components(p@),
            views(cb@) == components(base@),
            forall|j: int| 0 <= j < i ==> cp@[j]@ == cb@[j]@,
        decreases cb@.len() - i,
    {
        if !eq_str(cp[i].as_str(), cb[i].as_str()) {
            proof {
                assert(views(cp@).take(cb@.len() as int)[i as int] == cp@[i as int]@);
                assert(views(cb@)[i as int] == cb@[i as int]@);
                assert(views(cp@).take(cb@.len() as int) != views(cb@));
            }
            return false;
        }
        i += 1;
    }
    assert(views(cp@).take(cb@.len() as int) =~= views(cb@)) by {
        assert forall|j: int| 0 <= j < cb@.len() implies views(cp@).take(cb@.len() as int)[j] == views(cb@)[j] by {
            assert(cp@[j]@ == cb@[j]@);
        }
    }
    true
}

/// `Path::strip_prefix`: the components of `p` after those of `base`,
/// joined by `/`.
pub open spec fn stripped(p: Seq<char>, base: Seq<char>) -> Seq<char> {
    join_segments(components(p).skip(components(base).len() as int))
}

/// `Path::strip_prefix`: what remains of `p` after `base`, if `p` begins
/// with `base`.
pub fn strip_path_prefix(p: &str, base: &str) -> (r: Option<String>)
    ensures
        match r {
            Some(s) => path_has_prefix(p@, base@) && s@ == stripped(p@, base@),
            None => !path_has_prefix(p@, base@),
        },
{
    if !path_starts_with(p, base) {
        return None;
    }
    let cp = components_of(p);
    let cb = components_of(base);
    let mut rest: Vec<String> = Vec::new();
    let mut i: usize = cb.len();
    proof {
        assert(views(cp@).take(cb@.len() as int) == views(cb@));
    }
    while i < cp.len()
        invariant
            cb@.len() <= i <= cp@.len(),
            views(rest@) == views(cp@).subrange(cb@.len() as int, i as int),
        decreases cp@.len() - i,
    {
        let ghost before = views(rest@);
        rest.push(cp[i].clone());
        assert(views(rest@) =~= before.push(cp@[i as int]@));
        assert(views(cp@).subrange(cb@.len() as int, i + 1) =~= views(cp@).subrange(cb@.len() as int, i as int).push(cp@[i as int]@));
        i += 1;
    }
    assert(views(cp@).subrange(cb@.len() as int, cp@.len() as int) =~= views(cp@).skip(cb@.len() as int));
    Some(crate::text::join_strings(&rest, "/"))
}

/// The path made of components: a root component is followed directly by
/// the rest, and the others are separated by `/`.
pub open spec fn path_of_components(cs: Seq<Seq<char>>) -> Seq<char> {
    if cs.len() > 0 && cs[0] == "/"@ {
        "/"@ + join_segments(cs.skip(1))
    } else {
        join_segments(cs)
    }
}

/// The directories searched for a project root from `start`: `start`
/// itself, then each parent (`Path::parent`) up to the root, or, for a
/// relative path, up to the empty path.
pub open spec fn ancestors(start: Seq<char>) -> Seq<Seq<char>> {
    let cs = components(start);
    let low: int = if cs.len() > 0 && cs[0] == "/"@ { 1 } else { 0 };
    let n = cs.len() - low;
    seq![start] + Seq::new(
        n as nat,
        |i: int| path_of_components(cs.take(cs.len() - 1 - i)),
    )
}

/// The first of the candidates whose answer is `true`, looking only at the
/// candidates that have an answer (answer `k` belongs to candidate `k`).
pub open spec fn first_answered(cands: Seq<Seq<char>>, present: Seq<bool>) -> Option<Seq<char>>
    decreases cands.len(),
{
    if cands.len() == 0 || present.len() == 0 {
        None
    } else if present[0] {
        Some(cands[0])
    } else {
        first_answered(cands.drop_first(), present.drop_first())
    }
}

/// The first of the candidates whose answer is `true`: answer `k`, of those
/// given, says whether candidate `k` is present.
pub fn pick_present(cands: &Vec<String>, present: &Vec<bool>) -> (r: Option<String>)
    ensures
        match r {
            Some(p) => first_answered(views(cands@), present@) == Some(p@),
            None => first_answered(views(cands@), present@) is None,
        },
{
    let ghost cs = views(cands@);
    let mut i: usize = 0;
    assert(cs.skip(0) =~= cs);
    assert(present@.skip(0) =~= present@);
    while i < cands.len() && i < present.len()
        invariant
            i <= cands@.len(),
            i <= present@.len(),
            cs == views(cands@),
            cs.len() == cands@.len(),
            first_answered(cs, present@) == first_answered(cs.skip(i as int), present@.skip(i as int)),
        decreases cands@.len() - i,
    {
        if present[i] {
            assert(cs.skip(i as int)[0] == cands@[i as int]@);
            return Some(cands[i].clone());
        }
        assert(cs.skip(i as int).drop_first() =~= cs.skip(i + 1));
        assert(present@.skip(i as int).drop_first() =~= present@.skip(i + 1));
        i += 1;
    }
    assert(cs.skip(i as int).len() == 0 || present@.skip(i as int).len() == 0);
    None
}

/// The project root among `start` and its parents, given whether each of
/// them (in the order of `ancestors(start)`, as far as answers are given)
/// holds a `workspace.yaml` or a `package.yaml`: the first that does.
pub fn project_root_from(start: &str, markers: &Vec<bool>) -> (r: LpmResult<String>)
    ensures
        match first_answered(ancestors(start@), markers@) {
            Some(d) => r matches Ok(p) && p@ == d,
            None => r matches Err(e) && (e matches LpmError::Path(m)
                && m@ == "Could not find package.yaml or workspace.yaml in current directory or parents"@),
        },
{
    let dirs = ancestor_dirs(start);
    match pick_present(&dirs, markers) {
        Some(d) => Ok(d),
        None => Err(LpmError::Path(owned("Could not find package.yaml or workspace.yaml in current directory or parents"))),
    }
}

/// The first answered candidate is one of the candidates.
pub proof fn lemma_first_answered_member(cands: Seq<Seq<char>>, present: Seq<bool>)
    ensures
        first_answered(cands, present) matches Some(p) ==> cands.contains(p),
    decreases cands.len(),
{
    if cands.len() > 0 && present.len() > 0 && !present[0] {
        lemma_first_answered_member(cands.drop_first(), present.drop_first());
        match first_answered(cands, present) {
            Some(p) => {
                let j = choose|j: int| 0 <= j < cands.drop_first().len() && cands.drop_first()[j] == p;
                assert(cands[j + 1] == p);
            },
            None => {},
        }
    } else if cands.len() > 0 && present.len() > 0 {
        assert(cands[0] == cands[0]);
    }
}

/// Answers about `n` candidates asked in order, stopping at the first
/// `true`: every answer but the last is `false`, and either all `n`
/// candidates were asked or the last answer is `true`.
pub open spec fn asked_in_order(a: Seq<bool>, n: int) -> bool {
    &&& a.len() <= n
    &&& forall|j: int| 0 <= j < a.len() - 1 ==> !a[j]
    &&& (a.len() == n || (a.len() > 0 && a.last()))
}

/// Whether each candidate holds a project marker, in order, up to and
/// including the first that does.
fn probe_markers(dirs: &Vec<String>) -> (present: Vec<bool>)
    ensures
        asked_in_order(present@, dirs@.len() as int),
{
    let mut present: Vec<bool> = Vec::new();
    let mut i: usize = 0;
    while i < dirs.len()
        invariant
            i <= dirs@.len(),
            present@.len() == i,
            forall|j: int| 0 <= j < i ==> !present@[j],
        decreases dirs@.len() - i,
    {
        let found = has_project_marker(dirs[i].as_str());
        present.push(found);
        if found {
            return present;
        }
        i += 1;
    }
    present
}

/// Whether each path is present, in order, up to and including the first
/// that is.
pub(crate) fn probe_paths(paths: &Vec<String>) -> (present: Vec<bool>)
    ensures
        asked_in_order(present@, paths@.len() as int),
{
    let mut present: Vec<bool> = Vec::new();
    let mut i: usize = 0;
    while i < paths.len()
        invariant
            i <= paths@.len(),
            present@.len() == i,
            forall|j: int| 0 <= j < i ==> !present@[j],
        decreases paths@.len() - i,
    {
        let found = path_exists(paths[i].as_str());
        present.push(found);
        if found {
            return present;
        }
        i += 1;
    }
    present
}

/// The files whose presence makes a directory a project root, in the order
/// they are looked for.
pub open spec fn marker_files(dir: Seq<char>) -> Seq<Seq<char>> {
    seq![join_path(dir, "workspace.yaml"@), join_path(dir, "package.yaml"@)]
}

/// The marker files of a directory: its `workspace.yaml`, then its
/// `package.yaml`.
pub fn marker_paths(dir: &str) -> (r: Vec<String>)
    ensures
        views(r@) == marker_files(dir@),
{
    let r = vec![join(dir, "workspace.yaml"), join(dir, "package.yaml")];
    assert(views(r@) =~= marker_files(dir@));
    r
}

/// Whether a directory holds a `workspace.yaml` or a `package.yaml`, as the
/// file system says: its marker files are asked in order, and the answer
/// is whether one of them is present.
fn has_project_marker(dir: &str) -> (b: bool)
    ensures
        exists|a: Seq<bool>| asked_in_order(a, 2) && b == (first_answered(marker_files(dir@), a) is Some),
{
    let markers = marker_paths(dir);
    let present = probe_paths(&markers);
    let found = pick_present(&markers, &present);
    found.is_some()
}

/// Find the project root: the first of `start` and its parents that holds a
/// `workspace.yaml` or a `package.yaml`. Each of them is asked in order,
/// stopping at the first that holds one; `project_root_from` gives the
/// result for those answers.
pub fn find_project_root(start: &str) -> (r: LpmResult<String>)
    ensures
        match r {
            Ok(p) => ancestors(start@).contains(p@),
            Err(e) => e matches LpmError::Path(m)
                && m@ == "Could not find package.yaml or workspace.yaml in current directory or parents"@,
        },
        exists|a: Seq<bool>|
            asked_in_order(a, ancestors(start@).len() as int) && match first_answered(ancestors(start@), a) {
                Some(d) => r matches Ok(p) && p@ == d,
                None => r is Err,
            },
{
    let dirs = ancestor_dirs(start);
    let markers = probe_markers(&dirs);
    proof {
        lemma_first_answered_member(ancestors(start@), markers@);
    }
    project_root_from(start, &markers)
}

/// The directories from `start` upwards: `start`, then each parent.
pub fn ancestor_dirs(start: &str) -> (r: Vec<String>)
    ensures
        views(r@) == ancestors(start@),
{
    let cs = components_of(start);
    let rooted = cs.len() > 0 && crate::text::eq_str(cs[0].as_str(), "/");
    proof {
        reveal_strlit("/");
    }
    let low: usize = if rooted { 1 } else { 0 };
    let ghost all = ancestors(start@);
    let mut r: Vec<String> = Vec::new();
    r.push(owned(start));
    assert(views(r@) =~= all.take(1));
    if cs.len() > low {
        let mut k: usize = cs.len() - 1;
        while k >= low
            invariant
                views(cs@) == components(start@),
                low == (if components(start@).len() > 0 && components(start@)[0] == "/"@ { 1int } else { 0int }),
                low <= cs@.len(),
                k < cs@.len(),
                all == ancestors(start@),
                views(r@) == all.take(cs@.len() - k),
            decreases k,
        {
            let cand = path_from_components(&cs, k);
            let ghost before = views(r@);
            r.push(cand);
            proof {
                let i = cs@.len() - 1 - k;
                assert(all[1 + i] == path_of_components(views(cs@).take(k as int)));
                assert(views(r@) =~= before.push(all[1 + i]));
                assert(all.take(cs@.len() - k + 1) =~= all.take(cs@.len() - k).push(all[1 + i]));
            }
            if k == 0 {
                assert(all.take((cs@.len() + 1) as int) =~= all);
                return r;
            }
            k -= 1;
        }
        assert(k + 1 == low);
        assert(all.take(cs@.len() - k) =~= all);
    } else {
        assert(all.take(1) =~= all);
    }
    r
}

/// The path made of the first `k` components.
pub(crate) fn path_from_components(cs: &Vec<String>, k: usize) -> (r: String)
    requires
        k <= cs@.len(),
    ensures
        r@ == path_of_components(views(cs@).take(k as int)),
{
    proof {
        reveal_strlit("/");
    }
    let mut parts: Vec<String> = Vec::new();
    let rooted = k > 0 && crate::text::eq_str(cs[0].as_str(), "/");
    let start: usize = if rooted { 1 } else { 0 };
    let ghost t = views(cs@).take(k as int);
    let mut i: usize = start;
    while i < k
        invariant
            start <= i <= k <= cs@.len(),
            t == views(cs@).take(k as int),
            views(parts@) == t.subrange(start as int, i as int),
        decreases k - i,
    {
        let ghost before = views(parts@);
        parts.push(cs[i].clone());
        assert(views(parts@) =~= before.push(cs@[i as int]@));
        assert(t.subrange(start as int, i + 1) =~= t.subrange(start as int, i as int).push(t[i as int]));
        i += 1;
    }
    let body = crate::text::join_strings(&parts, "/");
    if rooted {
        assert(t[0] == "/"@);
        assert(t.subrange(1, k as int) =~= t.skip(1));
        concat2("/", body.as_str())
    } else {
        assert(t.subrange(0, k as int) =~= t);
        body
    }
}

/// Get the Lua modules directory for a project (`<root>/lua_modules`).
pub fn lua_modules_dir(project_root: &str) -> (r: String)
    ensures
        r@ == join_path(project_root@, "lua_modules"@),
{
    join(project_root, "lua_modules")
}

/// Get the LPM metadata directory (`<root>/lua_modules/.lpm`).
pub fn lpm_metadata_dir(project_root: &str) -> (r: String)
    ensures
        r@ == join_path(join_path(project_root@, "lua_modules"@), ".lpm"@),
{
    join(lua_modules_dir(project_root).as_str(), ".lpm")
}

/// Get the packages metadata directory (`<root>/lua_modules/.lpm/packages`).
pub fn packages_metadata_dir(project_root: &str) -> (r: String)
    ensures
        r@ == join_path(join_path(join_path(project_root@, "lua_modules"@), ".lpm"@), "packages"@),
{
    join(lpm_metadata_dir(project_root).as_str(), "packages")
}

/// The user's configuration directory, as `dirs::config_dir` finds it.
/// Trusted: the answer depends on the platform and the environment, so
/// nothing is stated of it.
#[verifier::external_body]
fn user_config_dir() -> Option<String> {
    dirs::config_dir().map(|p| p.to_string_lossy().into_owned())
}

/// The user's cache directory, as `dirs::cache_dir` finds it.
/// Trusted: the answer depends on the platform and the environment, so
/// nothing is stated of it.
#[verifier::external_body]
fn user_cache_dir() -> Option<String> {
    dirs::cache_dir().map(|p| p.to_string_lossy().into_owned())
}

/// Whether something is present at a path (`std::path::Path::exists`).
/// Trusted for nothing: the answer is what the file system says at the
/// moment of the call, so no clause states it.
#[verifier::external_body]
pub(crate) fn path_exists(p: &str) -> bool {
    std::path::Path::new(p).exists()
}

/// Whether a directory is the root of an LPM project: whether its
/// `package.yaml` is present. Nothing is stated of the answer, which is what
/// the file system says.
pub fn is_project_root(dir: &str) -> bool {
    let manifest = join(dir, "package.yaml");
    path_exists(manifest.as_str())
}

/// `lpm` inside a base directory, or the error for a missing base.
pub open spec fn home_in(base: Option<Seq<char>>, missing: Seq<char>) -> Result<Seq<char>, Seq<char>> {
    match base {
        Some(b) => Ok(join_path(b, "lpm"@)),
        None => Err(missing),
    }
}

/// How a directory answer relates to the base directory it was built from.
pub open spec fn path_result(r: LpmResult<String>, expected: Result<Seq<char>, Seq<char>>) -> bool {
    match r {
        Ok(p) => expected == Ok::<Seq<char>, Seq<char>>(p@),
        Err(e) => e matches LpmError::Path(m) && expected == Err::<Seq<char>, Seq<char>>(m@),
    }
}

pub open spec fn no_config_dir() -> Seq<char> {
    "Could not determine config directory"@
}

pub open spec fn no_cache_dir() -> Seq<char> {
    "Could not determine cache directory"@
}

/// The LPM home inside a given configuration directory.
pub fn lpm_home_in(config_dir: Option<&str>) -> (r: LpmResult<String>)
    ensures
        path_result(r, home_in(match config_dir {
            Some(d) => Some(d@),
            None => None,
        }, no_config_dir())),
{
    match config_dir {
        Some(d) => Ok(join(d, "lpm")),
        None => Err(LpmError::Path(owned("Could not determine config directory"))),
    }
}

/// The LPM cache inside a given cache directory.
pub fn cache_dir_in(cache_dir: Option<&str>) -> (r: LpmResult<String>)
    ensures
        path_result(r, home_in(match cache_dir {
            Some(d) => Some(d@),
            None => None,
        }, no_cache_dir())),
{
    match cache_dir {
        Some(d) => Ok(join(d, "lpm")),
        None => Err(LpmError::Path(owned("Could not determine cache directory"))),
    }
}

/// Get the LPM home directory: `lpm` in the user's configuration directory.
pub fn lpm_home() -> (r: LpmResult<String>)
    ensures
        exists|d: Option<Seq<char>>| path_result(r, home_in(d, no_config_dir())),
{
    let d = user_config_dir();
    let r = lpm_home_in(match &d {
        Some(s) => Some(s.as_str()),
        None => None,
    });
    let ghost dv = match d {
        Some(s) => Some(s@),
        None => None,
    };
    assert(path_result(r, home_in(dv, no_config_dir())));
    r
}

/// Get the cache directory: `lpm` in the user's cache directory.
pub fn cache_dir() -> (r: LpmResult<String>)
    ensures
        exists|d: Option<Seq<char>>| path_result(r, home_in(d, no_cache_dir())),
{
    let d = user_cache_dir();
    let r = cache_dir_in(match &d {
        Some(s) => Some(s.as_str()),
        None => None,
    });
    let ghost dv = match d {
        Some(s) => Some(s@),
        None => None,
    };
    assert(path_result(r, home_in(dv, no_cache_dir())));
    r
}

/// A path below the LPM home: `segs` joined onto it in order.
pub open spec fn below(base: Seq<char>, segs: Seq<Seq<char>>) -> Seq<char>
    decreases segs.len(),
{
    if segs.len() == 0 {
        base
    } else {
        join_path(below(base, segs.drop_last()), segs.last())
    }
}

/// A path below the LPM home, or the error of a missing home.
pub open spec fn below_home(r: LpmResult<String>, segs: Seq<Seq<char>>) -> bool {
    exists|d: Option<Seq<char>>|
        match #[trigger] home_in(d, no_config_dir()) {
            Ok(h) => r matches Ok(p) && p@ == below(h, segs),
            Err(m) => r matches Err(e) && (e matches LpmError::Path(msg) && msg@ == m),
        }
}

fn home_join(segs: &Vec<&str>) -> (r: LpmResult<String>)
    ensures
        below_home(r, segs@.map_values(|s: &str| s@)),
{
    let ghost sv = segs@.map_values(|s: &str| s@);
    let h = lpm_home();
    let ghost d = choose|d: Option<Seq<char>>| path_result(h, home_in(d, no_config_dir()));
    match h {
        Ok(home) => {
            let mut p = home;
            let mut i: usize = 0;
            while i < segs.len()
                invariant
                    i <= segs@.len(),
                    sv == segs@.map_values(|s: &str| s@),
                    home_in(d, no_config_dir()) matches Ok(hh) && p@ == below(hh, sv.take(i as int)),
                decreases segs@.len() - i,
            {
                let ghost before = p@;
                p = join(p.as_str(), segs[i]);
                assert(sv.take(i + 1).drop_last() =~= sv.take(i as int));
                assert(sv.take(i + 1).last() == segs@[i as int]@);
                i += 1;
            }
            assert(sv.take(segs@.len() as int) =~= sv);
            assert(match home_in(d, no_config_dir()) {
                Ok(hh) => p@ == below(hh, sv),
                Err(_) => false,
            });
            Ok(p)
        },
        Err(e) => Err(e),
    }
}

/// Get the config file path (`config.yaml` in the LPM home).
pub fn config_file() -> (r: LpmResult<String>)
    ensures
        below_home(r, seq!["config.yaml"@]),
{
    let segs = vec!["config.yaml"];
    assert(segs@.map_values(|s: &str| s@) =~= seq!["config.yaml"@]);
    home_join(&segs)
}

/// Get the credentials file path (`credentials` in the LPM home).
pub fn credentials_file() -> (r: LpmResult<String>)
    ensures
        below_home(r, seq!["credentials"@]),
{
    let segs = vec!["credentials"];
    assert(segs@.map_values(|s: &str| s@) =~= seq!["credentials"@]);
    home_join(&segs)
}

/// Get the global installation directory (`global` in the LPM home).
pub fn global_dir() -> (r: LpmResult<String>)
    ensures
        below_home(r, seq!["global"@]),
{
    let segs = vec!["global"];
    assert(segs@.map_values(|s: &str| s@) =~= seq!["global"@]);
    home_join(&segs)
}

/// Get the global Lua modules directory (`global/lua_modules` in the LPM home).
pub fn global_lua_modules_dir() -> (r: LpmResult<String>)
    ensures
        below_home(r, seq!["global"@, "lua_modules"@]),
{
    let segs = vec!["global", "lua_modules"];
    assert(segs@.map_values(|s: &str| s@) =~= seq!["global"@, "lua_modules"@]);
    home_join(&segs)
}

/// Get the global bin directory (`bin` in the LPM home).
pub fn global_bin_dir() -> (r: LpmResult<String>)
    ensures
        below_home(r, seq!["bin"@]),
{
    let segs = vec!["bin"];
    assert(segs@.map_values(|s: &str| s@) =~= seq!["bin"@]);
    home_join(&segs)
}

/// Get the global packages metadata directory (`global/.lpm/packages` in the
/// LPM home).
pub fn global_packages_metadata_dir() -> (r: LpmResult<String>)
    ensures
        below_home(r, seq!["global"@, ".lpm"@, "packages"@]),
{
    let segs = vec!["global", ".lpm", "packages"];
    assert(segs@.map_values(|s: &str| s@) =~= seq!["global"@, ".lpm"@, "packages"@]);
    home_join(&segs)
}

// ---------------------------------------------------------------------------
// Normalizing twice
// ---------------------------------------------------------------------------

/// No piece of a split holds the delimiter.
proof fn lemma_split_pieces_lack(s: Seq<char>, d: char)
    ensures
        forall|k: int| 0 <= k < split_char(s, d).len() ==> crate::text::lacks(#[trigger] split_char(s, d)[k], d),
    decreases s.len(),
{
    if s.len() > 0 {
        lemma_split_pieces_lack(s.drop_last(), d);
        crate::text::lemma_split_char_len(s.drop_last(), d);
        let prev = split_char(s.drop_last(), d);
        if s.last() != d {
            assert forall|k: int| 0 <= k < split_char(s, d).len() implies crate::text::lacks(
                #[trigger] split_char(s, d)[k],
                d,
            ) by {
                if k == prev.len() - 1 {
                    let piece = prev.last().push(s.last());
                    assert(split_char(s, d)[k] == piece);
                    assert forall|i: int| 0 <= i < piece.len() implies piece[i] != d by {
                        if i < prev.last().len() {
                            assert(piece[i] == prev.last()[i]);
                            assert(crate::text::lacks(prev[k], d));
                        }
                    }
                } else {
                    assert(split_char(s, d)[k] == prev[k]);
                }
            }
        } else {
            assert forall|k: int| 0 <= k < split_char(s, d).len() implies crate::text::lacks(
                #[trigger] split_char(s, d)[k],
                d,
            ) by {
                if k < prev.len() {
                    assert(split_char(s, d)[k] == prev[k]);
                }
            }
        }
    }
}

/// Every element that a filter keeps comes from the sequence.
proof fn lemma_filter_from(s: Seq<Seq<char>>, pred: spec_fn(Seq<char>) -> bool)
    ensures
        forall|i: int| 0 <= i < s.filter(pred).len() ==> s.contains(#[trigger] s.filter(pred)[i]),
    decreases s.len(),
{
    reveal(Seq::filter);
    if s.len() > 0 {
        lemma_filter_from(s.drop_last(), pred);
        let sub = s.drop_last().filter(pred);
        assert forall|i: int| 0 <= i < s.filter(pred).len() implies s.contains(#[trigger] s.filter(pred)[i]) by {
            if i < sub.len() {
                assert(s.filter(pred)[i] == sub[i]);
                let j = choose|j: int| 0 <= j < s.drop_last().len() && s.drop_last()[j] == sub[i];
                assert(s[j] == sub[i]);
            } else {
                assert(s.filter(pred)[i] == s.last());
                assert(s[s.len() - 1] == s.last());
            }
        }
    }
}

/// A filter that every element passes keeps the sequence as it is.
proof fn lemma_filter_keeps_all(s: Seq<Seq<char>>, pred: spec_fn(Seq<char>) -> bool)
    requires
        forall|i: int| 0 <= i < s.len() ==> pred(#[trigger] s[i]),
    ensures
        s.filter(pred) == s,
    decreases s.len(),
{
    reveal(Seq::filter);
    if s.len() > 0 {
        lemma_filter_keeps_all(s.drop_last(), pred);
        assert(pred(s[s.len() - 1]));
        assert(s.drop_last().push(s.last()) =~= s);
    } else {
        assert(s.filter(pred) =~= s);
    }
}

/// Joining pieces with a separator in front of one more piece.
proof fn lemma_join_prepend(x: Seq<char>, ps: Seq<Seq<char>>, sep: Seq<char>)
    requires
        ps.len() >= 1,
    ensures
        crate::text::join(seq![x] + ps, sep) == x + sep + crate::text::join(ps, sep),
    decreases ps.len(),
{
    let all = seq![x] + ps;
    assert(all.len() >= 2);
    assert(all.last() == ps.last());
    assert(crate::text::join(all, sep) == crate::text::join(all.drop_last(), sep) + sep + all.last());
    if ps.len() == 1 {
        assert(all.drop_last() =~= seq![x]);
        assert(crate::text::join(seq![x], sep) == x);
        assert(crate::text::join(ps, sep) == ps[0]);
    } else {
        lemma_join_prepend(x, ps.drop_last(), sep);
        assert(all.drop_last() =~= seq![x] + ps.drop_last());
        assert(crate::text::join(ps, sep) == crate::text::join(ps.drop_last(), sep) + sep + ps.last());
        assert(x + sep + crate::text::join(ps.drop_last(), sep) + sep + ps.last() =~= x + sep
            + (crate::text::join(ps.drop_last(), sep) + sep + ps.last()));
    }
}

/// A join starts with the first piece.
proof fn lemma_join_first(ps: Seq<Seq<char>>, sep: Seq<char>)
    requires
        ps.len() >= 1,
        ps[0].len() > 0,
    ensures
        crate::text::join(ps, sep).len() > 0,
        crate::text::join(ps, sep)[0] == ps[0][0],
    decreases ps.len(),
{
    if ps.len() > 1 {
        lemma_join_first(ps.drop_last(), sep);
    }
}

/// Splitting pieces joined by the delimiter gives the pieces back, when
/// none holds it.
pub proof fn lemma_split_join(ps: Seq<Seq<char>>, d: char)
    requires
        ps.len() >= 1,
        forall|k: int| 0 <= k < ps.len() ==> crate::text::lacks(#[trigger] ps[k], d),
    ensures
        split_char(crate::text::join(ps, seq![d]), d) == ps,
    decreases ps.len(),
{
    if ps.len() == 1 {
        assert(crate::text::lacks(ps[0], d));
        crate::text::lemma_split_char_plain(ps[0], d);
        assert(split_char(ps[0], d) =~= ps);
    } else {
        let a = crate::text::join(ps.drop_last(), seq![d]);
        lemma_split_join(ps.drop_last(), d);
        assert(crate::text::lacks(ps.last(), d));
        crate::text::lemma_split_char_append_delim(a, d);
        assert(a + seq![d] =~= a.push(d));
        crate::text::lemma_split_char_append_plain(a.push(d), ps.last(), d);
        assert(crate::text::join(ps, seq![d]) =~= a.push(d) + ps.last());
        let sp = split_char(a.push(d), d);
        assert(sp == ps.drop_last().push(Seq::<char>::empty()));
        assert(sp.last() + ps.last() =~= ps.last());
        assert(sp.update(sp.len() - 1, sp.last() + ps.last()) =~= ps);
    }
}

/// The named segments of a path: none is empty, none is `.`, none holds a
/// `/`.
proof fn lemma_named_shape(s: Seq<char>)
    ensures
        forall|k: int| 0 <= k < named_segments(s).len() ==> {
            &&& (#[trigger] named_segments(s)[k]).len() > 0
            &&& named_segments(s)[k] != "."@
            &&& crate::text::lacks(named_segments(s)[k], '/')
        },
{
    let pred = |p: Seq<char>| p.len() > 0 && p != "."@;
    let segs = split_char(s, '/');
    lemma_split_pieces_lack(s, '/');
    lemma_filter_from(segs, pred);
    assert forall|k: int| 0 <= k < named_segments(s).len() implies {
        &&& (#[trigger] named_segments(s)[k]).len() > 0
        &&& named_segments(s)[k] != "."@
        &&& crate::text::lacks(named_segments(s)[k], '/')
    } by {
        segs.lemma_filter_pred(pred, k);
        assert(segs.contains(segs.filter(pred)[k]));
        let j = choose|j: int| 0 <= j < segs.len() && segs[j] == segs.filter(pred)[k];
        assert(crate::text::lacks(segs[j], '/'));
    }
}

/// Normalizing a path twice gives what normalizing it once gives.
#[verifier::spinoff_prover]
#[verifier::rlimit(60)]
pub proof fn lemma_normalized_idempotent(s: Seq<char>)
    ensures
        normalized(normalized(s)) == normalized(s),
{
    reveal_strlit("/");
    reveal_strlit(".");
    reveal_strlit("./");
    let pred = |p: Seq<char>| p.len() > 0 && p != "."@;
    let ns = named_segments(s);
    lemma_named_shape(s);
    let body = join_segments(ns);
    assert("/"@ =~= seq!['/']);
    assert("./"@ =~= seq!['.'] + seq!['/']);
    assert("."@ =~= seq!['.']);
    let n = normalized(s);
    if ns.len() > 0 {
        lemma_split_join(ns, '/');
        assert(split_char(body, '/') == ns);
        lemma_filter_keeps_all(ns, pred);
        lemma_join_first(ns, "/"@);
    } else {
        assert(body =~= Seq::<char>::empty());
    }
    let rooted = s.len() > 0 && s[0] == '/';
    let cur = !rooted && split_char(s, '/')[0] == "."@;
    if rooted || (cur && ns.len() > 0) {
        let x: Seq<char> = if rooted { Seq::<char>::empty() } else { "."@ };
        assert(n =~= x + "/"@ + body);
        if ns.len() > 0 {
            lemma_join_prepend(x, ns, "/"@);
            assert(crate::text::lacks(x, '/'));
            assert forall|k: int| 0 <= k < (seq![x] + ns).len() implies crate::text::lacks(
                #[trigger] (seq![x] + ns)[k],
                '/',
            ) by {
                if k > 0 {
                    assert((seq![x] + ns)[k] == ns[k - 1]);
                }
            }
            lemma_split_join(seq![x] + ns, '/');
            assert(split_char(n, '/') == seq![x] + ns);
            (seq![x] + ns).lemma_filter_prepend(x, pred);
            // fall through to the facts below
            assert(ns.filter(pred) == ns);
            assert(named_segments(n) =~= ns);
        } else {
            // n is "/"
            assert(n =~= seq!['/']);
            crate::text::lemma_split_char_append_delim(Seq::<char>::empty(), '/');
            assert(Seq::<char>::empty().push('/') =~= n);
            assert(split_char(n, '/') =~= seq![Seq::<char>::empty(), Seq::<char>::empty()]);
            assert(seq![Seq::<char>::empty(), Seq::<char>::empty()] =~= seq![Seq::<char>::empty()] + seq![Seq::<char>::empty()]);
            seq![Seq::<char>::empty()].lemma_filter_prepend(Seq::<char>::empty(), pred);
            Seq::<Seq<char>>::empty().lemma_filter_prepend(Seq::<char>::empty(), pred);
            assert(seq![Seq::<char>::empty()] =~= seq![Seq::<char>::empty()] + Seq::<Seq<char>>::empty());
            reveal(Seq::filter);
            assert(Seq::<Seq<char>>::empty().filter(pred) =~= Seq::<Seq<char>>::empty());
            assert(named_segments(n) =~= ns);
        }
    } else if cur {
        // n is "."
        assert(n =~= seq!['.']);
        assert(crate::text::lacks(n, '/'));
        crate::text::lemma_split_char_plain(n, '/');
        assert(split_char(n, '/') =~= seq![n]);
        assert(seq![n] =~= seq![n] + Seq::<Seq<char>>::empty());
        Seq::<Seq<char>>::empty().lemma_filter_prepend(n, pred);
        reveal(Seq::filter);
        assert(Seq::<Seq<char>>::empty().filter(pred) =~= Seq::<Seq<char>>::empty());
        assert(named_segments(n) =~= ns);
    } else {
        assert(n =~= body);
        if ns.len() > 0 {
            assert(named_segments(n) =~= ns);
        } else {
            assert(n =~= Seq::<char>::empty());
            assert(split_char(n, '/') =~= seq![Seq::<char>::empty()]);
            assert(seq![Seq::<char>::empty()] =~= seq![Seq::<char>::empty()] + Seq::<Seq<char>>::empty());
            Seq::<Seq<char>>::empty().lemma_filter_prepend(Seq::<char>::empty(), pred);
            reveal(Seq::filter);
            assert(Seq::<Seq<char>>::empty().filter(pred) =~= Seq::<Seq<char>>::empty());
            assert(named_segments(n) =~= ns);
        }
    }
}

} // verus!
