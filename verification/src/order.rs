//! The order of `String`s (that of their characters, which is the order of
//! their UTF-8 bytes) and sorting by it.

use vstd::prelude::*;
use crate::text::{chars_of, views};

verus! {

/// `a <= b` in the lexicographic order of characters.
pub open spec fn text_le(a: Seq<char>, b: Seq<char>) -> bool
    decreases a.len(),
{
    if a.len() == 0 {
        true
    } else if b.len() == 0 {
        false
    } else if a[0] != b[0] {
        a[0] < b[0]
    } else {
        text_le(a.drop_first(), b.drop_first())
    }
}

/// The texts are in non-decreasing order.
pub open spec fn sorted_texts(s: Seq<Seq<char>>) -> bool {
    forall|i: int, j: int| 0 <= i < j < s.len() ==> text_le(s[i], s[j])
}

/// The order is total.
pub proof fn lemma_text_le_total(a: Seq<char>, b: Seq<char>)
    ensures
        text_le(a, b) || text_le(b, a),
    decreases a.len(),
{
    if a.len() > 0 && b.len() > 0 && a[0] == b[0] {
        lemma_text_le_total(a.drop_first(), b.drop_first());
    }
}

/// The order is transitive.
pub proof fn lemma_text_le_trans(a: Seq<char>, b: Seq<char>, c: Seq<char>)
    requires
        text_le(a, b),
        text_le(b, c),
    ensures
        text_le(a, c),
    decreases a.len(),
{
    if a.len() > 0 && b.len() > 0 && c.len() > 0 && a[0] == b[0] && b[0] == c[0] {
        lemma_text_le_trans(a.drop_first(), b.drop_first(), c.drop_first());
    }
}

/// The order is antisymmetric.
pub proof fn lemma_text_le_antisym(a: Seq<char>, b: Seq<char>)
    requires
        text_le(a, b),
        text_le(b, a),
    ensures
        a == b,
    decreases a.len(),
{
    if a.len() == 0 || b.len() == 0 {
        assert(a.len() == 0 && b.len() == 0);
        assert(a =~= b);
    } else {
        assert(a[0] == b[0]);
        lemma_text_le_antisym(a.drop_first(), b.drop_first());
        assert forall|k: int| 0 <= k < a.len() implies a[k] == b[k] by {
            if k > 0 {
                assert(a[k] == a.drop_first()[k - 1]);
                assert(b[k] == b.drop_first()[k - 1]);
            }
        }
        assert(a =~= b);
    }
}

/// Whether `a <= b`, as `String`s compare.
pub fn text_le_exec(a: &str, b: &str) -> (r: bool)
    ensures
        r == text_le(a@, b@),
{
    let va = chars_of(a);
    let vb = chars_of(b);
    let mut i: usize = 0;
    assert(va@.skip(0) =~= va@);
    assert(vb@.skip(0) =~= vb@);
    while i < va.len() && i < vb.len() && va[i] == vb[i]
        invariant
            i <= va@.len(),
            i <= vb@.len(),
            text_le(a@, b@) == text_le(va@.skip(i as int), vb@.skip(i as int)),
            va@ == a@,
            vb@ == b@,
        decreases va@.len() - i,
    {
        assert(va@.skip(i as int).drop_first() =~= va@.skip(i + 1));
        assert(vb@.skip(i as int).drop_first() =~= vb@.skip(i + 1));
        i += 1;
    }
    if i == va.len() {
        true
    } else if i == vb.len() {
        false
    } else {
        va[i] < vb[i]
    }
}

/// The texts sorted in non-decreasing order (`Vec<String>::sort`).
pub fn sort_texts(v: Vec<String>) -> (r: Vec<String>)
    ensures
        sorted_texts(views(r@)),
        views(r@).to_multiset() == views(v@).to_multiset(),
        r@.len() == v@.len(),
{
    broadcast use vstd::seq_lib::group_to_multiset_ensures;
    let mut r: Vec<String> = Vec::new();
    let mut i: usize = 0;
    while i < v.len()
        invariant
            i <= v@.len(),
            r@.len() == i,
            sorted_texts(views(r@)),
            views(r@).to_multiset() == views(v@).take(i as int).to_multiset(),
        decreases v@.len() - i,
    {
        let x = v[i].clone();
        // Find the first element greater than x.
        let mut k: usize = 0;
        while k < r.len() && text_le_exec(r[k].as_str(), x.as_str())
            invariant
                k <= r@.len(),
                sorted_texts(views(r@)),
                forall|j: int| 0 <= j < k ==> text_le(#[trigger] r@[j]@, x@),
            decreases r@.len() - k,
        {
            k += 1;
        }
        proof {
            assert forall|j: int| k <= j < r@.len() implies text_le(x@, #[trigger] r@[j]@) by {
                assert(!text_le(r@[k as int]@, x@));
                if text_le(r@[j]@, x@) {
                    assert(views(r@)[k as int] == r@[k as int]@);
                    assert(views(r@)[j] == r@[j]@);
                    if k < j {
                        lemma_text_le_trans(r@[k as int]@, r@[j]@, x@);
                    }
                }
                lemma_text_le_total(x@, r@[j]@);
            }
        }
        let ghost old_views = views(r@);
        r.insert(k, x);
        proof {
            assert(views(r@) =~= old_views.insert(k as int, v@[i as int]@));
            vstd::seq_lib::to_multiset_insert(old_views, k as int, v@[i as int]@);
            assert(views(v@).take(i + 1) =~= views(v@).take(i as int).push(v@[i as int]@));
            vstd::seq_lib::to_multiset_build(views(v@).take(i as int), v@[i as int]@);
            assert forall|a: int, b: int| 0 <= a < b < views(r@).len() implies text_le(
                views(r@)[a],
                views(r@)[b],
            ) by {
                if b < k {
                    assert(views(r@)[a] == old_views[a] && views(r@)[b] == old_views[b]);
                } else if b == k {
                    assert(views(r@)[a] == old_views[a]);
                    assert(old_views[a] == r@[a]@);
                } else if a == k {
                    assert(views(r@)[b] == old_views[b - 1]);
                } else if a < k {
                    assert(views(r@)[a] == old_views[a] && views(r@)[b] == old_views[b - 1]);
                } else {
                    assert(views(r@)[a] == old_views[a - 1] && views(r@)[b] == old_views[b - 1]);
                }
            }
        }
        i += 1;
    }
    assert(views(v@).take(v@.len() as int) =~= views(v@));
    r
}

} // verus!
