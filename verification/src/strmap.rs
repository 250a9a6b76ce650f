//! A map from strings to strings that keeps its entries in insertion order.

use vstd::prelude::*;
use crate::text::views;

verus! {

/// The map whose entries are `es`, a later entry for a key winning.
pub open spec fn entries_map(es: Seq<(Seq<char>, Seq<char>)>) -> Map<Seq<char>, Seq<char>>
    decreases es.len(),
{
    if es.len() == 0 {
        Map::<Seq<char>, Seq<char>>::empty()
    } else {
        entries_map(es.drop_last()).insert(es.last().0, es.last().1)
    }
}

/// No key occurs twice.
pub open spec fn distinct_keys(es: Seq<(Seq<char>, Seq<char>)>) -> bool {
    forall|i: int, j: int| 0 <= i < j < es.len() ==> #[trigger] es[i].0 != #[trigger] es[j].0
}

pub open spec fn entry_views(es: Seq<(String, String)>) -> Seq<(Seq<char>, Seq<char>)> {
    es.map_values(|e: (String, String)| (e.0@, e.1@))
}

/// A map from strings to strings. Each key occurs once; the entries keep the
/// order in which their keys were first inserted.
#[derive(Debug)]
pub struct StringMap {
    entries: Vec<(String, String)>,
}

proof fn lemma_entries_map_facts(es: Seq<(Seq<char>, Seq<char>)>)
    requires
        distinct_keys(es),
    ensures
        forall|k: Seq<char>| #[trigger] entries_map(es).dom().contains(k) <==> exists|i: int|
            0 <= i < es.len() && es[i].0 == k,
        forall|i: int| 0 <= i < es.len() ==> entries_map(es)[#[trigger] es[i].0] == es[i].1,
    decreases es.len(),
{
    if es.len() > 0 {
        let p = es.drop_last();
        assert(distinct_keys(p)) by {
            assert forall|i: int, j: int| 0 <= i < j < p.len() implies #[trigger] p[i].0 != #[trigger] p[j].0 by {
                assert(p[i] == es[i] && p[j] == es[j]);
            }
        }
        lemma_entries_map_facts(p);
        assert forall|k: Seq<char>| #[trigger] entries_map(es).dom().contains(k) <==> exists|i: int|
            0 <= i < es.len() && es[i].0 == k by {
            if entries_map(es).dom().contains(k) {
                if k == es.last().0 {
                    assert(es[es.len() - 1].0 == k);
                } else {
                    assert(entries_map(p).dom().contains(k));
                    let i = choose|i: int| 0 <= i < p.len() && p[i].0 == k;
                    assert(es[i] == p[i]);
                    assert(0 <= i < es.len() && es[i].0 == k);
                }
            }
            if exists|i: int| 0 <= i < es.len() && es[i].0 == k {
                let i = choose|i: int| 0 <= i < es.len() && es[i].0 == k;
                if i < es.len() - 1 {
                    assert(p[i] == es[i]);
                    assert(0 <= i < p.len() && p[i].0 == k);
                    assert(entries_map(p).dom().contains(k));
                }
            }
        }
        assert forall|i: int| 0 <= i < es.len() implies entries_map(es)[#[trigger] es[i].0] == es[i].1 by {
            if i < es.len() - 1 {
                assert(p[i] == es[i]);
                assert(es[i].0 != es.last().0);
            }
        }
    }
}

/// Along distinct entries, each prefix's map lacks the next key, and taking
/// one entry more inserts it.
pub proof fn lemma_entries_map_take(es: Seq<(Seq<char>, Seq<char>)>, i: int)
    requires
        distinct_keys(es),
        0 <= i < es.len(),
    ensures
        !entries_map(es.take(i)).dom().contains(es[i].0),
        entries_map(es.take(i + 1)) == entries_map(es.take(i)).insert(es[i].0, es[i].1),
{
    let p = es.take(i);
    assert(distinct_keys(p)) by {
        assert forall|a: int, b: int| 0 <= a < b < p.len() implies #[trigger] p[a].0 != #[trigger] p[b].0 by {
            assert(p[a] == es[a] && p[b] == es[b]);
        }
    }
    lemma_entries_map_facts(p);
    if entries_map(p).dom().contains(es[i].0) {
        let j = choose|j: int| 0 <= j < p.len() && p[j].0 == es[i].0;
        assert(p[j] == es[j]);
    }
    assert(es.take(i + 1).drop_last() =~= p);
}

impl View for StringMap {
    type V = Map<Seq<char>, Seq<char>>;

    closed spec fn view(&self) -> Map<Seq<char>, Seq<char>> {
        entries_map(entry_views(self.entries@))
    }
}

impl StringMap {
    #[verifier::type_invariant]
    spec fn keys_distinct(self) -> bool {
        distinct_keys(entry_views(self.entries@))
    }

    /// The entries as (key, value) texts, in order.
    pub closed spec fn ordered(&self) -> Seq<(Seq<char>, Seq<char>)> {
        entry_views(self.entries@)
    }

    proof fn lemma_view(&self)
        requires
            distinct_keys(self.ordered()),
        ensures
            self@ == entries_map(self.ordered()),
            forall|k: Seq<char>| #[trigger] self@.dom().contains(k) <==> exists|i: int|
                0 <= i < self.ordered().len() && self.ordered()[i].0 == k,
            forall|i: int|
                0 <= i < self.ordered().len() ==> self@[#[trigger] self.ordered()[i].0]
                    == self.ordered()[i].1,
    {
        lemma_entries_map_facts(self.ordered());
    }

    /// An empty map.
    pub fn new() -> (m: Self)
        ensures
            m.ordered() == Seq::<(Seq<char>, Seq<char>)>::empty(),
            m@ == Map::<Seq<char>, Seq<char>>::empty(),
    {
        let m = StringMap { entries: Vec::new() };
        assert(entry_views(m.entries@) =~= Seq::<(Seq<char>, Seq<char>)>::empty());
        m
    }

    /// Number of entries. The view is the map of the ordered entries, whose
    /// keys are distinct.
    pub fn len(&self) -> (n: usize)
        ensures
            n == self.ordered().len(),
            distinct_keys(self.ordered()),
            self@ == entries_map(self.ordered()),
            forall|k: Seq<char>| #[trigger] self@.dom().contains(k) <==> exists|i: int|
                0 <= i < self.ordered().len() && self.ordered()[i].0 == k,
            forall|i: int|
                0 <= i < self.ordered().len() ==> self@[#[trigger] self.ordered()[i].0]
                    == self.ordered()[i].1,
    {
        proof {
            use_type_invariant(self);
            self.lemma_view();
        }
        self.entries.len()
    }

    /// Whether the map is empty.
    pub fn is_empty(&self) -> (b: bool)
        ensures
            b == (self.ordered().len() == 0),
    {
        self.entries.len() == 0
    }

    /// The key of entry `i`.
    pub fn key_at(&self, i: usize) -> (k: &String)
        requires
            i < self.ordered().len(),
        ensures
            k@ == self.ordered()[i as int].0,
    {
        &self.entries[i].0
    }

    /// The value of entry `i`.
    pub fn value_at(&self, i: usize) -> (v: &String)
        requires
            i < self.ordered().len(),
        ensures
            v@ == self.ordered()[i as int].1,
    {
        &self.entries[i].1
    }

    fn position(&self, k: &str) -> (r: Option<usize>)
        ensures
            match r {
                Some(i) => i < self.ordered().len() && self.ordered()[i as int].0 == k@,
                None => forall|i: int| 0 <= i < self.ordered().len() ==> self.ordered()[i].0 != k@,
            },
    {
        let mut i: usize = 0;
        while i < self.entries.len()
            invariant
                i <= self.entries@.len(),
                forall|j: int| 0 <= j < i ==> entry_views(self.entries@)[j].0 != k@,
            decreases self.entries@.len() - i,
        {
            assert(entry_views(self.entries@)[i as int] == (self.entries@[i as int].0@, self.entries@[i as int].1@));
            if crate::text::eq_str(self.entries[i].0.as_str(), k) {
                return Some(i);
            }
            i += 1;
        }
        None
    }

    /// Whether the key has an entry.
    pub fn contains_key(&self, k: &str) -> (b: bool)
        ensures
            b == self@.dom().contains(k@),
    {
        proof {
            use_type_invariant(self);
            self.lemma_view();
        }
        self.position(k).is_some()
    }

    /// The value of a key.
    pub fn get(&self, k: &str) -> (r: Option<&String>)
        ensures
            match r {
                Some(v) => self@.dom().contains(k@) && self@[k@] == v@,
                None => !self@.dom().contains(k@),
            },
    {
        proof {
            use_type_invariant(self);
            self.lemma_view();
        }
        match self.position(k) {
            Some(i) => Some(&self.entries[i].1),
            None => None,
        }
    }

    /// Inserts or replaces the value of a key; a new key goes last.
    pub fn insert(&mut self, k: String, v: String)
        ensures
            final(self)@ == old(self)@.insert(k@, v@),
            old(self)@.dom().contains(k@) ==> final(self).ordered().len() == old(self).ordered().len(),
            !old(self)@.dom().contains(k@) ==> final(self).ordered() == old(self).ordered().push((k@, v@)),
    {
        proof {
            use_type_invariant(&*self);
            self.lemma_view();
        }
        let ghost old_es = self.ordered();
        match self.position(k.as_str()) {
            Some(i) => {
                let key = self.entries[i].0.clone();
                let mut entries: Vec<(String, String)> = Vec::new();
                std::mem::swap(&mut entries, &mut self.entries);
                entries.set(i, (key, v));
                assert(entry_views(entries@) =~= old_es.update(i as int, (k@, v@)));
                proof {
                    assert(distinct_keys(entry_views(entries@))) by {
                        assert forall|a: int, b: int| 0 <= a < b < entries@.len() implies
                            #[trigger] entry_views(entries@)[a].0 != #[trigger] entry_views(entries@)[b].0 by {
                            assert(old_es[a].0 != old_es[b].0);
                        }
                    }
                    let new_es = entry_views(entries@);
                    lemma_entries_map_facts(new_es);
                    lemma_entries_map_facts(old_es);
                    let m1 = entries_map(new_es);
                    let m2 = entries_map(old_es).insert(k@, v@);
                    assert forall|key: Seq<char>| m1.dom().contains(key) <==> m2.dom().contains(key) by {
                        if m1.dom().contains(key) {
                            let j = choose|j: int| 0 <= j < new_es.len() && new_es[j].0 == key;
                            assert(old_es[j].0 == key);
                        }
                        if m2.dom().contains(key) && key != k@ {
                            let j = choose|j: int| 0 <= j < old_es.len() && old_es[j].0 == key;
                            assert(new_es[j].0 == key);
                        }
                        if key == k@ {
                            assert(new_es[i as int].0 == key);
                        }
                    }
                    assert forall|key: Seq<char>| m1.dom().contains(key) implies m1[key] == m2[key] by {
                        let j = choose|j: int| 0 <= j < new_es.len() && new_es[j].0 == key;
                        if j == i {
                        } else {
                            assert(old_es[j] == new_es[j]);
                        }
                    }
                    assert(m1 =~= m2);
                }
                self.entries = entries;
            },
            None => {
                let mut entries: Vec<(String, String)> = Vec::new();
                std::mem::swap(&mut entries, &mut self.entries);
                entries.push((k, v));
                assert(entry_views(entries@) =~= old_es.push((k@, v@)));
                proof {
                    assert(distinct_keys(entry_views(entries@))) by {
                        assert forall|a: int, b: int| 0 <= a < b < entries@.len() implies
                            #[trigger] entry_views(entries@)[a].0 != #[trigger] entry_views(entries@)[b].0 by {
                            if b < old_es.len() {
                                assert(old_es[a].0 != old_es[b].0);
                            } else {
                                assert(old_es[a].0 != k@);
                            }
                        }
                    }
                    assert(entry_views(entries@).drop_last() =~= old_es);
                }
                self.entries = entries;
            },
        }
    }

    /// A copy of the map.
    pub fn clone_map(&self) -> (m: Self)
        ensures
            m.ordered() == self.ordered(),
            m@ == self@,
    {
        proof {
            use_type_invariant(self);
        }
        let mut entries: Vec<(String, String)> = Vec::new();
        let mut i: usize = 0;
        while i < self.entries.len()
            invariant
                i <= self.entries@.len(),
                entry_views(entries@) == entry_views(self.entries@).take(i as int),
            decreases self.entries@.len() - i,
        {
            let k = self.entries[i].0.clone();
            let v = self.entries[i].1.clone();
            let ghost before = entry_views(entries@);
            entries.push((k, v));
            assert(entry_views(entries@) =~= before.push((k@, v@)));
            assert(entry_views(self.entries@)[i as int] == (self.entries@[i as int].0@, self.entries@[i as int].1@));
            assert(entry_views(entries@) =~= entry_views(self.entries@).take(i + 1));
            i += 1;
        }
        assert(entry_views(self.entries@).take(self.entries@.len() as int) =~= entry_views(self.entries@));
        StringMap { entries }
    }
}

} // verus!
