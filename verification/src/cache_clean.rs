//! Cleaning a cache directory: files older than a maximum age go first,
//! then, while the directory is over its size limit, the oldest files. The
//! caller walks the directory, removes what it is told to, and reports
//! whether each removal succeeded.

use vstd::prelude::*;
use crate::cache::CacheCleanResult;

verus! {

/// A file of the cache: when it was last modified and its size.
#[derive(Debug, Clone, Copy, PartialEq, Eq, Structural)]
pub struct CacheFile {
    /// Modification time, in nanoseconds since the Unix epoch.
    pub modified: u128,
    pub size: u64,
}

/// What the caller does next.
#[derive(Debug, Clone, Copy, PartialEq, Eq, Structural)]
pub enum CleanStep {
    /// Remove file `index` (when `check_exists`, only if it is still there)
    /// and report whether it was removed.
    Remove { index: usize, check_exists: bool },
    /// Cleaning is over.
    Done,
}

/// `a` comes before `b` in the cleaning order: older first, and in the order
/// they were found when equally old.
pub open spec fn before(files: Seq<CacheFile>, a: int, b: int) -> bool {
    files[a].modified < files[b].modified || (files[a].modified == files[b].modified && a < b)
}

/// The indices sorted by the cleaning order.
pub open spec fn sorted_order(files: Seq<CacheFile>, order: Seq<usize>) -> bool {
    &&& order.len() == files.len()
    &&& forall|i: int| 0 <= i < order.len() ==> order[i] < files.len()
    &&& forall|i: int, j: int| 0 <= i < j < order.len() ==> before(files, order[i] as int, order[j] as int)
}

/// The sum of the sizes of the files whose flag is set.
pub open spec fn flagged_size(files: Seq<CacheFile>, flags: Seq<bool>) -> nat
    decreases flags.len(),
{
    if flags.len() == 0 || files.len() == 0 {
        0
    } else {
        flagged_size(files.drop_last(), flags.drop_last()) + if flags.last() { files.last().size as nat } else { 0 }
    }
}

/// The number of flags set.
pub open spec fn flagged_count(flags: Seq<bool>) -> nat
    decreases flags.len(),
{
    if flags.len() == 0 {
        0
    } else {
        flagged_count(flags.drop_last()) + if flags.last() { 1nat } else { 0nat }
    }
}

/// The sum of the sizes of all the files.
pub open spec fn total_size(files: Seq<CacheFile>) -> nat
    decreases files.len(),
{
    if files.len() == 0 {
        0
    } else {
        total_size(files.drop_last()) + files.last().size as nat
    }
}

proof fn lemma_flag_one(files: Seq<CacheFile>, flags: Seq<bool>, i: int)
    requires
        flags.len() == files.len(),
        0 <= i < flags.len(),
        !flags[i],
    ensures
        flagged_size(files, flags.update(i, true)) == flagged_size(files, flags) + files[i].size,
        flagged_count(flags.update(i, true)) == flagged_count(flags) + 1,
    decreases flags.len(),
{
    let nf = flags.update(i, true);
    if i < flags.len() - 1 {
        assert(nf.drop_last() =~= flags.drop_last().update(i, true));
        lemma_flag_one(files.drop_last(), flags.drop_last(), i);
    } else {
        assert(nf.drop_last() =~= flags.drop_last());
    }
}

proof fn lemma_flagged_bounds(files: Seq<CacheFile>, flags: Seq<bool>)
    requires
        flags.len() == files.len(),
    ensures
        flagged_size(files, flags) <= total_size(files),
        flagged_count(flags) <= flags.len(),
    decreases flags.len(),
{
    if flags.len() > 0 {
        lemma_flagged_bounds(files.drop_last(), flags.drop_last());
    }
}

/// Where the cleaning is.
#[derive(Debug, Clone, Copy, PartialEq, Eq, Structural)]
pub enum CleanPhase {
    /// Removing files older than the maximum age.
    Age,
    /// Removing the oldest files while over the size limit.
    Size,
    Finished,
}

/// What has been removed: a flag per file, the size that remains, and the
/// counts.
#[derive(Debug)]
struct Tally {
    removed: Vec<bool>,
    total: u64,
    result: CacheCleanResult,
}

/// The cleaning of one cache directory.
#[derive(Debug)]
pub struct CleanPlan {
    files: Vec<CacheFile>,
    order: Vec<usize>,
    now: u128,
    max_age: u128,
    max_size: u64,
    tally: Tally,
    phase: CleanPhase,
    pos: usize,
    pending: Option<usize>,
}

impl CleanPlan {
    #[verifier::type_invariant]
    closed spec fn wf(self) -> bool {
        &&& sorted_order(self.files@, self.order@)
        &&& self.tally.removed@.len() == self.files@.len()
        &&& self.tally.total + flagged_size(self.files@, self.tally.removed@) == total_size(self.files@)
        &&& self.tally.result.bytes_freed == flagged_size(self.files@, self.tally.removed@)
        &&& self.tally.result.files_removed == flagged_count(self.tally.removed@)
        &&& self.pos <= self.files@.len()
        &&& (self.pending matches Some(i) ==> i < self.files@.len() && !self.tally.removed@[i as int])
        &&& total_size(self.files@) <= u64::MAX
    }

    /// The files of the directory.
    pub closed spec fn files_of(&self) -> Seq<CacheFile> {
        self.files@
    }

    /// The size of what remains.
    pub closed spec fn remaining(&self) -> nat {
        self.tally.total as nat
    }

    /// What has been removed so far.
    pub closed spec fn cleaned(&self) -> CacheCleanResult {
        self.tally.result
    }

    pub closed spec fn limit(&self) -> u64 {
        self.max_size
    }

    pub closed spec fn is_waiting(&self) -> bool {
        self.pending is Some
    }

    pub closed spec fn phase_of(&self) -> CleanPhase {
        self.phase
    }

    /// The files' indices in the cleaning order.
    pub closed spec fn order_of(&self) -> Seq<usize> {
        self.order@
    }

    /// How far along the order the current phase has got.
    pub closed spec fn position(&self) -> int {
        self.pos as int
    }

    /// Which files have been removed.
    pub closed spec fn removed_flags(&self) -> Seq<bool> {
        self.tally.removed@
    }

    /// The file whose removal is to be reported, if any.
    pub closed spec fn waiting_for(&self) -> Option<usize> {
        self.pending
    }

    /// File `i` goes in the age phase: it has expired and is still there.
    pub open spec fn goes_for_age(&self, i: int) -> bool {
        self.expired(i) && !self.removed_flags()[i]
    }

    /// No file at positions `from..` of the order goes for its age.
    pub open spec fn none_expired_from(&self, from: int) -> bool {
        forall|q: int| from <= q < self.order_of().len() ==> !#[trigger] self.goes_for_age(self.order_of()[q] as int)
    }

    /// Every file at positions `from..to` of the order has been removed.
    pub open spec fn all_removed_between(&self, from: int, to: int) -> bool {
        forall|q: int| from <= q < to ==> #[trigger] self.removed_flags()[self.order_of()[q] as int]
    }

    /// Whether a file is old enough to go: its age is known (it is not from
    /// the future) and exceeds the maximum.
    pub closed spec fn expired(&self, i: int) -> bool {
        self.now >= self.files@[i].modified && self.now - self.files@[i].modified > self.max_age
    }

    /// A plan for the files found (in the order found), the current time,
    /// the maximum age (both in nanoseconds) and the size limit in bytes.
    pub fn new(files: Vec<CacheFile>, now: u128, max_age: u128, max_size: u64) -> (p: Self)
        requires
            total_size(files@) <= u64::MAX,
        ensures
            p.files_of() == files@,
            p.remaining() == total_size(files@),
            p.cleaned() == (CacheCleanResult { files_removed: 0, bytes_freed: 0 }),
            p.limit() == max_size,
            !p.is_waiting(),
            p.phase_of() == CleanPhase::Age,
            p.position() == 0,
            sorted_order(files@, p.order_of()),
            p.order_of().to_multiset() == Seq::new(files@.len(), |i: int| i as usize).to_multiset(),
            p.removed_flags() == Seq::new(files@.len(), |i: int| false),
    {
        let order = sort_by_age(&files);
        let total = sum_sizes(&files);
        let mut removed: Vec<bool> = Vec::new();
        let mut i: usize = 0;
        while i < files.len()
            invariant
                i <= files@.len(),
                removed@.len() == i,
                forall|j: int| 0 <= j < i ==> !removed@[j],
            decreases files@.len() - i,
        {
            removed.push(false);
            i += 1;
        }
        proof {
            lemma_flagged_none(files@, removed@);
            assert(removed@ =~= Seq::new(files@.len(), |i: int| false));
        }
        CleanPlan {
            files,
            order,
            now,
            max_age,
            max_size,
            tally: Tally { removed, total, result: CacheCleanResult { files_removed: 0, bytes_freed: 0 } },
            phase: CleanPhase::Age,
            pos: 0,
            pending: None,
        }
    }

    /// Whether a report on a removal is awaited.
    pub fn awaiting(&self) -> (b: bool)
        ensures
            b == self.is_waiting(),
    {
        self.pending.is_some()
    }

    /// The next thing to do. In the age phase, each file (oldest first) that
    /// has expired and is still there is to be removed; then, while the
    /// remaining size is over the limit, each file not yet removed (oldest
    /// first), if it is still there. A file whose removal failed is not
    /// offered again in the same phase.
    pub fn next(&mut self) -> (s: CleanStep)
        requires
            !old(self).is_waiting(),
        ensures
            final(self).files_of() == old(self).files_of(),
            final(self).remaining() == old(self).remaining(),
            final(self).cleaned() == old(self).cleaned(),
            final(self).limit() == old(self).limit(),
            final(self).order_of() == old(self).order_of(),
            final(self).removed_flags() == old(self).removed_flags(),
            sorted_order(final(self).files_of(), final(self).order_of()),
            final(self).removed_flags().len() == final(self).files_of().len(),
            match s {
                CleanStep::Remove { index, check_exists } => {
                    &&& final(self).is_waiting()
                    &&& final(self).waiting_for() == Some(index)
                    &&& index < final(self).files_of().len()
                    &&& 0 < final(self).position() <= final(self).files_of().len()
                    &&& old(self).order_of()[final(self).position() - 1] == index
                    &&& !old(self).removed_flags()[index as int]
                    &&& (!check_exists ==> {
                        &&& old(self).phase_of() == CleanPhase::Age
                        &&& final(self).phase_of() == CleanPhase::Age
                        &&& old(self).position() < final(self).position()
                        &&& old(self).goes_for_age(index as int)
                        &&& forall|q: int| old(self).position() <= q < final(self).position() - 1
                            ==> !#[trigger] old(self).goes_for_age(old(self).order_of()[q] as int)
                    })
                    &&& (check_exists ==> {
                        &&& final(self).phase_of() == CleanPhase::Size
                        &&& old(self).remaining() > old(self).limit()
                        &&& (old(self).phase_of() == CleanPhase::Age ==> old(self).none_expired_from(
                            old(self).position(),
                        ) && old(self).all_removed_between(0, final(self).position() - 1))
                        &&& (old(self).phase_of() == CleanPhase::Size ==> old(self).position() < final(self).position() && old(self).all_removed_between(
                            old(self).position(),
                            final(self).position() - 1,
                        ))
                    })
                },
                CleanStep::Done => {
                    &&& !final(self).is_waiting()
                    &&& final(self).phase_of() == CleanPhase::Finished
                    &&& (old(self).phase_of() == CleanPhase::Age ==> old(self).none_expired_from(
                        old(self).position(),
                    ) && (old(self).remaining() <= old(self).limit() || old(self).all_removed_between(
                        0,
                        old(self).files_of().len() as int,
                    )))
                    &&& (old(self).phase_of() == CleanPhase::Size ==> old(self).remaining() <= old(self).limit() || old(self).all_removed_between(
                        old(self).position(),
                        old(self).files_of().len() as int,
                    ))
                },
            },
    {
        proof {
            use_type_invariant(&*self);
        }
        loop
            invariant
                sorted_order(self.files@, self.order@),
                self.tally.removed@.len() == self.files@.len(),
                self.tally.total + flagged_size(self.files@, self.tally.removed@) == total_size(self.files@),
                self.tally.result.bytes_freed == flagged_size(self.files@, self.tally.removed@),
                self.tally.result.files_removed == flagged_count(self.tally.removed@),
                self.pos <= self.files@.len(),
                self.pending is None,
                total_size(self.files@) <= u64::MAX,
                self.files@ == old(self).files@,
                self.tally.total == old(self).tally.total,
                self.tally.result == old(self).tally.result,
                self.max_size == old(self).max_size,
                self.now == old(self).now,
                self.max_age == old(self).max_age,
                self.order@ == old(self).order@,
                self.tally.removed@ == old(self).tally.removed@,
                self.phase == CleanPhase::Age ==> old(self).phase == CleanPhase::Age && old(self).pos <= self.pos
                    && forall|q: int| old(self).pos <= q < self.pos ==> !#[trigger] old(self).goes_for_age(
                    old(self).order@[q] as int,
                ),
                self.phase == CleanPhase::Size ==> (old(self).phase == CleanPhase::Size && old(self).pos <= self.pos
                    && old(self).all_removed_between(old(self).pos as int, self.pos as int)) || (old(self).phase
                    == CleanPhase::Age && old(self).none_expired_from(old(self).pos as int) && old(self).tally.total
                    > old(self).max_size && old(self).all_removed_between(0, self.pos as int)),
                self.phase == CleanPhase::Finished ==> old(self).phase == CleanPhase::Finished || (old(self).phase
                    == CleanPhase::Age && old(self).none_expired_from(old(self).pos as int) && old(self).tally.total
                    <= old(self).max_size),
            decreases (match self.phase {
                CleanPhase::Age => 2 * (self.files@.len() + 1),
                CleanPhase::Size => self.files@.len() + 1,
                CleanPhase::Finished => 0,
            }) + self.files@.len() - self.pos,
        {
            match self.phase {
                CleanPhase::Age => {
                    if self.pos < self.files.len() {
                        let i = self.order[self.pos];
                        let f = self.files[i];
                        self.pos = self.pos + 1;
                        if self.now >= f.modified && self.now - f.modified > self.max_age && !self.tally.removed[i] {
                            self.pending = Some(i);
                            return CleanStep::Remove { index: i, check_exists: false };
                        }
                    } else {
                        self.pos = 0;
                        if self.tally.total > self.max_size {
                            self.phase = CleanPhase::Size;
                        } else {
                            self.phase = CleanPhase::Finished;
                        }
                    }
                },
                CleanPhase::Size => {
                    if self.pos < self.files.len() && self.tally.total > self.max_size {
                        let i = self.order[self.pos];
                        self.pos = self.pos + 1;
                        if !self.tally.removed[i] {
                            self.pending = Some(i);
                            return CleanStep::Remove { index: i, check_exists: true };
                        }
                    } else {
                        self.phase = CleanPhase::Finished;
                        return CleanStep::Done;
                    }
                },
                CleanPhase::Finished => {
                    return CleanStep::Done;
                },
            }
        }
    }

    /// Reports whether the file last named was removed.
    pub fn report(&mut self, removed: bool)
        requires
            old(self).is_waiting(),
        ensures
            !final(self).is_waiting(),
            final(self).files_of() == old(self).files_of(),
            final(self).limit() == old(self).limit(),
            final(self).phase_of() == old(self).phase_of(),
            final(self).remaining() + final(self).cleaned().bytes_freed == old(self).remaining() + old(self).cleaned().bytes_freed,
            !removed ==> final(self).cleaned() == old(self).cleaned(),
            removed ==> final(self).cleaned().files_removed == old(self).cleaned().files_removed + 1,
            final(self).order_of() == old(self).order_of(),
            final(self).position() == old(self).position(),
            !removed ==> final(self).removed_flags() == old(self).removed_flags(),
            removed ==> (old(self).waiting_for() matches Some(i) && final(self).removed_flags()
                == old(self).removed_flags().update(i as int, true) && final(self).cleaned().bytes_freed
                == old(self).cleaned().bytes_freed + old(self).files_of()[i as int].size),
    {
        proof {
            use_type_invariant(&*self);
        }
        let i = match self.pending {
            Some(i) => i,
            None => {
                return;
            },
        };
        if removed {
            let size = self.files[i].size;
            let n = self.files.len();
            proof {
                lemma_flag_one(self.files@, self.tally.removed@, i as int);
                lemma_flagged_bounds(self.files@, self.tally.removed@.update(i as int, true));
                assert(self.tally.result.files_removed + 1 <= n);
            }
            let mut flags = copy_flags(&self.tally.removed);
            flags.set(i, true);
            let t = Tally {
                removed: flags,
                total: self.tally.total - size,
                result: CacheCleanResult {
                    files_removed: self.tally.result.files_removed + 1,
                    bytes_freed: self.tally.result.bytes_freed + size,
                },
            };
            self.pending = None;
            self.tally = t;
        } else {
            self.pending = None;
        }
    }

    /// What has been removed so far.
    pub fn result(&self) -> (r: CacheCleanResult)
        ensures
            r == self.cleaned(),
            r.bytes_freed + self.remaining() == total_size(self.files_of()),
    {
        proof {
            use_type_invariant(self);
        }
        self.tally.result
    }
}

fn copy_flags(v: &Vec<bool>) -> (r: Vec<bool>)
    ensures
        r@ == v@,
{
    let mut r: Vec<bool> = Vec::new();
    let mut i: usize = 0;
    while i < v.len()
        invariant
            i <= v@.len(),
            r@ == v@.take(i as int),
        decreases v@.len() - i,
    {
        r.push(v[i]);
        assert(v@.take(i + 1) =~= v@.take(i as int).push(v@[i as int]));
        i += 1;
    }
    assert(v@.take(v@.len() as int) =~= v@);
    r
}

proof fn lemma_flagged_none(files: Seq<CacheFile>, flags: Seq<bool>)
    requires
        flags.len() == files.len(),
        forall|j: int| 0 <= j < flags.len() ==> !flags[j],
    ensures
        flagged_size(files, flags) == 0,
        flagged_count(flags) == 0,
    decreases flags.len(),
{
    if flags.len() > 0 {
        lemma_flagged_none(files.drop_last(), flags.drop_last());
    }
}

/// The total size of the files.
fn sum_sizes(files: &Vec<CacheFile>) -> (t: u64)
    requires
        total_size(files@) <= u64::MAX,
    ensures
        t == total_size(files@),
{
    let mut t: u64 = 0;
    let mut i: usize = 0;
    while i < files.len()
        invariant
            i <= files@.len(),
            t == total_size(files@.take(i as int)),
            total_size(files@) <= u64::MAX,
        decreases files@.len() - i,
    {
        proof {
            assert(files@.take(i + 1).drop_last() =~= files@.take(i as int));
            lemma_total_prefix(files@, i + 1);
        }
        t = t + files[i].size;
        i += 1;
    }
    assert(files@.take(files@.len() as int) =~= files@);
    t
}

proof fn lemma_total_prefix(files: Seq<CacheFile>, k: int)
    requires
        0 <= k <= files.len(),
    ensures
        total_size(files.take(k)) <= total_size(files),
    decreases files.len() - k,
{
    if k < files.len() {
        lemma_total_prefix(files, k + 1);
        assert(files.take(k + 1).drop_last() =~= files.take(k));
    } else {
        assert(files.take(k) =~= files);
    }
}

/// The indices of the files sorted by the cleaning order (a stable sort by
/// modification time).
fn sort_by_age(files: &Vec<CacheFile>) -> (order: Vec<usize>)
    ensures
        sorted_order(files@, order@),
        order@.to_multiset() == Seq::new(files@.len(), |i: int| i as usize).to_multiset(),
{
    broadcast use vstd::seq_lib::group_to_multiset_ensures;
    let ghost all = Seq::new(files@.len(), |i: int| i as usize);
    let mut order: Vec<usize> = Vec::new();
    let mut n: usize = 0;
    while n < files.len()
        invariant
            n <= files@.len(),
            all == Seq::new(files@.len(), |i: int| i as usize),
            order@.len() == n,
            forall|i: int| 0 <= i < order@.len() ==> order@[i] < n,
            forall|i: int, j: int| 0 <= i < j < order@.len() ==> before(files@, order@[i] as int, order@[j] as int),
            order@.to_multiset() == all.take(n as int).to_multiset(),
        decreases files@.len() - n,
    {
        // n is the largest index so far: it goes after every file that is
        // not newer.
        let m = files[n].modified;
        let mut k: usize = order.len();
        while k > 0 && files[order[k - 1]].modified > m
            invariant
                k <= order@.len(),
                order@.len() == n,
                n < files@.len(),
                m == files@[n as int].modified,
                forall|i: int| 0 <= i < order@.len() ==> order@[i] < n,
                forall|j: int| k <= j < order@.len() ==> files@[order@[j] as int].modified > m,
            decreases k,
        {
            k -= 1;
        }
        proof {
            assert forall|j: int| 0 <= j < k implies before(files@, order@[j] as int, n as int) by {
                if k > 0 && j < k - 1 {
                    assert(before(files@, order@[j] as int, order@[k - 1] as int));
                }
            }
        }
        let ghost old_order = order@;
        order.insert(k, n);
        proof {
            vstd::seq_lib::to_multiset_insert(old_order, k as int, n);
            assert(all.take(n + 1) =~= all.take(n as int).push(n));
            vstd::seq_lib::to_multiset_build(all.take(n as int), n);
            assert forall|a: int, b: int| 0 <= a < b < order@.len() implies before(
                files@,
                order@[a] as int,
                order@[b] as int,
            ) by {
                if b < k {
                    assert(order@[a] == old_order[a] && order@[b] == old_order[b]);
                } else if b == k {
                    assert(order@[a] == old_order[a]);
                } else if a == k {
                    assert(order@[b] == old_order[b - 1]);
                } else if a < k {
                    assert(order@[a] == old_order[a] && order@[b] == old_order[b - 1]);
                } else {
                    assert(order@[a] == old_order[a - 1] && order@[b] == old_order[b - 1]);
                }
            }
        }
        n += 1;
    }
    assert(all.take(files@.len() as int) =~= all);
    order
}

} // verus!
