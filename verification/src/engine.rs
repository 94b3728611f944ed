//! The incremental-build engine.
//!
//! All decisions are pure functions over a snapshot of the on-disk state:
//! which freeze records exist and what they hold, which object files exist,
//! and whether the outlet exists.  From the snapshot the engine computes the
//! dirty set, the compile plan, the freeze updates that follow a pass, and
//! whether anything needs doing at all.  The binary around the library takes
//! the snapshot, spawns the planned compiles, and reports each exit status
//! back; nothing here touches the filesystem.

use vstd::prelude::*;

verus! {

use crate::clock::freeze_time_of;
use crate::file::is_header_path;
use crate::file::is_source_path;
use crate::section::Section;
use crate::section::edge;
use crate::section::in_list;
use crate::section::lemma_in_list_push;

/// A coherent snapshot of the on-disk build state of one (section, profile).
#[derive(Debug)]
pub struct BuildSnapshot {
    /// Per tracked file: the freeze time, where a readable record exists.
    pub frozen: Vec<Option<i64>>,
    /// Per tracked file: whether its expected object file exists.
    pub object_present: Vec<bool>,
    /// Whether the outlet artifact exists.
    pub outlet_present: bool,
}

impl BuildSnapshot {
    /// The snapshot covers `n` tracked files.
    pub open spec fn covers(self, n: int) -> bool {
        self.frozen@.len() == n && self.object_present@.len() == n
    }

    /// Build the snapshot from the raw freeze-record lines and the object
    /// probes, parsing each record.
    pub fn from_records(records: &Vec<Option<String>>, object_present: Vec<bool>, outlet_present: bool) -> (r:
        BuildSnapshot)
        requires
            records@.len() == object_present@.len(),
        ensures
            r.covers(records@.len() as int),
            r.object_present == object_present,
            r.outlet_present == outlet_present,
            forall|i: int|
                0 <= i < records@.len() ==> r.frozen@[i] == (match records@[i] {
                    Some(line) => freeze_time_of(line@),
                    None => None::<i64>,
                }),
    {
        let n = records.len();
        let mut frozen: Vec<Option<i64>> = Vec::new();
        let mut i: usize = 0;
        while i < n
            invariant
                i <= n,
                n == records@.len(),
                frozen@.len() == i,
                forall|k: int|
                    0 <= k < i ==> frozen@[k] == (match records@[k] {
                        Some(line) => freeze_time_of(line@),
                        None => None::<i64>,
                    }),
            decreases n - i,
        {
            match &records[i] {
                Some(line) => {
                    let t = crate::clock::parse_freeze_line(line.as_str());
                    frozen.push(t);
                },
                None => {
                    frozen.push(None);
                },
            }
            i = i + 1;
        }
        BuildSnapshot { frozen, object_present, outlet_present }
    }
}

/// The file changed after it was last frozen, or was never frozen.
pub open spec fn modified_at(s: Section, snap: BuildSnapshot, i: int) -> bool {
    s.files@[i].modified_given(snap.frozen@[i])
}

/// A source whose expected object file is gone counts as dirty whatever its
/// freshness, so partial cleanups rebuild.
pub open spec fn missing_object_at(s: Section, snap: BuildSnapshot, i: int) -> bool {
    is_source_path(s.files@[i].path@) && !snap.object_present@[i]
}

/// The dirty predicate: stale, or a source without its object.
pub open spec fn dirty_at(s: Section, snap: BuildSnapshot, i: int) -> bool {
    modified_at(s, snap, i) || missing_object_at(s, snap, i)
}

/// Some tracked file is dirty.
pub open spec fn some_dirty(s: Section, snap: BuildSnapshot) -> bool {
    exists|i: int| 0 <= i < s.n() && dirty_at(s, snap, i)
}

/// The stale files among the first `n`, in index order.
pub open spec fn modified_prefix(s: Section, snap: BuildSnapshot, n: int) -> Seq<usize>
    decreases n,
{
    if n <= 0 {
        Seq::empty()
    } else {
        modified_prefix(s, snap, n - 1) + if modified_at(s, snap, n - 1) {
            seq![(n - 1) as usize]
        } else {
            Seq::empty()
        }
    }
}

/// The object-less sources among the first `n`, in index order.
pub open spec fn missing_prefix(s: Section, snap: BuildSnapshot, n: int) -> Seq<usize>
    decreases n,
{
    if n <= 0 {
        Seq::empty()
    } else {
        missing_prefix(s, snap, n - 1) + if missing_object_at(s, snap, n - 1) {
            seq![(n - 1) as usize]
        } else {
            Seq::empty()
        }
    }
}

/// What makes a file a candidate when the dirty file `m` is processed: only
/// sources compile, and a file that is itself stale waits for its own turn.
pub open spec fn plan_entry_ok(s: Section, snap: BuildSnapshot, m: int, e: int) -> bool {
    is_source_path(s.files@[e].path@) && (e == m || !modified_at(s, snap, e))
}

/// The compile plan as a set: the sources that some dirty file pulls in
/// through the reverse dependency map.
pub open spec fn in_plan(s: Section, snap: BuildSnapshot, e: int) -> bool {
    &&& 0 <= e < s.n()
    &&& exists|m: int|
        0 <= m < s.n() && dirty_at(s, snap, m) && edge(s.sources_of_dependency@, m, e)
            && plan_entry_ok(s, snap, m, e)
}

/// One queueing step: append the candidate when it is a source, not yet
/// queued, and not deferred to its own turn.
pub open spec fn plan_step(
    s: Section,
    snap: BuildSnapshot,
    acc: Seq<usize>,
    m: int,
    row: Seq<usize>,
) -> Seq<usize>
    decreases row.len(),
{
    if row.len() == 0 {
        acc
    } else {
        let e = row[0] as int;
        let acc2 = if !in_list(acc, e) && plan_entry_ok(s, snap, m, e) {
            acc.push(row[0])
        } else {
            acc
        };
        plan_step(s, snap, acc2, m, row.skip(1))
    }
}

/// The plan after the first `k` dirty files have been walked.
pub open spec fn plan_prefix(s: Section, snap: BuildSnapshot, dirty: Seq<usize>, k: int) -> Seq<
    usize,
>
    decreases k,
{
    if k <= 0 {
        Seq::empty()
    } else {
        plan_step(
            s,
            snap,
            plan_prefix(s, snap, dirty, k - 1),
            dirty[k - 1] as int,
            s.sources_of_dependency@[dirty[k - 1] as int]@,
        )
    }
}

/// The dirty set, as [`Section::dirty_set`] produces it.
pub open spec fn dirty_seq(s: Section, snap: BuildSnapshot) -> Seq<usize> {
    modified_prefix(s, snap, s.n()) + missing_prefix(s, snap, s.n())
}

/// The whole compile plan, in the order the scheduler queues it.
pub open spec fn plan_seq(s: Section, snap: BuildSnapshot) -> Seq<usize> {
    plan_prefix(s, snap, dirty_seq(s, snap), dirty_seq(s, snap).len() as int)
}

/// One compile of the pass landed on file `i` and succeeded.
pub open spec fn succeeded(plan: Seq<usize>, results: Seq<bool>, i: int) -> bool {
    exists|k: int| 0 <= k < plan.len() && plan[k] as int == i && results[k]
}

/// One compile of the pass landed on file `i` and failed.
pub open spec fn failed(plan: Seq<usize>, results: Seq<bool>, i: int) -> bool {
    exists|k: int| 0 <= k < plan.len() && plan[k] as int == i && !results[k]
}

/// No user of file `i` failed in this pass.  A header's freeze is justified
/// exactly when every translation unit depending on it was rebuilt against
/// it successfully — or was not touched at all.
pub open spec fn all_users_ok(s: Section, plan: Seq<usize>, results: Seq<bool>, i: int) -> bool {
    forall|j: int| edge(s.sources_of_dependency@, i, j) ==> !failed(plan, results, j)
}

/// The freeze record of file `i` after the pass: refreshed to `now` when its
/// own compile succeeded or every user of it survived, kept otherwise.
pub open spec fn next_frozen_at(
    s: Section,
    snap: BuildSnapshot,
    plan: Seq<usize>,
    results: Seq<bool>,
    now: i64,
    i: int,
) -> Option<i64> {
    if succeeded(plan, results, i) || all_users_ok(s, plan, results, i) {
        Some(now)
    } else {
        snap.frozen@[i]
    }
}

impl Section {
    /// The indices of the sources whose expected object file is missing.
    pub fn collect_missing_objects(&self, snap: &BuildSnapshot) -> (r: Vec<usize>)
        requires
            self.wf(),
            snap.covers(self.n()),
        ensures
            r@ == missing_prefix(*self, *snap, self.n()),
            forall|k: int|
                0 <= k < r@.len() ==> (r@[k] as int) < self.n() && missing_object_at(
                    *self,
                    *snap,
                    r@[k] as int,
                ),
            forall|i: int|
                0 <= i < self.n() && missing_object_at(*self, *snap, i) ==> in_list(r@, i),
    {
        let n = self.files.len();
        let mut r: Vec<usize> = Vec::new();
        let mut i: usize = 0;
        while i < n
            invariant
                i <= n,
                n == self.n(),
                self.wf(),
                snap.covers(self.n()),
                r@ == missing_prefix(*self, *snap, i as int),
                forall|k: int|
                    0 <= k < r@.len() ==> (r@[k] as int) < n && missing_object_at(
                        *self,
                        *snap,
                        r@[k] as int,
                    ),
                forall|b: int| 0 <= b < i && missing_object_at(*self, *snap, b) ==> in_list(r@, b),
            decreases n - i,
        {
            let ghost old_r = r@;
            if self.files[i].is_source() && !snap.object_present[i] {
                r.push(i);
            }
            proof {
                assert(r@ =~= missing_prefix(*self, *snap, i + 1));
                assert forall|b: int|
                    0 <= b < i + 1 && missing_object_at(*self, *snap, b) implies in_list(
                    r@,
                    b,
                ) by {
                    if r@ != old_r {
                        lemma_in_list_push(old_r, i, b);
                    }
                }
            }
            i = i + 1;
        }
        r
    }

    /// The dirty set: every stale file, then every source without its
    /// object.  The same index may appear twice; the plan deduplicates.
    pub fn dirty_set(&self, snap: &BuildSnapshot) -> (r: Vec<usize>)
        requires
            self.wf(),
            snap.covers(self.n()),
        ensures
            r@ == modified_prefix(*self, *snap, self.n()) + missing_prefix(
                *self,
                *snap,
                self.n(),
            ),
            forall|k: int|
                0 <= k < r@.len() ==> (r@[k] as int) < self.n() && dirty_at(
                    *self,
                    *snap,
                    r@[k] as int,
                ),
            forall|i: int| 0 <= i < self.n() && dirty_at(*self, *snap, i) ==> in_list(r@, i),
    {
        let n = self.files.len();
        let mut r: Vec<usize> = Vec::new();
        let mut i: usize = 0;
        while i < n
            invariant
                i <= n,
                n == self.n(),
                self.wf(),
                snap.covers(self.n()),
                r@ == modified_prefix(*self, *snap, i as int),
                forall|k: int|
                    0 <= k < r@.len() ==> (r@[k] as int) < n && dirty_at(*self, *snap, r@[k] as int),
                forall|b: int| 0 <= b < i && modified_at(*self, *snap, b) ==> in_list(r@, b),
            decreases n - i,
        {
            let ghost old_r = r@;
            if self.files[i].is_modified_given(snap.frozen[i]) {
                r.push(i);
            }
            proof {
                assert(r@ =~= modified_prefix(*self, *snap, i + 1));
                assert forall|b: int|
                    0 <= b < i + 1 && modified_at(*self, *snap, b) implies in_list(r@, b) by {
                    if r@ != old_r {
                        lemma_in_list_push(old_r, i, b);
                    }
                }
            }
            i = i + 1;
        }
        let missing = self.collect_missing_objects(snap);
        let ghost before_append = r@;
        let m = missing.len();
        let mut k: usize = 0;
        while k < m
            invariant
                k <= m,
                m == missing@.len(),
                n == self.n(),
                self.wf(),
                snap.covers(self.n()),
                forall|j: int|
                    0 <= j < missing@.len() ==> (missing@[j] as int) < n && missing_object_at(
                        *self,
                        *snap,
                        missing@[j] as int,
                    ),
                forall|j: int|
                    0 <= j < r@.len() ==> (r@[j] as int) < n && dirty_at(*self, *snap, r@[j] as int),
                r@ == before_append + missing@.take(k as int),
                forall|b: int| in_list(before_append, b) ==> in_list(r@, b),
                forall|j: int| 0 <= j < k ==> in_list(r@, missing@[j] as int),
            decreases m - k,
        {
            let ghost old_r = r@;
            r.push(missing[k]);
            proof {
                assert(r@ =~= before_append + missing@.take(k + 1));
                assert forall|b: int| in_list(old_r, b) || b == missing@[k as int] as int implies
                    in_list(r@, b) by {
                    lemma_in_list_push(old_r, missing@[k as int], b);
                }
                assert forall|j: int| 0 <= j < k + 1 implies in_list(r@, missing@[j] as int) by {
                    lemma_in_list_push(old_r, missing@[k as int], missing@[j] as int);
                }
            }
            k = k + 1;
        }
        proof {
            assert(missing@.take(m as int) =~= missing@);
            assert(r@ == modified_prefix(*self, *snap, self.n()) + missing_prefix(
                *self,
                *snap,
                self.n(),
            ));
            assert forall|i2: int| 0 <= i2 < self.n() && dirty_at(*self, *snap, i2) implies in_list(
                r@,
                i2,
            ) by {
                if modified_at(*self, *snap, i2) {
                    assert(in_list(before_append, i2));
                } else {
                    assert(missing_object_at(*self, *snap, i2));
                    assert(in_list(missing@, i2));
                    let j = choose|j: int|
                        0 <= j < missing@.len() && missing@[j] as int == i2;
                    assert(in_list(r@, missing@[j] as int));
                }
            }
        }
        r
    }

    /// The compile plan of one pass: walk the dirty files in order, and for
    /// each one every file that depends on it; queue the sources, once each,
    /// deferring a source that is itself stale to its own turn.
    pub fn compile_plan(&self, snap: &BuildSnapshot) -> (r: Vec<usize>)
        requires
            self.wf(),
            snap.covers(self.n()),
        ensures
            r@ == plan_seq(*self, *snap),
            forall|k: int|
                0 <= k < r@.len() ==> (r@[k] as int) < self.n() && in_plan(
                    *self,
                    *snap,
                    r@[k] as int,
                ),
            forall|e: int| 0 <= e < self.n() && in_plan(*self, *snap, e) ==> in_list(r@, e),
            forall|k1: int, k2: int| 0 <= k1 < k2 < r@.len() ==> r@[k1] != r@[k2],
    {
        let dirty = self.dirty_set(snap);
        let n = self.files.len();
        let mut queued: Vec<bool> = vec![false; n];
        let mut plan: Vec<usize> = Vec::new();
        let d = dirty.len();
        let mut di: usize = 0;
        while di < d
            invariant
                di <= d,
                d == dirty@.len(),
                n == self.n(),
                self.wf(),
                snap.covers(self.n()),
                queued@.len() == n,
                forall|k: int|
                    0 <= k < dirty@.len() ==> (dirty@[k] as int) < n && dirty_at(
                        *self,
                        *snap,
                        dirty@[k] as int,
                    ),
                forall|i: int| 0 <= i < n && dirty_at(*self, *snap, i) ==> in_list(dirty@, i),
                dirty@ == dirty_seq(*self, *snap),
                plan@ == plan_prefix(*self, *snap, dirty@, di as int),
                forall|b: int| 0 <= b < n ==> (queued@[b] <==> in_list(plan@, b)),
                forall|k: int|
                    0 <= k < plan@.len() ==> (plan@[k] as int) < n && in_plan(
                        *self,
                        *snap,
                        plan@[k] as int,
                    ),
                forall|k1: int, k2: int| 0 <= k1 < k2 < plan@.len() ==> plan@[k1] != plan@[k2],
                forall|k: int, e: int|
                    #![auto]
                    0 <= k < di && 0 <= e < n && edge(
                        self.sources_of_dependency@,
                        dirty@[k] as int,
                        e,
                    ) && plan_entry_ok(*self, *snap, dirty@[k] as int, e) ==> queued@[e],
            decreases d - di,
        {
            let m = dirty[di];
            let ghost row = self.sources_of_dependency@[m as int]@;
            proof {
                assert(row.skip(0) =~= row);
            }
            let row_len = self.sources_of_dependency[m].len();
            let mut uk: usize = 0;
            while uk < row_len
                invariant
                    uk <= row_len,
                    di < d,
                    d == dirty@.len(),
                    n == self.n(),
                    self.wf(),
                    snap.covers(self.n()),
                    queued@.len() == n,
                    m == dirty@[di as int],
                    (m as int) < n,
                    row == self.sources_of_dependency@[m as int]@,
                    row_len == row.len(),
                    dirty@ == dirty_seq(*self, *snap),
                    plan_step(*self, *snap, plan@, m as int, row.skip(uk as int)) == plan_prefix(
                        *self,
                        *snap,
                        dirty@,
                        di + 1,
                    ),
                    forall|k: int|
                        0 <= k < dirty@.len() ==> (dirty@[k] as int) < n && dirty_at(
                            *self,
                            *snap,
                            dirty@[k] as int,
                        ),
                    forall|i: int| 0 <= i < n && dirty_at(*self, *snap, i) ==> in_list(dirty@, i),
                    forall|b: int| 0 <= b < n ==> (queued@[b] <==> in_list(plan@, b)),
                    forall|k: int|
                        0 <= k < plan@.len() ==> (plan@[k] as int) < n && in_plan(
                            *self,
                            *snap,
                            plan@[k] as int,
                        ),
                    forall|k1: int, k2: int| 0 <= k1 < k2 < plan@.len() ==> plan@[k1] != plan@[k2],
                    forall|k: int, e: int|
                        #![auto]
                        0 <= k < di && 0 <= e < n && edge(
                            self.sources_of_dependency@,
                            dirty@[k] as int,
                            e,
                        ) && plan_entry_ok(*self, *snap, dirty@[k] as int, e) ==> queued@[e],
                    forall|j: int|
                        #![auto]
                        0 <= j < uk && plan_entry_ok(
                            *self,
                            *snap,
                            m as int,
                            self.sources_of_dependency@[m as int]@[j] as int,
                        ) ==> queued@[self.sources_of_dependency@[m as int]@[j] as int],
                decreases row_len - uk,
            {
                let e = self.sources_of_dependency[m][uk];
                let ghost rest = row.skip(uk as int);
                proof {
                    assert((e as int) < n);
                    assert(rest[0] == row[uk as int]);
                    assert(rest.skip(1) =~= row.skip(uk + 1));
                }
                let e_source = self.files[e].is_source();
                let e_fresh = e == m || !self.files[e].is_modified_given(snap.frozen[e]);
                if !queued[e] && e_source && e_fresh {
                    let ghost old_plan = plan@;
                    queued[e] = true;
                    plan.push(e);
                    proof {
                        assert(in_list(
                            self.sources_of_dependency@[m as int]@,
                            e as int,
                        )) by {
                            assert(self.sources_of_dependency@[m as int]@[uk as int] == e);
                        }
                        assert(edge(self.sources_of_dependency@, m as int, e as int));
                        assert(dirty_at(*self, *snap, m as int));
                        assert(plan_entry_ok(*self, *snap, m as int, e as int));
                        assert(in_plan(*self, *snap, e as int));
                        assert forall|b: int| 0 <= b < n implies (queued@[b] <==> in_list(
                            plan@,
                            b,
                        )) by {
                            lemma_in_list_push(old_plan, e, b);
                        }
                        assert forall|k1: int, k2: int|
                            0 <= k1 < k2 < plan@.len() implies plan@[k1] != plan@[k2] by {
                            if k2 == plan@.len() - 1 {
                                assert(in_list(old_plan, plan@[k1] as int)) by {
                                    assert(old_plan[k1] == plan@[k1]);
                                }
                            }
                        }
                    }
                }
                proof {
                    assert(plan_step(*self, *snap, plan@, m as int, row.skip(uk + 1))
                        == plan_prefix(*self, *snap, dirty@, di + 1));
                    assert forall|j: int|
                        #![auto]
                        0 <= j < uk + 1 && plan_entry_ok(
                            *self,
                            *snap,
                            m as int,
                            self.sources_of_dependency@[m as int]@[j] as int,
                        ) implies queued@[self.sources_of_dependency@[m as int]@[j] as int] by {}
                }
                uk = uk + 1;
            }
            proof {
                assert(row.skip(row_len as int) =~= Seq::<usize>::empty());
                assert(plan@ == plan_prefix(*self, *snap, dirty@, di + 1));
                assert forall|k: int, e: int|
                    #![auto]
                    0 <= k < di + 1 && 0 <= e < n && edge(
                        self.sources_of_dependency@,
                        dirty@[k] as int,
                        e,
                    ) && plan_entry_ok(*self, *snap, dirty@[k] as int, e) implies queued@[e] by {
                    if k == di {
                        let j = choose|j: int|
                            0 <= j < self.sources_of_dependency@[m as int]@.len()
                                && self.sources_of_dependency@[m as int]@[j] as int == e;
                    }
                }
            }
            di = di + 1;
        }
        proof {
            assert forall|e: int| 0 <= e < n && in_plan(*self, *snap, e) implies in_list(
                plan@,
                e,
            ) by {
                let m2 = choose|m2: int|
                    0 <= m2 < n && dirty_at(*self, *snap, m2) && edge(
                        self.sources_of_dependency@,
                        m2,
                        e,
                    ) && plan_entry_ok(*self, *snap, m2, e);
                assert(in_list(dirty@, m2));
                let k = choose|k: int| 0 <= k < dirty@.len() && dirty@[k] as int == m2;
                assert(queued@[e]);
            }
        }
        plan
    }

    /// The freeze store after a pass: a file whose compile succeeded, or all
    /// of whose users survived, is refreshed to `now`; everything else keeps
    /// its old record.
    pub fn next_frozen(&self, snap: &BuildSnapshot, plan: &Vec<usize>, results: &Vec<bool>, now: i64) -> (r:
        Vec<Option<i64>>)
        requires
            self.wf(),
            snap.covers(self.n()),
            plan@.len() == results@.len(),
            forall|k: int| 0 <= k < plan@.len() ==> (plan@[k] as int) < self.n(),
        ensures
            r@.len() == self.n(),
            forall|i: int|
                0 <= i < self.n() ==> r@[i] == next_frozen_at(
                    *self,
                    *snap,
                    plan@,
                    results@,
                    now,
                    i,
                ),
    {
        let n = self.files.len();
        let mut succ: Vec<bool> = vec![false; n];
        let mut fail: Vec<bool> = vec![false; n];
        let p = plan.len();
        let mut k: usize = 0;
        while k < p
            invariant
                k <= p,
                p == plan@.len(),
                p == results@.len(),
                n == self.n(),
                succ@.len() == n,
                fail@.len() == n,
                forall|k2: int| 0 <= k2 < p ==> (plan@[k2] as int) < n,
                forall|i: int|
                    0 <= i < n ==> (succ@[i] <==> exists|k2: int|
                        0 <= k2 < k && plan@[k2] as int == i && results@[k2]),
                forall|i: int|
                    0 <= i < n ==> (fail@[i] <==> exists|k2: int|
                        0 <= k2 < k && plan@[k2] as int == i && !results@[k2]),
            decreases p - k,
        {
            let idx = plan[k];
            if results[k] {
                succ[idx] = true;
            } else {
                fail[idx] = true;
            }
            proof {
                assert forall|i: int|
                    0 <= i < n implies (succ@[i] <==> exists|k2: int|
                    0 <= k2 < k + 1 && plan@[k2] as int == i && results@[k2]) by {
                    if succ@[i] {
                        if i == idx as int && results@[k as int] {
                            assert(plan@[k as int] as int == i && results@[k as int]);
                        }
                    }
                    if exists|k2: int| 0 <= k2 < k + 1 && plan@[k2] as int == i && results@[k2] {
                        let k2 = choose|k2: int|
                            0 <= k2 < k + 1 && plan@[k2] as int == i && results@[k2];
                        if k2 < k {
                            assert(exists|k3: int|
                                0 <= k3 < k && plan@[k3] as int == i && results@[k3]);
                        }
                    }
                }
                assert forall|i: int|
                    0 <= i < n implies (fail@[i] <==> exists|k2: int|
                    0 <= k2 < k + 1 && plan@[k2] as int == i && !results@[k2]) by {
                    if fail@[i] {
                        if i == idx as int && !results@[k as int] {
                            assert(plan@[k as int] as int == i && !results@[k as int]);
                        }
                    }
                    if exists|k2: int| 0 <= k2 < k + 1 && plan@[k2] as int == i && !results@[k2] {
                        let k2 = choose|k2: int|
                            0 <= k2 < k + 1 && plan@[k2] as int == i && !results@[k2];
                        if k2 < k {
                            assert(exists|k3: int|
                                0 <= k3 < k && plan@[k3] as int == i && !results@[k3]);
                        }
                    }
                }
            }
            k = k + 1;
        }
        let mut r: Vec<Option<i64>> = Vec::new();
        let mut i: usize = 0;
        while i < n
            invariant
                i <= n,
                n == self.n(),
                self.wf(),
                snap.covers(self.n()),
                p == plan@.len(),
                p == results@.len(),
                succ@.len() == n,
                fail@.len() == n,
                forall|b: int| 0 <= b < n ==> (succ@[b] <==> succeeded(plan@, results@, b)),
                forall|b: int| 0 <= b < n ==> (fail@[b] <==> failed(plan@, results@, b)),
                r@.len() == i,
                forall|b: int|
                    0 <= b < i ==> r@[b] == next_frozen_at(*self, *snap, plan@, results@, now, b),
            decreases n - i,
        {
            let mut users_ok = true;
            let row_len = self.sources_of_dependency[i].len();
            let mut j: usize = 0;
            while j < row_len
                invariant
                    j <= row_len,
                    i < n,
                    n == self.n(),
                    self.wf(),
                    fail@.len() == n,
                    p == plan@.len(),
                    p == results@.len(),
                    row_len == self.sources_of_dependency@[i as int]@.len(),
                    forall|b: int| 0 <= b < n ==> (fail@[b] <==> failed(plan@, results@, b)),
                    users_ok <==> forall|j2: int|
                        #![auto]
                        0 <= j2 < j ==> !failed(
                            plan@,
                            results@,
                            self.sources_of_dependency@[i as int]@[j2] as int,
                        ),
                decreases row_len - j,
            {
                let user = self.sources_of_dependency[i][j];
                proof {
                    assert((user as int) < n);
                }
                if fail[user] {
                    users_ok = false;
                }
                j = j + 1;
            }
            proof {
                assert(users_ok == all_users_ok(*self, plan@, results@, i as int)) by {
                    if users_ok {
                        assert forall|j2: int|
                            edge(self.sources_of_dependency@, i as int, j2) implies !failed(
                            plan@,
                            results@,
                            j2,
                        ) by {
                            let k2 = choose|k2: int|
                                0 <= k2 < self.sources_of_dependency@[i as int]@.len()
                                    && self.sources_of_dependency@[i as int]@[k2] as int == j2;
                        }
                    } else {
                        let j2 = choose|j2: int|
                            0 <= j2 < self.sources_of_dependency@[i as int]@.len() && failed(
                                plan@,
                                results@,
                                self.sources_of_dependency@[i as int]@[j2] as int,
                            );
                        assert(edge(
                            self.sources_of_dependency@,
                            i as int,
                            self.sources_of_dependency@[i as int]@[j2] as int,
                        )) by {
                            assert(in_list(
                                self.sources_of_dependency@[i as int]@,
                                self.sources_of_dependency@[i as int]@[j2] as int,
                            )) by {
                                assert(self.sources_of_dependency@[i as int]@[j2]
                                    == self.sources_of_dependency@[i as int]@[j2]);
                            }
                        }
                    }
                }
            }
            if succ[i] || users_ok {
                r.push(Some(now));
            } else {
                r.push(snap.frozen[i]);
            }
            i = i + 1;
        }
        r
    }

    /// A build pass has nothing to do when nothing is dirty and the outlet
    /// already exists.
    pub fn build_is_trivial(&self, snap: &BuildSnapshot) -> (r: bool)
        requires
            self.wf(),
            snap.covers(self.n()),
        ensures
            r == (!some_dirty(*self, *snap) && snap.outlet_present),
    {
        if !snap.outlet_present {
            return false;
        }
        let dirty = self.dirty_set(snap);
        if dirty.len() == 0 {
            proof {
                if some_dirty(*self, *snap) {
                    let i = choose|i: int| 0 <= i < self.n() && dirty_at(*self, *snap, i);
                    assert(in_list(dirty@, i));
                }
            }
            true
        } else {
            proof {
                assert(dirty_at(*self, *snap, dirty@[0] as int));
            }
            false
        }
    }
}

/// Whether every compile of the pass succeeded.
pub fn all_succeeded(results: &Vec<bool>) -> (r: bool)
    ensures
        r == forall|k: int| 0 <= k < results@.len() ==> results@[k],
{
    let n = results.len();
    let mut k: usize = 0;
    while k < n
        invariant
            k <= n,
            n == results@.len(),
            forall|j: int| 0 <= j < k ==> results@[j],
        decreases n - k,
    {
        if !results[k] {
            return false;
        }
        k = k + 1;
    }
    true
}

/// Every tracked file stands in its own dependency list, so a change to a
/// source always schedules that source itself.
pub proof fn lemma_file_in_own_dependencies(s: Section, i: int)
    requires
        s.wf(),
        0 <= i < s.n(),
    ensures
        edge(s.dependencies_of_source@, i, i),
        edge(s.sources_of_dependency@, i, i),
{
}

/// A compiled file's freeze record follows its compile alone: success
/// refreshes the record to the pass's time, failure leaves the old record in
/// place.
pub proof fn lemma_freeze_follows_success(
    s: Section,
    snap: BuildSnapshot,
    plan: Seq<usize>,
    results: Seq<bool>,
    now: i64,
    k: int,
)
    requires
        s.wf(),
        snap.covers(s.n()),
        plan.len() == results.len(),
        forall|k2: int| 0 <= k2 < plan.len() ==> (plan[k2] as int) < s.n(),
        forall|k1: int, k2: int| 0 <= k1 < k2 < plan.len() ==> plan[k1] != plan[k2],
        0 <= k < plan.len(),
    ensures
        results[k] ==> next_frozen_at(s, snap, plan, results, now, plan[k] as int) == Some(now),
        !results[k] ==> next_frozen_at(s, snap, plan, results, now, plan[k] as int)
            == snap.frozen@[plan[k] as int],
{
    let i = plan[k] as int;
    if results[k] {
        assert(succeeded(plan, results, i)) by {
            assert(plan[k] as int == i && results[k]);
        }
    } else {
        assert(!succeeded(plan, results, i)) by {
            if succeeded(plan, results, i) {
                let k2 = choose|k2: int|
                    0 <= k2 < plan.len() && plan[k2] as int == i && results[k2];
                assert(k2 == k);
            }
        }
        assert(failed(plan, results, i)) by {
            assert(plan[k] as int == i && !results[k]);
        }
        assert(!all_users_ok(s, plan, results, i)) by {
            lemma_file_in_own_dependencies(s, i);
        }
    }
}

/// When every compile of a pass succeeded, every tracked file's freeze
/// record is refreshed to the pass's time — headers included.
pub proof fn lemma_success_freezes_all(
    s: Section,
    snap: BuildSnapshot,
    plan: Seq<usize>,
    results: Seq<bool>,
    now: i64,
    i: int,
)
    requires
        s.wf(),
        snap.covers(s.n()),
        plan.len() == results.len(),
        forall|k: int| 0 <= k < plan.len() ==> results[k],
        0 <= i < s.n(),
    ensures
        next_frozen_at(s, snap, plan, results, now, i) == Some(now),
{
    assert(all_users_ok(s, plan, results, i)) by {
        assert forall|j: int| edge(s.sources_of_dependency@, i, j) implies !failed(
            plan,
            results,
            j,
        ) by {
            if failed(plan, results, j) {
                let k = choose|k: int| 0 <= k < plan.len() && plan[k] as int == j && !results[k];
            }
        }
    }
}

/// After a pass in which every planned compile succeeded, every source has
/// its object file: it either had one already, or its compile was in the
/// plan and went through.
pub proof fn lemma_success_gives_objects(
    s: Section,
    snap: BuildSnapshot,
    plan: Seq<usize>,
    results: Seq<bool>,
    i: int,
)
    requires
        s.wf(),
        snap.covers(s.n()),
        plan.len() == results.len(),
        forall|e: int| 0 <= e < s.n() && in_plan(s, snap, e) ==> in_list(plan, e),
        forall|k: int| 0 <= k < plan.len() ==> results[k],
        0 <= i < s.n(),
        is_source_path(s.files@[i].path@),
    ensures
        snap.object_present@[i] || succeeded(plan, results, i),
{
    if !snap.object_present@[i] {
        assert(dirty_at(s, snap, i));
        lemma_file_in_own_dependencies(s, i);
        assert(plan_entry_ok(s, snap, i, i));
        assert(in_plan(s, snap, i)) by {
            assert(dirty_at(s, snap, i) && edge(s.sources_of_dependency@, i, i) && plan_entry_ok(
                s,
                snap,
                i,
                i,
            ));
        }
        assert(in_list(plan, i));
        let k = choose|k: int| 0 <= k < plan.len() && plan[k] as int == i;
        assert(results[k]);
        assert(succeeded(plan, results, i));
    }
}

/// Steady state: when every freeze record reads the pass's time, no file was
/// edited after it, every source has its object and the outlet exists, then
/// nothing is dirty and nothing is planned — a second build right after a
/// successful one compiles nothing and links nothing.
pub proof fn lemma_second_build_is_trivial(s: Section, snap: BuildSnapshot, now: i64)
    requires
        s.wf(),
        snap.covers(s.n()),
        forall|i: int| 0 <= i < s.n() ==> snap.frozen@[i] == Some(now),
        forall|i: int| 0 <= i < s.n() ==> s.files@[i].mtime() <= now,
        forall|i: int|
            0 <= i < s.n() && is_source_path(s.files@[i].path@) ==> snap.object_present@[i],
        snap.outlet_present,
    ensures
        !some_dirty(s, snap),
        forall|e: int| !in_plan(s, snap, e),
{
    assert forall|i: int| 0 <= i < s.n() implies !dirty_at(s, snap, i) by {
        assert(snap.frozen@[i] == Some(now));
        assert(!s.files@[i].modified_given(Some(now)));
    }
    assert forall|e: int| !in_plan(s, snap, e) by {
        if in_plan(s, snap, e) {
            let m = choose|m: int|
                0 <= m < s.n() && dirty_at(s, snap, m) && edge(s.sources_of_dependency@, m, e)
                    && plan_entry_ok(s, snap, m, e);
        }
    }
}

proof fn lemma_modified_prefix_empty(s: Section, snap: BuildSnapshot, n: int)
    requires
        forall|i: int| 0 <= i < n ==> !modified_at(s, snap, i),
    ensures
        modified_prefix(s, snap, n) == Seq::<usize>::empty(),
    decreases n,
{
    if n > 0 {
        lemma_modified_prefix_empty(s, snap, n - 1);
        assert(modified_prefix(s, snap, n) =~= Seq::<usize>::empty());
    }
}

proof fn lemma_missing_prefix_empty(s: Section, snap: BuildSnapshot, n: int)
    requires
        forall|i: int| 0 <= i < n ==> !missing_object_at(s, snap, i),
    ensures
        missing_prefix(s, snap, n) == Seq::<usize>::empty(),
    decreases n,
{
    if n > 0 {
        lemma_missing_prefix_empty(s, snap, n - 1);
        assert(missing_prefix(s, snap, n) =~= Seq::<usize>::empty());
    }
}

/// Running `build` twice is the same as running it once: when a pass
/// succeeds throughout, and the next snapshot holds exactly the freeze
/// records that pass wrote, the objects it left and its outlet, and no file
/// was edited after the pass's time, then the second pass finds nothing
/// dirty and plans no compile at all.
pub proof fn lemma_build_idempotent(
    s: Section,
    snap1: BuildSnapshot,
    plan: Seq<usize>,
    results: Seq<bool>,
    now: i64,
    snap2: BuildSnapshot,
)
    requires
        s.wf(),
        snap1.covers(s.n()),
        snap2.covers(s.n()),
        plan.len() == results.len(),
        forall|k: int| 0 <= k < plan.len() ==> results[k],
        forall|i: int|
            0 <= i < s.n() ==> snap2.frozen@[i] == next_frozen_at(s, snap1, plan, results, now, i),
        forall|i: int| 0 <= i < s.n() ==> s.files@[i].mtime() <= now,
        forall|i: int|
            0 <= i < s.n() && is_source_path(s.files@[i].path@) ==> snap2.object_present@[i],
        snap2.outlet_present,
    ensures
        !some_dirty(s, snap2),
        forall|e: int| !in_plan(s, snap2, e),
        plan_seq(s, snap2) == Seq::<usize>::empty(),
{
    assert forall|i: int| 0 <= i < s.n() implies snap2.frozen@[i] == Some(now) by {
        lemma_success_freezes_all(s, snap1, plan, results, now, i);
    }
    lemma_second_build_is_trivial(s, snap2, now);
    lemma_modified_prefix_empty(s, snap2, s.n());
    lemma_missing_prefix_empty(s, snap2, s.n());
    assert(dirty_seq(s, snap2) =~= Seq::<usize>::empty());
}

/// The timestamp half of the object/freeze agreement.  After a fully
/// successful pass every dependency's freeze record reads the pass's time,
/// so a source's object file is at least as new as the record of every
/// dependency of that source exactly when the object carries a timestamp at
/// or after that time — which the `requires` assumes of the pass's objects.
/// The store writes its records after the compiles have finished, so an
/// object written in an earlier wall-clock second than the records is the
/// input this statement must leave out.
pub proof fn lemma_objects_not_older_than_freezes(
    s: Section,
    snap: BuildSnapshot,
    plan: Seq<usize>,
    results: Seq<bool>,
    now: i64,
    object_mtime: Seq<i64>,
    i: int,
    d: int,
)
    requires
        s.wf(),
        snap.covers(s.n()),
        plan.len() == results.len(),
        forall|k: int| 0 <= k < plan.len() ==> results[k],
        object_mtime.len() == s.n(),
        forall|k: int|
            0 <= k < s.n() && is_source_path(s.files@[k].path@) ==> object_mtime[k] >= now,
        0 <= i < s.n(),
        is_source_path(s.files@[i].path@),
        0 <= d < s.n(),
        edge(s.dependencies_of_source@, i, d),
    ensures
        next_frozen_at(s, snap, plan, results, now, d) matches Some(t) && object_mtime[i] >= t,
{
    lemma_success_freezes_all(s, snap, plan, results, now, d);
}

/// When only headers are dirty, the plan is exactly the sources that include
/// one of them: a dirty set of headers compiles all their includers.
pub proof fn lemma_header_dirt_recompiles_includers(s: Section, snap: BuildSnapshot, e: int)
    requires
        s.wf(),
        snap.covers(s.n()),
        forall|m: int|
            0 <= m < s.n() && dirty_at(s, snap, m) ==> is_header_path(s.files@[m].path@),
    ensures
        in_plan(s, snap, e) <==> (0 <= e < s.n() && is_source_path(s.files@[e].path@) && exists|
            m: int,
        | 0 <= m < s.n() && dirty_at(s, snap, m) && edge(s.sources_of_dependency@, m, e)),
{
    if in_plan(s, snap, e) {
        let m = choose|m: int|
            0 <= m < s.n() && dirty_at(s, snap, m) && edge(s.sources_of_dependency@, m, e)
                && plan_entry_ok(s, snap, m, e);
        assert(0 <= m < s.n() && dirty_at(s, snap, m) && edge(s.sources_of_dependency@, m, e));
    }
    if 0 <= e < s.n() && is_source_path(s.files@[e].path@) && exists|m: int|
        0 <= m < s.n() && dirty_at(s, snap, m) && edge(s.sources_of_dependency@, m, e) {
        let m = choose|m: int|
            0 <= m < s.n() && dirty_at(s, snap, m) && edge(s.sources_of_dependency@, m, e);
        if modified_at(s, snap, e) {
            assert(dirty_at(s, snap, e));
            assert(is_header_path(s.files@[e].path@));
            crate::file::lemma_source_header_disjoint(s.files@[e].path@);
        }
        assert(plan_entry_ok(s, snap, m, e));
        assert(in_plan(s, snap, e));
    }
}

} // verus!
