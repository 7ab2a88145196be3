//! The scheduler's job registry: named, cron-timed jobs, at most one per
//! name.
//!
//! The registry is the one piece of shared mutable state in the system.
//! Its abstract value is a map from job name to the job's definition
//! (cron expression and thresholds); adding under an existing name
//! replaces the definition, and cancelling an absent name changes
//! nothing.  Timer plumbing lives outside the library: it mirrors this
//! registry and fires the jobs it holds.

use vstd::prelude::*;

use crate::byteseq::bytes_eq;
use crate::byteseq::copy_bytes;
use crate::thresholds::ThresholdSet;

verus! {

/// One named job: when its cron expression fires, a recipe run is
/// evaluated against these thresholds.
pub struct ScheduledJob {
    pub name: Vec<u8>,
    pub cron: Vec<u8>,
    pub thresholds: ThresholdSet,
}

/// What the registry records about a job: its cron expression and its
/// thresholds.
pub type JobDef = (Seq<u8>, ThresholdSet);

/// The definition a job contributes to the registry's abstract map.
pub open spec fn job_def(j: ScheduledJob) -> JobDef {
    (j.cron@, j.thresholds)
}

pub open spec fn names_distinct(s: Seq<ScheduledJob>) -> bool {
    forall|i: int, j: int|
        #![trigger s[i], s[j]]
        0 <= i < s.len() && 0 <= j < s.len() && i != j ==> s[i].name@ != s[j].name@
}

pub open spec fn seq_contains_name(s: Seq<ScheduledJob>, k: Seq<u8>) -> bool {
    exists|i: int| 0 <= i < s.len() && #[trigger] s[i].name@ == k
}

pub open spec fn seq_index_of(s: Seq<ScheduledJob>, k: Seq<u8>) -> int {
    choose|i: int| 0 <= i < s.len() && #[trigger] s[i].name@ == k
}

/// The abstract value of a job list: its definitions keyed by name.
pub open spec fn map_of(s: Seq<ScheduledJob>) -> Map<Seq<u8>, JobDef> {
    Map::new(
        |k: Seq<u8>| seq_contains_name(s, k),
        |k: Seq<u8>| job_def(s[seq_index_of(s, k)]),
    )
}

/// How many entries of `s` carry the name `k`.
pub open spec fn count_name(s: Seq<ScheduledJob>, k: Seq<u8>) -> nat
    decreases s.len(),
{
    if s.len() == 0 {
        0
    } else {
        (if s[0].name@ == k {
            1nat
        } else {
            0nat
        }) + count_name(s.drop_first(), k)
    }
}

/// In a list with distinct names, the index of any entry named `k` is
/// the index `seq_index_of` picks.
proof fn lemma_index_of_unique(s: Seq<ScheduledJob>, k: Seq<u8>, i: int)
    requires
        names_distinct(s),
        0 <= i < s.len(),
        s[i].name@ == k,
    ensures
        seq_contains_name(s, k),
        seq_index_of(s, k) == i,
{
    assert(seq_contains_name(s, k));
    let j = seq_index_of(s, k);
    assert(0 <= j < s.len() && s[j].name@ == k);
}

/// Replacing the entry at `i` with one carrying the same name updates the
/// abstract map at that name and nothing else.
proof fn lemma_map_after_update(s: Seq<ScheduledJob>, i: int, j: ScheduledJob)
    requires
        names_distinct(s),
        0 <= i < s.len(),
        s[i].name@ == j.name@,
    ensures
        names_distinct(s.update(i, j)),
        map_of(s.update(i, j)) == map_of(s).insert(j.name@, job_def(j)),
{
    let s1 = s.update(i, j);
    assert forall|a: int, b: int|
        #![trigger s1[a], s1[b]]
        0 <= a < s1.len() && 0 <= b < s1.len() && a != b implies s1[a].name@ != s1[b].name@ by {
        assert(s[a].name@ != s[b].name@);
    }
    assert(map_of(s1) =~= map_of(s).insert(j.name@, job_def(j))) by {
        assert forall|k: Seq<u8>| seq_contains_name(s1, k) implies map_of(s).insert(
            j.name@,
            job_def(j),
        ).contains_key(k) && map_of(s1)[k] == map_of(s).insert(j.name@, job_def(j))[k] by {
            let w = choose|n: int| 0 <= n < s1.len() && #[trigger] s1[n].name@ == k;
            if k == j.name@ {
                lemma_index_of_unique(s1, k, i);
            } else {
                assert(w != i);
                assert(s1[w] == s[w]);
                lemma_index_of_unique(s1, k, w);
                lemma_index_of_unique(s, k, w);
            }
        }
        assert forall|k: Seq<u8>| map_of(s).insert(j.name@, job_def(j)).contains_key(
            k,
        ) implies seq_contains_name(s1, k) by {
            if k == j.name@ {
                assert(s1[i].name@ == k);
            } else {
                let w = choose|n: int| 0 <= n < s.len() && #[trigger] s[n].name@ == k;
                assert(w != i);
                assert(s1[w].name@ == k);
            }
        }
    }
}

/// Appending an entry under a fresh name extends the abstract map at that
/// name and nothing else.
proof fn lemma_map_after_push(s: Seq<ScheduledJob>, j: ScheduledJob)
    requires
        names_distinct(s),
        !seq_contains_name(s, j.name@),
    ensures
        names_distinct(s.push(j)),
        map_of(s.push(j)) == map_of(s).insert(j.name@, job_def(j)),
{
    let s1 = s.push(j);
    assert forall|a: int, b: int|
        #![trigger s1[a], s1[b]]
        0 <= a < s1.len() && 0 <= b < s1.len() && a != b implies s1[a].name@ != s1[b].name@ by {
        if a < s.len() && b < s.len() {
            assert(s[a].name@ != s[b].name@);
        } else if a < s.len() {
            assert(s1[b] == j);
            assert(s[a].name@ != j.name@);
        } else {
            assert(s1[a] == j);
            assert(s[b].name@ != j.name@);
        }
    }
    assert(map_of(s1) =~= map_of(s).insert(j.name@, job_def(j))) by {
        assert forall|k: Seq<u8>| seq_contains_name(s1, k) implies map_of(s).insert(
            j.name@,
            job_def(j),
        ).contains_key(k) && map_of(s1)[k] == map_of(s).insert(j.name@, job_def(j))[k] by {
            let w = choose|n: int| 0 <= n < s1.len() && #[trigger] s1[n].name@ == k;
            if k == j.name@ {
                lemma_index_of_unique(s1, k, s.len() as int);
            } else {
                assert(w != s.len());
                assert(s1[w] == s[w]);
                lemma_index_of_unique(s1, k, w);
                lemma_index_of_unique(s, k, w);
            }
        }
        assert forall|k: Seq<u8>| map_of(s).insert(j.name@, job_def(j)).contains_key(
            k,
        ) implies seq_contains_name(s1, k) by {
            if k == j.name@ {
                assert(s1[s.len() as int].name@ == k);
            } else {
                let w = choose|n: int| 0 <= n < s.len() && #[trigger] s[n].name@ == k;
                assert(s1[w].name@ == k);
            }
        }
    }
}

/// Removing the entry at `i` removes exactly its name from the abstract
/// map.
proof fn lemma_map_after_remove(s: Seq<ScheduledJob>, i: int)
    requires
        names_distinct(s),
        0 <= i < s.len(),
    ensures
        names_distinct(s.remove(i)),
        map_of(s.remove(i)) == map_of(s).remove(s[i].name@),
{
    let s1 = s.remove(i);
    let k0 = s[i].name@;
    assert forall|a: int, b: int|
        #![trigger s1[a], s1[b]]
        0 <= a < s1.len() && 0 <= b < s1.len() && a != b implies s1[a].name@ != s1[b].name@ by {
        let a0: int = if a < i {
            a
        } else {
            a + 1
        };
        let b0: int = if b < i {
            b
        } else {
            b + 1
        };
        assert(s1[a] == s[a0]);
        assert(s1[b] == s[b0]);
        assert(s[a0].name@ != s[b0].name@);
    }
    assert(map_of(s1) =~= map_of(s).remove(k0)) by {
        assert forall|k: Seq<u8>| seq_contains_name(s1, k) implies map_of(s).remove(
            k0,
        ).contains_key(k) && map_of(s1)[k] == map_of(s).remove(k0)[k] by {
            let w = choose|n: int| 0 <= n < s1.len() && #[trigger] s1[n].name@ == k;
            let w0: int = if w < i {
                w
            } else {
                w + 1
            };
            assert(s1[w] == s[w0]);
            assert(w0 != i ==> s[w0].name@ != k0) by {
                if w0 != i {
                    assert(s[w0].name@ != s[i].name@);
                }
            }
            lemma_index_of_unique(s1, k, w);
            lemma_index_of_unique(s, k, w0);
        }
        assert forall|k: Seq<u8>| map_of(s).remove(k0).contains_key(k) implies seq_contains_name(
            s1,
            k,
        ) by {
            let w = choose|n: int| 0 <= n < s.len() && #[trigger] s[n].name@ == k;
            assert(w != i);
            let w1: int = if w < i {
                w
            } else {
                w - 1
            };
            assert(s1[w1] == s[w]);
            assert(s1[w1].name@ == k);
        }
    }
}

/// A name that occurs nowhere in the list is counted zero times.
proof fn lemma_count_absent(s: Seq<ScheduledJob>, k: Seq<u8>)
    requires
        !seq_contains_name(s, k),
    ensures
        count_name(s, k) == 0,
    decreases s.len(),
{
    if s.len() > 0 {
        assert(s[0].name@ != k);
        assert(!seq_contains_name(s.drop_first(), k)) by {
            if seq_contains_name(s.drop_first(), k) {
                let w = choose|n: int|
                    0 <= n < s.drop_first().len() && #[trigger] s.drop_first()[n].name@ == k;
                assert(s[w + 1].name@ == k);
            }
        }
        lemma_count_absent(s.drop_first(), k);
    }
}

/// In a list with distinct names, a name that occurs is counted exactly
/// once.
proof fn lemma_count_distinct(s: Seq<ScheduledJob>, k: Seq<u8>)
    requires
        names_distinct(s),
        seq_contains_name(s, k),
    ensures
        count_name(s, k) == 1,
    decreases s.len(),
{
    let w = choose|n: int| 0 <= n < s.len() && #[trigger] s[n].name@ == k;
    let t = s.drop_first();
    assert(names_distinct(t)) by {
        assert forall|a: int, b: int|
            #![trigger t[a], t[b]]
            0 <= a < t.len() && 0 <= b < t.len() && a != b implies t[a].name@ != t[b].name@ by {
            assert(t[a] == s[a + 1]);
            assert(t[b] == s[b + 1]);
            assert(s[a + 1].name@ != s[b + 1].name@);
        }
    }
    if s[0].name@ == k {
        assert(!seq_contains_name(t, k)) by {
            if seq_contains_name(t, k) {
                let v = choose|n: int| 0 <= n < t.len() && #[trigger] t[n].name@ == k;
                assert(s[v + 1].name@ == k);
                assert(s[0].name@ != s[v + 1].name@);
            }
        }
        lemma_count_absent(t, k);
    } else {
        assert(w != 0);
        assert(t[w - 1] == s[w]);
        assert(seq_contains_name(t, k));
        lemma_count_distinct(t, k);
    }
}

/// The registry of scheduled jobs.  Abstractly a map from job name to
/// definition; concretely a list whose names stay pairwise distinct and
/// whose thresholds stay well formed.
pub struct JobRegistry {
    jobs: Vec<ScheduledJob>,
}

impl JobRegistry {
    /// Names are pairwise distinct — at most one job per name — and every
    /// registered threshold set is strictly descending.
    pub closed spec fn wf(self) -> bool {
        &&& names_distinct(self.jobs@)
        &&& forall|i: int| 0 <= i < self.jobs@.len() ==> (#[trigger] self.jobs@[i]).thresholds.wf()
    }

    /// The registry's abstract value: definitions keyed by job name.
    pub closed spec fn as_map(self) -> Map<Seq<u8>, JobDef> {
        map_of(self.jobs@)
    }

    /// How many jobs carry the name `k`.
    pub closed spec fn name_count(self, k: Seq<u8>) -> nat {
        count_name(self.jobs@, k)
    }

    /// How many jobs the registry holds.
    pub closed spec fn spec_len(self) -> nat {
        self.jobs@.len()
    }

    pub fn new() -> (r: JobRegistry)
        ensures
            r.wf(),
            r.as_map() == Map::<Seq<u8>, JobDef>::empty(),
            r.spec_len() == 0,
    {
        let r = JobRegistry { jobs: Vec::new() };
        proof {
            assert(r.as_map() =~= Map::<Seq<u8>, JobDef>::empty());
        }
        r
    }

    fn find_index(&self, name: &Vec<u8>) -> (r: Option<usize>)
        ensures
            match r {
                Some(i) => i < self.jobs@.len() && self.jobs@[i as int].name@ == name@,
                None => !seq_contains_name(self.jobs@, name@),
            },
    {
        let n = self.jobs.len();
        let mut i: usize = 0;
        while i < n
            invariant
                n == self.jobs@.len(),
                0 <= i <= n,
                forall|j: int| 0 <= j < i ==> (#[trigger] self.jobs@[j]).name@ != name@,
            decreases n - i,
        {
            if bytes_eq(&self.jobs[i].name, name) {
                return Some(i);
            }
            i += 1;
        }
        proof {
            if seq_contains_name(self.jobs@, name@) {
                let w = choose|j: int|
                    0 <= j < self.jobs@.len() && #[trigger] self.jobs@[j].name@ == name@;
                assert(self.jobs@[w].name@ != name@);
            }
        }
        None
    }

    /// Inserts the job under `name`, replacing any job already registered
    /// under that name: add-or-replace-by-name.
    pub fn add(&mut self, name: Vec<u8>, cron: Vec<u8>, thresholds: ThresholdSet)
        requires
            old(self).wf(),
            thresholds.wf(),
        ensures
            final(self).wf(),
            final(self).as_map() == old(self).as_map().insert(name@, (cron@, thresholds)),
    {
        let ghost s0 = self.jobs@;
        let idx = self.find_index(&name);
        let j = ScheduledJob { name, cron, thresholds };
        match idx {
            Some(i) => {
                self.jobs.remove(i);
                self.jobs.insert(i, j);
                proof {
                    assert(self.jobs@ =~= s0.update(i as int, j));
                    lemma_map_after_update(s0, i as int, j);
                    assert forall|a: int| 0 <= a < self.jobs@.len() implies (
                    #[trigger] self.jobs@[a]).thresholds.wf() by {
                        if a != i {
                            assert(self.jobs@[a] == s0[a]);
                        }
                    }
                }
            },
            None => {
                self.jobs.push(j);
                proof {
                    lemma_map_after_push(s0, j);
                    assert forall|a: int| 0 <= a < self.jobs@.len() implies (
                    #[trigger] self.jobs@[a]).thresholds.wf() by {
                        if a < s0.len() {
                            assert(self.jobs@[a] == s0[a]);
                        }
                    }
                }
            },
        }
    }

    /// Removes the job under `name` if one is registered; cancelling an
    /// absent name is a no-op, not an error.
    pub fn cancel_by_name(&mut self, name: &Vec<u8>)
        requires
            old(self).wf(),
        ensures
            final(self).wf(),
            final(self).as_map() == old(self).as_map().remove(name@),
            !old(self).as_map().contains_key(name@) ==> *final(self) == *old(self),
    {
        let ghost s0 = self.jobs@;
        let idx = self.find_index(name);
        match idx {
            Some(i) => {
                self.jobs.remove(i);
                proof {
                    lemma_map_after_remove(s0, i as int);
                    assert(s0[i as int].name@ == name@);
                    assert forall|a: int| 0 <= a < self.jobs@.len() implies (
                    #[trigger] self.jobs@[a]).thresholds.wf() by {
                        let a0: int = if a < i as int {
                            a
                        } else {
                            a + 1
                        };
                        assert(self.jobs@[a] == s0[a0]);
                    }
                }
            },
            None => {
                proof {
                    assert(self.as_map() =~= self.as_map().remove(name@));
                }
            },
        }
    }

    /// The definition registered under `name`, if any.
    pub fn lookup(&self, name: &Vec<u8>) -> (r: Option<(Vec<u8>, ThresholdSet)>)
        requires
            self.wf(),
        ensures
            match r {
                Some(d) => self.as_map().contains_key(name@) && self.as_map()[name@] == (
                d.0@,
                d.1,
                ),
                None => !self.as_map().contains_key(name@),
            },
    {
        let idx = self.find_index(name);
        match idx {
            Some(i) => {
                proof {
                    lemma_index_of_unique(self.jobs@, name@, i as int);
                }
                Some((copy_bytes(&self.jobs[i].cron), self.jobs[i].thresholds))
            },
            None => None,
        }
    }

    /// How many jobs are registered in all.
    pub fn job_total(&self) -> (r: usize)
        ensures
            r == self.spec_len(),
    {
        self.jobs.len()
    }
}

/// At most one job ever stands under a name: in a well-formed registry a
/// registered name is carried by exactly one job, an unregistered one by
/// none.
pub proof fn lemma_one_job_per_name(reg: JobRegistry, k: Seq<u8>)
    requires
        reg.wf(),
    ensures
        reg.name_count(k) == if reg.as_map().contains_key(k) {
            1nat
        } else {
            0nat
        },
{
    if reg.as_map().contains_key(k) {
        lemma_count_distinct(reg.jobs@, k);
    } else {
        lemma_count_absent(reg.jobs@, k);
    }
}

/// Adding under one name twice leaves the map as if only the second
/// definition had been added: the second definition wins.
pub proof fn lemma_second_add_wins(m: Map<Seq<u8>, JobDef>, k: Seq<u8>, d1: JobDef, d2: JobDef)
    ensures
        m.insert(k, d1).insert(k, d2) == m.insert(k, d2),
{
    assert(m.insert(k, d1).insert(k, d2) =~= m.insert(k, d2));
}

/// Cancelling a name that is not registered leaves the abstract map
/// unchanged.
pub proof fn lemma_cancel_absent_is_noop(m: Map<Seq<u8>, JobDef>, k: Seq<u8>)
    requires
        !m.contains_key(k),
    ensures
        m.remove(k) == m,
{
    assert(m.remove(k) =~= m);
}

} // verus!
