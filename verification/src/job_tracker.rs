//! Tracking of mining jobs and the difficulty derived from their targets.
//!
//! The tracker is a bounded map from job id to job: inserting beyond the
//! capacity first evicts the oldest entry, so memory stays bounded however
//! long the upstream keeps announcing jobs.

use crate::difficulty::{target_difficulty, Difficulty};
use crate::strings::str_eq;
use vstd::prelude::*;

verus! {

/// Job information for tracking difficulty.
pub struct JobInfo {
    pub job_id: String,
    pub target: String,
    pub difficulty: Difficulty,
    pub height: u64,
}

/// The mathematical content of a [`JobInfo`].
pub ghost struct JobView {
    pub job_id: Seq<char>,
    pub target: Seq<char>,
    pub difficulty: Difficulty,
    pub height: u64,
}

impl View for JobInfo {
    type V = JobView;

    open spec fn view(&self) -> JobView {
        JobView {
            job_id: self.job_id@,
            target: self.target@,
            difficulty: self.difficulty,
            height: self.height,
        }
    }
}

impl JobInfo {
    /// Derives the difficulty from a target hex string; see
    /// [`crate::difficulty::difficulty_from_target`].
    pub fn difficulty_from_target(target: &str) -> (r: Difficulty)
        ensures
            r == target_difficulty(target@),
            r.wf(),
    {
        crate::difficulty::difficulty_from_target(target)
    }
}

/// Whether some entry of `s` carries the job id `id`.
pub open spec fn has_key(s: Seq<JobView>, id: Seq<char>) -> bool {
    exists|i: int| 0 <= i < s.len() && #[trigger] s[i].job_id == id
}

/// Index of the entry of `s` carrying the job id `id`.
pub open spec fn key_index(s: Seq<JobView>, id: Seq<char>) -> int {
    choose|i: int| 0 <= i < s.len() && #[trigger] s[i].job_id == id
}

/// The entry sequence after one insertion: an existing id is updated in
/// place; a new id is appended, after evicting the oldest entry if the
/// sequence is already `cap` long.
pub open spec fn spec_add(s: Seq<JobView>, cap: nat, v: JobView) -> Seq<JobView> {
    if has_key(s, v.job_id) {
        s.update(key_index(s, v.job_id), v)
    } else if s.len() < cap {
        s.push(v)
    } else {
        s.subrange(1, s.len() as int).push(v)
    }
}

/// Tracks mining jobs and their difficulties, evicting the oldest entry
/// once the capacity is reached.
pub struct JobTracker {
    jobs: Vec<JobInfo>,
    max_jobs: usize,
}

impl View for JobTracker {
    type V = Seq<JobView>;

    closed spec fn view(&self) -> Seq<JobView> {
        self.jobs@.map_values(|j: JobInfo| j@)
    }
}

impl JobTracker {
    /// The capacity the tracker was created with.
    pub closed spec fn capacity(self) -> nat {
        self.max_jobs as nat
    }

    /// Well-formedness: the capacity is positive, the entry count stays
    /// under it, job ids are unique, and every stored difficulty is the one
    /// its stored target derives.
    pub closed spec fn wf(self) -> bool {
        &&& self.max_jobs >= 1
        &&& self@.len() <= self.max_jobs
        &&& forall|i: int, j: int|
            0 <= i < j < self@.len() ==> (#[trigger] self@[i].job_id) != (#[trigger] self@[j].job_id)
        &&& forall|i: int|
            0 <= i < self@.len() ==> (#[trigger] self@[i]).difficulty == target_difficulty(
                self@[i].target,
            )
    }

    /// Creates a tracker holding at most `max_jobs` entries (at least one).
    pub fn new(max_jobs: usize) -> (r: JobTracker)
        ensures
            r.wf(),
            r@ =~= Seq::<JobView>::empty(),
            r.capacity() == if max_jobs == 0 { 1nat } else { max_jobs as nat },
    {
        let cap: usize = if max_jobs == 0 {
            1
        } else {
            max_jobs
        };
        JobTracker { jobs: Vec::new(), max_jobs: cap }
    }

    /// Index of the entry with the given id, if one is stored.
    fn find(&self, job_id: &str) -> (r: Option<usize>)
        ensures
            match r {
                Some(i) => 0 <= i < self@.len() && self@[i as int].job_id == job_id@,
                None => !has_key(self@, job_id@),
            },
    {
        let n = self.jobs.len();
        let mut i: usize = 0;
        while i < n
            invariant
                0 <= i <= n == self@.len(),
                forall|j: int| 0 <= j < i ==> (#[trigger] self@[j].job_id) != job_id@,
            decreases n - i,
        {
            if str_eq(self.jobs[i].job_id.as_str(), job_id) {
                return Some(i);
            }
            i = i + 1;
        }
        None
    }

    /// Adds a job, deriving its difficulty from the target; an existing id
    /// is updated, and at capacity the oldest entry is evicted first.
    pub fn add_job(&mut self, job_id: String, target: String, height: u64)
        requires
            old(self).wf(),
        ensures
            final(self).wf(),
            final(self).capacity() == old(self).capacity(),
            final(self)@ =~= spec_add(
                old(self)@,
                old(self).capacity(),
                JobView {
                    job_id: job_id@,
                    target: target@,
                    difficulty: target_difficulty(target@),
                    height,
                },
            ),
    {
        let difficulty = crate::difficulty::difficulty_from_target(target.as_str());
        let info = JobInfo { job_id, target, difficulty, height };
        let ghost iv = info@;
        match self.find(info.job_id.as_str()) {
            Some(i) => {
                proof {
                    let ghost k = key_index(self@, iv.job_id);
                    assert(self@[k].job_id == iv.job_id);
                    assert(k == i);
                }
                self.jobs.set(i, info);
                proof {
                    assert(self@ =~= old(self)@.update(i as int, iv));
                    assert forall|a: int, b: int| 0 <= a < b < self@.len() implies (
                    #[trigger] self@[a].job_id) != (#[trigger] self@[b].job_id) by {
                        assert(old(self)@[a].job_id != old(self)@[b].job_id);
                        assert(self@[a].job_id == if a == i {
                            old(self)@[a].job_id
                        } else {
                            old(self)@[a].job_id
                        });
                    }
                }
            },
            None => {
                proof {
                    assert(!has_key(old(self)@, iv.job_id));
                }
                if self.jobs.len() >= self.max_jobs {
                    self.jobs.remove(0);
                    proof {
                        assert(self@ =~= old(self)@.subrange(1, old(self)@.len() as int));
                    }
                }
                let ghost pre = self@;
                self.jobs.push(info);
                proof {
                    assert(self@ =~= pre.push(iv));
                    assert forall|a: int| 0 <= a < pre.len() implies (#[trigger] pre[a].job_id)
                        != iv.job_id by {
                        if has_key(old(self)@, iv.job_id) {
                        } else {
                            if pre.len() == old(self)@.len() {
                                assert(pre[a] == old(self)@[a]);
                            } else {
                                assert(pre[a] == old(self)@[a + 1]);
                            }
                        }
                    }
                }
            },
        }
    }

    /// Returns a copy of the stored job with the given id.
    pub fn get_job(&self, job_id: &str) -> (r: Option<JobInfo>)
        requires
            self.wf(),
        ensures
            match r {
                Some(j) => has_key(self@, job_id@) && j@ == self@[key_index(self@, job_id@)],
                None => !has_key(self@, job_id@),
            },
    {
        match self.find(job_id) {
            Some(i) => {
                proof {
                    let ghost k = key_index(self@, job_id@);
                    assert(self@[k].job_id == job_id@);
                    assert(k == i);
                }
                let j = &self.jobs[i];
                Some(
                    JobInfo {
                        job_id: j.job_id.clone(),
                        target: j.target.clone(),
                        difficulty: j.difficulty,
                        height: j.height,
                    },
                )
            },
            None => None,
        }
    }

    /// Difficulty recorded for a job id, or the fallback if the job is
    /// unknown.
    pub fn get_difficulty(&self, job_id: &str) -> (r: Difficulty)
        requires
            self.wf(),
        ensures
            r == if has_key(self@, job_id@) {
                self@[key_index(self@, job_id@)].difficulty
            } else {
                Difficulty::spec_default()
            },
            r.wf(),
    {
        match self.get_job(job_id) {
            Some(j) => {
                proof {
                    let ghost k = key_index(self@, job_id@);
                    assert(self@[k].difficulty == target_difficulty(self@[k].target));
                }
                j.difficulty
            },
            None => Difficulty::fallback(),
        }
    }

    /// Removes every stored job.
    pub fn clear(&mut self)
        requires
            old(self).wf(),
        ensures
            final(self).wf(),
            final(self)@ =~= Seq::<JobView>::empty(),
            final(self).capacity() == old(self).capacity(),
    {
        self.jobs.clear();
    }

    /// Number of stored jobs.
    pub fn count(&self) -> (r: usize)
        ensures
            r == self@.len(),
    {
        self.jobs.len()
    }
}

/// However many jobs are added, a well-formed tracker never holds more than
/// its capacity.
pub proof fn lemma_count_bounded(t: JobTracker)
    requires
        t.wf(),
    ensures
        t@.len() <= t.capacity(),
{
}

/// One insertion never leaves the entries longer than the capacity.
pub proof fn lemma_add_preserves_bound(s: Seq<JobView>, cap: nat, v: JobView)
    requires
        s.len() <= cap,
        cap >= 1,
    ensures
        spec_add(s, cap, v).len() <= cap,
{
}

/// Inserting a fresh id into a tracker already at capacity leaves exactly
/// the capacity many entries: one evicted, one added.
pub proof fn lemma_add_at_capacity(s: Seq<JobView>, cap: nat, v: JobView)
    requires
        s.len() == cap,
        cap >= 1,
        !has_key(s, v.job_id),
    ensures
        spec_add(s, cap, v).len() == cap,
{
}

} // verus!
