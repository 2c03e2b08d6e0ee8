//! The cron job store: the job list of `workspace/cron/jobs.json` and the
//! operations that add, remove, run and schedule its jobs.
//!
//! Reading and writing the file is the caller's part; the store holds the file's
//! path and its decoded contents.

use vstd::prelude::*;

use crate::cron::schedule::{compute_next_run, next_run_computable, next_run_rel};
use crate::cron::types::{CronJob, CronJobState, CronStoreData, RunStatus};
use crate::text::{push_str, str_eq, string_from};

verus! {

/// Name of the protected heartbeat job.
pub const HEARTBEAT_JOB_NAME: &'static str = "heartbeat";

/// Whether `job` is the protected heartbeat job (as opposed to an ordinary reminder).
pub fn is_heartbeat(job: &CronJob) -> (r: bool)
    ensures
        r == (job.name@ == "heartbeat"@),
{
    str_eq(job.name.as_str(), HEARTBEAT_JOB_NAME)
}

/// Errors of the cron store.
pub enum CronError {
    /// Reading or writing `jobs.json` failed.
    Io { path: String, message: String },
    /// `jobs.json` could not be decoded.
    Parse { path: String, message: String },
    /// Removing the protected job of this name was refused.
    Protected(String),
}

/// Path of the store file under a workspace: `<workspace>/cron/jobs.json`.
pub open spec fn store_path_of(workspace: Seq<char>) -> Seq<char> {
    crate::paths::join_path(crate::paths::join_path(workspace, "cron"@), "jobs.json"@)
}

/// Whether `i` is the first position of a job with id `id`.
pub open spec fn first_with_id(jobs: Seq<CronJob>, id: Seq<char>, i: int) -> bool {
    &&& 0 <= i < jobs.len()
    &&& jobs[i].id@ == id
    &&& forall|k: int| 0 <= k < i ==> jobs[k].id@ != id
}

/// Whether some job has id `id`.
pub open spec fn has_id(jobs: Seq<CronJob>, id: Seq<char>) -> bool {
    exists|k: int| 0 <= k < jobs.len() && jobs[k].id@ == id
}

/// Whether a job is due at `now`: enabled, scheduled, and its time has come.
pub open spec fn is_due(j: CronJob, now: i64) -> bool {
    j.enabled && match j.state.next_run_at_ms {
        Some(next) => now >= next,
        None => false,
    }
}

/// The jobs due at `now`, in store order.
pub open spec fn due_of(jobs: Seq<CronJob>, now: i64) -> Seq<CronJob> {
    jobs.filter(|j: CronJob| is_due(j, now))
}

/// The jobs whose id is not `id`, in store order.
pub open spec fn without_id(jobs: Seq<CronJob>, id: Seq<char>) -> Seq<CronJob> {
    jobs.filter(|j: CronJob| j.id@ != id)
}

/// The earliest next run among the enabled, scheduled jobs.
pub open spec fn min_wake(jobs: Seq<CronJob>) -> Option<i64>
    decreases jobs.len(),
{
    if jobs.len() == 0 {
        None
    } else {
        let rest = min_wake(jobs.drop_last());
        let j = jobs.last();
        if j.enabled {
            match j.state.next_run_at_ms {
                Some(n) => match rest {
                    Some(m) => Some(if n < m { n } else { m }),
                    None => Some(n),
                },
                None => rest,
            }
        } else {
            rest
        }
    }
}

/// Whether `new` is `old` after a run at `now` with outcome `status`, for a job kept
/// after running.
pub open spec fn recorded(old: CronJob, new: CronJob, status: RunStatus, now: i64) -> bool {
    &&& new.id == old.id
    &&& new.name == old.name
    &&& new.enabled == old.enabled
    &&& new.schedule == old.schedule
    &&& new.payload == old.payload
    &&& new.created_at_ms == old.created_at_ms
    &&& new.delete_after_run == old.delete_after_run
    &&& new.updated_at_ms == now
    &&& new.state.last_run_at_ms == Some(now)
    &&& new.state.last_status == Some(status)
    &&& next_run_rel(new.schedule, now, new.state.next_run_at_ms)
}

/// Whether `new` is the job `old` as `add` stores it at `now`.
pub open spec fn added(old: CronJob, new: CronJob, now: i64) -> bool {
    &&& new.id == old.id
    &&& new.name == old.name
    &&& new.enabled == old.enabled
    &&& new.schedule == old.schedule
    &&& new.payload == old.payload
    &&& new.delete_after_run == old.delete_after_run
    &&& new.created_at_ms == now
    &&& new.updated_at_ms == now
    &&& new.state.last_run_at_ms is None
    &&& new.state.last_status is None
    &&& next_run_rel(new.schedule, now, new.state.next_run_at_ms)
}

/// Whether every job's schedule can be advanced from `now` within `i64`.
pub open spec fn all_computable(jobs: Seq<CronJob>, now: i64) -> bool {
    forall|k: int| 0 <= k < jobs.len() ==> next_run_computable(#[trigger] jobs[k].schedule, now)
}

/// The cron job store.
pub struct CronStore {
    path: String,
    data: CronStoreData,
}

impl CronStore {
    /// The jobs, in store order.
    pub closed spec fn jobs_view(&self) -> Seq<CronJob> {
        self.data.jobs@
    }

    /// Path of the store file.
    pub closed spec fn path_view(&self) -> Seq<char> {
        self.path@
    }

    /// Format version of the stored data.
    pub closed spec fn version_view(&self) -> u32 {
        self.data.version
    }

    /// A store for `workspace` with the given decoded contents.
    pub fn with_data(workspace: &str, data: CronStoreData) -> (s: Self)
        ensures
            s.path_view() == store_path_of(workspace@),
            s.jobs_view() == data.jobs@,
            s.version_view() == data.version,
    {
        let mut p: Vec<char> = Vec::new();
        push_str(&mut p, workspace);
        let p1 = crate::paths::join(&p, "cron");
        let p2 = crate::paths::join(&p1, "jobs.json");
        CronStore { path: string_from(&p2), data }
    }

    /// Path of the store file.
    pub fn path(&self) -> (r: &str)
        ensures
            r@ == self.path_view(),
    {
        self.path.as_str()
    }

    /// The stored data, for writing back.
    pub fn data(&self) -> (r: &CronStoreData)
        ensures
            r.jobs@ == self.jobs_view(),
            r.version == self.version_view(),
    {
        &self.data
    }

    /// All jobs.
    pub fn jobs(&self) -> (r: &[CronJob])
        ensures
            r@ == self.jobs_view(),
    {
        self.data.jobs.as_slice()
    }

    /// Position of the first job with id `id`.
    fn position(&self, id: &str) -> (r: Option<usize>)
        ensures
            match r {
                Some(i) => first_with_id(self.jobs_view(), id@, i as int),
                None => !has_id(self.jobs_view(), id@),
            },
    {
        let mut i: usize = 0;
        while i < self.data.jobs.len()
            invariant
                i <= self.data.jobs@.len(),
                forall|k: int| 0 <= k < i ==> self.data.jobs@[k].id@ != id@,
            decreases self.data.jobs@.len() - i,
        {
            if str_eq(self.data.jobs[i].id.as_str(), id) {
                return Some(i);
            }
            i = i + 1;
        }
        None
    }

    /// The first job with id `id`.
    pub fn get(&self, id: &str) -> (r: Option<&CronJob>)
        ensures
            match r {
                Some(j) => exists|i: int| first_with_id(self.jobs_view(), id@, i) && *j == self.jobs_view()[i],
                None => !has_id(self.jobs_view(), id@),
            },
    {
        match self.position(id) {
            Some(i) => Some(&self.data.jobs[i]),
            None => None,
        }
    }

    /// Adds `job` at `now_ms`: stamps its times and computes its first run.
    pub fn add(&mut self, job: CronJob, now_ms: i64)
        requires
            next_run_computable(job.schedule, now_ms),
        ensures
            final(self).path_view() == old(self).path_view(),
            final(self).version_view() == old(self).version_view(),
            final(self).jobs_view().len() == old(self).jobs_view().len() + 1,
            final(self).jobs_view().drop_last() == old(self).jobs_view(),
            added(job, final(self).jobs_view().last(), now_ms),
    {
        let mut job = job;
        let next = compute_next_run(&job.schedule, now_ms);
        job.created_at_ms = now_ms;
        job.updated_at_ms = now_ms;
        let mut state = CronJobState::empty();
        state.next_run_at_ms = next;
        job.state = state;
        self.data.jobs.push(job);
        assert(self.data.jobs@.drop_last() =~= old(self).data.jobs@);
    }

    /// Removes every job with id `id` and says whether one was removed; the protected
    /// heartbeat job is refused.
    pub fn remove(&mut self, id: &str) -> (r: Result<bool, CronError>)
        ensures
            final(self).path_view() == old(self).path_view(),
            final(self).version_view() == old(self).version_view(),
            match r {
                Ok(removed) => {
                    &&& forall|i: int| first_with_id(old(self).jobs_view(), id@, i)
                        ==> old(self).jobs_view()[i].name@ != "heartbeat"@
                    &&& final(self).jobs_view() == without_id(old(self).jobs_view(), id@)
                    &&& removed == has_id(old(self).jobs_view(), id@)
                },
                Err(e) => {
                    &&& final(self).jobs_view() == old(self).jobs_view()
                    &&& exists|i: int| first_with_id(old(self).jobs_view(), id@, i)
                        && old(self).jobs_view()[i].name@ == "heartbeat"@
                        && e == CronError::Protected(old(self).jobs_view()[i].name)
                },
            },
    {
        match self.position(id) {
            Some(i) => {
                if is_heartbeat(&self.data.jobs[i]) {
                    return Err(CronError::Protected(self.data.jobs[i].name.clone()));
                }
            },
            None => {},
        }
        let ghost old_jobs = self.data.jobs@;
        let ghost pred = |j: CronJob| j.id@ != id@;
        let mut kept: Vec<CronJob> = Vec::new();
        let mut removed = false;
        let mut i: usize = 0;
        while i < self.data.jobs.len()
            invariant
                self.data.jobs@ == old_jobs,
                i <= old_jobs.len(),
                pred == (|j: CronJob| j.id@ != id@),
                kept@ == old_jobs.subrange(0, i as int).filter(pred),
                removed == (exists|k: int| 0 <= k < i && old_jobs[k].id@ == id@),
            decreases old_jobs.len() - i,
        {
            let ghost prefix = old_jobs.subrange(0, i as int);
            assert(old_jobs.subrange(0, i + 1) == prefix.push(old_jobs[i as int]));
            proof {
                prefix.lemma_filter_push(old_jobs[i as int], pred);
            }
            if str_eq(self.data.jobs[i].id.as_str(), id) {
                removed = true;
            } else {
                kept.push(self.data.jobs[i].duplicate());
            }
            i = i + 1;
        }
        assert(old_jobs.subrange(0, old_jobs.len() as int) == old_jobs);
        self.data.jobs = kept;
        Ok(removed)
    }

    /// The jobs due at `now_ms`: enabled, scheduled, and `now_ms` at or past their next run.
    pub fn due_jobs(&self, now_ms: i64) -> (r: Vec<CronJob>)
        ensures
            r@ == due_of(self.jobs_view(), now_ms),
    {
        let ghost jobs = self.data.jobs@;
        let ghost pred = |j: CronJob| is_due(j, now_ms);
        let mut out: Vec<CronJob> = Vec::new();
        let mut i: usize = 0;
        while i < self.data.jobs.len()
            invariant
                self.data.jobs@ == jobs,
                i <= jobs.len(),
                pred == (|j: CronJob| is_due(j, now_ms)),
                out@ == jobs.subrange(0, i as int).filter(pred),
            decreases jobs.len() - i,
        {
            let ghost prefix = jobs.subrange(0, i as int);
            assert(jobs.subrange(0, i + 1) == prefix.push(jobs[i as int]));
            proof {
                prefix.lemma_filter_push(jobs[i as int], pred);
            }
            let j = &self.data.jobs[i];
            let due = j.enabled && match j.state.next_run_at_ms {
                Some(next) => now_ms >= next,
                None => false,
            };
            if due {
                out.push(j.duplicate());
            }
            i = i + 1;
        }
        assert(jobs.subrange(0, jobs.len() as int) == jobs);
        out
    }

    /// Records a run of the first job with id `id` at `now_ms`: its outcome, its run
    /// time and its next run; a job marked `delete_after_run` is removed instead. An
    /// unknown id changes nothing.
    pub fn record_run(&mut self, id: &str, status: RunStatus, now_ms: i64)
        requires
            forall|i: int| first_with_id(old(self).jobs_view(), id@, i)
                ==> next_run_computable(old(self).jobs_view()[i].schedule, now_ms),
        ensures
            final(self).path_view() == old(self).path_view(),
            final(self).version_view() == old(self).version_view(),
            !has_id(old(self).jobs_view(), id@) ==> final(self).jobs_view() == old(self).jobs_view(),
            forall|i: int| #[trigger] first_with_id(old(self).jobs_view(), id@, i) ==> {
                let old_job = old(self).jobs_view()[i];
                if old_job.delete_after_run {
                    final(self).jobs_view() == old(self).jobs_view().remove(i)
                } else {
                    &&& final(self).jobs_view().len() == old(self).jobs_view().len()
                    &&& forall|k: int| 0 <= k < old(self).jobs_view().len() && k != i
                        ==> final(self).jobs_view()[k] == old(self).jobs_view()[k]
                    &&& recorded(old_job, final(self).jobs_view()[i], status, now_ms)
                }
            },
    {
        let idx = match self.position(id) {
            Some(i) => i,
            None => {
                return;
            },
        };
        proof {
            assert forall|i: int| #[trigger] first_with_id(old(self).jobs_view(), id@, i) implies i == idx by {
                if i < idx {
                    assert(self.data.jobs@[i].id@ != id@);
                } else if i > idx {
                    assert(self.data.jobs@[idx as int].id@ != id@);
                }
            }
        }
        if self.data.jobs[idx].delete_after_run {
            self.data.jobs.remove(idx);
        } else {
            let next = compute_next_run(&self.data.jobs[idx].schedule, now_ms);
            let mut job = self.data.jobs[idx].duplicate();
            job.state.last_run_at_ms = Some(now_ms);
            job.state.last_status = Some(status);
            job.updated_at_ms = now_ms;
            job.state.next_run_at_ms = next;
            self.data.jobs.set(idx, job);
        }
    }

    /// The earliest next run among the enabled jobs that have one.
    pub fn next_wake_ms(&self) -> (r: Option<i64>)
        ensures
            r == min_wake(self.jobs_view()),
    {
        let ghost jobs = self.data.jobs@;
        let mut best: Option<i64> = None;
        let mut i: usize = 0;
        while i < self.data.jobs.len()
            invariant
                self.data.jobs@ == jobs,
                i <= jobs.len(),
                best == min_wake(jobs.subrange(0, i as int)),
            decreases jobs.len() - i,
        {
            assert(jobs.subrange(0, i + 1).drop_last() == jobs.subrange(0, i as int));
            let j = &self.data.jobs[i];
            if j.enabled {
                match j.state.next_run_at_ms {
                    Some(n) => {
                        best = match best {
                            Some(m) => Some(if n < m { n } else { m }),
                            None => Some(n),
                        };
                    },
                    None => {},
                }
            }
            i = i + 1;
        }
        assert(jobs.subrange(0, jobs.len() as int) == jobs);
        best
    }
}

} // verus!

verus! {

/// A job added to a store without a job of its id is what a lookup of that id finds.
pub proof fn law_added_job_is_found(old_jobs: Seq<CronJob>, new_jobs: Seq<CronJob>, job: CronJob, now: i64)
    requires
        new_jobs.len() == old_jobs.len() + 1,
        new_jobs.drop_last() == old_jobs,
        added(job, new_jobs.last(), now),
        !has_id(old_jobs, job.id@),
    ensures
        has_id(new_jobs, job.id@),
        first_with_id(new_jobs, job.id@, old_jobs.len() as int),
{
    let n = old_jobs.len() as int;
    assert(new_jobs[n] == new_jobs.last());
    assert forall|k: int| 0 <= k < n implies new_jobs[k].id@ != job.id@ by {
        assert(new_jobs[k] == old_jobs[k]);
    }
}

/// Once a job is removed no job of its id is left.
pub proof fn law_removed_job_is_gone(jobs: Seq<CronJob>, id: Seq<char>)
    ensures
        !has_id(without_id(jobs, id), id),
{
    let f = without_id(jobs, id);
    if has_id(f, id) {
        let k = choose|k: int| 0 <= k < f.len() && f[k].id@ == id;
        jobs.lemma_filter_pred(|j: CronJob| j.id@ != id, k);
    }
}

/// A recorded run is rescheduled strictly after the moment it ran, if at all.
pub proof fn law_rescheduled_after_run(old_job: CronJob, new_job: CronJob, status: RunStatus, now: i64)
    requires
        recorded(old_job, new_job, status, now),
        next_run_computable(new_job.schedule, now),
        new_job.state.next_run_at_ms is Some,
    ensures
        new_job.state.next_run_at_ms.unwrap() > now,
{
    crate::cron::schedule::law_next_run_after_now(new_job.schedule, now, new_job.state.next_run_at_ms);
}

} // verus!
