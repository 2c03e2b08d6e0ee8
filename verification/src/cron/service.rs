//! The timer engine of cron: each tick runs the due jobs of the store through a
//! runner and records their outcomes, which advances or deletes them.

use vstd::prelude::*;

use crate::cron::store::{
    all_computable, due_of, first_with_id, min_wake, store_path_of, CronStore,
};
use crate::cron::types::{CronJob, RunStatus};
use crate::text::{push_str, string_from};

verus! {

/// Runs a due job: turns its message into an agent turn, delivers the reply to the
/// job's origin session and reports the outcome.
pub trait CronJobRunner {
    /// Runs one due job and returns its outcome.
    fn run(&mut self, job: &CronJob) -> RunStatus;
}

/// Whether some job of `jobs` has id `id`.
pub open spec fn ids_include(jobs: Seq<CronJob>, id: Seq<char>) -> bool {
    exists|k: int| 0 <= k < jobs.len() && #[trigger] jobs[k].id@ == id
}

/// The cron engine of one workspace (its store is `workspace/cron/jobs.json`).
pub struct CronService {
    workspace: String,
}

impl CronService {
    /// The workspace this engine serves.
    pub closed spec fn workspace_view(&self) -> Seq<char> {
        self.workspace@
    }

    /// An engine for `workspace`.
    pub fn new(workspace: &str) -> (s: Self)
        ensures
            s.workspace_view() == workspace@,
    {
        let mut w: Vec<char> = Vec::new();
        push_str(&mut w, workspace);
        CronService { workspace: string_from(&w) }
    }

    /// The workspace this engine serves.
    pub fn workspace(&self) -> (r: &str)
        ensures
            r@ == self.workspace_view(),
    {
        self.workspace.as_str()
    }

    /// Whether `store` is this engine's store.
    pub open spec fn serves(&self, store: &CronStore) -> bool {
        store.path_view() == store_path_of(self.workspace_view())
    }

    /// One tick at `now_ms`: runs every job due at `now_ms` through `runner`, in store
    /// order, and records each outcome. Returns the number of jobs that were due.
    pub fn tick<R: CronJobRunner>(&self, store: &mut CronStore, runner: &mut R, now_ms: i64) -> (r: usize)
        requires
            all_computable(old(store).jobs_view(), now_ms),
        ensures
            r == due_of(old(store).jobs_view(), now_ms).len(),
            final(store).path_view() == old(store).path_view(),
            final(store).version_view() == old(store).version_view(),
            all_computable(final(store).jobs_view(), now_ms),
            forall|x: CronJob| old(store).jobs_view().contains(x) && !ids_include(due_of(old(store).jobs_view(), now_ms), x.id@)
                ==> #[trigger] final(store).jobs_view().contains(x),
    {
        let due = store.due_jobs(now_ms);
        let ghost path = store.path_view();
        let ghost version = store.version_view();
        let mut i: usize = 0;
        while i < due.len()
            invariant
                i <= due@.len(),
                all_computable(store.jobs_view(), now_ms),
                store.path_view() == path,
                store.version_view() == version,
                due@ == due_of(old(store).jobs_view(), now_ms),
                forall|x: CronJob| old(store).jobs_view().contains(x) && !ids_include(due@, x.id@)
                    ==> #[trigger] store.jobs_view().contains(x),
            decreases due@.len() - i,
        {
            let id = due[i].id.as_str();
            let found = match store.get(id) {
                Some(job) => Some(job.duplicate()),
                None => None,
            };
            match found {
                Some(job) => {
                    let ghost before = store.jobs_view();
                    let ghost k = choose|k: int| first_with_id(before, id@, k);
                    let status = runner.run(&job);
                    store.record_run(id, status, now_ms);
                    proof {
                        assert(first_with_id(before, id@, k));
                        let after = store.jobs_view();
                        assert(ids_include(due@, id@)) by {
                            assert(due@[i as int].id@ == id@);
                        }
                        assert forall|x: CronJob| old(store).jobs_view().contains(x) && !ids_include(due@, x.id@)
                            implies #[trigger] after.contains(x) by {
                            assert(before.contains(x));
                            let m = choose|m: int| 0 <= m < before.len() && before[m] == x;
                            assert(m != k);
                            if before[k].delete_after_run {
                                if m < k {
                                    assert(after[m] == x);
                                } else {
                                    assert(after[m - 1] == x);
                                }
                            } else {
                                assert(after[m] == x);
                            }
                        }
                        if before[k].delete_after_run {
                            assert forall|m: int| 0 <= m < after.len() implies
                                crate::cron::schedule::next_run_computable(#[trigger] after[m].schedule, now_ms) by {
                                if m < k {
                                    assert(after[m] == before[m]);
                                } else {
                                    assert(after[m] == before[m + 1]);
                                }
                            }
                        } else {
                            assert forall|m: int| 0 <= m < after.len() implies
                                crate::cron::schedule::next_run_computable(#[trigger] after[m].schedule, now_ms) by {
                                if m != k {
                                    assert(after[m] == before[m]);
                                } else {
                                    assert(after[m].schedule == before[m].schedule);
                                }
                            }
                        }
                    }
                },
                None => {},
            }
            i = i + 1;
        }
        due.len()
    }

    /// The earliest next run among the enabled jobs of `store`.
    pub fn next_wake_ms(&self, store: &CronStore) -> (r: Option<i64>)
        ensures
            r == min_wake(store.jobs_view()),
    {
        store.next_wake_ms()
    }

    /// Copies of the jobs of `store` due at `now_ms`, in store order.
    pub fn due_jobs(&self, store: &CronStore, now_ms: i64) -> (r: Vec<CronJob>)
        ensures
            r@ == due_of(store.jobs_view(), now_ms),
    {
        store.due_jobs(now_ms)
    }
}

} // verus!
