//! Cron types: schedules, payloads, jobs and the stored job list.

use vstd::prelude::*;

use crate::bus::clone_opt;

verus! {

/// Kind of a schedule.
#[derive(PartialEq, Eq, Structural, Clone, Copy, Debug)]
pub enum ScheduleKind {
    /// Once, at `at_ms`.
    At,
    /// Every `every_ms`.
    Every,
    /// By cron expression `expr`, in time zone `tz`.
    Cron,
}

/// When a job runs.
pub struct CronSchedule {
    pub kind: ScheduleKind,
    /// `At`: instant (ms since the epoch).
    pub at_ms: Option<i64>,
    /// `Every`: interval (ms).
    pub every_ms: Option<i64>,
    /// `Cron`: the expression.
    pub expr: Option<String>,
    /// `Cron`: the time zone (`None` for the machine's local zone).
    pub tz: Option<String>,
}

impl CronSchedule {
    /// A fixed-interval schedule.
    pub fn every(every_ms: i64) -> (s: Self)
        ensures
            s.kind == ScheduleKind::Every,
            s.at_ms is None,
            s.every_ms == Some(every_ms),
            s.expr is None,
            s.tz is None,
    {
        CronSchedule { kind: ScheduleKind::Every, at_ms: None, every_ms: Some(every_ms), expr: None, tz: None }
    }

    /// A one-shot schedule.
    pub fn at(at_ms: i64) -> (s: Self)
        ensures
            s.kind == ScheduleKind::At,
            s.at_ms == Some(at_ms),
            s.every_ms is None,
            s.expr is None,
            s.tz is None,
    {
        CronSchedule { kind: ScheduleKind::At, at_ms: Some(at_ms), every_ms: None, expr: None, tz: None }
    }

    /// A cron-expression schedule (`tz` is an IANA name, `None` for local time).
    pub fn cron(expr: String, tz: Option<String>) -> (s: Self)
        ensures
            s.kind == ScheduleKind::Cron,
            s.at_ms is None,
            s.every_ms is None,
            s.expr == Some(expr),
            s.tz == tz,
    {
        CronSchedule { kind: ScheduleKind::Cron, at_ms: None, every_ms: None, expr: Some(expr), tz }
    }

    /// A copy of this schedule.
    pub fn duplicate(&self) -> (r: Self)
        ensures
            r == *self,
    {
        CronSchedule {
            kind: self.kind,
            at_ms: self.at_ms,
            every_ms: self.every_ms,
            expr: clone_opt(&self.expr),
            tz: clone_opt(&self.tz),
        }
    }
}

/// Outcome of one run.
#[derive(PartialEq, Eq, Structural, Clone, Copy, Debug)]
pub enum RunStatus {
    /// The run succeeded (`ok` in stored jobs).
    Success,
    Error,
    Skipped,
}

/// What a job does when it runs.
pub struct CronPayload {
    /// The message to run as a turn.
    pub message: String,
    /// The session the job belongs to.
    pub session_key: Option<String>,
    /// Channel of the session the job was created in.
    pub origin_channel: Option<String>,
    /// Chat of the session the job was created in.
    pub origin_chat_id: Option<String>,
    /// Channel metadata of the origin, as JSON object text.
    pub origin_metadata: String,
}

impl CronPayload {
    /// A copy of this payload.
    pub fn duplicate(&self) -> (r: Self)
        ensures
            r == *self,
    {
        CronPayload {
            message: self.message.clone(),
            session_key: clone_opt(&self.session_key),
            origin_channel: clone_opt(&self.origin_channel),
            origin_chat_id: clone_opt(&self.origin_chat_id),
            origin_metadata: self.origin_metadata.clone(),
        }
    }
}

/// Run-time state of a job.
#[derive(PartialEq, Eq, Structural, Clone, Copy, Debug)]
pub struct CronJobState {
    pub next_run_at_ms: Option<i64>,
    pub last_run_at_ms: Option<i64>,
    pub last_status: Option<RunStatus>,
}

impl CronJobState {
    /// The state of a job that never ran and has nothing scheduled.
    pub fn empty() -> (s: Self)
        ensures
            s.next_run_at_ms is None,
            s.last_run_at_ms is None,
            s.last_status is None,
    {
        CronJobState { next_run_at_ms: None, last_run_at_ms: None, last_status: None }
    }
}

/// A scheduled job.
pub struct CronJob {
    pub id: String,
    /// Job name; `heartbeat` is the reserved, protected job.
    pub name: String,
    pub enabled: bool,
    pub schedule: CronSchedule,
    pub payload: CronPayload,
    pub state: CronJobState,
    pub created_at_ms: i64,
    pub updated_at_ms: i64,
    /// Delete after it has run once (one-shot reminders).
    pub delete_after_run: bool,
}

impl CronJob {
    /// A copy of this job.
    pub fn duplicate(&self) -> (r: Self)
        ensures
            r == *self,
    {
        CronJob {
            id: self.id.clone(),
            name: self.name.clone(),
            enabled: self.enabled,
            schedule: self.schedule.duplicate(),
            payload: self.payload.duplicate(),
            state: self.state,
            created_at_ms: self.created_at_ms,
            updated_at_ms: self.updated_at_ms,
            delete_after_run: self.delete_after_run,
        }
    }
}

/// The persisted job list.
pub struct CronStoreData {
    pub version: u32,
    pub jobs: Vec<CronJob>,
}

impl CronStoreData {
    /// An empty store at format version 1.
    pub fn new() -> (d: Self)
        ensures
            d.version == 1,
            d.jobs@.len() == 0,
    {
        CronStoreData { version: 1, jobs: Vec::new() }
    }
}

} // verus!
