//! The download manager: a state machine over the jobs of a plan. Commands
//! and worker reports move jobs between states; scheduling starts pending jobs
//! within the global and per-host limits. Every step appends events and hands
//! back the actions a backend must carry out.
use vstd::prelude::*;

use crate::config::{config_check, DownloadManagerConfig};
use crate::errors::DownloadManagerError;
use crate::event::{
    is_active, DownloadCommand, DownloadEvent, DownloadJobState, DownloadManagerAction,
    PlanTerminalState, WorkerReport, WorkerStopReason,
};
use crate::external::{duration_millis, millis_duration};
use crate::keyed::{key_index, keys_ordered, lemma_key_index, StringMap};
use crate::plan::{DownloadJobId, DownloadJobSpec, DownloadPlan};

verus! {

/// A job with where it stands and how often it was started.
#[derive(Debug)]
pub struct JobRuntimeState {
    pub spec: DownloadJobSpec,
    pub state: DownloadJobState,
    pub attempts: u8,
}

/// A job's entry: the key it is stored under (its id's text) and the job.
pub type JobEntry = (String, JobRuntimeState);

/// What the manager holds, as values: its jobs in key order, the events not
/// yet drained, and how the plan ended, if it has.
pub struct ManagerModel {
    pub entries: Seq<JobEntry>,
    pub events: Seq<DownloadEvent>,
    pub terminal: Option<PlanTerminalState>,
    /// For each job key, the progress its last `JobProgress` event told.
    pub marks: Map<Seq<char>, ProgressMark>,
    /// Progress is told again once this many milliseconds have passed...
    pub progress_interval_ms: u64,
    /// ...or once the byte count has moved by this many bytes.
    pub min_progress_bytes: u64,
}

/// The byte count and time of a job's last `JobProgress` event.
#[derive(Debug, Clone, Copy, PartialEq, Eq, Structural)]
pub struct ProgressMark {
    pub downloaded: u64,
    pub at_ms: u64,
}

/// A progress report of `downloaded` bytes at `at_ms` is told as an event when
/// the job has told none yet, when at least `interval_ms` passed since the last
/// one, or when the byte count moved by at least `min_bytes` since then.
pub open spec fn progress_due(
    mark: Option<ProgressMark>,
    downloaded: u64,
    at_ms: u64,
    interval_ms: u64,
    min_bytes: u64,
) -> bool {
    match mark {
        None => true,
        Some(p) => at_ms >= p.at_ms + interval_ms || downloaded >= p.downloaded + min_bytes
            || p.downloaded >= downloaded + min_bytes,
    }
}

/// The progress mark a job's key has, if any.
pub open spec fn mark_of(m: ManagerModel, key: Seq<char>) -> Option<ProgressMark> {
    if m.marks.contains_key(key) {
        Some(m.marks[key])
    } else {
        None
    }
}

/// The id under which events name the job stored under `key`.
pub open spec fn key_id(key: String) -> DownloadJobId {
    DownloadJobId::with_text(key)
}

/// The jobs are stored in key order, each under its own id.
pub open spec fn entries_wf(entries: Seq<JobEntry>) -> bool {
    &&& keys_ordered(entries)
    &&& forall|i: int| 0 <= i < entries.len() ==> #[trigger] entries[i].0@ == entries[i].1.spec.id@
}

/// Job `j` is the last job of `jobs` with its id.
pub open spec fn last_with_id(jobs: Seq<DownloadJobSpec>, j: int) -> bool {
    &&& 0 <= j < jobs.len()
    &&& forall|k: int| j < k < jobs.len() ==> #[trigger] jobs[k].id@ != jobs[j].id@
}

/// Entry `i` holds job `j`, fresh: pending and never started.
pub open spec fn holds_fresh(entries: Seq<JobEntry>, i: int, jobs: Seq<DownloadJobSpec>, j: int) -> bool {
    &&& entries[i].0@ == jobs[j].id@
    &&& entries[i].1 == (JobRuntimeState {
        spec: jobs[j],
        state: DownloadJobState::Pending,
        attempts: 0,
    })
}

/// Entry `i` holds, fresh, the last job of `jobs` with its id.
pub open spec fn holds_last_fresh(entries: Seq<JobEntry>, i: int, jobs: Seq<DownloadJobSpec>) -> bool {
    exists|j: int| last_with_id(jobs, j) && #[trigger] holds_fresh(entries, i, jobs, j)
}

/// The entries a plan of `jobs` starts with: one fresh entry for each id, holding
/// the last job with that id, in key order.
pub open spec fn initial_entries(entries: Seq<JobEntry>, jobs: Seq<DownloadJobSpec>) -> bool {
    &&& entries_wf(entries)
    &&& forall|i: int| 0 <= i < entries.len() ==> #[trigger] holds_last_fresh(entries, i, jobs)
    &&& forall|j: int|
        0 <= j < jobs.len() ==> exists|i: int|
            0 <= i < entries.len() && #[trigger] entries[i].0@ == #[trigger] jobs[j].id@
}

/// One `JobQueued` event for each job of the plan, in plan order.
pub open spec fn queued_events(jobs: Seq<DownloadJobSpec>) -> Seq<DownloadEvent> {
    jobs.map_values(|s: DownloadJobSpec| DownloadEvent::JobQueued { id: s.id })
}

/// What a command can do to one job.
#[derive(Debug, Clone, Copy, PartialEq, Eq, Structural)]
pub enum JobOp {
    Pause,
    Resume,
    Cancel,
    Retry,
}

/// `a + 1`, stopping at `u8::MAX`.
pub open spec fn sat_inc(a: u8) -> u8 {
    if a == 255 {
        255
    } else {
        (a + 1) as u8
    }
}

/// The entries with job `i` put in `state`; its spec, attempts and key stay.
pub open spec fn with_state(entries: Seq<JobEntry>, i: int, state: DownloadJobState) -> Seq<JobEntry> {
    entries.update(
        i,
        (
            entries[i].0,
            JobRuntimeState { spec: entries[i].1.spec, state, attempts: entries[i].1.attempts },
        ),
    )
}

/// The model with job `i` put in `state` and `event` appended.
pub open spec fn move_job(
    m: ManagerModel,
    i: int,
    state: DownloadJobState,
    event: DownloadEvent,
) -> ManagerModel {
    ManagerModel { entries: with_state(m.entries, i, state), events: m.events.push(event), ..m }
}

/// Every job has completed.
pub open spec fn all_completed(entries: Seq<JobEntry>) -> bool {
    forall|i: int| 0 <= i < entries.len() ==> (#[trigger] entries[i]).1.state is Completed
}

/// Some job has failed or was cancelled.
pub open spec fn any_failed(entries: Seq<JobEntry>) -> bool {
    exists|i: int|
        0 <= i < entries.len() && ((#[trigger] entries[i]).1.state is Failed
            || entries[i].1.state is Cancelled)
}

/// After a job ended: the plan ends once, as completed when every job has
/// completed, else as failed when some job failed or was cancelled.
pub open spec fn settle(m: ManagerModel) -> ManagerModel {
    if m.terminal is Some {
        m
    } else if all_completed(m.entries) {
        ManagerModel {
            events: m.events.push(DownloadEvent::PlanCompleted),
            terminal: Some(PlanTerminalState::Completed),
            ..m
        }
    } else if any_failed(m.entries) {
        ManagerModel {
            events: m.events.push(DownloadEvent::PlanFailed),
            terminal: Some(PlanTerminalState::Failed),
            ..m
        }
    } else {
        m
    }
}

pub open spec fn no_actions() -> Seq<DownloadManagerAction> {
    Seq::empty()
}

/// What `op` does to job `i`, named `id` in the events and actions it brings.
pub open spec fn op_step(m: ManagerModel, op: JobOp, i: int, id: DownloadJobId) -> (
    ManagerModel,
    Seq<DownloadManagerAction>,
) {
    let state = m.entries[i].1.state;
    match op {
        JobOp::Pause => match state {
            DownloadJobState::Pending => (
                move_job(m, i, DownloadJobState::Paused, DownloadEvent::JobPaused { id }),
                no_actions(),
            ),
            DownloadJobState::Running { attempt } => (
                move_job(
                    m,
                    i,
                    DownloadJobState::Pausing { attempt },
                    DownloadEvent::JobPauseRequested { id },
                ),
                seq![DownloadManagerAction::StopWorker { id, reason: WorkerStopReason::Paused }],
            ),
            _ => (m, no_actions()),
        },
        JobOp::Resume => if state is Paused {
            (move_job(m, i, DownloadJobState::Pending, DownloadEvent::JobResumed { id }), no_actions())
        } else {
            (m, no_actions())
        },
        JobOp::Cancel => match state {
            DownloadJobState::Pending | DownloadJobState::Paused | DownloadJobState::Failed {
                ..
            } => (
                settle(
                    move_job(m, i, DownloadJobState::Cancelled, DownloadEvent::JobCancelled { id }),
                ),
                no_actions(),
            ),
            DownloadJobState::Running { attempt } | DownloadJobState::Pausing { attempt } => (
                move_job(
                    m,
                    i,
                    DownloadJobState::Cancelling { attempt },
                    DownloadEvent::JobCancelRequested { id },
                ),
                seq![DownloadManagerAction::StopWorker { id, reason: WorkerStopReason::Cancelled }],
            ),
            _ => (m, no_actions()),
        },
        JobOp::Retry => if state is Failed || state is Cancelled {
            (
                ManagerModel {
                    terminal: None,
                    ..move_job(
                        m,
                        i,
                        DownloadJobState::Pending,
                        DownloadEvent::JobRetryScheduled {
                            id,
                            attempt: sat_inc(m.entries[i].1.attempts),
                        },
                    )
                },
                no_actions(),
            )
        } else {
            (m, no_actions())
        },
    }
}

/// What `op` does to the job with id `id`; an unknown id is refused and changes nothing.
pub open spec fn op_result(m: ManagerModel, op: JobOp, id: DownloadJobId) -> Result<
    (ManagerModel, Seq<DownloadManagerAction>),
    DownloadManagerError,
> {
    let i = key_index(m.entries, id@);
    if i < 0 {
        Err(DownloadManagerError::UnknownJob { id })
    } else {
        Ok(op_step(m, op, i, id))
    }
}

/// `op` applied to the first `k` jobs in key order, each named by its key.
pub open spec fn op_all(m: ManagerModel, op: JobOp, k: nat) -> (
    ManagerModel,
    Seq<DownloadManagerAction>,
)
    decreases k,
{
    if k == 0 {
        (m, no_actions())
    } else {
        let (m1, a1) = op_all(m, op, (k - 1) as nat);
        let (m2, a2) = op_step(m1, op, k - 1, key_id(m1.entries[k - 1].0));
        (m2, a1 + a2)
    }
}

/// What a command does to the manager, and the actions it asks for.
pub open spec fn command_result(m: ManagerModel, command: DownloadCommand) -> Result<
    (ManagerModel, Seq<DownloadManagerAction>),
    DownloadManagerError,
> {
    match command {
        DownloadCommand::PauseJob(id) => op_result(m, JobOp::Pause, id),
        DownloadCommand::ResumeJob(id) => op_result(m, JobOp::Resume, id),
        DownloadCommand::CancelJob(id) => op_result(m, JobOp::Cancel, id),
        DownloadCommand::RetryJob(id) => op_result(m, JobOp::Retry, id),
        DownloadCommand::PauseAll => Ok(op_all(m, JobOp::Pause, m.entries.len())),
        DownloadCommand::ResumeAll => Ok(op_all(m, JobOp::Resume, m.entries.len())),
        DownloadCommand::CancelAll => Ok(op_all(m, JobOp::Cancel, m.entries.len())),
    }
}

/// What a worker report does to the manager; reports never ask for actions.
pub open spec fn report_result(m: ManagerModel, max_attempts: u8, report: WorkerReport) -> Result<
    (ManagerModel, Seq<DownloadManagerAction>),
    DownloadManagerError,
> {
    match report {
        WorkerReport::Progress { id, downloaded, total, at_ms } => {
            let i = key_index(m.entries, id@);
            if i < 0 {
                Err(DownloadManagerError::UnknownJob { id })
            } else if is_active(m.entries[i].1.state) && progress_due(
                mark_of(m, id@),
                downloaded,
                at_ms,
                m.progress_interval_ms,
                m.min_progress_bytes,
            ) {
                Ok(
                    (
                        ManagerModel {
                            events: m.events.push(
                                DownloadEvent::JobProgress { id, downloaded, total },
                            ),
                            marks: m.marks.insert(id@, ProgressMark { downloaded, at_ms }),
                            ..m
                        },
                        no_actions(),
                    ),
                )
            } else {
                Ok((m, no_actions()))
            }
        },
        WorkerReport::Completed { id } => {
            let i = key_index(m.entries, id@);
            if i < 0 {
                Err(DownloadManagerError::UnknownJob { id })
            } else if is_active(m.entries[i].1.state) {
                Ok(
                    (
                        settle(
                            move_job(
                                m,
                                i,
                                DownloadJobState::Completed,
                                DownloadEvent::JobCompleted { id },
                            ),
                        ),
                        no_actions(),
                    ),
                )
            } else {
                Ok((m, no_actions()))
            }
        },
        WorkerReport::Failed { id, error, retryable } => {
            let i = key_index(m.entries, id@);
            if i < 0 {
                Err(DownloadManagerError::UnknownJob { id })
            } else if !is_active(m.entries[i].1.state) {
                Ok((m, no_actions()))
            } else {
                let job = m.entries[i].1;
                if retryable && job.spec.policy.retryable && job.attempts < max_attempts {
                    Ok(
                        (
                            move_job(
                                m,
                                i,
                                DownloadJobState::Pending,
                                DownloadEvent::JobRetryScheduled {
                                    id,
                                    attempt: sat_inc(job.attempts),
                                },
                            ),
                            no_actions(),
                        ),
                    )
                } else {
                    Ok(
                        (
                            settle(
                                move_job(
                                    m,
                                    i,
                                    DownloadJobState::Failed { attempts: job.attempts, error },
                                    DownloadEvent::JobFailed { id, error },
                                ),
                            ),
                            no_actions(),
                        ),
                    )
                }
            }
        },
        WorkerReport::Stopped { id, reason } => {
            let i = key_index(m.entries, id@);
            if i < 0 {
                Err(DownloadManagerError::UnknownJob { id })
            } else {
                match reason {
                    WorkerStopReason::Paused => if m.entries[i].1.state is Pausing {
                        Ok(
                            (
                                move_job(
                                    m,
                                    i,
                                    DownloadJobState::Paused,
                                    DownloadEvent::JobPaused { id },
                                ),
                                no_actions(),
                            ),
                        )
                    } else {
                        Ok((m, no_actions()))
                    },
                    WorkerStopReason::Cancelled => if m.entries[i].1.state is Cancelling {
                        Ok(
                            (
                                settle(
                                    move_job(
                                        m,
                                        i,
                                        DownloadJobState::Cancelled,
                                        DownloadEvent::JobCancelled { id },
                                    ),
                                ),
                                no_actions(),
                            ),
                        )
                    } else {
                        Ok((m, no_actions()))
                    },
                }
            }
        },
    }
}

/// The number of entries whose job satisfies `p`.
pub open spec fn count_where(entries: Seq<JobEntry>, p: spec_fn(JobRuntimeState) -> bool) -> nat
    decreases entries.len(),
{
    if entries.len() == 0 {
        0
    } else {
        count_where(entries.drop_last(), p) + if p(entries.last().1) {
            1nat
        } else {
            0nat
        }
    }
}

pub open spec fn job_active(j: JobRuntimeState) -> bool {
    is_active(j.state)
}

pub open spec fn job_pending(j: JobRuntimeState) -> bool {
    j.state is Pending
}

/// The job is active and downloads from `host`.
pub open spec fn job_active_on(j: JobRuntimeState, host: Seq<char>) -> bool {
    is_active(j.state) && (j.spec.host matches Some(h) && h@ == host)
}

/// How many jobs are active.
pub open spec fn active_count(entries: Seq<JobEntry>) -> nat {
    count_where(entries, |j: JobRuntimeState| job_active(j))
}

/// How many jobs are pending.
pub open spec fn pending_count(entries: Seq<JobEntry>) -> nat {
    count_where(entries, |j: JobRuntimeState| job_pending(j))
}

/// How many jobs are active on `host`.
pub open spec fn host_active_count(entries: Seq<JobEntry>, host: Seq<char>) -> nat {
    count_where(entries, |j: JobRuntimeState| job_active_on(j, host))
}

/// Another job for the host of `spec` stays within the per-host limit; a job
/// with no host is never held back by it.
pub open spec fn host_has_room(entries: Seq<JobEntry>, spec: DownloadJobSpec, per_host: usize) -> bool {
    match spec.host {
        None => true,
        Some(h) => host_active_count(entries, h@) < per_host,
    }
}

/// Job `i` is pending and its host has room.
pub open spec fn schedulable(entries: Seq<JobEntry>, i: int, per_host: usize) -> bool {
    entries[i].1.state is Pending && host_has_room(entries, entries[i].1.spec, per_host)
}

/// Job `i` is the first schedulable job in key order.
pub open spec fn is_first_schedulable(entries: Seq<JobEntry>, i: int, per_host: usize) -> bool {
    &&& 0 <= i < entries.len()
    &&& schedulable(entries, i, per_host)
    &&& forall|k: int| 0 <= k < i ==> !#[trigger] schedulable(entries, k, per_host)
}

/// The first schedulable job in key order, or -1.
pub open spec fn first_schedulable(entries: Seq<JobEntry>, per_host: usize) -> int {
    if exists|i: int| is_first_schedulable(entries, i, per_host) {
        choose|i: int| is_first_schedulable(entries, i, per_host)
    } else {
        -1
    }
}

/// Job `i` started: one more attempt, running it, and a `JobStarted` event.
pub open spec fn start_at(m: ManagerModel, i: int) -> ManagerModel {
    let job = m.entries[i].1;
    let attempt = sat_inc(job.attempts);
    ManagerModel {
        entries: m.entries.update(
            i,
            (
                m.entries[i].0,
                JobRuntimeState {
                    spec: job.spec,
                    state: DownloadJobState::Running { attempt },
                    attempts: attempt,
                },
            ),
        ),
        events: m.events.push(DownloadEvent::JobStarted { id: key_id(m.entries[i].0), attempt }),
        ..m
    }
}

/// Scheduling: while fewer than `global` jobs are active, start the first
/// schedulable job in key order; each start asks the backend to start it.
pub open spec fn schedule_from(m: ManagerModel, global: usize, per_host: usize) -> (
    ManagerModel,
    Seq<DownloadManagerAction>,
)
    decreases pending_count(m.entries),
{
    let i = first_schedulable(m.entries, per_host);
    if active_count(m.entries) >= global || i < 0 {
        (m, no_actions())
    } else {
        proof {
            lemma_first_schedulable(m.entries, per_host);
            lemma_start_one_less_pending(m, i);
        }
        let (m2, rest) = schedule_from(start_at(m, i), global, per_host);
        (m2, seq![DownloadManagerAction::StartJob(m.entries[i].1.spec)] + rest)
    }
}

/// Changing one entry changes a count by what that entry adds and removes.
pub proof fn lemma_count_update(
    s: Seq<JobEntry>,
    i: int,
    e: JobEntry,
    p: spec_fn(JobRuntimeState) -> bool,
)
    requires
        0 <= i < s.len(),
    ensures
        count_where(s.update(i, e), p) + (if p(s[i].1) {
            1int
        } else {
            0int
        }) == count_where(s, p) + (if p(e.1) {
            1int
        } else {
            0int
        }),
    decreases s.len(),
{
    let t = s.update(i, e);
    if i == s.len() - 1 {
        assert(t.drop_last() =~= s.drop_last());
    } else {
        assert(t.drop_last() =~= s.drop_last().update(i, e));
        lemma_count_update(s.drop_last(), i, e, p);
    }
}

/// A count is at most the number of entries.
pub proof fn lemma_count_le_len(s: Seq<JobEntry>, p: spec_fn(JobRuntimeState) -> bool)
    ensures
        count_where(s, p) <= s.len(),
    decreases s.len(),
{
    if s.len() > 0 {
        lemma_count_le_len(s.drop_last(), p);
    }
}

/// The first schedulable job, when there is one, is schedulable.
pub proof fn lemma_first_schedulable(entries: Seq<JobEntry>, per_host: usize)
    ensures
        first_schedulable(entries, per_host) >= 0 ==> is_first_schedulable(
            entries,
            first_schedulable(entries, per_host),
            per_host,
        ),
        first_schedulable(entries, per_host) < 0 ==> forall|k: int|
            0 <= k < entries.len() ==> !#[trigger] schedulable(entries, k, per_host),
        first_schedulable(entries, per_host) >= -1,
{
    if !exists|i: int| is_first_schedulable(entries, i, per_host) {
        assert forall|k: int| 0 <= k < entries.len() implies !#[trigger] schedulable(entries, k, per_host) by {
            if schedulable(entries, k, per_host) {
                lemma_least_schedulable(entries, per_host, k);
            }
        }
    }
}

/// If job `k` is schedulable, some job at or before it is the first.
proof fn lemma_least_schedulable(entries: Seq<JobEntry>, per_host: usize, k: int)
    requires
        0 <= k < entries.len(),
        schedulable(entries, k, per_host),
    ensures
        exists|i: int| is_first_schedulable(entries, i, per_host),
    decreases k,
{
    if exists|j: int| 0 <= j < k && #[trigger] schedulable(entries, j, per_host) {
        let j = choose|j: int| 0 <= j < k && #[trigger] schedulable(entries, j, per_host);
        lemma_least_schedulable(entries, per_host, j);
    } else {
        assert(is_first_schedulable(entries, k, per_host));
    }
}

/// Starting a pending job leaves one pending job fewer.
pub proof fn lemma_start_one_less_pending(m: ManagerModel, i: int)
    requires
        0 <= i < m.entries.len(),
        m.entries[i].1.state is Pending,
    ensures
        pending_count(start_at(m, i).entries) < pending_count(m.entries),
{
    let job = m.entries[i].1;
    let attempt = sat_inc(job.attempts);
    let e = (
        m.entries[i].0,
        JobRuntimeState { spec: job.spec, state: DownloadJobState::Running { attempt }, attempts: attempt },
    );
    lemma_count_update(m.entries, i, e, |j: JobRuntimeState| job_pending(j));
}

/// The download manager.
#[derive(Debug)]
pub struct DownloadManagerState {
    config: DownloadManagerConfig,
    jobs: StringMap<JobRuntimeState>,
    events: Vec<DownloadEvent>,
    terminal_state: Option<PlanTerminalState>,
    marks: StringMap<ProgressMark>,
    progress_interval_ms: u64,
}

impl DownloadManagerState {
    /// The manager's contents as values.
    pub closed spec fn model(&self) -> ManagerModel {
        ManagerModel {
            entries: self.jobs.pairs(),
            events: self.events@,
            terminal: self.terminal_state,
            marks: Map::new(
                |k: Seq<char>| self.marks.lookup(k) is Some,
                |k: Seq<char>| self.marks.lookup(k)->Some_0,
            ),
            progress_interval_ms: self.progress_interval_ms,
            min_progress_bytes: self.config.events.min_progress_bytes,
        }
    }

    /// The configuration the manager runs with.
    pub closed spec fn configuration(&self) -> DownloadManagerConfig {
        self.config
    }

    /// The manager's own invariant: jobs in key order, each under its own id.
    pub closed spec fn wf(&self) -> bool {
        entries_wf(self.jobs.pairs()) && self.marks.wf()
    }

    /// A manager for `plan`, with every job queued; refused when `config` breaks a rule.
    pub fn new(plan: DownloadPlan, config: DownloadManagerConfig) -> (r: Result<
        Self,
        DownloadManagerError,
    >)
        ensures
            match r {
                Ok(m) => {
                    &&& config_check(config) is Ok
                    &&& m.wf()
                    &&& m.configuration() == config
                    &&& initial_entries(m.model().entries, plan.jobs@)
                    &&& m.model().events == queued_events(plan.jobs@)
                    &&& m.model().terminal is None
                    &&& m.model().marks == Map::<Seq<char>, ProgressMark>::empty()
                    &&& m.model().min_progress_bytes == config.events.min_progress_bytes
                    &&& forall|ms: u64|
                        config.events.progress_interval == #[trigger] millis_duration(ms)
                            ==> m.model().progress_interval_ms == ms
                },
                Err(e) => config_check(config) matches Err(c) && e == DownloadManagerError::InvalidConfig(
                    c,
                ),
            },
    {
        match config.validate() {
            Ok(()) => {},
            Err(c) => {
                return Err(DownloadManagerError::InvalidConfig(c));
            },
        }
        let ghost jobs = plan.jobs@;
        let mut map: StringMap<JobRuntimeState> = StringMap::new();
        let mut events: Vec<DownloadEvent> = Vec::new();
        let n = plan.jobs.len();
        let mut k: usize = 0;
        while k < n
            invariant
                k <= n,
                n == jobs.len(),
                jobs == plan.jobs@,
                map.wf(),
                initial_entries(map.pairs(), jobs.subrange(0, k as int)),
                events@ == queued_events(jobs.subrange(0, k as int)),
            decreases n - k,
        {
            let spec = plan.jobs[k].duplicate();
            let key = spec.id.text_owned();
            events.push(DownloadEvent::JobQueued { id: spec.id.duplicate() });
            let ghost before = map.pairs();
            let ghost old_jobs = jobs.subrange(0, k as int);
            let ghost new_jobs = jobs.subrange(0, k + 1);
            let ghost fresh = JobRuntimeState {
                spec: jobs[k as int],
                state: DownloadJobState::Pending,
                attempts: 0,
            };
            map.insert(key, JobRuntimeState { spec, state: DownloadJobState::Pending, attempts: 0 });
            proof {
                assert(new_jobs =~= old_jobs.push(jobs[k as int]));
                assert(queued_events(new_jobs) =~= queued_events(old_jobs).push(
                    DownloadEvent::JobQueued { id: jobs[k as int].id },
                ));
                lemma_insert_fresh(before, map.pairs(), old_jobs, jobs[k as int]);
            }
            k += 1;
        }
        proof {
            assert(jobs.subrange(0, n as int) =~= jobs);
        }
        let millis = duration_millis(&config.events.progress_interval);
        let progress_interval_ms: u64 = if millis > 0xffff_ffff_ffff_ffffu128 {
            0xffff_ffff_ffff_ffffu64
        } else {
            millis as u64
        };
        let marks: StringMap<ProgressMark> = StringMap::new();
        let r = DownloadManagerState {
            config,
            jobs: map,
            events,
            terminal_state: None,
            marks,
            progress_interval_ms,
        };
        assert(r.model().marks =~= Map::<Seq<char>, ProgressMark>::empty());
        Ok(r)
    }

    /// The configuration the manager runs with.
    pub fn config(&self) -> (r: &DownloadManagerConfig)
        ensures
            *r == self.configuration(),
    {
        &self.config
    }

    /// How the plan ended, if it has.
    pub fn terminal_state(&self) -> (r: Option<PlanTerminalState>)
        ensures
            r == self.model().terminal,
    {
        self.terminal_state
    }

    /// The state of the job with id `id`, if there is one.
    pub fn state(&self, id: &DownloadJobId) -> (r: Option<&DownloadJobState>)
        requires
            self.wf(),
        ensures
            match r {
                Some(s) => {
                    let i = key_index(self.model().entries, id@);
                    i >= 0 && *s == self.model().entries[i].1.state
                },
                None => key_index(self.model().entries, id@) < 0,
            },
    {
        match self.jobs.get(id.as_str()) {
            Some(job) => Some(&job.state),
            None => None,
        }
    }

    /// The number of jobs.
    pub fn job_count(&self) -> (n: usize)
        ensures
            n == self.model().entries.len(),
    {
        self.jobs.len()
    }

    /// The job at position `i` in key order.
    pub fn job_at(&self, i: usize) -> (r: &JobRuntimeState)
        requires
            i < self.model().entries.len(),
        ensures
            *r == self.model().entries[i as int].1,
    {
        self.jobs.entry(i).1
    }

    /// Puts job `i` in `state`.
    fn set_state(&mut self, i: usize, state: DownloadJobState)
        requires
            old(self).wf(),
            i < old(self).model().entries.len(),
        ensures
            final(self).wf(),
            final(self).configuration() == old(self).configuration(),
            final(self).model() == (ManagerModel {
                entries: with_state(old(self).model().entries, i as int, state),
                ..old(self).model()
            }),
    {
        let ghost before = self.jobs.pairs();
        let job = self.jobs.value_mut(i);
        job.state = state;
        proof {
            assert(self.jobs.pairs() =~= with_state(before, i as int, state));
            lemma_with_state_wf(before, i as int, state);
        }
    }

    /// Appends `event`.
    fn push_event(&mut self, event: DownloadEvent)
        ensures
            final(self).wf() == old(self).wf(),
            final(self).configuration() == old(self).configuration(),
            final(self).model() == (ManagerModel {
                events: old(self).model().events.push(event),
                ..old(self).model()
            }),
    {
        self.events.push(event);
    }

    /// Whether a progress report of job `id` is to be told (see `progress_due`).
    fn progress_is_due(&self, id: &DownloadJobId, downloaded: u64, at_ms: u64) -> (r: bool)
        requires
            self.wf(),
        ensures
            r == progress_due(
                mark_of(self.model(), id@),
                downloaded,
                at_ms,
                self.model().progress_interval_ms,
                self.model().min_progress_bytes,
            ),
    {
        let interval = self.progress_interval_ms;
        let min_bytes = self.config.events.min_progress_bytes;
        match self.marks.get(id.as_str()) {
            None => true,
            Some(p) => {
                (at_ms >= p.at_ms && at_ms - p.at_ms >= interval) || (downloaded >= p.downloaded
                    && downloaded - p.downloaded >= min_bytes) || (p.downloaded >= downloaded
                    && p.downloaded - downloaded >= min_bytes)
            },
        }
    }

    /// Keeps `mark` as the last progress told for the job stored under `key`.
    fn record_mark(&mut self, key: String, mark: ProgressMark)
        requires
            old(self).wf(),
        ensures
            final(self).wf(),
            final(self).configuration() == old(self).configuration(),
            final(self).model() == (ManagerModel {
                marks: old(self).model().marks.insert(key@, mark),
                ..old(self).model()
            }),
    {
        let ghost k = key@;
        self.marks.insert(key, mark);
        assert(self.model().marks =~= old(self).model().marks.insert(k, mark));
    }

    /// Where job `i` stands, as a copyable summary.
    fn phase(&self, i: usize) -> (r: (Phase, u8))
        requires
            i < self.model().entries.len(),
        ensures
            phase_matches(r.0, r.1, self.model().entries[i as int].1.state),
    {
        match &self.jobs.entry(i).1.state {
            DownloadJobState::Pending => (Phase::Pending, 0),
            DownloadJobState::Running { attempt } => (Phase::Running, *attempt),
            DownloadJobState::Pausing { attempt } => (Phase::Pausing, *attempt),
            DownloadJobState::Paused => (Phase::Paused, 0),
            DownloadJobState::Cancelling { attempt } => (Phase::Cancelling, *attempt),
            DownloadJobState::Completed => (Phase::Completed, 0),
            DownloadJobState::Failed { .. } => (Phase::Failed, 0),
            DownloadJobState::Cancelled => (Phase::Cancelled, 0),
        }
    }

    /// Ends the plan when the jobs call for it (see `settle`).
    fn emit_plan_terminal_event(&mut self)
        requires
            old(self).wf(),
        ensures
            final(self).wf(),
            final(self).configuration() == old(self).configuration(),
            final(self).model() == settle(old(self).model()),
    {
        if self.terminal_state.is_some() {
            return;
        }
        let n = self.jobs.len();
        let mut all_done = true;
        let mut any_failed_yet = false;
        let mut i: usize = 0;
        while i < n
            invariant
                i <= n,
                n == self.model().entries.len(),
                all_done == (forall|k: int|
                    0 <= k < i ==> (#[trigger] self.model().entries[k]).1.state is Completed),
                any_failed_yet == (exists|k: int|
                    0 <= k < i && ((#[trigger] self.model().entries[k]).1.state is Failed
                        || self.model().entries[k].1.state is Cancelled)),
            decreases n - i,
        {
            let (ph, _) = self.phase(i);
            let ghost e = self.model().entries[i as int];
            if !matches!(ph, Phase::Completed) {
                all_done = false;
            }
            if matches!(ph, Phase::Failed) || matches!(ph, Phase::Cancelled) {
                any_failed_yet = true;
            }
            i += 1;
        }
        if all_done {
            self.terminal_state = Some(PlanTerminalState::Completed);
            self.events.push(DownloadEvent::PlanCompleted);
        } else if any_failed_yet {
            self.terminal_state = Some(PlanTerminalState::Failed);
            self.events.push(DownloadEvent::PlanFailed);
        }
    }

    /// Applies `op` to job `i`, naming it `id`.
    fn job_step(&mut self, op: JobOp, i: usize, id: &DownloadJobId) -> (r: Vec<DownloadManagerAction>)
        requires
            old(self).wf(),
            i < old(self).model().entries.len(),
        ensures
            final(self).wf(),
            final(self).configuration() == old(self).configuration(),
            final(self).model().entries.len() == old(self).model().entries.len(),
            (final(self).model(), r@) == op_step(old(self).model(), op, i as int, *id),
    {
        let (ph, attempt) = self.phase(i);
        match op {
            JobOp::Pause => match ph {
                Phase::Pending => {
                    self.set_state(i, DownloadJobState::Paused);
                    self.push_event(DownloadEvent::JobPaused { id: id.duplicate() });
                    Vec::new()
                },
                Phase::Running => {
                    self.set_state(i, DownloadJobState::Pausing { attempt });
                    self.push_event(DownloadEvent::JobPauseRequested { id: id.duplicate() });
                    vec![
                        DownloadManagerAction::StopWorker {
                            id: id.duplicate(),
                            reason: WorkerStopReason::Paused,
                        },
                    ]
                },
                _ => Vec::new(),
            },
            JobOp::Resume => match ph {
                Phase::Paused => {
                    self.set_state(i, DownloadJobState::Pending);
                    self.push_event(DownloadEvent::JobResumed { id: id.duplicate() });
                    Vec::new()
                },
                _ => Vec::new(),
            },
            JobOp::Cancel => match ph {
                Phase::Pending | Phase::Paused | Phase::Failed => {
                    self.set_state(i, DownloadJobState::Cancelled);
                    self.push_event(DownloadEvent::JobCancelled { id: id.duplicate() });
                    self.emit_plan_terminal_event();
                    Vec::new()
                },
                Phase::Running | Phase::Pausing => {
                    self.set_state(i, DownloadJobState::Cancelling { attempt });
                    self.push_event(DownloadEvent::JobCancelRequested { id: id.duplicate() });
                    vec![
                        DownloadManagerAction::StopWorker {
                            id: id.duplicate(),
                            reason: WorkerStopReason::Cancelled,
                        },
                    ]
                },
                _ => Vec::new(),
            },
            JobOp::Retry => match ph {
                Phase::Failed | Phase::Cancelled => {
                    let attempts = self.jobs.entry(i).1.attempts;
                    let next_attempt = if attempts == 255 {
                        255
                    } else {
                        attempts + 1
                    };
                    self.set_state(i, DownloadJobState::Pending);
                    self.terminal_state = None;
                    self.push_event(
                        DownloadEvent::JobRetryScheduled { id: id.duplicate(), attempt: next_attempt },
                    );
                    Vec::new()
                },
                _ => Vec::new(),
            },
        }
    }

    /// Applies `op` to the job with id `id`.
    fn apply_job_op(&mut self, op: JobOp, id: &DownloadJobId) -> (r: Result<
        Vec<DownloadManagerAction>,
        DownloadManagerError,
    >)
        requires
            old(self).wf(),
        ensures
            final(self).wf(),
            final(self).configuration() == old(self).configuration(),
            r is Err ==> final(self).model() == old(self).model(),
            op_result(old(self).model(), op, *id) == match r {
                Ok(a) => Ok((final(self).model(), a@)),
                Err(e) => Err::<(ManagerModel, Seq<DownloadManagerAction>), _>(e),
            },
    {
        match self.jobs.position(id.as_str()) {
            None => Err(DownloadManagerError::UnknownJob { id: id.duplicate() }),
            Some(i) => Ok(self.job_step(op, i, id)),
        }
    }

    /// Applies `op` to every job, in key order.
    fn apply_to_all(&mut self, op: JobOp) -> (r: Vec<DownloadManagerAction>)
        requires
            old(self).wf(),
        ensures
            final(self).wf(),
            final(self).configuration() == old(self).configuration(),
            (final(self).model(), r@) == op_all(
                old(self).model(),
                op,
                old(self).model().entries.len(),
            ),
    {
        let ghost m0 = self.model();
        let n = self.jobs.len();
        let mut actions: Vec<DownloadManagerAction> = Vec::new();
        let mut k: usize = 0;
        while k < n
            invariant
                k <= n,
                n == m0.entries.len(),
                self.wf(),
                self.configuration() == old(self).configuration(),
                self.model().entries.len() == n,
                (self.model(), actions@) == op_all(m0, op, k as nat),
            decreases n - k,
        {
            let key = self.jobs.entry(k).0.clone();
            let id = DownloadJobId::from_text(key);
            let mut more = self.job_step(op, k, &id);
            actions.append(&mut more);
            k += 1;
        }
        actions
    }

    /// Carries out a command; see `command_result`.
    pub fn apply_command(&mut self, command: DownloadCommand) -> (r: Result<
        Vec<DownloadManagerAction>,
        DownloadManagerError,
    >)
        requires
            old(self).wf(),
        ensures
            final(self).wf(),
            final(self).configuration() == old(self).configuration(),
            r is Err ==> final(self).model() == old(self).model(),
            command_result(old(self).model(), command) == match r {
                Ok(a) => Ok((final(self).model(), a@)),
                Err(e) => Err::<(ManagerModel, Seq<DownloadManagerAction>), _>(e),
            },
    {
        match command {
            DownloadCommand::PauseJob(id) => self.apply_job_op(JobOp::Pause, &id),
            DownloadCommand::ResumeJob(id) => self.apply_job_op(JobOp::Resume, &id),
            DownloadCommand::CancelJob(id) => self.apply_job_op(JobOp::Cancel, &id),
            DownloadCommand::RetryJob(id) => self.apply_job_op(JobOp::Retry, &id),
            DownloadCommand::PauseAll => Ok(self.apply_to_all(JobOp::Pause)),
            DownloadCommand::ResumeAll => Ok(self.apply_to_all(JobOp::Resume)),
            DownloadCommand::CancelAll => Ok(self.apply_to_all(JobOp::Cancel)),
        }
    }

    /// Carries out a worker report; see `report_result`. Reports from jobs that
    /// are no longer active change nothing.
    pub fn apply_worker_report(&mut self, report: WorkerReport) -> (r: Result<
        Vec<DownloadManagerAction>,
        DownloadManagerError,
    >)
        requires
            old(self).wf(),
        ensures
            final(self).wf(),
            final(self).configuration() == old(self).configuration(),
            r is Err ==> final(self).model() == old(self).model(),
            report_result(
                old(self).model(),
                old(self).configuration().retry.max_attempts,
                report,
            ) == match r {
                Ok(a) => Ok((final(self).model(), a@)),
                Err(e) => Err::<(ManagerModel, Seq<DownloadManagerAction>), _>(e),
            },
    {
        match report {
            WorkerReport::Progress { id, downloaded, total, at_ms } => {
                match self.jobs.position(id.as_str()) {
                    None => Err(DownloadManagerError::UnknownJob { id }),
                    Some(i) => {
                        let (ph, _) = self.phase(i);
                        if phase_is_active(ph) && self.progress_is_due(&id, downloaded, at_ms) {
                            let key = id.text_owned();
                            self.push_event(DownloadEvent::JobProgress { id, downloaded, total });
                            self.record_mark(key, ProgressMark { downloaded, at_ms });
                        }
                        Ok(Vec::new())
                    },
                }
            },
            WorkerReport::Completed { id } => {
                match self.jobs.position(id.as_str()) {
                    None => Err(DownloadManagerError::UnknownJob { id }),
                    Some(i) => {
                        let (ph, _) = self.phase(i);
                        if phase_is_active(ph) {
                            self.set_state(i, DownloadJobState::Completed);
                            self.push_event(DownloadEvent::JobCompleted { id });
                            self.emit_plan_terminal_event();
                        }
                        Ok(Vec::new())
                    },
                }
            },
            WorkerReport::Failed { id, error, retryable } => self.fail_job(id, error, retryable),
            WorkerReport::Stopped { id, reason } => {
                match self.jobs.position(id.as_str()) {
                    None => Err(DownloadManagerError::UnknownJob { id }),
                    Some(i) => {
                        let (ph, _) = self.phase(i);
                        match reason {
                            WorkerStopReason::Paused => {
                                if matches!(ph, Phase::Pausing) {
                                    self.set_state(i, DownloadJobState::Paused);
                                    self.push_event(DownloadEvent::JobPaused { id });
                                }
                            },
                            WorkerStopReason::Cancelled => {
                                if matches!(ph, Phase::Cancelling) {
                                    self.set_state(i, DownloadJobState::Cancelled);
                                    self.push_event(DownloadEvent::JobCancelled { id });
                                    self.emit_plan_terminal_event();
                                }
                            },
                        }
                        Ok(Vec::new())
                    },
                }
            },
        }
    }

    /// A worker failed: the job goes back to pending while it may be retried,
    /// else it fails for good.
    fn fail_job(&mut self, id: DownloadJobId, error: String, retryable: bool) -> (r: Result<
        Vec<DownloadManagerAction>,
        DownloadManagerError,
    >)
        requires
            old(self).wf(),
        ensures
            final(self).wf(),
            final(self).configuration() == old(self).configuration(),
            r is Err ==> final(self).model() == old(self).model(),
            report_result(
                old(self).model(),
                old(self).configuration().retry.max_attempts,
                WorkerReport::Failed { id, error, retryable },
            ) == match r {
                Ok(a) => Ok((final(self).model(), a@)),
                Err(e) => Err::<(ManagerModel, Seq<DownloadManagerAction>), _>(e),
            },
    {
        let max_attempts = self.config.retry.max_attempts;
        match self.jobs.position(id.as_str()) {
            None => Err(DownloadManagerError::UnknownJob { id }),
            Some(i) => {
                let (ph, _) = self.phase(i);
                if !phase_is_active(ph) {
                    return Ok(Vec::new());
                }
                let attempts = self.jobs.entry(i).1.attempts;
                let job_retryable = self.jobs.entry(i).1.spec.policy.retryable;
                if retryable && job_retryable && attempts < max_attempts {
                    let next_attempt = if attempts == 255 {
                        255
                    } else {
                        attempts + 1
                    };
                    self.set_state(i, DownloadJobState::Pending);
                    self.push_event(DownloadEvent::JobRetryScheduled { id, attempt: next_attempt });
                    return Ok(Vec::new());
                }
                self.set_state(i, DownloadJobState::Failed { attempts, error: error.clone() });
                self.push_event(DownloadEvent::JobFailed { id, error });
                self.emit_plan_terminal_event();
                Ok(Vec::new())
            },
        }
    }

    /// How many jobs are active.
    fn running_count(&self) -> (n: usize)
        ensures
            n == active_count(self.model().entries),
    {
        let ghost entries = self.model().entries;
        let n = self.jobs.len();
        let mut count: usize = 0;
        let mut i: usize = 0;
        while i < n
            invariant
                i <= n,
                n == entries.len(),
                entries == self.model().entries,
                count == active_count(entries.subrange(0, i as int)),
            decreases n - i,
        {
            proof {
                assert(entries.subrange(0, i + 1).drop_last() =~= entries.subrange(0, i as int));
                lemma_count_le_len(entries.subrange(0, i as int), |j: JobRuntimeState| job_active(j));
            }
            let (ph, _) = self.phase(i);
            if phase_is_active(ph) {
                count += 1;
            }
            i += 1;
        }
        proof {
            assert(entries.subrange(0, n as int) =~= entries);
        }
        count
    }

    /// Whether another job for the host of `spec` stays within `per_host_limit`.
    fn host_has_capacity(&self, spec: &DownloadJobSpec, per_host_limit: usize) -> (r: bool)
        ensures
            r == host_has_room(self.model().entries, *spec, per_host_limit),
    {
        let candidate_host = match &spec.host {
            None => {
                return true;
            },
            Some(h) => h,
        };
        let ghost entries = self.model().entries;
        let ghost host = candidate_host@;
        let n = self.jobs.len();
        let mut count: usize = 0;
        let mut i: usize = 0;
        while i < n
            invariant
                i <= n,
                n == entries.len(),
                entries == self.model().entries,
                host == candidate_host@,
                count == host_active_count(entries.subrange(0, i as int), host),
            decreases n - i,
        {
            proof {
                assert(entries.subrange(0, i + 1).drop_last() =~= entries.subrange(0, i as int));
                lemma_count_le_len(
                    entries.subrange(0, i as int),
                    |j: JobRuntimeState| job_active_on(j, host),
                );
            }
            let (ph, _) = self.phase(i);
            let same_host = match &self.jobs.entry(i).1.spec.host {
                Some(h) => *h == *candidate_host,
                None => false,
            };
            if phase_is_active(ph) && same_host {
                count += 1;
            }
            i += 1;
        }
        proof {
            assert(entries.subrange(0, n as int) =~= entries);
        }
        count < per_host_limit
    }

    /// The first schedulable job in key order, if any.
    fn next_schedulable_pending_job(&self, per_host_limit: usize) -> (r: Option<usize>)
        ensures
            match r {
                Some(i) => i == first_schedulable(self.model().entries, per_host_limit),
                None => first_schedulable(self.model().entries, per_host_limit) < 0,
            },
    {
        let ghost entries = self.model().entries;
        proof {
            lemma_first_schedulable(entries, per_host_limit);
        }
        let n = self.jobs.len();
        let mut i: usize = 0;
        while i < n
            invariant
                i <= n,
                n == entries.len(),
                entries == self.model().entries,
                forall|k: int| 0 <= k < i ==> !#[trigger] schedulable(entries, k, per_host_limit),
            decreases n - i,
        {
            let (ph, _) = self.phase(i);
            if matches!(ph, Phase::Pending) && self.host_has_capacity(
                &self.jobs.entry(i).1.spec,
                per_host_limit,
            ) {
                proof {
                    assert(is_first_schedulable(entries, i as int, per_host_limit));
                    let f = first_schedulable(entries, per_host_limit);
                    if f != i {
                        assert(is_first_schedulable(entries, f, per_host_limit));
                        if f < i {
                            assert(!schedulable(entries, f, per_host_limit));
                        } else {
                            assert(!schedulable(entries, i as int, per_host_limit));
                        }
                    }
                }
                return Some(i);
            }
            i += 1;
        }
        None
    }

    /// Starts pending jobs, in key order, while fewer than the global limit are
    /// active and their host has room; see `schedule_from`.
    pub fn schedule_ready_jobs(&mut self) -> (actions: Vec<DownloadManagerAction>)
        requires
            old(self).wf(),
        ensures
            final(self).wf(),
            final(self).configuration() == old(self).configuration(),
            (final(self).model(), actions@) == schedule_from(
                old(self).model(),
                old(self).configuration().concurrency.global_limit,
                old(self).configuration().concurrency.per_host_limit,
            ),
    {
        let ghost m0 = self.model();
        let global = self.config.concurrency.global_limit;
        let per_host = self.config.concurrency.per_host_limit;
        let mut actions: Vec<DownloadManagerAction> = Vec::new();
        loop
            invariant
                self.wf(),
                self.configuration() == old(self).configuration(),
                global == self.configuration().concurrency.global_limit,
                per_host == self.configuration().concurrency.per_host_limit,
                schedule_from(m0, global, per_host) == (
                    schedule_from(self.model(), global, per_host).0,
                    actions@ + schedule_from(self.model(), global, per_host).1,
                ),
            ensures
                self.wf(),
                self.configuration() == old(self).configuration(),
                schedule_from(m0, global, per_host) == (self.model(), actions@),
            decreases pending_count(self.model().entries),
        {
            let ghost m = self.model();
            if self.running_count() >= global {
                proof {
                    assert(schedule_from(m, global, per_host) == (m, no_actions()));
                    assert(actions@ + no_actions() =~= actions@);
                }
                break;
            }
            let i = match self.next_schedulable_pending_job(per_host) {
                None => {
                    proof {
                        assert(schedule_from(m, global, per_host) == (m, no_actions()));
                        assert(actions@ + no_actions() =~= actions@);
                    }
                    break;
                },
                Some(i) => i,
            };
            proof {
                lemma_first_schedulable(m.entries, per_host);
                lemma_start_one_less_pending(m, i as int);
            }
            let spec = self.jobs.entry(i).1.spec.duplicate();
            let key = self.jobs.entry(i).0.clone();
            let attempts = self.jobs.entry(i).1.attempts;
            let attempt = if attempts == 255 {
                255
            } else {
                attempts + 1
            };
            let ghost before = self.jobs.pairs();
            let job = self.jobs.value_mut(i);
            job.attempts = attempt;
            job.state = DownloadJobState::Running { attempt };
            proof {
                lemma_with_state_wf(before, i as int, DownloadJobState::Running { attempt });
                assert(self.jobs.pairs() =~= with_state(before, i as int, DownloadJobState::Running { attempt }).update(
                    i as int,
                    self.jobs.pairs()[i as int],
                ));
                lemma_set_attempts_wf(before, i as int, self.jobs.pairs());
            }
            self.events.push(DownloadEvent::JobStarted { id: DownloadJobId::from_text(key), attempt });
            actions.push(DownloadManagerAction::StartJob(spec));
            proof {
                assert(self.model() == start_at(m, i as int));
                let rest = schedule_from(self.model(), global, per_host);
                assert(actions@ + rest.1 =~= actions@.drop_last() + (seq![
                    DownloadManagerAction::StartJob(m.entries[i as int].1.spec),
                ] + rest.1));
            }
        }
        actions
    }

    /// Hands out the events appended since the last drain, oldest first, and forgets them.
    pub fn drain_events(&mut self) -> (r: Vec<DownloadEvent>)
        ensures
            r@ == old(self).model().events,
            final(self).model() == (ManagerModel { events: Seq::empty(), ..old(self).model() }),
            final(self).wf() == old(self).wf(),
            final(self).configuration() == old(self).configuration(),
    {
        let mut taken: Vec<DownloadEvent> = Vec::new();
        std::mem::swap(&mut taken, &mut self.events);
        taken
    }
}

/// A copyable summary of a job state.
#[derive(Debug, Clone, Copy, PartialEq, Eq, Structural)]
enum Phase {
    Pending,
    Running,
    Pausing,
    Paused,
    Cancelling,
    Completed,
    Failed,
    Cancelled,
}

/// `phase` and `attempt` summarize `state`; `attempt` is the attempt of an active job.
spec fn phase_matches(phase: Phase, attempt: u8, state: DownloadJobState) -> bool {
    match state {
        DownloadJobState::Pending => phase == Phase::Pending,
        DownloadJobState::Running { attempt: a } => phase == Phase::Running && attempt == a,
        DownloadJobState::Pausing { attempt: a } => phase == Phase::Pausing && attempt == a,
        DownloadJobState::Paused => phase == Phase::Paused,
        DownloadJobState::Cancelling { attempt: a } => phase == Phase::Cancelling && attempt == a,
        DownloadJobState::Completed => phase == Phase::Completed,
        DownloadJobState::Failed { .. } => phase == Phase::Failed,
        DownloadJobState::Cancelled => phase == Phase::Cancelled,
    }
}

fn phase_is_active(p: Phase) -> (r: bool)
    ensures
        r == (p == Phase::Running || p == Phase::Pausing || p == Phase::Cancelling),
{
    matches!(p, Phase::Running | Phase::Pausing | Phase::Cancelling)
}

/// Entries that differ from well-formed ones only in the state and attempts of
/// job `i` are well formed.
proof fn lemma_set_attempts_wf(entries: Seq<JobEntry>, i: int, after: Seq<JobEntry>)
    requires
        entries_wf(entries),
        0 <= i < entries.len(),
        after.len() == entries.len(),
        forall|k: int| 0 <= k < entries.len() && k != i ==> after[k] == entries[k],
        after[i].0 == entries[i].0,
        after[i].1.spec == entries[i].1.spec,
    ensures
        entries_wf(after),
{
    assert forall|k: int| 0 <= k < after.len() - 1 implies crate::keyed::key_lt(
        #[trigger] after[k].0@,
        after[k + 1].0@,
    ) by {
        assert(after[k].0 == entries[k].0);
        assert(after[k + 1].0 == entries[k + 1].0);
    }
    assert forall|a: int, b: int|
        0 <= a < after.len() && 0 <= b < after.len() && a != b implies #[trigger] after[a].0@
        != #[trigger] after[b].0@ by {
        assert(after[a].0 == entries[a].0);
        assert(after[b].0 == entries[b].0);
    }
    assert forall|k: int| 0 <= k < after.len() implies #[trigger] after[k].0@ == after[k].1.spec.id@ by {
        assert(after[k].0 == entries[k].0);
        assert(after[k].1.spec == entries[k].1.spec);
        assert(entries[k].0@ == entries[k].1.spec.id@);
    }
}

/// Changing a job's state keeps the entries well formed.
proof fn lemma_with_state_wf(entries: Seq<JobEntry>, i: int, state: DownloadJobState)
    requires
        entries_wf(entries),
        0 <= i < entries.len(),
    ensures
        entries_wf(with_state(entries, i, state)),
{
    let after = with_state(entries, i, state);
    assert forall|k: int| 0 <= k < after.len() implies #[trigger] after[k].0 == entries[k].0
        && after[k].1.spec == entries[k].1.spec by {
    }
    assert forall|k: int| 0 <= k < after.len() - 1 implies crate::keyed::key_lt(
        #[trigger] after[k].0@,
        after[k + 1].0@,
    ) by {
        assert(after[k].0 == entries[k].0);
        assert(after[k + 1].0 == entries[k + 1].0);
    }
    assert forall|a: int, b: int|
        0 <= a < after.len() && 0 <= b < after.len() && a != b implies #[trigger] after[a].0@
        != #[trigger] after[b].0@ by {
        assert(after[a].0 == entries[a].0);
        assert(after[b].0 == entries[b].0);
    }
    assert forall|k: int| 0 <= k < after.len() implies #[trigger] after[k].0@ == after[k].1.spec.id@ by {
        assert(after[k].0 == entries[k].0);
        assert(after[k].1.spec == entries[k].1.spec);
        assert(entries[k].0@ == entries[k].1.spec.id@);
    }
}

/// A job that was the last with its id stays so when a job with another id follows.
proof fn lemma_last_kept(jobs: Seq<DownloadJobSpec>, spec: DownloadJobSpec, j: int)
    requires
        last_with_id(jobs, j),
        jobs[j].id@ != spec.id@,
    ensures
        last_with_id(jobs.push(spec), j),
{
    let all = jobs.push(spec);
    assert forall|m: int| j < m < all.len() implies #[trigger] all[m].id@ != all[j].id@ by {
        if m < jobs.len() {
            assert(all[m] == jobs[m]);
        }
    }
}

/// Inserting a fresh job into the entries of the earlier jobs gives the entries
/// of the earlier jobs and that one.
proof fn lemma_insert_fresh(
    before: Seq<JobEntry>,
    after: Seq<JobEntry>,
    jobs: Seq<DownloadJobSpec>,
    spec: DownloadJobSpec,
)
    requires
        initial_entries(before, jobs),
        keys_ordered(after),
        ({
            let fresh = JobRuntimeState { spec, state: DownloadJobState::Pending, attempts: 0 };
            let p = key_index(before, spec.id@);
            &&& p >= 0 ==> after == before.update(p, (before[p].0, fresh))
            &&& p < 0 ==> exists|q: int|
                0 <= q <= before.len() && after == before.insert(q, (spec.id.text(), fresh))
        }),
    ensures
        initial_entries(after, jobs.push(spec)),
{
    let p = key_index(before, spec.id@);
    if p >= 0 {
        lemma_replace_fresh(before, after, jobs, spec, p);
    } else {
        let fresh = JobRuntimeState { spec, state: DownloadJobState::Pending, attempts: 0 };
        let q = choose|q: int|
            0 <= q <= before.len() && after == before.insert(q, (spec.id.text(), fresh));
        lemma_add_fresh(before, after, jobs, spec, q);
    }
}

proof fn lemma_replace_fresh(
    before: Seq<JobEntry>,
    after: Seq<JobEntry>,
    jobs: Seq<DownloadJobSpec>,
    spec: DownloadJobSpec,
    p: int,
)
    requires
        initial_entries(before, jobs),
        keys_ordered(after),
        p == key_index(before, spec.id@),
        p >= 0,
        after == before.update(
            p,
            (before[p].0, JobRuntimeState { spec, state: DownloadJobState::Pending, attempts: 0 }),
        ),
    ensures
        initial_entries(after, jobs.push(spec)),
{
    let all = jobs.push(spec);
    let k = jobs.len() as int;
    assert(last_with_id(all, k));
    assert(before[p].0@ == spec.id@);
    assert forall|i: int| 0 <= i < after.len() implies #[trigger] after[i].0@ == after[i].1.spec.id@ by {
        if i != p {
            assert(before[i].0@ == before[i].1.spec.id@);
        }
    }
    assert forall|i: int| 0 <= i < after.len() implies #[trigger] holds_last_fresh(after, i, all) by {
        if i == p {
            assert(holds_fresh(after, i, all, k));
        } else {
            assert(holds_last_fresh(before, i, jobs));
            let j = choose|j: int| last_with_id(jobs, j) && #[trigger] holds_fresh(before, i, jobs, j);
            assert(holds_fresh(before, i, jobs, j));
            assert(before[i].0@ != before[p].0@);
            lemma_last_kept(jobs, spec, j);
            assert(after[i] == before[i]);
            assert(all[j] == jobs[j]);
            assert(holds_fresh(after, i, all, j));
        }
    }
    assert forall|j: int| 0 <= j < all.len() implies exists|i: int|
        0 <= i < after.len() && #[trigger] after[i].0@ == #[trigger] all[j].id@ by {
        if j == k {
            assert(after[p].0@ == all[j].id@);
        } else {
            let jj = jobs[j];
            let i = choose|i: int| 0 <= i < before.len() && #[trigger] before[i].0@ == #[trigger] jobs[j].id@;
            assert(after[i].0@ == all[j].id@);
        }
    }
}

proof fn lemma_add_fresh(
    before: Seq<JobEntry>,
    after: Seq<JobEntry>,
    jobs: Seq<DownloadJobSpec>,
    spec: DownloadJobSpec,
    q: int,
)
    requires
        initial_entries(before, jobs),
        keys_ordered(after),
        key_index(before, spec.id@) < 0,
        0 <= q <= before.len(),
        after == before.insert(
            q,
            (spec.id.text(), JobRuntimeState { spec, state: DownloadJobState::Pending, attempts: 0 }),
        ),
    ensures
        initial_entries(after, jobs.push(spec)),
{
    let all = jobs.push(spec);
    let k = jobs.len() as int;
    assert(last_with_id(all, k));
    assert(forall|i: int| 0 <= i < before.len() ==> #[trigger] before[i].0@ != spec.id@);
    assert forall|i: int| 0 <= i < after.len() implies #[trigger] after[i].0@ == after[i].1.spec.id@ by {
        if i < q {
            assert(before[i].0@ == before[i].1.spec.id@);
        } else if i > q {
            assert(after[i] == before[i - 1]);
            assert(before[i - 1].0@ == before[i - 1].1.spec.id@);
        }
    }
    assert forall|i: int| 0 <= i < after.len() implies #[trigger] holds_last_fresh(after, i, all) by {
        if i == q {
            assert(holds_fresh(after, i, all, k));
        } else {
            let b = if i < q { i } else { i - 1 };
            assert(holds_last_fresh(before, b, jobs));
            assert(after[i] == before[b]);
            let j = choose|j: int| last_with_id(jobs, j) && #[trigger] holds_fresh(before, b, jobs, j);
            lemma_last_kept(jobs, spec, j);
            assert(holds_fresh(after, i, all, j));
        }
    }
    assert forall|j: int| 0 <= j < all.len() implies exists|i: int|
        0 <= i < after.len() && #[trigger] after[i].0@ == #[trigger] all[j].id@ by {
        if j == k {
            assert(after[q].0@ == all[j].id@);
        } else {
            let jj = jobs[j];
            let i = choose|i: int| 0 <= i < before.len() && #[trigger] before[i].0@ == #[trigger] jobs[j].id@;
            if i < q {
                assert(after[i].0@ == all[j].id@);
            } else {
                assert(after[i + 1] == before[i]);
                assert(after[i + 1].0@ == all[j].id@);
            }
        }
    }
}

} // verus!
