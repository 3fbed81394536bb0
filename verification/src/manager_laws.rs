//! What holds of every step of the download manager: its limits on running
//! jobs, which jobs a step may start or stop, how a plan ends, and how unknown
//! job ids are answered.
use vstd::prelude::*;

use crate::errors::DownloadManagerError;
use crate::event::{
    DownloadCommand, DownloadEvent, DownloadJobState, DownloadManagerAction, PlanTerminalState,
    WorkerReport, WorkerStopReason,
};
use crate::keyed::key_index;
use crate::manager::{
    active_count, all_completed, any_failed, command_result, count_where, host_active_count,
    host_has_room, job_active, job_active_on, lemma_count_update, lemma_first_schedulable,
    lemma_start_one_less_pending, move_job, op_all, op_step, report_result, schedule_from,
    settle, start_at, with_state, JobEntry, JobOp, JobRuntimeState, ManagerModel, mark_of,
    progress_due, ProgressMark, initial_entries, holds_last_fresh,
};
use crate::config::DownloadManagerConfig;
use crate::plan::{DownloadJobId, DownloadJobSpec};

verus! {

/// `t` holds the same jobs as `s`, under the same keys, in the same order.
pub open spec fn same_jobs(s: Seq<JobEntry>, t: Seq<JobEntry>) -> bool {
    &&& s.len() == t.len()
    &&& forall|k: int|
        0 <= k < s.len() ==> (#[trigger] t[k]).0 == s[k].0 && t[k].1.spec == s[k].1.spec
}

/// The same jobs, each exactly as active as before.
pub open spec fn activity_kept(s: Seq<JobEntry>, t: Seq<JobEntry>) -> bool {
    &&& same_jobs(s, t)
    &&& forall|k: int| 0 <= k < s.len() ==> job_active((#[trigger] t[k]).1) == job_active(s[k].1)
}

/// The same jobs, none active that was not active before.
pub open spec fn activity_shrunk(s: Seq<JobEntry>, t: Seq<JobEntry>) -> bool {
    &&& same_jobs(s, t)
    &&& forall|k: int| 0 <= k < s.len() ==> job_active((#[trigger] t[k]).1) ==> job_active(s[k].1)
}

/// At most `global` jobs are active, and at most `per_host` on any one host.
pub open spec fn within_limits(entries: Seq<JobEntry>, global: usize, per_host: usize) -> bool {
    &&& active_count(entries) <= global
    &&& forall|h: Seq<char>| #[trigger] host_active_count(entries, h) <= per_host
}

pub open spec fn max_nat(a: nat, b: nat) -> nat {
    if a >= b {
        a
    } else {
        b
    }
}

/// A count over entries that agree entry by entry on `p` is the same.
proof fn lemma_count_same(s: Seq<JobEntry>, t: Seq<JobEntry>, p: spec_fn(JobRuntimeState) -> bool)
    requires
        s.len() == t.len(),
        forall|k: int| 0 <= k < s.len() ==> p(#[trigger] t[k].1) == p(s[k].1),
    ensures
        count_where(t, p) == count_where(s, p),
    decreases s.len(),
{
    if s.len() > 0 {
        lemma_count_same(s.drop_last(), t.drop_last(), p);
        assert(p(t[t.len() - 1].1) == p(s[s.len() - 1].1));
    }
}

/// A count over entries of which fewer satisfy `p`, entry by entry, is no larger.
proof fn lemma_count_fewer(s: Seq<JobEntry>, t: Seq<JobEntry>, p: spec_fn(JobRuntimeState) -> bool)
    requires
        s.len() == t.len(),
        forall|k: int| 0 <= k < s.len() ==> p(#[trigger] t[k].1) ==> p(s[k].1),
    ensures
        count_where(t, p) <= count_where(s, p),
    decreases s.len(),
{
    if s.len() > 0 {
        lemma_count_fewer(s.drop_last(), t.drop_last(), p);
        assert(p(t[t.len() - 1].1) ==> p(s[s.len() - 1].1));
    }
}

/// Keeping every job exactly as active keeps every count of active jobs.
proof fn lemma_activity_kept_counts(s: Seq<JobEntry>, t: Seq<JobEntry>)
    requires
        activity_kept(s, t),
    ensures
        active_count(t) == active_count(s),
        forall|h: Seq<char>| #[trigger] host_active_count(t, h) == host_active_count(s, h),
{
    lemma_count_same(s, t, |j: JobRuntimeState| job_active(j));
    assert forall|h: Seq<char>| #[trigger] host_active_count(t, h) == host_active_count(s, h) by {
        assert forall|k: int| 0 <= k < s.len() implies job_active_on(#[trigger] t[k].1, h)
            == job_active_on(s[k].1, h) by {
            assert(job_active(t[k].1) == job_active(s[k].1));
        }
        lemma_count_same(s, t, |j: JobRuntimeState| job_active_on(j, h));
    }
}

/// Making no job newly active makes no count of active jobs larger.
proof fn lemma_activity_shrunk_counts(s: Seq<JobEntry>, t: Seq<JobEntry>)
    requires
        activity_shrunk(s, t),
    ensures
        active_count(t) <= active_count(s),
        forall|h: Seq<char>| #[trigger] host_active_count(t, h) <= host_active_count(s, h),
{
    lemma_count_fewer(s, t, |j: JobRuntimeState| job_active(j));
    assert forall|h: Seq<char>| #[trigger] host_active_count(t, h) <= host_active_count(s, h) by {
        assert forall|k: int| 0 <= k < s.len() implies job_active_on(#[trigger] t[k].1, h)
            ==> job_active_on(s[k].1, h) by {
            assert(job_active(t[k].1) ==> job_active(s[k].1));
        }
        lemma_count_fewer(s, t, |j: JobRuntimeState| job_active_on(j, h));
    }
}

/// One command step changes no job's activity.
proof fn lemma_op_step_activity(m: ManagerModel, op: JobOp, i: int, id: DownloadJobId)
    requires
        0 <= i < m.entries.len(),
    ensures
        activity_kept(m.entries, op_step(m, op, i, id).0.entries),
{
    let t = op_step(m, op, i, id).0.entries;
    assert forall|k: int| 0 <= k < m.entries.len() implies (#[trigger] t[k]).0 == m.entries[k].0
        && t[k].1.spec == m.entries[k].1.spec && job_active(t[k].1) == job_active(m.entries[k].1) by {
    }
}

/// Applying a command to every job changes no job's activity.
proof fn lemma_op_all_activity(m: ManagerModel, op: JobOp, k: nat)
    requires
        k <= m.entries.len(),
    ensures
        activity_kept(m.entries, op_all(m, op, k).0.entries),
    decreases k,
{
    if k > 0 {
        lemma_op_all_activity(m, op, (k - 1) as nat);
        let m1 = op_all(m, op, (k - 1) as nat).0;
        lemma_op_step_activity(m1, op, k - 1, crate::manager::key_id(m1.entries[k - 1].0));
        let t = op_all(m, op, k).0.entries;
        assert forall|j: int| 0 <= j < m.entries.len() implies (#[trigger] t[j]).0 == m.entries[j].0
            && t[j].1.spec == m.entries[j].1.spec && job_active(t[j].1) == job_active(
            m.entries[j].1,
        ) by {
            assert(m1.entries[j].0 == m.entries[j].0);
            assert(job_active(m1.entries[j].1) == job_active(m.entries[j].1));
        }
    }
}

/// A command never changes which jobs are active: pausing and cancelling a
/// running job only ask its worker to stop, and every other move is between
/// jobs no worker holds. The jobs, their keys and their specs stay.
pub proof fn law_command_keeps_activity(m: ManagerModel, command: DownloadCommand)
    requires
        command_result(m, command) is Ok,
    ensures
        activity_kept(m.entries, command_result(m, command)->Ok_0.0.entries),
{
    match command {
        DownloadCommand::PauseJob(id) => {
            lemma_op_step_activity(m, JobOp::Pause, key_index(m.entries, id@), id);
        },
        DownloadCommand::ResumeJob(id) => {
            lemma_op_step_activity(m, JobOp::Resume, key_index(m.entries, id@), id);
        },
        DownloadCommand::CancelJob(id) => {
            lemma_op_step_activity(m, JobOp::Cancel, key_index(m.entries, id@), id);
        },
        DownloadCommand::RetryJob(id) => {
            lemma_op_step_activity(m, JobOp::Retry, key_index(m.entries, id@), id);
        },
        DownloadCommand::PauseAll => {
            lemma_op_all_activity(m, JobOp::Pause, m.entries.len());
        },
        DownloadCommand::ResumeAll => {
            lemma_op_all_activity(m, JobOp::Resume, m.entries.len());
        },
        DownloadCommand::CancelAll => {
            lemma_op_all_activity(m, JobOp::Cancel, m.entries.len());
        },
    }
}

/// A worker report never makes a job active: it may only end one.
pub proof fn law_report_only_stops(m: ManagerModel, max_attempts: u8, report: WorkerReport)
    requires
        report_result(m, max_attempts, report) is Ok,
    ensures
        activity_shrunk(m.entries, report_result(m, max_attempts, report)->Ok_0.0.entries),
{
    let t = report_result(m, max_attempts, report)->Ok_0.0.entries;
    assert forall|k: int| 0 <= k < m.entries.len() implies (#[trigger] t[k]).0 == m.entries[k].0
        && t[k].1.spec == m.entries[k].1.spec && (job_active(t[k].1) ==> job_active(
        m.entries[k].1,
    )) by {
    }
}

/// Starting job `i` adds one active job, and one on its host if it has one.
proof fn lemma_start_counts(m: ManagerModel, i: int)
    requires
        0 <= i < m.entries.len(),
        m.entries[i].1.state is Pending,
    ensures
        active_count(start_at(m, i).entries) == active_count(m.entries) + 1,
        forall|h: Seq<char>|
            #[trigger] host_active_count(start_at(m, i).entries, h) == host_active_count(
                m.entries,
                h,
            ) + if m.entries[i].1.spec.host matches Some(x) && x@ == h {
                1int
            } else {
                0int
            },
{
    let e = start_at(m, i).entries[i];
    assert(start_at(m, i).entries == m.entries.update(i, e));
    lemma_count_update(m.entries, i, e, |j: JobRuntimeState| job_active(j));
    assert forall|h: Seq<char>|
        #[trigger] host_active_count(start_at(m, i).entries, h) == host_active_count(m.entries, h)
            + if m.entries[i].1.spec.host matches Some(x) && x@ == h {
            1int
        } else {
            0int
        } by {
        lemma_count_update(m.entries, i, e, |j: JobRuntimeState| job_active_on(j, h));
    }
}

/// Scheduling keeps within the limits: afterwards no more jobs are active than
/// the global limit or than before, and on each host no more than the per-host
/// limit or than before.
pub proof fn law_schedule_respects_limits(m: ManagerModel, global: usize, per_host: usize)
    ensures
        active_count(schedule_from(m, global, per_host).0.entries) <= max_nat(
            active_count(m.entries),
            global as nat,
        ),
        forall|h: Seq<char>|
            #[trigger] host_active_count(schedule_from(m, global, per_host).0.entries, h)
                <= max_nat(host_active_count(m.entries, h), per_host as nat),
    decreases crate::manager::pending_count(m.entries),
{
    let i = crate::manager::first_schedulable(m.entries, per_host);
    if active_count(m.entries) >= global || i < 0 {
    } else {
        lemma_first_schedulable(m.entries, per_host);
        lemma_start_one_less_pending(m, i);
        lemma_start_counts(m, i);
        let m1 = start_at(m, i);
        law_schedule_respects_limits(m1, global, per_host);
        assert forall|h: Seq<char>|
            #[trigger] host_active_count(schedule_from(m, global, per_host).0.entries, h)
                <= max_nat(host_active_count(m.entries, h), per_host as nat) by {
            assert(host_active_count(schedule_from(m1, global, per_host).0.entries, h) <= max_nat(
                host_active_count(m1.entries, h),
                per_host as nat,
            ));
            if m.entries[i].1.spec.host matches Some(x) && x@ == h {
                assert(host_has_room(m.entries, m.entries[i].1.spec, per_host));
            }
        }
    }
}

/// Every operation keeps the manager within its limits: commands change no
/// job's activity, reports only end jobs, and scheduling starts jobs only
/// while the limits have room.
pub proof fn law_limits_preserved(
    m: ManagerModel,
    global: usize,
    per_host: usize,
    max_attempts: u8,
    command: DownloadCommand,
    report: WorkerReport,
)
    requires
        within_limits(m.entries, global, per_host),
    ensures
        command_result(m, command) is Ok ==> within_limits(
            command_result(m, command)->Ok_0.0.entries,
            global,
            per_host,
        ),
        report_result(m, max_attempts, report) is Ok ==> within_limits(
            report_result(m, max_attempts, report)->Ok_0.0.entries,
            global,
            per_host,
        ),
        within_limits(schedule_from(m, global, per_host).0.entries, global, per_host),
{
    if command_result(m, command) is Ok {
        law_command_keeps_activity(m, command);
        lemma_activity_kept_counts(m.entries, command_result(m, command)->Ok_0.0.entries);
    }
    if report_result(m, max_attempts, report) is Ok {
        law_report_only_stops(m, max_attempts, report);
        lemma_activity_shrunk_counts(
            m.entries,
            report_result(m, max_attempts, report)->Ok_0.0.entries,
        );
    }
    law_schedule_respects_limits(m, global, per_host);
    let after = schedule_from(m, global, per_host).0.entries;
    assert forall|h: Seq<char>| #[trigger] host_active_count(after, h) <= per_host by {
        assert(host_active_count(m.entries, h) <= per_host);
    }
}

/// A command or report naming a job the manager does not hold is refused with
/// `UnknownJob` for that id.
pub proof fn law_unknown_job_refused(m: ManagerModel, max_attempts: u8, id: DownloadJobId)
    requires
        key_index(m.entries, id@) < 0,
    ensures
        command_result(m, DownloadCommand::PauseJob(id)) == Err::<
            (ManagerModel, Seq<DownloadManagerAction>),
            _,
        >(DownloadManagerError::UnknownJob { id }),
        command_result(m, DownloadCommand::ResumeJob(id)) == Err::<
            (ManagerModel, Seq<DownloadManagerAction>),
            _,
        >(DownloadManagerError::UnknownJob { id }),
        command_result(m, DownloadCommand::CancelJob(id)) == Err::<
            (ManagerModel, Seq<DownloadManagerAction>),
            _,
        >(DownloadManagerError::UnknownJob { id }),
        command_result(m, DownloadCommand::RetryJob(id)) == Err::<
            (ManagerModel, Seq<DownloadManagerAction>),
            _,
        >(DownloadManagerError::UnknownJob { id }),
        forall|downloaded: u64, total: Option<u64>, at_ms: u64|
            #[trigger] report_result(
                m,
                max_attempts,
                WorkerReport::Progress { id, downloaded, total, at_ms },
            ) == Err::<(ManagerModel, Seq<DownloadManagerAction>), _>(
                DownloadManagerError::UnknownJob { id },
            ),
        report_result(m, max_attempts, WorkerReport::Completed { id }) == Err::<
            (ManagerModel, Seq<DownloadManagerAction>),
            _,
        >(DownloadManagerError::UnknownJob { id }),
        forall|error: String, retryable: bool|
            #[trigger] report_result(
                m,
                max_attempts,
                WorkerReport::Failed { id, error, retryable },
            ) == Err::<(ManagerModel, Seq<DownloadManagerAction>), _>(
                DownloadManagerError::UnknownJob { id },
            ),
        forall|reason: WorkerStopReason|
            #[trigger] report_result(m, max_attempts, WorkerReport::Stopped { id, reason })
                == Err::<(ManagerModel, Seq<DownloadManagerAction>), _>(
                DownloadManagerError::UnknownJob { id },
            ),
{
}

/// A plan-ending event: `PlanCompleted` or `PlanFailed`.
pub open spec fn is_plan_event(e: DownloadEvent) -> bool {
    e is PlanCompleted || e is PlanFailed
}

/// How many events of `events` are `PlanCompleted`.
pub open spec fn completed_events(events: Seq<DownloadEvent>) -> nat
    decreases events.len(),
{
    if events.len() == 0 {
        0
    } else {
        completed_events(events.drop_last()) + if events.last() is PlanCompleted {
            1nat
        } else {
            0nat
        }
    }
}

/// How many events of `events` are `PlanFailed`.
pub open spec fn failed_events(events: Seq<DownloadEvent>) -> nat
    decreases events.len(),
{
    if events.len() == 0 {
        0
    } else {
        failed_events(events.drop_last()) + if events.last() is PlanFailed {
            1nat
        } else {
            0nat
        }
    }
}

/// How many plan-ending events `events` holds.
pub open spec fn plan_event_count(events: Seq<DownloadEvent>) -> nat {
    completed_events(events) + failed_events(events)
}

/// `b` is `a` with more events appended.
pub open spec fn appends(a: Seq<DownloadEvent>, b: Seq<DownloadEvent>) -> bool {
    &&& a.len() <= b.len()
    &&& forall|k: int| 0 <= k < a.len() ==> #[trigger] b[k] == a[k]
}

/// 1 when the plan was still running in `m` and has ended as `t` in `m2`, else 0.
pub open spec fn newly_ended(m: ManagerModel, m2: ManagerModel, t: PlanTerminalState) -> nat {
    if m.terminal is None && m2.terminal == Some(t) {
        1
    } else {
        0
    }
}

/// From `m` to `m2` the plan ends at most once: events are only appended, a
/// `PlanCompleted` (`PlanFailed`) event is appended exactly when the plan, not
/// ended before, has ended as completed (failed), and an ended plan stays
/// ended the same way.
pub open spec fn ends_at_most_once(m: ManagerModel, m2: ManagerModel) -> bool {
    &&& appends(m.events, m2.events)
    &&& completed_events(m2.events) == completed_events(m.events) + newly_ended(
        m,
        m2,
        PlanTerminalState::Completed,
    )
    &&& failed_events(m2.events) == failed_events(m.events) + newly_ended(
        m,
        m2,
        PlanTerminalState::Failed,
    )
    &&& m.terminal is Some ==> m2.terminal == m.terminal
}

/// The way the plan ended agrees with its jobs: completed means every job
/// completed, failed means some job failed or was cancelled.
pub open spec fn ending_agrees(m: ManagerModel, m2: ManagerModel) -> bool {
    &&& (m.terminal is None && m2.terminal == Some(PlanTerminalState::Completed)) ==> all_completed(
        m2.entries,
    )
    &&& (m.terminal is None && m2.terminal == Some(PlanTerminalState::Failed)) ==> any_failed(
        m2.entries,
    )
}

proof fn lemma_plan_count_push(s: Seq<DownloadEvent>, e: DownloadEvent)
    ensures
        completed_events(s.push(e)) == completed_events(s) + if e is PlanCompleted {
            1nat
        } else {
            0nat
        },
        failed_events(s.push(e)) == failed_events(s) + if e is PlanFailed {
            1nat
        } else {
            0nat
        },
        appends(s, s.push(e)),
{
    assert(s.push(e).drop_last() =~= s);
}

/// Moving a job appends one event that does not end the plan.
proof fn lemma_move_job_events(m: ManagerModel, i: int, state: DownloadJobState, e: DownloadEvent)
    requires
        !is_plan_event(e),
    ensures
        ends_at_most_once(m, move_job(m, i, state, e)),
        plan_event_count(move_job(m, i, state, e).events) == plan_event_count(m.events),
        move_job(m, i, state, e).terminal == m.terminal,
{
    lemma_plan_count_push(m.events, e);
}

/// Settling ends the plan at most once, in agreement with its jobs.
proof fn lemma_settle_events(m: ManagerModel)
    ensures
        ends_at_most_once(m, settle(m)),
        ending_agrees(m, settle(m)),
        settle(m).entries == m.entries,
{
    lemma_plan_count_push(m.events, DownloadEvent::PlanCompleted);
    lemma_plan_count_push(m.events, DownloadEvent::PlanFailed);
}

proof fn lemma_ends_compose(a: ManagerModel, b: ManagerModel, c: ManagerModel)
    requires
        ends_at_most_once(a, b),
        ends_at_most_once(b, c),
        plan_event_count(b.events) == plan_event_count(a.events),
        b.terminal == a.terminal,
    ensures
        ends_at_most_once(a, c),
{
    assert forall|k: int| 0 <= k < a.events.len() implies #[trigger] c.events[k] == a.events[k] by {
        assert(b.events[k] == a.events[k]);
    }
}

/// One step of a command other than retry ends the plan at most once, in
/// agreement with the jobs, and touches no other job than its own.
proof fn lemma_op_step_events(m: ManagerModel, op: JobOp, i: int, id: DownloadJobId)
    requires
        0 <= i < m.entries.len(),
        op != JobOp::Retry,
    ensures
        ends_at_most_once(m, op_step(m, op, i, id).0),
        ending_agrees(m, op_step(m, op, i, id).0),
        forall|k: int|
            0 <= k < m.entries.len() && k != i ==> #[trigger] op_step(m, op, i, id).0.entries[k]
                == m.entries[k],
{
    let state = m.entries[i].1.state;
    match op {
        JobOp::Pause => {
            lemma_move_job_events(m, i, DownloadJobState::Paused, DownloadEvent::JobPaused { id });
            if let DownloadJobState::Running { attempt } = state {
                lemma_move_job_events(
                    m,
                    i,
                    DownloadJobState::Pausing { attempt },
                    DownloadEvent::JobPauseRequested { id },
                );
            }
        },
        JobOp::Resume => {
            lemma_move_job_events(m, i, DownloadJobState::Pending, DownloadEvent::JobResumed { id });
        },
        JobOp::Cancel => {
            let moved = move_job(m, i, DownloadJobState::Cancelled, DownloadEvent::JobCancelled { id });
            lemma_move_job_events(m, i, DownloadJobState::Cancelled, DownloadEvent::JobCancelled { id });
            lemma_settle_events(moved);
            lemma_ends_compose(m, moved, settle(moved));
            match state {
                DownloadJobState::Running { attempt } | DownloadJobState::Pausing { attempt } => {
                    lemma_move_job_events(
                        m,
                        i,
                        DownloadJobState::Cancelling { attempt },
                        DownloadEvent::JobCancelRequested { id },
                    );
                },
                _ => {},
            }
        },
        JobOp::Retry => {},
    }
}

/// A step of pause, resume or cancel keeps a finished plan's jobs as they ended:
/// completed jobs are left alone, and a failed or cancelled job stays so.
proof fn lemma_op_step_keeps_ending(m: ManagerModel, op: JobOp, i: int, id: DownloadJobId)
    requires
        0 <= i < m.entries.len(),
        op != JobOp::Retry,
    ensures
        all_completed(m.entries) ==> op_step(m, op, i, id).0.entries == m.entries,
        any_failed(m.entries) ==> any_failed(op_step(m, op, i, id).0.entries),
{
    lemma_op_step_events(m, op, i, id);
    let t = op_step(m, op, i, id).0.entries;
    if any_failed(m.entries) {
        let w = choose|w: int|
            0 <= w < m.entries.len() && ((#[trigger] m.entries[w]).1.state is Failed
                || m.entries[w].1.state is Cancelled);
        if w != i {
            assert(t[w] == m.entries[w]);
        } else {
            assert(t[w].1.state is Failed || t[w].1.state is Cancelled);
        }
    }
    if all_completed(m.entries) {
        assert(m.entries[i].1.state is Completed);
    }
}

/// Applying pause, resume or cancel to every job ends the plan at most once, in
/// agreement with the jobs.
proof fn lemma_op_all_events(m: ManagerModel, op: JobOp, k: nat)
    requires
        k <= m.entries.len(),
        op != JobOp::Retry,
    ensures
        ends_at_most_once(m, op_all(m, op, k).0),
        ending_agrees(m, op_all(m, op, k).0),
        op_all(m, op, k).0.entries.len() == m.entries.len(),
    decreases k,
{
    if k > 0 {
        lemma_op_all_events(m, op, (k - 1) as nat);
        lemma_op_all_activity(m, op, (k - 1) as nat);
        let m1 = op_all(m, op, (k - 1) as nat).0;
        let id = crate::manager::key_id(m1.entries[k - 1].0);
        let m2 = op_step(m1, op, k - 1, id).0;
        lemma_op_step_events(m1, op, k - 1, id);
        lemma_op_step_keeps_ending(m1, op, k - 1, id);
        lemma_op_step_activity(m1, op, k - 1, id);
        assert forall|j: int| 0 <= j < m.events.len() implies #[trigger] m2.events[j]
            == m.events[j] by {
            assert(m1.events[j] == m.events[j]);
        }
    }
}

/// Every command other than a retry ends the plan at most once, and only in
/// agreement with its jobs; a retry never ends it. Events are only appended.
pub proof fn law_command_ends_plan_once(m: ManagerModel, command: DownloadCommand)
    requires
        command_result(m, command) is Ok,
    ensures
        !(command is RetryJob) ==> ends_at_most_once(m, command_result(m, command)->Ok_0.0),
        !(command is RetryJob) ==> ending_agrees(m, command_result(m, command)->Ok_0.0),
        appends(m.events, command_result(m, command)->Ok_0.0.events),
        plan_event_count(command_result(m, command)->Ok_0.0.events) <= plan_event_count(m.events)
            + 1,
        command is RetryJob ==> plan_event_count(command_result(m, command)->Ok_0.0.events)
            == plan_event_count(m.events),
{
    match command {
        DownloadCommand::PauseJob(id) => {
            lemma_op_step_events(m, JobOp::Pause, key_index(m.entries, id@), id);
        },
        DownloadCommand::ResumeJob(id) => {
            lemma_op_step_events(m, JobOp::Resume, key_index(m.entries, id@), id);
        },
        DownloadCommand::CancelJob(id) => {
            lemma_op_step_events(m, JobOp::Cancel, key_index(m.entries, id@), id);
        },
        DownloadCommand::RetryJob(id) => {
            let i = key_index(m.entries, id@);
            let state = m.entries[i].1.state;
            if state is Failed || state is Cancelled {
                lemma_move_job_events(
                    m,
                    i,
                    DownloadJobState::Pending,
                    DownloadEvent::JobRetryScheduled {
                        id,
                        attempt: crate::manager::sat_inc(m.entries[i].1.attempts),
                    },
                );
            }
        },
        DownloadCommand::PauseAll => {
            lemma_op_all_events(m, JobOp::Pause, m.entries.len());
        },
        DownloadCommand::ResumeAll => {
            lemma_op_all_events(m, JobOp::Resume, m.entries.len());
        },
        DownloadCommand::CancelAll => {
            lemma_op_all_events(m, JobOp::Cancel, m.entries.len());
        },
    }
}

/// Every worker report ends the plan at most once, and only in agreement with
/// its jobs. Events are only appended.
pub proof fn law_report_ends_plan_once(m: ManagerModel, max_attempts: u8, report: WorkerReport)
    requires
        report_result(m, max_attempts, report) is Ok,
    ensures
        ends_at_most_once(m, report_result(m, max_attempts, report)->Ok_0.0),
        ending_agrees(m, report_result(m, max_attempts, report)->Ok_0.0),
{
    match report {
        WorkerReport::Progress { id, downloaded, total, .. } => {
            lemma_plan_count_push(m.events, DownloadEvent::JobProgress { id, downloaded, total });
        },
        WorkerReport::Completed { id } => {
            let i = key_index(m.entries, id@);
            let moved = move_job(m, i, DownloadJobState::Completed, DownloadEvent::JobCompleted { id });
            lemma_move_job_events(m, i, DownloadJobState::Completed, DownloadEvent::JobCompleted { id });
            lemma_settle_events(moved);
            lemma_ends_compose(m, moved, settle(moved));
        },
        WorkerReport::Failed { id, error, retryable } => {
            let i = key_index(m.entries, id@);
            let job = m.entries[i].1;
            lemma_move_job_events(
                m,
                i,
                DownloadJobState::Pending,
                DownloadEvent::JobRetryScheduled { id, attempt: crate::manager::sat_inc(job.attempts) },
            );
            let failed = DownloadJobState::Failed { attempts: job.attempts, error };
            let moved = move_job(m, i, failed, DownloadEvent::JobFailed { id, error });
            lemma_move_job_events(m, i, failed, DownloadEvent::JobFailed { id, error });
            lemma_settle_events(moved);
            lemma_ends_compose(m, moved, settle(moved));
        },
        WorkerReport::Stopped { id, reason } => {
            let i = key_index(m.entries, id@);
            lemma_move_job_events(m, i, DownloadJobState::Paused, DownloadEvent::JobPaused { id });
            let moved = move_job(m, i, DownloadJobState::Cancelled, DownloadEvent::JobCancelled { id });
            lemma_move_job_events(m, i, DownloadJobState::Cancelled, DownloadEvent::JobCancelled { id });
            lemma_settle_events(moved);
            lemma_ends_compose(m, moved, settle(moved));
        },
    }
}

/// Scheduling never ends the plan, appends only `JobStarted` events, asks only
/// to start jobs, and starts exactly as many jobs as become active.
pub proof fn law_schedule_only_starts(m: ManagerModel, global: usize, per_host: usize)
    ensures
        ({
            let (m2, actions) = schedule_from(m, global, per_host);
            &&& appends(m.events, m2.events)
            &&& plan_event_count(m2.events) == plan_event_count(m.events)
            &&& m2.terminal == m.terminal
            &&& forall|k: int|
                m.events.len() <= k < m2.events.len() ==> (#[trigger] m2.events[k]) is JobStarted
            &&& forall|k: int| 0 <= k < actions.len() ==> (#[trigger] actions[k]) is StartJob
            &&& active_count(m2.entries) == active_count(m.entries) + actions.len()
        }),
    decreases crate::manager::pending_count(m.entries),
{
    let i = crate::manager::first_schedulable(m.entries, per_host);
    if active_count(m.entries) >= global || i < 0 {
    } else {
        lemma_first_schedulable(m.entries, per_host);
        lemma_start_one_less_pending(m, i);
        lemma_start_counts(m, i);
        let m1 = start_at(m, i);
        law_schedule_only_starts(m1, global, per_host);
        let e = DownloadEvent::JobStarted {
            id: crate::manager::key_id(m.entries[i].0),
            attempt: crate::manager::sat_inc(m.entries[i].1.attempts),
        };
        lemma_plan_count_push(m.events, e);
        let (m2, rest) = schedule_from(m1, global, per_host);
        let actions = schedule_from(m, global, per_host).1;
        assert(actions == seq![DownloadManagerAction::StartJob(m.entries[i].1.spec)] + rest);
        assert forall|k: int| 0 <= k < actions.len() implies (#[trigger] actions[k]) is StartJob by {
            if k > 0 {
                assert(actions[k] == rest[k - 1]);
            }
        }
        assert forall|k: int| m.events.len() <= k < m2.events.len() implies (
        #[trigger] m2.events[k]) is JobStarted by {
            if k == m.events.len() {
                assert(m2.events[k] == m1.events[k]);
            }
        }
        assert forall|k: int| 0 <= k < m.events.len() implies #[trigger] m2.events[k]
            == m.events[k] by {
            assert(m1.events[k] == m.events[k]);
        }
    }
}

/// Commands ask only to stop workers, and reports ask for nothing.
pub proof fn law_only_schedule_starts_jobs(
    m: ManagerModel,
    max_attempts: u8,
    command: DownloadCommand,
    report: WorkerReport,
)
    ensures
        command_result(m, command) is Ok ==> forall|k: int|
            0 <= k < command_result(m, command)->Ok_0.1.len() ==> (#[trigger] command_result(
                m,
                command,
            )->Ok_0.1[k]) is StopWorker,
        report_result(m, max_attempts, report) is Ok ==> report_result(
            m,
            max_attempts,
            report,
        )->Ok_0.1.len() == 0,
{
    if command_result(m, command) is Ok {
        match command {
            DownloadCommand::PauseAll => lemma_op_all_stops(m, JobOp::Pause, m.entries.len()),
            DownloadCommand::ResumeAll => lemma_op_all_stops(m, JobOp::Resume, m.entries.len()),
            DownloadCommand::CancelAll => lemma_op_all_stops(m, JobOp::Cancel, m.entries.len()),
            _ => {},
        }
    }
}

proof fn lemma_op_all_stops(m: ManagerModel, op: JobOp, k: nat)
    ensures
        forall|j: int|
            0 <= j < op_all(m, op, k).1.len() ==> (#[trigger] op_all(m, op, k).1[j]) is StopWorker,
    decreases k,
{
    if k > 0 {
        lemma_op_all_stops(m, op, (k - 1) as nat);
        let (m1, a1) = op_all(m, op, (k - 1) as nat);
        let a2 = op_step(m1, op, k - 1, crate::manager::key_id(m1.entries[k - 1].0)).1;
        let all = op_all(m, op, k).1;
        assert(all == a1 + a2);
        assert forall|j: int| 0 <= j < all.len() implies (#[trigger] all[j]) is StopWorker by {
            if j >= a1.len() {
                assert(all[j] == a2[j - a1.len()]);
            } else {
                assert(all[j] == a1[j]);
            }
        }
    }
}

/// Pausing a pending job and resuming it gives the job back as it was.
pub proof fn law_pause_then_resume_restores_pending(m: ManagerModel, i: int, id: DownloadJobId)
    requires
        0 <= i < m.entries.len(),
        m.entries[i].1.state is Pending,
    ensures
        op_step(op_step(m, JobOp::Pause, i, id).0, JobOp::Resume, i, id).0.entries == m.entries,
{
    let paused = op_step(m, JobOp::Pause, i, id).0;
    let back = op_step(paused, JobOp::Resume, i, id).0;
    assert(back.entries =~= m.entries);
}

/// Every `StopWorker` action names a job that is active afterwards.
pub open spec fn stops_name_active_jobs(m2: ManagerModel, actions: Seq<DownloadManagerAction>) -> bool {
    forall|k: int|
        0 <= k < actions.len() ==> ((#[trigger] actions[k]) matches DownloadManagerAction::StopWorker {
            id,
            ..
        } ==> exists|i: int|
            0 <= i < m2.entries.len() && m2.entries[i].0@ == id@ && job_active(
                #[trigger] m2.entries[i].1,
            ))
}

/// Every `StartJob` action carries the spec of a job that is running afterwards.
pub open spec fn starts_name_running_jobs(m2: ManagerModel, actions: Seq<DownloadManagerAction>) -> bool {
    forall|k: int|
        0 <= k < actions.len() ==> ((#[trigger] actions[k]) matches DownloadManagerAction::StartJob(
            spec,
        ) ==> exists|i: int|
            0 <= i < m2.entries.len() && (#[trigger] m2.entries[i]).1.spec == spec
                && m2.entries[i].1.state is Running)
}

proof fn lemma_op_step_stops(m: ManagerModel, op: JobOp, i: int, id: DownloadJobId)
    requires
        0 <= i < m.entries.len(),
        m.entries[i].0@ == id@,
    ensures
        stops_name_active_jobs(op_step(m, op, i, id).0, op_step(m, op, i, id).1),
{
    let (m2, acts) = op_step(m, op, i, id);
    lemma_op_step_activity(m, op, i, id);
    assert forall|k: int| 0 <= k < acts.len() implies ((#[trigger] acts[k]) matches DownloadManagerAction::StopWorker {
        id: x,
        ..
    } ==> exists|j: int|
        0 <= j < m2.entries.len() && m2.entries[j].0@ == x@ && job_active(
            #[trigger] m2.entries[j].1,
        )) by {
        assert(acts.len() == 1 && k == 0);
        assert(m2.entries[i].0 == m.entries[i].0);
        assert(job_active(m2.entries[i].1));
    }
}

proof fn lemma_op_all_stops_active(m: ManagerModel, op: JobOp, k: nat)
    requires
        k <= m.entries.len(),
    ensures
        stops_name_active_jobs(op_all(m, op, k).0, op_all(m, op, k).1),
    decreases k,
{
    if k > 0 {
        lemma_op_all_stops_active(m, op, (k - 1) as nat);
        lemma_op_all_activity(m, op, (k - 1) as nat);
        let (m1, a1) = op_all(m, op, (k - 1) as nat);
        let key = m1.entries[k - 1].0;
        let id = crate::manager::key_id(key);
        DownloadJobId::lemma_with_text(key);
        lemma_op_step_stops(m1, op, k - 1, id);
        lemma_op_step_activity(m1, op, k - 1, id);
        let (m2, a2) = op_step(m1, op, k - 1, id);
        let all = op_all(m, op, k).1;
        assert(all == a1 + a2);
        assert forall|j: int| 0 <= j < all.len() implies ((#[trigger] all[j]) matches DownloadManagerAction::StopWorker {
            id: x,
            ..
        } ==> exists|t: int|
            0 <= t < m2.entries.len() && m2.entries[t].0@ == x@ && job_active(
                #[trigger] m2.entries[t].1,
            )) by {
            if j < a1.len() {
                assert(all[j] == a1[j]);
                if let DownloadManagerAction::StopWorker { id: x, .. } = a1[j] {
                    let t = choose|t: int|
                        0 <= t < m1.entries.len() && m1.entries[t].0@ == x@ && job_active(
                            #[trigger] m1.entries[t].1,
                        );
                    assert(m2.entries[t].0 == m1.entries[t].0);
                    assert(job_active(m2.entries[t].1) == job_active(m1.entries[t].1));
                }
            } else {
                assert(all[j] == a2[j - a1.len()]);
            }
        }
    }
}

/// A command asks to stop only workers of jobs that are active afterwards
/// (being paused or cancelled).
pub proof fn law_command_stops_active_jobs(m: ManagerModel, command: DownloadCommand)
    requires
        command_result(m, command) is Ok,
    ensures
        stops_name_active_jobs(
            command_result(m, command)->Ok_0.0,
            command_result(m, command)->Ok_0.1,
        ),
{
    match command {
        DownloadCommand::PauseJob(id) => {
            lemma_op_step_stops(m, JobOp::Pause, key_index(m.entries, id@), id);
        },
        DownloadCommand::ResumeJob(id) => {
            lemma_op_step_stops(m, JobOp::Resume, key_index(m.entries, id@), id);
        },
        DownloadCommand::CancelJob(id) => {
            lemma_op_step_stops(m, JobOp::Cancel, key_index(m.entries, id@), id);
        },
        DownloadCommand::RetryJob(id) => {
            lemma_op_step_stops(m, JobOp::Retry, key_index(m.entries, id@), id);
        },
        DownloadCommand::PauseAll => lemma_op_all_stops_active(m, JobOp::Pause, m.entries.len()),
        DownloadCommand::ResumeAll => lemma_op_all_stops_active(m, JobOp::Resume, m.entries.len()),
        DownloadCommand::CancelAll => lemma_op_all_stops_active(m, JobOp::Cancel, m.entries.len()),
    }
}

/// Scheduling changes only pending jobs.
proof fn lemma_schedule_keeps_others(m: ManagerModel, global: usize, per_host: usize)
    ensures
        schedule_from(m, global, per_host).0.entries.len() == m.entries.len(),
        forall|j: int|
            0 <= j < m.entries.len() && !(m.entries[j].1.state is Pending) ==> #[trigger] schedule_from(
                m,
                global,
                per_host,
            ).0.entries[j] == m.entries[j],
    decreases crate::manager::pending_count(m.entries),
{
    let i = crate::manager::first_schedulable(m.entries, per_host);
    if active_count(m.entries) >= global || i < 0 {
    } else {
        lemma_first_schedulable(m.entries, per_host);
        lemma_start_one_less_pending(m, i);
        let m1 = start_at(m, i);
        lemma_schedule_keeps_others(m1, global, per_host);
        assert forall|j: int|
            0 <= j < m.entries.len() && !(m.entries[j].1.state is Pending) implies #[trigger] schedule_from(
                m,
                global,
                per_host,
            ).0.entries[j] == m.entries[j] by {
            assert(j != i);
            assert(m1.entries[j] == m.entries[j]);
        }
    }
}

/// Scheduling starts only jobs that are running afterwards, each with its spec.
pub proof fn law_schedule_starts_running_jobs(m: ManagerModel, global: usize, per_host: usize)
    ensures
        starts_name_running_jobs(
            schedule_from(m, global, per_host).0,
            schedule_from(m, global, per_host).1,
        ),
    decreases crate::manager::pending_count(m.entries),
{
    let i = crate::manager::first_schedulable(m.entries, per_host);
    if active_count(m.entries) >= global || i < 0 {
    } else {
        lemma_first_schedulable(m.entries, per_host);
        lemma_start_one_less_pending(m, i);
        let m1 = start_at(m, i);
        law_schedule_starts_running_jobs(m1, global, per_host);
        lemma_schedule_keeps_others(m1, global, per_host);
        let (m2, rest) = schedule_from(m1, global, per_host);
        let actions = schedule_from(m, global, per_host).1;
        assert(actions == seq![DownloadManagerAction::StartJob(m.entries[i].1.spec)] + rest);
        assert(m2.entries[i] == m1.entries[i]);
        assert forall|k: int| 0 <= k < actions.len() implies ((#[trigger] actions[k]) matches DownloadManagerAction::StartJob(
            spec,
        ) ==> exists|t: int|
            0 <= t < m2.entries.len() && (#[trigger] m2.entries[t]).1.spec == spec
                && m2.entries[t].1.state is Running) by {
            if k == 0 {
                assert(m2.entries[i].1.spec == m.entries[i].1.spec);
            } else {
                assert(actions[k] == rest[k - 1]);
            }
        }
    }
}

/// Progress is throttled: a progress report of a known job adds a
/// `JobProgress` event exactly when the job is active and the report is due
/// (the job told none yet, or `progress_interval_ms` passed since its last one,
/// or its byte count moved by `min_progress_bytes`); a told report becomes the
/// job's new mark, and nothing else changes.
pub proof fn law_progress_is_throttled(
    m: ManagerModel,
    max_attempts: u8,
    id: DownloadJobId,
    downloaded: u64,
    total: Option<u64>,
    at_ms: u64,
)
    requires
        key_index(m.entries, id@) >= 0,
    ensures
        ({
            let r = report_result(m, max_attempts, WorkerReport::Progress { id, downloaded, total, at_ms });
            let due = job_active(m.entries[key_index(m.entries, id@)].1) && progress_due(
                mark_of(m, id@),
                downloaded,
                at_ms,
                m.progress_interval_ms,
                m.min_progress_bytes,
            );
            &&& r matches Ok((after, actions))
            &&& actions.len() == 0
            &&& due ==> after == (ManagerModel {
                events: m.events.push(DownloadEvent::JobProgress { id, downloaded, total }),
                marks: m.marks.insert(id@, ProgressMark { downloaded, at_ms }),
                ..m
            })
            &&& !due ==> after == m
        }),
{
}

/// One call on the manager: a command, a worker report, or scheduling.
pub enum ManagerCall {
    Command(DownloadCommand),
    Report(WorkerReport),
    Schedule,
}

/// The manager after `call` under `config`; a refused call leaves it as it was.
pub open spec fn after_call(
    m: ManagerModel,
    config: DownloadManagerConfig,
    call: ManagerCall,
) -> ManagerModel {
    match call {
        ManagerCall::Command(c) => match command_result(m, c) {
            Ok((m2, _)) => m2,
            Err(_) => m,
        },
        ManagerCall::Report(w) => match report_result(m, config.retry.max_attempts, w) {
            Ok((m2, _)) => m2,
            Err(_) => m,
        },
        ManagerCall::Schedule => schedule_from(
            m,
            config.concurrency.global_limit,
            config.concurrency.per_host_limit,
        ).0,
    }
}

/// The manager after `calls`, in order.
pub open spec fn after_calls(
    m: ManagerModel,
    config: DownloadManagerConfig,
    calls: Seq<ManagerCall>,
) -> ManagerModel
    decreases calls.len(),
{
    if calls.len() == 0 {
        m
    } else {
        after_call(after_calls(m, config, calls.drop_last()), config, calls.last())
    }
}

/// A count of entries none of which meets `p` is zero.
proof fn lemma_count_none(s: Seq<JobEntry>, p: spec_fn(JobRuntimeState) -> bool)
    requires
        forall|k: int| 0 <= k < s.len() ==> !p(#[trigger] s[k].1),
    ensures
        count_where(s, p) == 0,
    decreases s.len(),
{
    if s.len() > 0 {
        assert(!p(s[s.len() - 1].1));
        lemma_count_none(s.drop_last(), p);
    }
}

/// A fresh manager has no active job, so it is within any limits.
proof fn lemma_initial_within_limits(
    entries: Seq<JobEntry>,
    jobs: Seq<DownloadJobSpec>,
    global: usize,
    per_host: usize,
)
    requires
        initial_entries(entries, jobs),
    ensures
        within_limits(entries, global, per_host),
{
    assert forall|k: int| 0 <= k < entries.len() implies !job_active(#[trigger] entries[k].1) by {
        assert(holds_last_fresh(entries, k, jobs));
    }
    lemma_count_none(entries, |j: JobRuntimeState| job_active(j));
    assert forall|h: Seq<char>| #[trigger] host_active_count(entries, h) <= per_host by {
        assert forall|k: int| 0 <= k < entries.len() implies !job_active_on(
            #[trigger] entries[k].1,
            h,
        ) by {
            assert(holds_last_fresh(entries, k, jobs));
        }
        lemma_count_none(entries, |j: JobRuntimeState| job_active_on(j, h));
    }
}

/// In every state a manager reaches from a fresh start, by any calls in any
/// order, no more jobs are active than the global limit, and on each host no
/// more than the per-host limit.
pub proof fn law_reachable_within_limits(
    m0: ManagerModel,
    jobs: Seq<DownloadJobSpec>,
    config: DownloadManagerConfig,
    calls: Seq<ManagerCall>,
)
    requires
        initial_entries(m0.entries, jobs),
    ensures
        within_limits(
            after_calls(m0, config, calls).entries,
            config.concurrency.global_limit,
            config.concurrency.per_host_limit,
        ),
    decreases calls.len(),
{
    let g = config.concurrency.global_limit;
    let p = config.concurrency.per_host_limit;
    if calls.len() == 0 {
        lemma_initial_within_limits(m0.entries, jobs, g, p);
    } else {
        law_reachable_within_limits(m0, jobs, config, calls.drop_last());
        let before = after_calls(m0, config, calls.drop_last());
        match calls.last() {
            ManagerCall::Command(c) => {
                law_limits_preserved(before, g, p, config.retry.max_attempts, c, vstd::pervasive::arbitrary::<WorkerReport>());
            },
            ManagerCall::Report(w) => {
                law_limits_preserved(before, g, p, config.retry.max_attempts, DownloadCommand::PauseAll, w);
            },
            ManagerCall::Schedule => {
                law_limits_preserved(before, g, p, config.retry.max_attempts, DownloadCommand::PauseAll, vstd::pervasive::arbitrary::<WorkerReport>());
            },
        }
    }
}

/// A job that had ended stays ended: a completed job stays completed, and a
/// failed or cancelled one stays failed or cancelled.
pub open spec fn stays_ended(a: DownloadJobState, b: DownloadJobState) -> bool {
    &&& a is Completed ==> b is Completed
    &&& (a is Failed || a is Cancelled) ==> (b is Failed || b is Cancelled)
}

/// `t` holds as many jobs as `s`, and each job that had ended in `s` stays ended.
pub open spec fn keeps_ended(s: Seq<JobEntry>, t: Seq<JobEntry>) -> bool {
    &&& s.len() == t.len()
    &&& forall|k: int| 0 <= k < s.len() ==> #[trigger] stays_ended(s[k].1.state, t[k].1.state)
}

/// How the plan ended agrees with its jobs: it completed only with every job
/// completed, and failed only with some job failed or cancelled.
pub open spec fn terminal_agrees(m: ManagerModel) -> bool {
    &&& m.terminal == Some(PlanTerminalState::Completed) ==> all_completed(m.entries)
    &&& m.terminal == Some(PlanTerminalState::Failed) ==> any_failed(m.entries)
}

proof fn lemma_keeps_refl(s: Seq<JobEntry>)
    ensures
        keeps_ended(s, s),
{
    assert forall|k: int| 0 <= k < s.len() implies #[trigger] stays_ended(s[k].1.state, s[k].1.state) by {}
}

proof fn lemma_keeps_trans(a: Seq<JobEntry>, b: Seq<JobEntry>, c: Seq<JobEntry>)
    requires
        keeps_ended(a, b),
        keeps_ended(b, c),
    ensures
        keeps_ended(a, c),
{
    assert forall|k: int| 0 <= k < a.len() implies #[trigger] stays_ended(a[k].1.state, c[k].1.state) by {
        assert(stays_ended(a[k].1.state, b[k].1.state));
        assert(stays_ended(b[k].1.state, c[k].1.state));
    }
}

proof fn lemma_keeps_with_state(s: Seq<JobEntry>, i: int, state: DownloadJobState)
    requires
        0 <= i < s.len(),
        stays_ended(s[i].1.state, state),
    ensures
        keeps_ended(s, with_state(s, i, state)),
{
    let t = with_state(s, i, state);
    assert forall|k: int| 0 <= k < s.len() implies #[trigger] stays_ended(s[k].1.state, t[k].1.state) by {
        if k != i {
            assert(t[k] == s[k]);
        }
    }
}

/// Agreement carries over to entries that keep the ended jobs ended.
proof fn lemma_keeps_agreement(m: ManagerModel, m2: ManagerModel)
    requires
        terminal_agrees(m),
        m2.terminal == m.terminal,
        keeps_ended(m.entries, m2.entries),
    ensures
        terminal_agrees(m2),
{
    if m.terminal == Some(PlanTerminalState::Completed) {
        assert forall|k: int| 0 <= k < m2.entries.len() implies (#[trigger] m2.entries[k]).1.state is Completed by {
            assert(m.entries[k].1.state is Completed);
            assert(stays_ended(m.entries[k].1.state, m2.entries[k].1.state));
        }
    }
    if m.terminal == Some(PlanTerminalState::Failed) {
        let k = choose|k: int|
            0 <= k < m.entries.len() && ((#[trigger] m.entries[k]).1.state is Failed
                || m.entries[k].1.state is Cancelled);
        assert(stays_ended(m.entries[k].1.state, m2.entries[k].1.state));
        assert(m2.entries[k].1.state is Failed || m2.entries[k].1.state is Cancelled);
    }
}

/// Pausing, resuming or cancelling a job keeps ended jobs ended.
proof fn lemma_op_step_keeps(m: ManagerModel, op: JobOp, i: int, id: DownloadJobId)
    requires
        0 <= i < m.entries.len(),
        !(op is Retry),
    ensures
        keeps_ended(m.entries, op_step(m, op, i, id).0.entries),
{
    let state = m.entries[i].1.state;
    let r = op_step(m, op, i, id).0;
    if r.entries == m.entries {
        lemma_keeps_refl(m.entries);
    } else {
        match op {
            JobOp::Pause => match state {
                DownloadJobState::Pending => lemma_keeps_with_state(m.entries, i, DownloadJobState::Paused),
                DownloadJobState::Running { attempt } => lemma_keeps_with_state(
                    m.entries,
                    i,
                    DownloadJobState::Pausing { attempt },
                ),
                _ => {},
            },
            JobOp::Resume => lemma_keeps_with_state(m.entries, i, DownloadJobState::Pending),
            JobOp::Cancel => match state {
                DownloadJobState::Pending | DownloadJobState::Paused | DownloadJobState::Failed {
                    ..
                } => lemma_keeps_with_state(m.entries, i, DownloadJobState::Cancelled),
                DownloadJobState::Running { attempt } | DownloadJobState::Pausing { attempt } =>
                    lemma_keeps_with_state(m.entries, i, DownloadJobState::Cancelling { attempt }),
                _ => {},
            },
            JobOp::Retry => {},
        }
    }
}

/// The same over the first `k` jobs.
proof fn lemma_op_all_keeps(m: ManagerModel, op: JobOp, k: nat)
    requires
        k <= m.entries.len(),
        !(op is Retry),
    ensures
        keeps_ended(m.entries, op_all(m, op, k).0.entries),
    decreases k,
{
    if k == 0 {
        lemma_keeps_refl(m.entries);
    } else {
        lemma_op_all_keeps(m, op, (k - 1) as nat);
        let m1 = op_all(m, op, (k - 1) as nat).0;
        lemma_op_step_keeps(m1, op, k - 1, crate::manager::key_id(m1.entries[k - 1].0));
        lemma_keeps_trans(
            m.entries,
            m1.entries,
            op_step(m1, op, k - 1, crate::manager::key_id(m1.entries[k - 1].0)).0.entries,
        );
    }
}

/// A worker report keeps ended jobs ended.
proof fn lemma_report_keeps(m: ManagerModel, max_attempts: u8, report: WorkerReport)
    requires
        report_result(m, max_attempts, report) is Ok,
    ensures
        keeps_ended(m.entries, report_result(m, max_attempts, report)->Ok_0.0.entries),
{
    let r = report_result(m, max_attempts, report)->Ok_0.0;
    if r.entries == m.entries {
        lemma_keeps_refl(m.entries);
    } else {
        match report {
            WorkerReport::Progress { .. } => {},
            WorkerReport::Completed { id } => {
                lemma_keeps_with_state(m.entries, key_index(m.entries, id@), DownloadJobState::Completed);
            },
            WorkerReport::Failed { id, error, retryable } => {
                let i = key_index(m.entries, id@);
                let job = m.entries[i].1;
                lemma_keeps_with_state(m.entries, i, DownloadJobState::Pending);
                lemma_keeps_with_state(
                    m.entries,
                    i,
                    DownloadJobState::Failed { attempts: job.attempts, error },
                );
            },
            WorkerReport::Stopped { id, reason } => {
                let i = key_index(m.entries, id@);
                lemma_keeps_with_state(m.entries, i, DownloadJobState::Paused);
                lemma_keeps_with_state(m.entries, i, DownloadJobState::Cancelled);
            },
        }
    }
}

/// Scheduling keeps ended jobs ended.
proof fn lemma_schedule_keeps(m: ManagerModel, global: usize, per_host: usize)
    ensures
        keeps_ended(m.entries, schedule_from(m, global, per_host).0.entries),
    decreases crate::manager::pending_count(m.entries),
{
    let i = crate::manager::first_schedulable(m.entries, per_host);
    if active_count(m.entries) >= global || i < 0 {
        lemma_keeps_refl(m.entries);
    } else {
        lemma_first_schedulable(m.entries, per_host);
        lemma_start_one_less_pending(m, i);
        let m1 = start_at(m, i);
        let attempt = crate::manager::sat_inc(m.entries[i].1.attempts);
        assert(m1.entries == with_state(m.entries, i, DownloadJobState::Running { attempt }).update(
            i,
            m1.entries[i],
        ));
        assert forall|k: int| 0 <= k < m.entries.len() implies #[trigger] stays_ended(
            m.entries[k].1.state,
            m1.entries[k].1.state,
        ) by {
            if k != i {
                assert(m1.entries[k] == m.entries[k]);
            }
        }
        lemma_schedule_keeps(m1, global, per_host);
        lemma_keeps_trans(m.entries, m1.entries, schedule_from(m1, global, per_host).0.entries);
    }
}

/// Every call keeps the plan's ending in agreement with its jobs.
proof fn lemma_call_keeps_agreement(m: ManagerModel, config: DownloadManagerConfig, call: ManagerCall)
    requires
        terminal_agrees(m),
    ensures
        terminal_agrees(after_call(m, config, call)),
{
    let m2 = after_call(m, config, call);
    match call {
        ManagerCall::Command(c) => {
            if command_result(m, c) is Ok {
                law_command_ends_plan_once(m, c);
                match c {
                    DownloadCommand::PauseJob(id) => lemma_op_step_keeps(m, JobOp::Pause, key_index(m.entries, id@), id),
                    DownloadCommand::ResumeJob(id) => lemma_op_step_keeps(m, JobOp::Resume, key_index(m.entries, id@), id),
                    DownloadCommand::CancelJob(id) => lemma_op_step_keeps(m, JobOp::Cancel, key_index(m.entries, id@), id),
                    DownloadCommand::RetryJob(id) => {},
                    DownloadCommand::PauseAll => lemma_op_all_keeps(m, JobOp::Pause, m.entries.len()),
                    DownloadCommand::ResumeAll => lemma_op_all_keeps(m, JobOp::Resume, m.entries.len()),
                    DownloadCommand::CancelAll => lemma_op_all_keeps(m, JobOp::Cancel, m.entries.len()),
                }
                if !(c is RetryJob) && m2.terminal == m.terminal {
                    lemma_keeps_agreement(m, m2);
                }
            }
        },
        ManagerCall::Report(w) => {
            if report_result(m, config.retry.max_attempts, w) is Ok {
                law_report_ends_plan_once(m, config.retry.max_attempts, w);
                lemma_report_keeps(m, config.retry.max_attempts, w);
                if m2.terminal == m.terminal {
                    lemma_keeps_agreement(m, m2);
                }
            }
        },
        ManagerCall::Schedule => {
            law_schedule_only_starts(
                m,
                config.concurrency.global_limit,
                config.concurrency.per_host_limit,
            );
            lemma_schedule_keeps(
                m,
                config.concurrency.global_limit,
                config.concurrency.per_host_limit,
            );
            lemma_keeps_agreement(m, m2);
        },
    }
}

/// In every state a manager reaches from a fresh start, by any calls in any
/// order, how the plan ended agrees with its jobs: it completed only with
/// every job completed, and failed only with some job failed or cancelled.
pub proof fn law_reachable_terminal_agrees(
    m0: ManagerModel,
    jobs: Seq<DownloadJobSpec>,
    config: DownloadManagerConfig,
    calls: Seq<ManagerCall>,
)
    requires
        initial_entries(m0.entries, jobs),
        m0.terminal is None,
    ensures
        terminal_agrees(after_calls(m0, config, calls)),
    decreases calls.len(),
{
    if calls.len() > 0 {
        law_reachable_terminal_agrees(m0, jobs, config, calls.drop_last());
        lemma_call_keeps_agreement(after_calls(m0, config, calls.drop_last()), config, calls.last());
    }
}

/// Appending events never lowers the count of plan endings of either kind.
proof fn lemma_counts_grow(a: Seq<DownloadEvent>, b: Seq<DownloadEvent>)
    requires
        appends(a, b),
    ensures
        completed_events(b) >= completed_events(a),
        failed_events(b) >= failed_events(a),
    decreases b.len(),
{
    if b.len() == a.len() {
        assert(b =~= a);
    } else {
        lemma_counts_grow(a, b.drop_last());
    }
}

/// Each call on the manager, whichever of the three it is, ends the plan at
/// most once: events are only appended; at most one `PlanCompleted` or
/// `PlanFailed` is added, and none once the plan has ended; a `PlanCompleted`
/// (`PlanFailed`) is added exactly when the plan newly ends as completed
/// (failed), and then every job has completed (some job failed or was
/// cancelled). A retry adds no plan ending at all.
pub proof fn law_call_ends_plan_once(m: ManagerModel, config: DownloadManagerConfig, call: ManagerCall)
    ensures
        ({
            let m2 = after_call(m, config, call);
            &&& appends(m.events, m2.events)
            &&& plan_event_count(m2.events) <= plan_event_count(m.events) + 1
            &&& !(call matches ManagerCall::Command(DownloadCommand::RetryJob(_))) ==> ends_at_most_once(m, m2)
                && ending_agrees(m, m2)
            &&& call matches ManagerCall::Command(DownloadCommand::RetryJob(_)) ==> plan_event_count(
                m2.events,
            ) == plan_event_count(m.events)
        }),
{
    let m2 = after_call(m, config, call);
    if m2 == m {
        assert(appends(m.events, m.events));
    }
    match call {
        ManagerCall::Command(c) => {
            if command_result(m, c) is Ok {
                law_command_ends_plan_once(m, c);
            }
        },
        ManagerCall::Report(w) => {
            if report_result(m, config.retry.max_attempts, w) is Ok {
                law_report_ends_plan_once(m, config.retry.max_attempts, w);
            }
        },
        ManagerCall::Schedule => {
            law_schedule_only_starts(
                m,
                config.concurrency.global_limit,
                config.concurrency.per_host_limit,
            );
            lemma_counts_grow(m.events, m2.events);
        },
    }
}

/// A failure report of an active job retries it only when the worker called
/// the failure retryable, the job's policy allows retries and the job has made
/// fewer than `max_attempts` attempts: then the job is pending again and a
/// `JobRetryScheduled` for its next attempt is told. Otherwise, and so always
/// for a permanent failure, the job fails with its attempt count and the error,
/// and `JobFailed` is told. No other job changes, and nothing is asked of the
/// backend.
pub proof fn law_failure_report(
    m: ManagerModel,
    max_attempts: u8,
    id: DownloadJobId,
    error: String,
    retryable: bool,
)
    requires
        key_index(m.entries, id@) >= 0,
        job_active(m.entries[key_index(m.entries, id@)].1),
    ensures
        ({
            let i = key_index(m.entries, id@);
            let job = m.entries[i].1;
            let retried = retryable && job.spec.policy.retryable && job.attempts < max_attempts;
            let r = report_result(m, max_attempts, WorkerReport::Failed { id, error, retryable });
            &&& r matches Ok((m2, actions))
            &&& actions.len() == 0
            &&& m2.entries.len() == m.entries.len()
            &&& forall|k: int| 0 <= k < m.entries.len() && k != i ==> m2.entries[k] == m.entries[k]
            &&& m2.entries[i].0 == m.entries[i].0
            &&& m2.entries[i].1.spec == job.spec
            &&& m2.entries[i].1.attempts == job.attempts
            &&& m2.events.len() > m.events.len()
            &&& m2.events.subrange(0, m.events.len() as int) == m.events
            &&& retried ==> m2.entries[i].1.state == DownloadJobState::Pending && m2.events
                == m.events.push(
                DownloadEvent::JobRetryScheduled {
                    id,
                    attempt: if job.attempts == 255 {
                        255
                    } else {
                        (job.attempts + 1) as u8
                    },
                },
            ) && m2.terminal == m.terminal
            &&& !retried ==> m2.entries[i].1.state == (DownloadJobState::Failed {
                attempts: job.attempts,
                error,
            }) && m2.events[m.events.len() as int] == (DownloadEvent::JobFailed { id, error })
        }),
{
    let i = key_index(m.entries, id@);
    let r = report_result(m, max_attempts, WorkerReport::Failed { id, error, retryable });
    let m2 = r->Ok_0.0;
    assert(m2.events.subrange(0, m.events.len() as int) =~= m.events);
}

/// Retrying a failed or cancelled job makes it pending again for its next
/// attempt, reopens the plan and tells `JobRetryScheduled`; retrying a job in
/// any other state changes nothing. Nothing is asked of the backend.
pub proof fn law_retry_command(m: ManagerModel, id: DownloadJobId)
    requires
        key_index(m.entries, id@) >= 0,
    ensures
        ({
            let i = key_index(m.entries, id@);
            let job = m.entries[i].1;
            let r = command_result(m, DownloadCommand::RetryJob(id));
            &&& r matches Ok((m2, actions))
            &&& actions.len() == 0
            &&& (job.state is Failed || job.state is Cancelled) ==> {
                &&& m2.entries == m.entries.update(
                    i,
                    (
                        m.entries[i].0,
                        JobRuntimeState {
                            spec: job.spec,
                            state: DownloadJobState::Pending,
                            attempts: job.attempts,
                        },
                    ),
                )
                &&& m2.terminal is None
                &&& m2.events == m.events.push(
                    DownloadEvent::JobRetryScheduled {
                        id,
                        attempt: if job.attempts == 255 {
                            255
                        } else {
                            (job.attempts + 1) as u8
                        },
                    },
                )
            }
            &&& !(job.state is Failed || job.state is Cancelled) ==> m2 == m
        }),
{
}

/// Scheduling starts every job it can: afterwards, while fewer jobs are active
/// than the global limit, every job still pending has a host that already has
/// `per_host` active jobs; so no pending job without a host is left behind.
pub proof fn law_schedule_is_maximal(m: ManagerModel, global: usize, per_host: usize)
    ensures
        ({
            let e = schedule_from(m, global, per_host).0.entries;
            active_count(e) < global ==> forall|k: int|
                0 <= k < e.len() && (#[trigger] e[k]).1.state is Pending ==> (e[k].1.spec.host matches Some(
                    h,
                ) && host_active_count(e, h@) >= per_host)
        }),
    decreases crate::manager::pending_count(m.entries),
{
    let i = crate::manager::first_schedulable(m.entries, per_host);
    lemma_first_schedulable(m.entries, per_host);
    if active_count(m.entries) >= global || i < 0 {
        let e = m.entries;
        if active_count(e) < global {
            assert forall|k: int|
                0 <= k < e.len() && (#[trigger] e[k]).1.state is Pending implies (e[k].1.spec.host matches Some(
                    h,
                ) && host_active_count(e, h@) >= per_host) by {
                assert(!crate::manager::schedulable(e, k, per_host));
            }
        }
    } else {
        lemma_start_one_less_pending(m, i);
        law_schedule_is_maximal(start_at(m, i), global, per_host);
    }
}

/// What pausing, resuming and cancelling one job do, by the state it is in:
/// a pending job pauses at once, a running one is asked to stop for a pause;
/// only a paused job resumes, back to pending; a pending, paused or failed job
/// is cancelled at once, a running or pausing one is asked to stop for a
/// cancel; every other case changes nothing. Only the named job moves.
pub proof fn law_job_commands(m: ManagerModel, id: DownloadJobId)
    requires
        key_index(m.entries, id@) >= 0,
    ensures
        ({
            let i = key_index(m.entries, id@);
            let s = m.entries[i].1.state;
            let pause = command_result(m, DownloadCommand::PauseJob(id))->Ok_0;
            let resume = command_result(m, DownloadCommand::ResumeJob(id))->Ok_0;
            let cancel = command_result(m, DownloadCommand::CancelJob(id))->Ok_0;
            &&& command_result(m, DownloadCommand::PauseJob(id)) is Ok
            &&& command_result(m, DownloadCommand::ResumeJob(id)) is Ok
            &&& command_result(m, DownloadCommand::CancelJob(id)) is Ok
            &&& forall|k: int|
                0 <= k < m.entries.len() && k != i ==> pause.0.entries[k] == m.entries[k]
                    && resume.0.entries[k] == m.entries[k] && cancel.0.entries[k] == m.entries[k]
            &&& s is Pending ==> pause.0.entries[i].1.state is Paused && pause.1.len() == 0
            &&& s matches DownloadJobState::Running { attempt } ==> pause.0.entries[i].1.state
                == (DownloadJobState::Pausing { attempt }) && pause.1 == seq![
                DownloadManagerAction::StopWorker { id, reason: WorkerStopReason::Paused },
            ]
            &&& !(s is Pending || s is Running) ==> pause == (m, Seq::<DownloadManagerAction>::empty())
            &&& s is Paused ==> resume.0.entries[i].1.state is Pending && resume.1.len() == 0
            &&& !(s is Paused) ==> resume == (m, Seq::<DownloadManagerAction>::empty())
            &&& (s is Pending || s is Paused || s is Failed) ==> cancel.0.entries[i].1.state
                is Cancelled && cancel.1.len() == 0
            &&& s matches DownloadJobState::Running { attempt } ==> cancel.0.entries[i].1.state
                == (DownloadJobState::Cancelling { attempt }) && cancel.1 == seq![
                DownloadManagerAction::StopWorker { id, reason: WorkerStopReason::Cancelled },
            ]
            &&& s matches DownloadJobState::Pausing { attempt } ==> cancel.0.entries[i].1.state
                == (DownloadJobState::Cancelling { attempt }) && cancel.1 == seq![
                DownloadManagerAction::StopWorker { id, reason: WorkerStopReason::Cancelled },
            ]
            &&& (s is Completed || s is Cancelled || s is Cancelling) ==> cancel == (
                m,
                Seq::<DownloadManagerAction>::empty(),
            )
        }),
{
}

} // verus!
