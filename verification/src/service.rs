//! The download service: the manager joined to a backend that starts and stops
//! workers, and the loop that feeds it commands and worker reports from a
//! channel and publishes its events to another.
use std::sync::mpsc::{Receiver, SendError, Sender, TryRecvError};

use vstd::prelude::*;

use crate::config::DownloadManagerConfig;
use crate::errors::{DownloadBackendError, DownloadManagerError, DownloadServiceError};
use crate::event::{
    DownloadCommand, DownloadEvent, DownloadManagerAction, WorkerReport, WorkerStopReason,
};
use crate::external::{new_channel, receive_now, send_value};
use crate::manager::{command_result, report_result, schedule_from, DownloadManagerState, ManagerModel};
use crate::plan::{DownloadJobId, DownloadJobSpec, DownloadPlan};

verus! {

/// One call on a backend: the action it was to carry out, and its answer.
pub type BackendCall = (DownloadManagerAction, Result<(), DownloadBackendError>);

/// What carries out the manager's actions: starting a job's worker and stopping it.
pub trait DownloadBackend {
    /// The calls made on this backend so far, oldest first: the action each
    /// carried out, and the backend's answer to it. A backend that keeps
    /// the contracts below defines it; the default, an empty log, keeps them for
    /// no backend.
    open spec fn calls(&self) -> Seq<BackendCall> {
        Seq::empty()
    }

    /// Starts a worker for `job`; the call is added to `calls`.
    fn start_job(&mut self, job: DownloadJobSpec) -> (r: Result<(), DownloadBackendError>)
        ensures
            final(self).calls() == old(self).calls().push(
                (DownloadManagerAction::StartJob(job), r),
            ),
    ;

    /// Asks the worker of job `id` to stop for `reason`; the call is added to `calls`.
    fn stop_worker(&mut self, id: &DownloadJobId, reason: WorkerStopReason) -> (r: Result<
        (),
        DownloadBackendError,
    >)
        ensures
            final(self).calls() == old(self).calls().push(
                (DownloadManagerAction::StopWorker { id: *id, reason }, r),
            ),
    ;
}

/// The calls that hand `actions` to a backend that accepts each one.
pub open spec fn all_accepted(actions: Seq<DownloadManagerAction>) -> Seq<
    BackendCall,
> {
    actions.map_values(|a: DownloadManagerAction| (a, Ok::<(), DownloadBackendError>(())))
}

/// `log` hands `actions` in order, each accepted, up to a first one that was
/// refused, after which nothing more was handed.
pub open spec fn handed_until_refused(
    actions: Seq<DownloadManagerAction>,
    log: Seq<BackendCall>,
) -> bool {
    &&& 0 < log.len() <= actions.len()
    &&& forall|k: int|
        0 <= k < log.len() - 1 ==> #[trigger] log[k] == (actions[k], Ok::<(), DownloadBackendError>(()))
    &&& log[log.len() - 1].0 == actions[log.len() - 1]
    &&& log[log.len() - 1].1 is Err
}

/// The error of the last call in `calls`, when that call was refused.
pub open spec fn last_refusal(calls: Seq<BackendCall>) -> Option<DownloadBackendError> {
    if calls.len() > 0 && calls.last().1 is Err {
        Some(calls.last().1->Err_0)
    } else {
        None
    }
}

/// A backend's calls went from `before` to `after` by handing it `actions` in
/// order: all of them, each accepted, when `accepted`; else up to and
/// including the first that it refused.
pub open spec fn handed_in_order(
    before: Seq<BackendCall>,
    after: Seq<BackendCall>,
    actions: Seq<DownloadManagerAction>,
    accepted: bool,
) -> bool {
    if accepted {
        after == before + all_accepted(actions)
    } else {
        exists|log: Seq<BackendCall>|
            after == before + log && #[trigger] handed_until_refused(actions, log)
    }
}

/// The actions that scheduling from `m` asks for under `config`'s limits.
pub open spec fn scheduled_actions(m: ManagerModel, config: DownloadManagerConfig) -> Seq<
    DownloadManagerAction,
> {
    schedule_from(m, config.concurrency.global_limit, config.concurrency.per_host_limit).1
}

/// How the backend was driven by a step `step` of the manager and the
/// scheduling after it, from calls `before` to calls `after`, when the service
/// answered `r` and left the manager as `m`: nothing on a refused step; else
/// the step's actions and then the scheduled starts, in order, up to the first
/// that the backend refused, whose error is the answer.
pub open spec fn step_driven(
    step: Result<(ManagerModel, Seq<DownloadManagerAction>), DownloadManagerError>,
    config: DownloadManagerConfig,
    before: Seq<BackendCall>,
    after: Seq<BackendCall>,
    r: Result<(), DownloadServiceError>,
    m: ManagerModel,
) -> bool {
    match step {
        Err(e) => r == Err::<(), _>(DownloadServiceError::Manager(e)) && after == before,
        Ok((moved, actions)) => match r {
            Ok(()) => m == then_scheduled(step, config) && handed_in_order(
                before + all_accepted(actions),
                after,
                scheduled_actions(moved, config),
                true,
            ),
            Err(DownloadServiceError::Backend(_)) => (m == moved && handed_in_order(
                before,
                after,
                actions,
                false,
            )) || (m == then_scheduled(step, config) && handed_in_order(
                before + all_accepted(actions),
                after,
                scheduled_actions(moved, config),
                false,
            )),
            Err(_) => false,
        },
    }
}

/// The manager after `steps` and then scheduling, as `DownloadService` leaves it
/// when the backend accepts every action.
pub open spec fn then_scheduled(
    r: Result<(ManagerModel, Seq<DownloadManagerAction>), DownloadManagerError>,
    config: DownloadManagerConfig,
) -> ManagerModel {
    schedule_from(
        r->Ok_0.0,
        config.concurrency.global_limit,
        config.concurrency.per_host_limit,
    ).0
}

/// The manager and its backend.
#[derive(Debug)]
pub struct DownloadService<B> {
    manager: DownloadManagerState,
    backend: B,
}

impl<B: DownloadBackend> DownloadService<B> {
    pub closed spec fn manager_state(&self) -> DownloadManagerState {
        self.manager
    }

    /// The calls made on the backend so far.
    pub closed spec fn backend_calls(&self) -> Seq<BackendCall> {
        self.backend.calls()
    }

    /// A service for `plan` over `backend`; refused as `DownloadManagerState::new` refuses.
    pub fn new(plan: DownloadPlan, config: DownloadManagerConfig, backend: B) -> (r: Result<
        Self,
        DownloadManagerError,
    >)
        ensures
            match r {
                Ok(s) => {
                    &&& config_ok(config)
                    &&& s.backend_calls() == backend.calls()
                    &&& s.manager_state().wf()
                    &&& s.manager_state().configuration() == config
                    &&& crate::manager::initial_entries(
                        s.manager_state().model().entries,
                        plan.jobs@,
                    )
                    &&& s.manager_state().model().events == crate::manager::queued_events(
                        plan.jobs@,
                    )
                    &&& s.manager_state().model().terminal is None
                },
                Err(e) => crate::config::config_check(config) matches Err(c) && e
                    == DownloadManagerError::InvalidConfig(c),
            },
    {
        let manager = DownloadManagerState::new(plan, config)?;
        Ok(DownloadService { manager, backend })
    }

    pub fn manager(&self) -> (r: &DownloadManagerState)
        ensures
            *r == self.manager_state(),
    {
        &self.manager
    }

    /// Hands out the manager's undrained events and forgets them.
    pub fn drain_events(&mut self) -> (r: Vec<DownloadEvent>)
        ensures
            r@ == old(self).manager_state().model().events,
            final(self).manager_state().model() == (ManagerModel {
                events: Seq::empty(),
                ..old(self).manager_state().model()
            }),
            final(self).manager_state().wf() == old(self).manager_state().wf(),
            final(self).manager_state().configuration() == old(self).manager_state().configuration(),
            final(self).backend_calls() == old(self).backend_calls(),
    {
        self.manager.drain_events()
    }

    /// Hands a command to the manager, carries out its actions, then schedules.
    /// A refused command changes nothing; a backend error stops the rest of the
    /// actions, with the manager already moved.
    pub fn apply_command(&mut self, command: DownloadCommand) -> (r: Result<
        (),
        DownloadServiceError,
    >)
        requires
            old(self).manager_state().wf(),
        ensures
            final(self).manager_state().wf(),
            final(self).manager_state().configuration() == old(self).manager_state().configuration(),
            ({
                let m0 = old(self).manager_state().model();
                let config = old(self).manager_state().configuration();
                let step = command_result(m0, command);
                let m = final(self).manager_state().model();
                &&& step matches Err(e) ==> r == Err::<(), _>(DownloadServiceError::Manager(e))
                    && m == m0
                &&& r is Ok ==> step is Ok && m == then_scheduled(step, config)
                &&& r matches Err(DownloadServiceError::Backend(_)) ==> step is Ok && (m
                    == step->Ok_0.0 || m == then_scheduled(step, config))
                &&& r matches Err(DownloadServiceError::Manager(_)) ==> step is Err
                &&& !(r matches Err(DownloadServiceError::EventStreamClosed))
                &&& step_driven(
                    step,
                    config,
                    old(self).backend_calls(),
                    final(self).backend_calls(),
                    r,
                    m,
                )
            }),
            r matches Err(DownloadServiceError::Backend(e)) ==> last_refusal(final(self).backend_calls())
                == Some(e),
    {
        let actions = match self.manager.apply_command(command) {
            Ok(actions) => actions,
            Err(e) => {
                return Err(DownloadServiceError::Manager(e));
            },
        };
        let handed = self.apply_actions(&actions);
        if let Err(e) = handed {
            return Err(e);
        }
        self.schedule_ready_jobs()
    }

    /// Hands a worker report to the manager, carries out its actions, then schedules.
    pub fn apply_worker_report(&mut self, report: WorkerReport) -> (r: Result<
        (),
        DownloadServiceError,
    >)
        requires
            old(self).manager_state().wf(),
        ensures
            final(self).manager_state().wf(),
            final(self).manager_state().configuration() == old(self).manager_state().configuration(),
            ({
                let m0 = old(self).manager_state().model();
                let config = old(self).manager_state().configuration();
                let step = report_result(m0, config.retry.max_attempts, report);
                let m = final(self).manager_state().model();
                &&& step matches Err(e) ==> r == Err::<(), _>(DownloadServiceError::Manager(e))
                    && m == m0
                &&& r is Ok ==> step is Ok && m == then_scheduled(step, config)
                &&& r matches Err(DownloadServiceError::Backend(_)) ==> step is Ok && (m
                    == step->Ok_0.0 || m == then_scheduled(step, config))
                &&& r matches Err(DownloadServiceError::Manager(_)) ==> step is Err
                &&& !(r matches Err(DownloadServiceError::EventStreamClosed))
                &&& step_driven(
                    step,
                    config,
                    old(self).backend_calls(),
                    final(self).backend_calls(),
                    r,
                    m,
                )
            }),
            r matches Err(DownloadServiceError::Backend(e)) ==> last_refusal(final(self).backend_calls())
                == Some(e),
    {
        let actions = match self.manager.apply_worker_report(report) {
            Ok(actions) => actions,
            Err(e) => {
                return Err(DownloadServiceError::Manager(e));
            },
        };
        let handed = self.apply_actions(&actions);
        if let Err(e) = handed {
            return Err(e);
        }
        self.schedule_ready_jobs()
    }

    /// Schedules ready jobs and asks the backend to start them.
    pub fn schedule_ready_jobs(&mut self) -> (r: Result<(), DownloadServiceError>)
        requires
            old(self).manager_state().wf(),
        ensures
            final(self).manager_state().wf(),
            final(self).manager_state().configuration() == old(self).manager_state().configuration(),
            final(self).manager_state().model() == schedule_from(
                old(self).manager_state().model(),
                old(self).manager_state().configuration().concurrency.global_limit,
                old(self).manager_state().configuration().concurrency.per_host_limit,
            ).0,
            r is Ok || r matches Err(DownloadServiceError::Backend(_)),
            handed_in_order(
                old(self).backend_calls(),
                final(self).backend_calls(),
                scheduled_actions(
                    old(self).manager_state().model(),
                    old(self).manager_state().configuration(),
                ),
                r is Ok,
            ),
            r matches Err(DownloadServiceError::Backend(e)) ==> last_refusal(final(self).backend_calls())
                == Some(e),
    {
        let actions = self.manager.schedule_ready_jobs();
        self.apply_actions(&actions)
    }

    /// Carries out `actions` in order, stopping at the first backend error.
    fn apply_actions(&mut self, actions: &Vec<DownloadManagerAction>) -> (r: Result<
        (),
        DownloadServiceError,
    >)
        ensures
            final(self).manager_state() == old(self).manager_state(),
            r is Ok || r matches Err(DownloadServiceError::Backend(_)),
            handed_in_order(old(self).backend_calls(), final(self).backend_calls(), actions@, r is Ok),
            r matches Err(DownloadServiceError::Backend(e)) ==> last_refusal(final(self).backend_calls())
                == Some(e),
    {
        let n = actions.len();
        let mut i: usize = 0;
        while i < n
            invariant
                i <= n,
                n == actions@.len(),
                self.manager_state() == old(self).manager_state(),
                self.backend_calls() == old(self).backend_calls() + all_accepted(
                    actions@.take(i as int),
                ),
            decreases n - i,
        {
            let ghost before = self.backend_calls();
            let ghost taken = all_accepted(actions@.take(i as int));
            let accepted = match &actions[i] {
                DownloadManagerAction::StartJob(job) => self.backend.start_job(job.duplicate()),
                DownloadManagerAction::StopWorker { id, reason } => self.backend.stop_worker(
                    id,
                    *reason,
                ),
            };
            let ghost answer = accepted;
            proof {
                assert(self.backend_calls() == before.push((actions@[i as int], answer)));
            }
            match accepted {
                Err(e) => {
                    proof {
                        let log = taken.push((actions@[i as int], answer));
                        assert(self.backend_calls() =~= old(self).backend_calls() + log);
                        assert(handed_until_refused(actions@, log));
                    }
                    return Err(DownloadServiceError::Backend(e));
                },
                Ok(()) => {},
            }
            proof {
                assert(answer is Ok);
                assert(answer->Ok_0 == ());
                assert(answer == Ok::<(), DownloadBackendError>(()));
                assert(all_accepted(actions@.take(i + 1)) =~= taken.push(
                    (actions@[i as int], Ok::<(), DownloadBackendError>(())),
                ));
                assert(self.backend_calls() =~= old(self).backend_calls() + all_accepted(
                    actions@.take(i + 1),
                ));
            }
            i += 1;
        }
        proof {
            assert(actions@.take(n as int) =~= actions@);
        }
        Ok(())
    }
}

pub open spec fn config_ok(config: DownloadManagerConfig) -> bool {
    crate::config::config_check(config) is Ok
}

/// What the service loop takes in.
#[derive(Debug, Clone, PartialEq, Eq)]
pub enum DownloadServiceInput {
    Command(DownloadCommand),
    WorkerReport(WorkerReport),
}

/// Sends commands and worker reports to a running service loop.
#[derive(Debug, Clone)]
pub struct DownloadServiceHandle {
    input_sender: Sender<DownloadServiceInput>,
}

impl DownloadServiceHandle {
    /// Queues a command for the loop; fails once the loop is gone.
    pub fn send_command(&self, command: DownloadCommand) -> Result<
        (),
        SendError<DownloadServiceInput>,
    > {
        send_value(&self.input_sender, DownloadServiceInput::Command(command))
    }

    /// Queues a worker report for the loop; fails once the loop is gone.
    pub fn send_worker_report(&self, report: WorkerReport) -> Result<
        (),
        SendError<DownloadServiceInput>,
    > {
        send_value(&self.input_sender, DownloadServiceInput::WorkerReport(report))
    }
}

/// Receives the events a service loop publishes.
#[derive(Debug)]
pub struct DownloadEventStream {
    event_receiver: Receiver<DownloadEvent>,
}

impl DownloadEventStream {
    /// The next published event, if one is waiting.
    pub fn try_recv(&self) -> Result<DownloadEvent, TryRecvError> {
        crate::external::try_receive(&self.event_receiver)
    }

    /// The next published event, or `None` when none is waiting or the loop is gone.
    pub fn next_event(&self) -> Option<DownloadEvent> {
        receive_now(&self.event_receiver)
    }

    /// Every event waiting on the stream, oldest first, up to the first moment
    /// none is waiting.
    pub fn drain_available(&self) -> Vec<DownloadEvent> {
        let mut events: Vec<DownloadEvent> = Vec::new();
        while events.len() < usize::MAX
            decreases usize::MAX - events.len(),
        {
            match self.next_event() {
                Some(event) => events.push(event),
                None => {
                    return events;
                },
            }
        }
        events
    }
}

/// The manager's answer to `input`: a command or a worker report.
pub open spec fn input_result(
    m: ManagerModel,
    config: DownloadManagerConfig,
    input: DownloadServiceInput,
) -> Result<(ManagerModel, Seq<DownloadManagerAction>), DownloadManagerError> {
    match input {
        DownloadServiceInput::Command(c) => command_result(m, c),
        DownloadServiceInput::WorkerReport(w) => report_result(m, config.retry.max_attempts, w),
    }
}

/// How the loop leaves the manager `m` as `after` when input `input` ends in
/// error `e`: a refused input changes nothing; a backend error leaves the
/// manager moved by the input, and maybe scheduled; a closed event stream
/// comes after the input was applied, scheduled and its events handed out.
pub open spec fn input_failed(
    m: ManagerModel,
    config: DownloadManagerConfig,
    input: DownloadServiceInput,
    e: DownloadServiceError,
    after: ManagerModel,
) -> bool {
    let step = input_result(m, config, input);
    match e {
        DownloadServiceError::Manager(me) => step == Err::<
            (ManagerModel, Seq<DownloadManagerAction>),
            _,
        >(me) && after == m,
        DownloadServiceError::Backend(_) => step is Ok && (after == step->Ok_0.0 || after
            == then_scheduled(step, config)),
        DownloadServiceError::EventStreamClosed => step is Ok && after == (ManagerModel {
            events: Seq::empty(),
            ..then_scheduled(step, config)
        }),
    }
}

/// Starting from `m`, the loop accepted `inputs` in order, and then `input`
/// ended in error `e`, leaving the manager as `after`.
pub open spec fn inputs_then_failed(
    m: ManagerModel,
    config: DownloadManagerConfig,
    inputs: Seq<DownloadServiceInput>,
    input: DownloadServiceInput,
    e: DownloadServiceError,
    after: ManagerModel,
) -> bool {
    match inputs_applied(m, config, inputs) {
        Some(before) => input_failed(before, config, input, e, after),
        None => false,
    }
}

/// The manager after `input`, its events handed on, as the loop leaves it when
/// the input is accepted; `None` when the manager refuses it.
pub open spec fn input_step(
    m: ManagerModel,
    config: DownloadManagerConfig,
    input: DownloadServiceInput,
) -> Option<ManagerModel> {
    let step = input_result(m, config, input);
    if step is Ok {
        Some(ManagerModel { events: Seq::empty(), ..then_scheduled(step, config) })
    } else {
        None
    }
}

/// The events the loop hands to the stream while it applies `inputs` in order,
/// each accepted: for each, the events its manager holds after the input and
/// the scheduling that follows.
pub open spec fn inputs_published(
    m: ManagerModel,
    config: DownloadManagerConfig,
    inputs: Seq<DownloadServiceInput>,
) -> Seq<DownloadEvent>
    decreases inputs.len(),
{
    if inputs.len() == 0 {
        Seq::empty()
    } else {
        inputs_published(m, config, inputs.drop_last()) + match inputs_applied(
            m,
            config,
            inputs.drop_last(),
        ) {
            Some(before) => then_scheduled(input_result(before, config, inputs.last()), config).events,
            None => Seq::empty(),
        }
    }
}

/// The manager after `inputs`, in order, each accepted; `None` when one is refused.
pub open spec fn inputs_applied(
    m: ManagerModel,
    config: DownloadManagerConfig,
    inputs: Seq<DownloadServiceInput>,
) -> Option<ManagerModel>
    decreases inputs.len(),
{
    if inputs.len() == 0 {
        Some(m)
    } else {
        match inputs_applied(m, config, inputs.drop_last()) {
            Some(before) => input_step(before, config, inputs.last()),
            None => None,
        }
    }
}

/// A service driven by inputs from a channel, publishing its events to another.
pub struct DownloadServiceLoop<B> {
    service: DownloadService<B>,
    input_receiver: Receiver<DownloadServiceInput>,
    event_sender: Sender<DownloadEvent>,
    started: bool,
    /// The events handed to the stream so far, each sent and accepted, oldest first.
    published: Ghost<Seq<DownloadEvent>>,
}

impl<B: DownloadBackend> DownloadServiceLoop<B> {
    pub closed spec fn service_state(&self) -> DownloadService<B> {
        self.service
    }

    pub closed spec fn started(&self) -> bool {
        self.started
    }

    /// The events handed to the event stream so far, oldest first.
    pub closed spec fn published(&self) -> Seq<DownloadEvent> {
        self.published@
    }

    /// A loop for a new service, with the handle that feeds it and the stream
    /// it publishes to; refused as `DownloadService::new` refuses.
    pub fn new(plan: DownloadPlan, config: DownloadManagerConfig, backend: B) -> (r: Result<
        (Self, DownloadServiceHandle, DownloadEventStream),
        DownloadManagerError,
    >)
        ensures
            match r {
                Ok((l, _, _)) => {
                    &&& config_ok(config)
                    &&& l.service_state().backend_calls() == backend.calls()
                    &&& !l.started()
                    &&& l.published() == Seq::<DownloadEvent>::empty()
                    &&& l.service_state().manager_state().wf()
                    &&& l.service_state().manager_state().configuration() == config
                    &&& l.service_state().manager_state().model().events
                        == crate::manager::queued_events(plan.jobs@)
                },
                Err(e) => crate::config::config_check(config) matches Err(c) && e
                    == DownloadManagerError::InvalidConfig(c),
            },
    {
        let service = DownloadService::new(plan, config, backend)?;
        let (input_sender, input_receiver) = new_channel();
        let (event_sender, event_receiver) = new_channel();
        Ok(
            (
                DownloadServiceLoop {
                    service,
                    input_receiver,
                    event_sender,
                    started: false,
                    published: Ghost(Seq::empty()),
                },
                DownloadServiceHandle { input_sender },
                DownloadEventStream { event_receiver },
            ),
        )
    }

    /// Like `new`, with the backend built from the loop's own handle, so that its
    /// workers can report back through it.
    pub fn with_backend_factory<F: FnOnce(DownloadServiceHandle) -> B>(
        plan: DownloadPlan,
        config: DownloadManagerConfig,
        factory: F,
    ) -> (r: Result<(Self, DownloadServiceHandle, DownloadEventStream), DownloadManagerError>)
        requires
            forall|h: DownloadServiceHandle| call_requires(factory, (h,)),
        ensures
            match r {
                Ok((l, _, _)) => {
                    &&& config_ok(config)
                    &&& !l.started()
                    &&& l.published() == Seq::<DownloadEvent>::empty()
                    &&& l.service_state().manager_state().wf()
                    &&& l.service_state().manager_state().configuration() == config
                    &&& l.service_state().manager_state().model().events
                        == crate::manager::queued_events(plan.jobs@)
                },
                Err(e) => crate::config::config_check(config) matches Err(c) && e
                    == DownloadManagerError::InvalidConfig(c),
            },
    {
        let (input_sender, input_receiver) = new_channel();
        let (event_sender, event_receiver) = new_channel();
        let report_handle = DownloadServiceHandle { input_sender: input_sender.clone() };
        let backend = factory(report_handle);
        let service = DownloadService::new(plan, config, backend)?;
        Ok(
            (
                DownloadServiceLoop {
                    service,
                    input_receiver,
                    event_sender,
                    started: false,
                    published: Ghost(Seq::empty()),
                },
                DownloadServiceHandle { input_sender },
                DownloadEventStream { event_receiver },
            ),
        )
    }

    /// Like `with_backend_factory`, for a backend whose setup may fail; that
    /// failure is answered before any job is scheduled.
    pub fn try_with_backend_factory<F: FnOnce(DownloadServiceHandle) -> Result<B, DownloadBackendError>>(
        plan: DownloadPlan,
        config: DownloadManagerConfig,
        factory: F,
    ) -> (r: Result<(Self, DownloadServiceHandle, DownloadEventStream), DownloadServiceError>)
        requires
            forall|h: DownloadServiceHandle| call_requires(factory, (h,)),
        ensures
            match r {
                Ok((l, _, _)) => {
                    &&& config_ok(config)
                    &&& !l.started()
                    &&& l.published() == Seq::<DownloadEvent>::empty()
                    &&& l.service_state().manager_state().wf()
                    &&& l.service_state().manager_state().configuration() == config
                    &&& l.service_state().manager_state().model().events
                        == crate::manager::queued_events(plan.jobs@)
                },
                Err(DownloadServiceError::Manager(e)) => crate::config::config_check(config) matches Err(c)
                    && e == DownloadManagerError::InvalidConfig(c),
                Err(DownloadServiceError::Backend(_)) => true,
                Err(DownloadServiceError::EventStreamClosed) => false,
            },
    {
        let (input_sender, input_receiver) = new_channel();
        let (event_sender, event_receiver) = new_channel();
        let report_handle = DownloadServiceHandle { input_sender: input_sender.clone() };
        let backend = match factory(report_handle) {
            Ok(backend) => backend,
            Err(e) => {
                return Err(DownloadServiceError::Backend(e));
            },
        };
        let service = match DownloadService::new(plan, config, backend) {
            Ok(service) => service,
            Err(e) => {
                return Err(DownloadServiceError::Manager(e));
            },
        };
        Ok(
            (
                DownloadServiceLoop {
                    service,
                    input_receiver,
                    event_sender,
                    started: false,
                    published: Ghost(Seq::empty()),
                },
                DownloadServiceHandle { input_sender },
                DownloadEventStream { event_receiver },
            ),
        )
    }

    pub fn service(&self) -> (r: &DownloadService<B>)
        ensures
            *r == self.service_state(),
    {
        &self.service
    }

    pub fn is_started(&self) -> (r: bool)
        ensures
            r == self.started(),
    {
        self.started
    }

    /// Starts the loop once: schedules the first jobs, asks the backend to start
    /// them in order (up to the first it refuses), then publishes the events so
    /// far. A later start does nothing.
    pub fn start(&mut self) -> (r: Result<(), DownloadServiceError>)
        requires
            old(self).service_state().manager_state().wf(),
        ensures
            final(self).started(),
            final(self).service_state().manager_state().wf(),
            final(self).service_state().manager_state().configuration() == old(
                self,
            ).service_state().manager_state().configuration(),
            old(self).started() ==> r is Ok && *final(self) == *old(self),
            !old(self).started() ==> ({
                let m0 = old(self).service_state().manager_state().model();
                let config = old(self).service_state().manager_state().configuration();
                let scheduled = schedule_from(
                    m0,
                    config.concurrency.global_limit,
                    config.concurrency.per_host_limit,
                );
                let m = final(self).service_state().manager_state().model();
                let before = old(self).published();
                let after = final(self).published();
                &&& handed_in_order(
                    old(self).service_state().backend_calls(),
                    final(self).service_state().backend_calls(),
                    scheduled.1,
                    !(r matches Err(DownloadServiceError::Backend(_))),
                )
                &&& match r {
                    Ok(()) => m == (ManagerModel { events: Seq::empty(), ..scheduled.0 }) && after
                        == before + scheduled.0.events,
                    Err(DownloadServiceError::Backend(_)) => m == scheduled.0 && after == before,
                    Err(DownloadServiceError::EventStreamClosed) => m == (ManagerModel {
                        events: Seq::empty(),
                        ..scheduled.0
                    }) && scheduled.0.events.len() > 0 && exists|k: int|
                        0 <= k < scheduled.0.events.len() && after == before
                            + scheduled.0.events.take(k),
                    Err(DownloadServiceError::Manager(_)) => false,
                }
                &&& (scheduled.1.len() == 0 && scheduled.0.events.len() == 0 ==> r is Ok)
            }),
    {
        if !self.started {
            self.started = true;
            let scheduled = self.service.schedule_ready_jobs();
            if let Err(e) = scheduled {
                return Err(e);
            }
            let published = self.publish_pending_events();
            if let Err(e) = published {
                return Err(e);
            }
        }
        Ok(())
    }

    /// The next input waiting on the channel, if any.
    pub fn next_input(&self) -> Option<DownloadServiceInput> {
        receive_now(&self.input_receiver)
    }

    /// Hands one input to the service and publishes the events it caused.
    pub fn apply_input(&mut self, input: DownloadServiceInput) -> (r: Result<
        (),
        DownloadServiceError,
    >)
        requires
            old(self).service_state().manager_state().wf(),
        ensures
            final(self).service_state().manager_state().wf(),
            final(self).started() == old(self).started(),
            final(self).service_state().manager_state().configuration() == old(
                self,
            ).service_state().manager_state().configuration(),
            r is Ok ==> final(self).service_state().manager_state().model().events.len() == 0,
            r is Ok ==> ({
                let m0 = old(self).service_state().manager_state().model();
                let config = old(self).service_state().manager_state().configuration();
                let step = input_result(m0, config, input);
                &&& step is Ok
                &&& final(self).service_state().manager_state().model() == (ManagerModel {
                    events: Seq::empty(),
                    ..then_scheduled(step, config)
                })
            }),
            r matches Err(e) ==> input_failed(
                old(self).service_state().manager_state().model(),
                old(self).service_state().manager_state().configuration(),
                input,
                e,
                final(self).service_state().manager_state().model(),
            ),
            ({
                let sent = then_scheduled(
                    input_result(
                        old(self).service_state().manager_state().model(),
                        old(self).service_state().manager_state().configuration(),
                        input,
                    ),
                    old(self).service_state().manager_state().configuration(),
                ).events;
                let before = old(self).published();
                let after = final(self).published();
                &&& r is Ok ==> after == before + sent
                &&& (r matches Err(DownloadServiceError::Manager(_)) || r matches Err(
                    DownloadServiceError::Backend(_),
                )) ==> after == before
                &&& r == Err::<(), _>(DownloadServiceError::EventStreamClosed) ==> exists|k: int|
                    0 <= k < sent.len() && after == before + sent.take(k)
            }),
    {
        let applied = match input {
            DownloadServiceInput::Command(command) => self.service.apply_command(command),
            DownloadServiceInput::WorkerReport(report) => self.service.apply_worker_report(report),
        };
        if let Err(e) = applied {
            return Err(e);
        }
        self.publish_pending_events()
    }

    /// Applies the inputs waiting on the channel, in order, until none is waiting,
    /// and answers how many it applied; the first input that ends in error ends
    /// the run with that error (see `input_failed`). What waits on the channel
    /// is up to the handles' holders; whatever it was, the service ends as those
    /// inputs leave it. The count stops at `usize::MAX`.
    pub fn run_until_idle(&mut self) -> (r: Result<usize, DownloadServiceError>)
        requires
            old(self).service_state().manager_state().wf(),
        ensures
            final(self).service_state().manager_state().wf(),
            final(self).started() == old(self).started(),
            final(self).service_state().manager_state().configuration() == old(
                self,
            ).service_state().manager_state().configuration(),
            r matches Ok(n) ==> exists|inputs: Seq<DownloadServiceInput>|
                inputs.len() == n && #[trigger] inputs_applied(
                    old(self).service_state().manager_state().model(),
                    old(self).service_state().manager_state().configuration(),
                    inputs,
                ) == Some(final(self).service_state().manager_state().model())
                    && final(self).published() == old(self).published() + inputs_published(
                    old(self).service_state().manager_state().model(),
                    old(self).service_state().manager_state().configuration(),
                    inputs,
                ),
            r matches Err(e) ==> exists|inputs: Seq<DownloadServiceInput>, input: DownloadServiceInput|
                #[trigger] inputs_then_failed(
                    old(self).service_state().manager_state().model(),
                    old(self).service_state().manager_state().configuration(),
                    inputs,
                    input,
                    e,
                    final(self).service_state().manager_state().model(),
                ) && (old(self).published() + inputs_published(
                    old(self).service_state().manager_state().model(),
                    old(self).service_state().manager_state().configuration(),
                    inputs,
                )).is_prefix_of(final(self).published()),
    {
        let ghost m0 = self.service_state().manager_state().model();
        let ghost config = self.service_state().manager_state().configuration();
        let ghost mut inputs: Seq<DownloadServiceInput> = Seq::empty();
        let mut processed: usize = 0;
        while processed < usize::MAX
            invariant
                self.service_state().manager_state().wf(),
                self.started() == old(self).started(),
                self.service_state().manager_state().configuration() == config,
                config == old(self).service_state().manager_state().configuration(),
                m0 == old(self).service_state().manager_state().model(),
                inputs.len() == processed,
                inputs_applied(m0, config, inputs) == Some(
                    self.service_state().manager_state().model(),
                ),
                self.published() == old(self).published() + inputs_published(m0, config, inputs),
            decreases usize::MAX - processed,
        {
            match self.next_input() {
                Some(input) => {
                    let ghost before = self.service_state().manager_state().model();
                    let ghost sent_before = self.published();
                    if let Err(e) = self.apply_input(input) {
                        proof {
                            let p = old(self).published() + inputs_published(m0, config, inputs);
                            assert(p.is_prefix_of(self.published())) by {
                                if self.published() != sent_before {
                                    let sent = then_scheduled(input_result(before, config, input), config).events;
                                    let k = choose|k: int| 0 <= k < sent.len() && self.published() == sent_before + sent.take(k);
                                    assert(p.len() <= self.published().len());
                                    assert forall|j: int| 0 <= j < p.len() implies p[j] == self.published()[j] by {
                                        assert(self.published()[j] == (sent_before + sent.take(k))[j]);
                                    }
                                }
                            }
                            assert(inputs_then_failed(
                                m0,
                                config,
                                inputs,
                                input,
                                e,
                                self.service_state().manager_state().model(),
                            ));
                        }
                        return Err(e);
                    }
                    proof {
                        let next = inputs.push(input);
                        assert(next.drop_last() =~= inputs);
                        assert(inputs_published(m0, config, next) =~= inputs_published(m0, config, inputs)
                            + then_scheduled(input_result(before, config, input), config).events);
                        assert(input_step(before, config, input) == Some(
                            self.service_state().manager_state().model(),
                        ));
                        inputs = next;
                    }
                    processed += 1;
                },
                None => {
                    return Ok(processed);
                },
            }
        }
        Ok(processed)
    }

    /// Sends every undrained event to the stream, oldest first.
    fn publish_pending_events(&mut self) -> (r: Result<(), DownloadServiceError>)
        requires
            old(self).service_state().manager_state().wf(),
        ensures
            final(self).service_state().manager_state().wf(),
            final(self).started() == old(self).started(),
            final(self).service_state().manager_state().model() == (ManagerModel {
                events: Seq::empty(),
                ..old(self).service_state().manager_state().model()
            }),
            final(self).service_state().manager_state().configuration() == old(self).service_state().manager_state().configuration(),
            final(self).service_state().backend_calls() == old(self).service_state().backend_calls(),
            r is Ok || r == Err::<(), _>(DownloadServiceError::EventStreamClosed),
            r is Err ==> old(self).service_state().manager_state().model().events.len() > 0,
            r is Ok ==> final(self).published() == old(self).published() + old(
                self,
            ).service_state().manager_state().model().events,
            r is Err ==> exists|k: int|
                0 <= k < old(self).service_state().manager_state().model().events.len()
                    && final(self).published() == old(self).published() + old(
                    self,
                ).service_state().manager_state().model().events.take(k),
    {
        let mut events = self.service.drain_events();
        let ghost all = events@;
        let ghost drained = self.service_state();
        let n = events.len();
        let mut i: usize = 0;
        while i < n
            invariant
                i <= n,
                n == all.len(),
                all == old(self).service_state().manager_state().model().events,
                events@ == all.subrange(i as int, n as int),
                self.service_state() == drained,
                self.published() == old(self).published() + all.take(i as int),
                self.service_state().manager_state().wf(),
                self.started() == old(self).started(),
                self.service_state().manager_state().model() == (ManagerModel {
                    events: Seq::empty(),
                    ..old(self).service_state().manager_state().model()
                }),
                self.service_state().manager_state().configuration() == old(self).service_state().manager_state().configuration(),
                self.service_state().backend_calls() == old(self).service_state().backend_calls(),
                n == old(self).service_state().manager_state().model().events.len(),
            decreases n - i,
        {
            let event = events.remove(0);
            if send_value(&self.event_sender, event).is_err() {
                return Err(DownloadServiceError::EventStreamClosed);
            }
            proof {
                assert(event == all[i as int]);
                assert(all.take(i + 1) =~= all.take(i as int).push(all[i as int]));
            }
            self.published = Ghost(self.published@.push(event));
            i += 1;
            proof {
                assert(events@ =~= all.subrange(i as int, n as int));
            }
        }
        proof {
            assert(all.take(n as int) =~= all);
        }
        Ok(())
    }
}

} // verus!
