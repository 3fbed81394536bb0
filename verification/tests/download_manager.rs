use std::path::PathBuf;

use mado::{
    DownloadArtifactKind, DownloadBackend, DownloadBackendError, DownloadCommand,
    DownloadConcurrencyConfig, DownloadConfigError, DownloadEvent, DownloadJobId,
    DownloadJobPolicy, DownloadJobSpec, DownloadJobState, DownloadManagerAction,
    DownloadManagerConfig, DownloadManagerError, DownloadManagerState, DownloadPlan,
    DownloadPlanError, DownloadRetryConfig, DownloadService, DownloadServiceError,
    DownloadServiceInput, DownloadServiceLoop, DownloadUrl, PlanTerminalState, WorkerReport,
    WorkerStopReason,
};

fn job_id(value: impl Into<String>) -> DownloadJobId {
    DownloadJobId::new(value.into()).unwrap()
}

fn job(id: DownloadJobId) -> DownloadJobSpec {
    job_with_host(id, "example.invalid")
}

fn job_with_host(id: DownloadJobId, host: impl Into<String>) -> DownloadJobSpec {
    DownloadJobSpec {
        id,
        url: DownloadUrl::new("https://example.invalid/file".to_string()).unwrap(),
        host: Some(host.into()),
        target_path: PathBuf::from("file"),
        expected_size: Some(1),
        checksum: None,
        kind: DownloadArtifactKind::Library,
        policy: DownloadJobPolicy::default(),
    }
}

fn manager_with_jobs(count: usize) -> DownloadManagerState {
    manager_with_jobs_and_config(count, DownloadManagerConfig::default())
}

fn manager_with_jobs_and_config(count: usize, config: DownloadManagerConfig) -> DownloadManagerState {
    let jobs = (0..count)
        .map(|index| job(job_id(format!("job-{index}"))))
        .collect::<Vec<_>>();
    let plan = DownloadPlan::new(jobs).unwrap();
    DownloadManagerState::new(plan, config).unwrap()
}

fn config_with_global_limit(global_limit: usize) -> DownloadManagerConfig {
    let mut config = DownloadManagerConfig::default();
    config.concurrency.global_limit = global_limit;
    config.concurrency.per_host_limit = config.concurrency.per_host_limit.min(global_limit);
    config
}

fn running_states(manager: &DownloadManagerState) -> usize {
    (0..manager.job_count())
        .filter(|index| matches!(manager.job_at(*index).state, DownloadJobState::Running { .. }))
        .count()
}

fn action_ids(actions: &[DownloadManagerAction]) -> Vec<DownloadJobId> {
    actions
        .iter()
        .filter_map(|action| match action {
            DownloadManagerAction::StartJob(spec) => Some(spec.id.clone()),
            DownloadManagerAction::StopWorker { .. } => None,
        })
        .collect()
}

#[test]
fn rejects_duplicate_job_ids() {
    let id = job_id("client");
    let result = DownloadPlan::new(vec![job(id.clone()), job(id)]);

    assert!(matches!(
        result,
        Err(DownloadPlanError::DuplicateJobId { .. })
    ));
}

#[test]
fn validates_concurrency_limits() {
    let config = DownloadManagerConfig {
        concurrency: DownloadConcurrencyConfig {
            global_limit: 2,
            per_host_limit: 3,
            queue_capacity: 8,
        },
        ..DownloadManagerConfig::default()
    };

    assert_eq!(
        config.validate(),
        Err(DownloadConfigError::PerHostExceedsGlobal)
    );
}

#[test]
fn scheduling_respects_global_limit() {
    let mut manager = manager_with_jobs_and_config(3, config_with_global_limit(2));

    let actions = manager.schedule_ready_jobs();

    assert_eq!(actions.len(), 2);
    assert_eq!(running_states(&manager), 2);
}

#[test]
fn scheduling_skips_jobs_blocked_by_per_host_limit() {
    let plan = DownloadPlan::new(vec![
        job_with_host(job_id("a-0"), "a.example"),
        job_with_host(job_id("a-1"), "a.example"),
        job_with_host(job_id("b-0"), "b.example"),
    ])
    .unwrap();
    let config = DownloadManagerConfig {
        concurrency: DownloadConcurrencyConfig {
            global_limit: 2,
            per_host_limit: 1,
            queue_capacity: 8,
        },
        ..DownloadManagerConfig::default()
    };
    let mut manager = DownloadManagerState::new(plan, config).unwrap();

    let actions = manager.schedule_ready_jobs();

    assert_eq!(action_ids(&actions), vec![job_id("a-0"), job_id("b-0")]);
    assert_eq!(
        manager.state(&job_id("a-1")),
        Some(&DownloadJobState::Pending)
    );
}

#[test]
fn pause_running_job_requests_worker_stop_before_paused_report() {
    let mut manager = manager_with_jobs(1);
    let id = job_id("job-0");
    let _actions = manager.schedule_ready_jobs();

    let actions = manager
        .apply_command(DownloadCommand::PauseJob(id.clone()))
        .unwrap();

    assert_eq!(
        actions,
        vec![DownloadManagerAction::StopWorker {
            id: id.clone(),
            reason: WorkerStopReason::Paused,
        }]
    );
    assert!(matches!(
        manager.state(&id),
        Some(DownloadJobState::Pausing { .. })
    ));

    manager
        .apply_worker_report(WorkerReport::Stopped {
            id: id.clone(),
            reason: WorkerStopReason::Paused,
        })
        .unwrap();

    assert_eq!(manager.state(&id), Some(&DownloadJobState::Paused));
}

#[test]
fn cancel_pending_job_is_terminal() {
    let mut manager = manager_with_jobs(1);
    let id = job_id("job-0");

    let actions = manager
        .apply_command(DownloadCommand::CancelJob(id.clone()))
        .unwrap();

    assert!(actions.is_empty());
    assert_eq!(manager.state(&id), Some(&DownloadJobState::Cancelled));
    assert!(manager.drain_events().contains(&DownloadEvent::PlanFailed));
}

#[test]
fn retryable_worker_failure_returns_job_to_pending_until_attempts_exhaust() {
    let mut manager = manager_with_jobs(1);
    let id = job_id("job-0");
    let _actions = manager.schedule_ready_jobs();

    manager
        .apply_worker_report(WorkerReport::Failed {
            id: id.clone(),
            error: "temporary network failure".to_string(),
            retryable: true,
        })
        .unwrap();

    assert_eq!(manager.state(&id), Some(&DownloadJobState::Pending));
    assert!(manager
        .drain_events()
        .contains(&DownloadEvent::JobRetryScheduled { id, attempt: 2 }));
}

#[test]
fn new_manager_queues_every_job_in_plan_order() {
    let mut manager = manager_with_jobs(3);
    assert_eq!(
        manager.drain_events(),
        vec![
            DownloadEvent::JobQueued { id: job_id("job-0") },
            DownloadEvent::JobQueued { id: job_id("job-1") },
            DownloadEvent::JobQueued { id: job_id("job-2") },
        ]
    );
    assert!(manager.drain_events().is_empty());
    assert_eq!(manager.terminal_state(), None);
}

#[test]
fn new_manager_refuses_invalid_config_with_its_error() {
    let plan = DownloadPlan::new(vec![job(job_id("job-0"))]).unwrap();
    let config = DownloadManagerConfig {
        retry: DownloadRetryConfig {
            max_attempts: 0,
            ..DownloadRetryConfig::default()
        },
        ..DownloadManagerConfig::default()
    };
    assert!(matches!(
        DownloadManagerState::new(plan, config),
        Err(DownloadManagerError::InvalidConfig(DownloadConfigError::ZeroRetryAttempts))
    ));
}

#[test]
fn jobs_are_kept_in_key_order() {
    let plan = DownloadPlan::new(vec![
        job(job_id("b")),
        job(job_id("a")),
        job(job_id("c")),
    ])
    .unwrap();
    let manager = DownloadManagerState::new(plan, DownloadManagerConfig::default()).unwrap();
    let ids: Vec<String> = (0..manager.job_count())
        .map(|i| manager.job_at(i).spec.id.as_str().to_string())
        .collect();
    assert_eq!(ids, vec!["a", "b", "c"]);
}

#[test]
fn unknown_job_is_refused_and_changes_nothing() {
    let mut manager = manager_with_jobs(1);
    let _ = manager.drain_events();
    let missing = job_id("missing");

    let result = manager.apply_command(DownloadCommand::PauseJob(missing.clone()));
    assert_eq!(
        result,
        Err(DownloadManagerError::UnknownJob { id: missing.clone() })
    );
    let report = manager.apply_worker_report(WorkerReport::Completed { id: missing.clone() });
    assert_eq!(report, Err(DownloadManagerError::UnknownJob { id: missing }));
    assert!(manager.drain_events().is_empty());
    assert_eq!(manager.state(&job_id("job-0")), Some(&DownloadJobState::Pending));
}

#[test]
fn pausing_then_resuming_a_pending_job_restores_it() {
    let mut manager = manager_with_jobs(1);
    let id = job_id("job-0");
    let _ = manager.drain_events();

    manager.apply_command(DownloadCommand::PauseJob(id.clone())).unwrap();
    assert_eq!(manager.state(&id), Some(&DownloadJobState::Paused));
    manager.apply_command(DownloadCommand::ResumeJob(id.clone())).unwrap();
    assert_eq!(manager.state(&id), Some(&DownloadJobState::Pending));
    assert_eq!(
        manager.drain_events(),
        vec![
            DownloadEvent::JobPaused { id: id.clone() },
            DownloadEvent::JobResumed { id },
        ]
    );
}

#[test]
fn cancel_all_stops_running_jobs_and_ends_plan_once() {
    let mut manager = manager_with_jobs_and_config(3, config_with_global_limit(1));
    let started = manager.schedule_ready_jobs();
    assert_eq!(action_ids(&started), vec![job_id("job-0")]);
    let _ = manager.drain_events();

    let actions = manager.apply_command(DownloadCommand::CancelAll).unwrap();
    assert_eq!(
        actions,
        vec![DownloadManagerAction::StopWorker {
            id: job_id("job-0"),
            reason: WorkerStopReason::Cancelled,
        }]
    );
    assert!(matches!(
        manager.state(&job_id("job-0")),
        Some(DownloadJobState::Cancelling { attempt: 1 })
    ));
    assert_eq!(manager.state(&job_id("job-1")), Some(&DownloadJobState::Cancelled));
    let events = manager.drain_events();
    let plan_events = events
        .iter()
        .filter(|event| matches!(event, DownloadEvent::PlanFailed | DownloadEvent::PlanCompleted))
        .count();
    assert_eq!(plan_events, 1);
    assert_eq!(manager.terminal_state(), Some(PlanTerminalState::Failed));

    manager
        .apply_worker_report(WorkerReport::Stopped {
            id: job_id("job-0"),
            reason: WorkerStopReason::Cancelled,
        })
        .unwrap();
    assert_eq!(manager.state(&job_id("job-0")), Some(&DownloadJobState::Cancelled));
    assert!(!manager.drain_events().contains(&DownloadEvent::PlanFailed));
}

#[test]
fn completing_every_job_completes_the_plan() {
    let mut manager = manager_with_jobs(2);
    let started = manager.schedule_ready_jobs();
    assert_eq!(started.len(), 2);
    for index in 0..2 {
        manager
            .apply_worker_report(WorkerReport::Completed {
                id: job_id(format!("job-{index}")),
            })
            .unwrap();
    }
    let events = manager.drain_events();
    assert_eq!(events.last(), Some(&DownloadEvent::PlanCompleted));
    assert_eq!(manager.terminal_state(), Some(PlanTerminalState::Completed));
}

#[test]
fn reports_from_inactive_jobs_change_nothing() {
    let mut manager = manager_with_jobs(1);
    let id = job_id("job-0");
    let _ = manager.drain_events();
    manager
        .apply_worker_report(WorkerReport::Progress {
            id: id.clone(),
            downloaded: 10,
            total: Some(20),
            at_ms: 0,
        })
        .unwrap();
    manager
        .apply_worker_report(WorkerReport::Completed { id: id.clone() })
        .unwrap();
    assert_eq!(manager.state(&id), Some(&DownloadJobState::Pending));
    assert!(manager.drain_events().is_empty());
}

#[test]
fn failures_exhaust_attempts_then_fail_the_plan() {
    let mut manager = manager_with_jobs(1);
    let id = job_id("job-0");
    for _ in 0..3 {
        let started = manager.schedule_ready_jobs();
        assert_eq!(started.len(), 1);
        manager
            .apply_worker_report(WorkerReport::Failed {
                id: id.clone(),
                error: "boom".to_string(),
                retryable: true,
            })
            .unwrap();
    }
    assert_eq!(
        manager.state(&id),
        Some(&DownloadJobState::Failed {
            attempts: 3,
            error: "boom".to_string(),
        })
    );
    let events = manager.drain_events();
    assert!(events.contains(&DownloadEvent::JobFailed {
        id: id.clone(),
        error: "boom".to_string(),
    }));
    assert_eq!(events.last(), Some(&DownloadEvent::PlanFailed));

    manager.apply_command(DownloadCommand::RetryJob(id.clone())).unwrap();
    assert_eq!(manager.state(&id), Some(&DownloadJobState::Pending));
    assert_eq!(manager.terminal_state(), None);
    assert_eq!(
        manager.drain_events(),
        vec![DownloadEvent::JobRetryScheduled { id, attempt: 4 }]
    );
}

#[test]
fn progress_of_a_running_job_is_reported() {
    let mut manager = manager_with_jobs(1);
    let id = job_id("job-0");
    let _ = manager.schedule_ready_jobs();
    let _ = manager.drain_events();
    manager
        .apply_worker_report(WorkerReport::Progress {
            id: id.clone(),
            downloaded: 5,
            total: None,
            at_ms: 1_000,
        })
        .unwrap();
    assert_eq!(
        manager.drain_events(),
        vec![DownloadEvent::JobProgress {
            id,
            downloaded: 5,
            total: None,
        }]
    );
}

#[test]
fn config_errors_come_in_check_order() {
    let base = DownloadManagerConfig::default();
    assert_eq!(base.validate(), Ok(()));

    let mut c = base.clone();
    c.concurrency.global_limit = 0;
    assert_eq!(c.validate(), Err(DownloadConfigError::ZeroGlobalConcurrency));
    let mut c = base.clone();
    c.concurrency.per_host_limit = 0;
    assert_eq!(c.validate(), Err(DownloadConfigError::ZeroPerHostConcurrency));
    let mut c = base.clone();
    c.concurrency.queue_capacity = 0;
    assert_eq!(c.validate(), Err(DownloadConfigError::ZeroQueueCapacity));
    let mut c = base.clone();
    c.retry.max_attempts = 0;
    assert_eq!(c.validate(), Err(DownloadConfigError::ZeroRetryAttempts));
    let mut c = base.clone();
    c.events.event_buffer = 0;
    assert_eq!(c.validate(), Err(DownloadConfigError::ZeroEventBuffer));
    let mut c = base.clone();
    c.storage.temp_suffix = String::new();
    assert_eq!(c.validate(), Err(DownloadConfigError::EmptyTempSuffix));
    let mut c = base.clone();
    c.storage.metadata_suffix = String::new();
    assert_eq!(c.validate(), Err(DownloadConfigError::EmptyMetadataSuffix));
}

#[test]
fn default_config_values() {
    let c = DownloadManagerConfig::default();
    assert_eq!(c.concurrency.global_limit, 16);
    assert_eq!(c.concurrency.per_host_limit, 6);
    assert_eq!(c.concurrency.queue_capacity, 1024);
    assert_eq!(c.retry.max_attempts, 3);
    assert_eq!(c.retry.initial_backoff, std::time::Duration::from_millis(300));
    assert_eq!(c.retry.max_backoff, std::time::Duration::from_secs(5));
    assert_eq!(c.resume.min_size, 1024 * 1024);
    assert_eq!(c.events.progress_interval, std::time::Duration::from_millis(100));
    assert_eq!(c.events.min_progress_bytes, 64 * 1024);
    assert_eq!(c.events.event_buffer, 4096);
    assert_eq!(c.storage.temp_suffix, ".part");
    assert_eq!(c.storage.metadata_suffix, ".part.json");
    assert_eq!(c.timeouts.request_timeout, std::time::Duration::from_secs(60));
    assert_eq!(c.timeouts.connect_timeout, std::time::Duration::from_secs(10));
    assert_eq!(c.timeouts.idle_timeout, std::time::Duration::from_secs(30));
}

#[test]
fn blank_ids_and_urls_are_refused() {
    assert_eq!(
        DownloadJobId::new(" \t".to_string()),
        Err(DownloadPlanError::EmptyJobId)
    );
    assert_eq!(
        DownloadUrl::new(String::new()),
        Err(DownloadPlanError::EmptyUrl)
    );
    assert_eq!(job_id(" a ").as_str(), " a ");
}

#[test]
fn duplicate_error_names_the_repeated_id() {
    let result = DownloadPlan::new(vec![
        job(job_id("x")),
        job(job_id("y")),
        job(job_id("y")),
        job(job_id("x")),
    ]);
    assert_eq!(result, Err(DownloadPlanError::DuplicateJobId { id: job_id("y") }));
}

#[derive(Default)]
struct RecordingBackend {
    started: Vec<String>,
    stopped: Vec<(String, WorkerStopReason)>,
    fail_start: bool,
}

impl DownloadBackend for RecordingBackend {
    fn start_job(&mut self, job: DownloadJobSpec) -> Result<(), DownloadBackendError> {
        if self.fail_start {
            return Err(DownloadBackendError::StartJob {
                id: job.id,
                message: "refused".to_string(),
            });
        }
        self.started.push(job.id.as_str().to_string());
        Ok(())
    }

    fn stop_worker(
        &mut self,
        id: &DownloadJobId,
        reason: WorkerStopReason,
    ) -> Result<(), DownloadBackendError> {
        self.stopped.push((id.as_str().to_string(), reason));
        Ok(())
    }
}

#[test]
fn service_schedules_and_stops_through_the_backend() {
    let plan = DownloadPlan::new(vec![job(job_id("job-0")), job(job_id("job-1"))]).unwrap();
    let mut service =
        DownloadService::new(plan, DownloadManagerConfig::default(), RecordingBackend::default())
            .unwrap();
    service.schedule_ready_jobs().unwrap();
    assert_eq!(running_states(service.manager()), 2);
    service
        .apply_command(DownloadCommand::PauseJob(job_id("job-1")))
        .unwrap();
    assert!(matches!(
        service.manager().state(&job_id("job-1")),
        Some(DownloadJobState::Pausing { .. })
    ));
    assert!(matches!(
        service.apply_command(DownloadCommand::PauseJob(job_id("nope"))),
        Err(DownloadServiceError::Manager(DownloadManagerError::UnknownJob { .. }))
    ));
}

#[test]
fn service_reports_backend_failures() {
    let plan = DownloadPlan::new(vec![job(job_id("job-0"))]).unwrap();
    let backend = RecordingBackend {
        fail_start: true,
        ..RecordingBackend::default()
    };
    let mut service = DownloadService::new(plan, DownloadManagerConfig::default(), backend).unwrap();
    assert!(matches!(
        service.schedule_ready_jobs(),
        Err(DownloadServiceError::Backend(DownloadBackendError::StartJob { .. }))
    ));
}

#[test]
fn service_loop_publishes_events_in_order() {
    let plan = DownloadPlan::new(vec![job(job_id("job-0"))]).unwrap();
    let (mut service_loop, handle, events) = DownloadServiceLoop::new(
        plan,
        DownloadManagerConfig::default(),
        RecordingBackend::default(),
    )
    .unwrap();
    assert!(!service_loop.is_started());
    service_loop.start().unwrap();
    assert!(service_loop.is_started());
    assert_eq!(
        events.next_event(),
        Some(DownloadEvent::JobQueued { id: job_id("job-0") })
    );
    assert_eq!(
        events.next_event(),
        Some(DownloadEvent::JobStarted {
            id: job_id("job-0"),
            attempt: 1,
        })
    );
    assert_eq!(events.next_event(), None);

    handle
        .send_worker_report(WorkerReport::Completed { id: job_id("job-0") })
        .unwrap();
    let input = service_loop.next_input().unwrap();
    assert_eq!(
        input,
        DownloadServiceInput::WorkerReport(WorkerReport::Completed { id: job_id("job-0") })
    );
    service_loop.apply_input(input).unwrap();
    assert!(service_loop.next_input().is_none());
    assert_eq!(
        events.next_event(),
        Some(DownloadEvent::JobCompleted { id: job_id("job-0") })
    );
    assert_eq!(events.next_event(), Some(DownloadEvent::PlanCompleted));
    assert!(events.try_recv().is_err());
}

#[test]
fn service_loop_runs_until_idle_and_drains_events() {
    let plan = DownloadPlan::new(vec![job(job_id("job-0")), job(job_id("job-1"))]).unwrap();
    let (mut service_loop, handle, events) = DownloadServiceLoop::new(
        plan,
        DownloadManagerConfig::default(),
        RecordingBackend::default(),
    )
    .unwrap();
    service_loop.start().unwrap();
    assert_eq!(events.drain_available().len(), 4);

    handle
        .send_worker_report(WorkerReport::Completed { id: job_id("job-0") })
        .unwrap();
    handle
        .send_worker_report(WorkerReport::Completed { id: job_id("job-1") })
        .unwrap();
    assert_eq!(service_loop.run_until_idle().unwrap(), 2);
    assert_eq!(service_loop.run_until_idle().unwrap(), 0);
    assert_eq!(
        events.drain_available(),
        vec![
            DownloadEvent::JobCompleted { id: job_id("job-0") },
            DownloadEvent::JobCompleted { id: job_id("job-1") },
            DownloadEvent::PlanCompleted,
        ]
    );
    assert!(events.drain_available().is_empty());
}

#[test]
fn service_loop_run_stops_at_a_refused_input() {
    let plan = DownloadPlan::new(vec![job(job_id("job-0"))]).unwrap();
    let (mut service_loop, handle, _events) = DownloadServiceLoop::new(
        plan,
        DownloadManagerConfig::default(),
        RecordingBackend::default(),
    )
    .unwrap();
    service_loop.start().unwrap();
    handle
        .send_command(DownloadCommand::PauseJob(job_id("missing")))
        .unwrap();
    assert!(matches!(
        service_loop.run_until_idle(),
        Err(DownloadServiceError::Manager(DownloadManagerError::UnknownJob { .. }))
    ));
}

fn progress(id: &DownloadJobId, downloaded: u64, at_ms: u64) -> WorkerReport {
    WorkerReport::Progress {
        id: id.clone(),
        downloaded,
        total: None,
        at_ms,
    }
}

fn progress_events(manager: &mut DownloadManagerState) -> Vec<u64> {
    manager
        .drain_events()
        .into_iter()
        .filter_map(|event| match event {
            DownloadEvent::JobProgress { downloaded, .. } => Some(downloaded),
            _ => None,
        })
        .collect()
}

#[test]
fn progress_events_are_throttled_by_time_and_bytes() {
    // Defaults: every 100 ms, or every 64 KiB.
    let mut manager = manager_with_jobs(1);
    let id = job_id("job-0");
    let _ = manager.schedule_ready_jobs();
    let _ = manager.drain_events();

    manager.apply_worker_report(progress(&id, 1, 1_000)).unwrap();
    // Too soon and too few bytes: not told.
    manager.apply_worker_report(progress(&id, 2, 1_050)).unwrap();
    // 100 ms after the last event: told.
    manager.apply_worker_report(progress(&id, 3, 1_100)).unwrap();
    // Too soon, but 64 KiB more: told.
    manager.apply_worker_report(progress(&id, 3 + 64 * 1024, 1_101)).unwrap();
    // Too soon and too few bytes again: not told.
    manager.apply_worker_report(progress(&id, 4 + 64 * 1024, 1_150)).unwrap();
    assert_eq!(progress_events(&mut manager), vec![1, 3, 3 + 64 * 1024]);
}

#[test]
fn each_job_is_throttled_on_its_own() {
    let mut manager = manager_with_jobs(2);
    let _ = manager.schedule_ready_jobs();
    let _ = manager.drain_events();
    manager.apply_worker_report(progress(&job_id("job-0"), 1, 1_000)).unwrap();
    manager.apply_worker_report(progress(&job_id("job-1"), 1, 1_001)).unwrap();
    assert_eq!(progress_events(&mut manager), vec![1, 1]);
}

struct LoggingBackend {
    log: std::rc::Rc<std::cell::RefCell<Vec<(String, bool)>>>,
    refuse_at: usize,
}

impl DownloadBackend for LoggingBackend {
    fn start_job(&mut self, job: DownloadJobSpec) -> Result<(), DownloadBackendError> {
        let accepted = self.log.borrow().len() != self.refuse_at;
        self.log
            .borrow_mut()
            .push((format!("start {}", job.id.as_str()), accepted));
        if accepted {
            Ok(())
        } else {
            Err(DownloadBackendError::StartJob {
                id: job.id,
                message: "refused".to_string(),
            })
        }
    }

    fn stop_worker(
        &mut self,
        id: &DownloadJobId,
        _reason: WorkerStopReason,
    ) -> Result<(), DownloadBackendError> {
        let accepted = self.log.borrow().len() != self.refuse_at;
        self.log
            .borrow_mut()
            .push((format!("stop {}", id.as_str()), accepted));
        if accepted {
            Ok(())
        } else {
            Err(DownloadBackendError::StopWorker {
                id: id.clone(),
                message: "refused".to_string(),
            })
        }
    }
}

#[test]
fn service_hands_actions_in_order_and_stops_at_the_first_refusal() {
    let plan = DownloadPlan::new(vec![
        job(job_id("job-0")),
        job(job_id("job-1")),
        job(job_id("job-2")),
    ])
    .unwrap();
    let log = std::rc::Rc::new(std::cell::RefCell::new(Vec::new()));
    let backend = LoggingBackend {
        log: log.clone(),
        refuse_at: 1,
    };
    let mut service = DownloadService::new(plan, DownloadManagerConfig::default(), backend).unwrap();
    assert!(matches!(
        service.schedule_ready_jobs(),
        Err(DownloadServiceError::Backend(DownloadBackendError::StartJob { .. }))
    ));
    assert_eq!(
        *log.borrow(),
        vec![("start job-0".to_string(), true), ("start job-1".to_string(), false)]
    );
    // The manager keeps every job it scheduled running.
    assert_eq!(running_states(service.manager()), 3);
}

#[test]
fn service_stops_workers_before_scheduling_again() {
    let plan = DownloadPlan::new(vec![job(job_id("job-0")), job(job_id("job-1"))]).unwrap();
    let log = std::rc::Rc::new(std::cell::RefCell::new(Vec::new()));
    let backend = LoggingBackend {
        log: log.clone(),
        refuse_at: usize::MAX,
    };
    let config = config_with_global_limit(1);
    let mut service = DownloadService::new(plan, config, backend).unwrap();
    service.schedule_ready_jobs().unwrap();
    service.apply_command(DownloadCommand::CancelJob(job_id("job-0"))).unwrap();
    service
        .apply_worker_report(WorkerReport::Stopped {
            id: job_id("job-0"),
            reason: WorkerStopReason::Cancelled,
        })
        .unwrap();
    assert_eq!(
        *log.borrow(),
        vec![
            ("start job-0".to_string(), true),
            ("stop job-0".to_string(), true),
            ("start job-1".to_string(), true),
        ]
    );
}

#[test]
fn loop_start_with_nothing_to_schedule_succeeds() {
    let plan = DownloadPlan::new(vec![]).unwrap();
    let (mut service_loop, _handle, events) = DownloadServiceLoop::new(
        plan,
        DownloadManagerConfig::default(),
        RecordingBackend::default(),
    )
    .unwrap();
    assert!(service_loop.start().is_ok());
    assert!(service_loop.is_started());
    assert!(events.drain_available().is_empty());
    assert!(service_loop.start().is_ok());
}
