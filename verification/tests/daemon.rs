use gity::daemon::{filter_working_tree_paths, Daemon, HandleStep};
use gity::ipc::{
    DaemonCommand, DaemonNotification, DaemonResponse, JobEventKind, JobKind, Timestamp,
};
use gity::logbook::LogBook;
use gity::metrics::{JobCounter, MetricsRegistry};
use gity::storage::InMemoryMetadataStore;
use gity::watch::{WatchEvent, WatchEventKind};

fn t(secs: u64) -> Timestamp {
    Timestamp { secs, nanos: 0 }
}

fn reply(step: HandleStep) -> DaemonResponse {
    match step {
        HandleStep::Reply(r) => r,
        other => panic!("expected a reply, got {other:?}"),
    }
}

/// Registers `repo` and completes the configuration step as Git would.
fn register(daemon: &mut Daemon<InMemoryMetadataStore>, repo: &str) -> DaemonResponse {
    match daemon.handle(DaemonCommand::RegisterRepo { repo_path: repo.to_string() }, t(1), 0) {
        HandleStep::ConfigureRepo { .. } => daemon.finish_configure(Ok(())),
        HandleStep::Reply(r) => r,
        other => panic!("unexpected step: {other:?}"),
    }
}

#[test]
fn scheduler_drops_completed_jobs() {
    let mut daemon = Daemon::new(InMemoryMetadataStore::new());
    let repo = "/tmp/repo";
    assert!(matches!(register(&mut daemon, repo), DaemonResponse::Ack(_)));
    daemon.handle(
        DaemonCommand::QueueJob { repo_path: repo.to_string(), job: JobKind::Prefetch, immediate: false },
        t(2),
        0,
    );
    if let Some(job) = daemon.next_job() {
        daemon.mark_job_completed(&job, t(3));
    }
    match reply(daemon.handle(DaemonCommand::ListRepos, t(4), 0)) {
        DaemonResponse::RepoList(entries) => assert_eq!(entries[0].pending_jobs, 0),
        other => panic!("unexpected response: {other:?}"),
    }
}

#[test]
fn metrics_snapshot_reflects_registry() {
    let mut metrics = MetricsRegistry::default();
    metrics.record_job_spawned(JobKind::Prefetch);
    metrics.record_job_failed(JobKind::Prefetch);
    metrics.record_job_completed(JobKind::Maintenance);
    let mut daemon = Daemon::with_metrics(InMemoryMetadataStore::new(), metrics);

    assert!(matches!(
        daemon.handle(DaemonCommand::Metrics, t(1), 5),
        HandleStep::CollectResources
    ));
    match daemon.finish_metrics(5, 0, 0) {
        DaemonResponse::Metrics(snapshot) => {
            let prefetch = snapshot.jobs.get(JobKind::Prefetch).unwrap();
            assert_eq!(prefetch.spawned, 1);
            assert_eq!(prefetch.failed, 1);
            assert_eq!(prefetch.completed, 0);
            let maintenance = snapshot.jobs.get(JobKind::Maintenance).unwrap();
            assert_eq!(maintenance.completed, 1);
            assert!(!snapshot.repos.is_empty() || snapshot.global.pending_jobs == 0);
        }
        other => panic!("unexpected response: {other:?}"),
    }
}

#[test]
fn counters_increment_and_snapshot() {
    let mut metrics = MetricsRegistry::default();
    metrics.record_job_spawned(JobKind::Prefetch);
    metrics.record_job_completed(JobKind::Prefetch);
    metrics.record_job_failed(JobKind::Prefetch);
    metrics.record_job_spawned(JobKind::Maintenance);

    let snapshot = metrics.snapshot();
    let prefetch = snapshot.jobs.get(JobKind::Prefetch).unwrap();
    assert_eq!(prefetch.spawned, 1);
    assert_eq!(prefetch.completed, 1);
    assert_eq!(prefetch.failed, 1);

    let maintenance = snapshot.jobs.get(JobKind::Maintenance).unwrap();
    assert_eq!(maintenance.spawned, 1);
    assert_eq!(maintenance.completed, 0);
    assert_eq!(maintenance.failed, 0);
}

#[test]
fn fsmonitor_snapshot_returns_dirty_paths() {
    let mut daemon = Daemon::new(InMemoryMetadataStore::new());
    let repo = "/tmp/repo".to_string();
    assert!(matches!(register(&mut daemon, &repo), DaemonResponse::Ack(_)));
    daemon.handle_watch_event(
        &repo,
        &WatchEvent::new("/tmp/repo/file.txt".to_string(), WatchEventKind::Modified),
        t(2),
    );
    let response = reply(daemon.handle(
        DaemonCommand::FsMonitorSnapshot { repo_path: repo.clone(), last_seen_generation: None },
        t(3),
        0,
    ));
    match response {
        DaemonResponse::FsMonitorSnapshot(snapshot) => {
            assert_eq!(snapshot.repo_path, repo);
            assert!(snapshot.dirty_paths.contains(&"file.txt".to_string()));
            assert!(snapshot.generation > 0);
        }
        other => panic!("unexpected response: {other:?}"),
    }
}

#[test]
fn status_token_roundtrip_reports_unchanged() {
    let mut daemon = Daemon::new(InMemoryMetadataStore::new());
    let repo = "/r".to_string();
    register(&mut daemon, &repo);
    daemon.handle_watch_event(
        &repo,
        &WatchEvent::new("/r/src/lib.rs".to_string(), WatchEventKind::Created),
        t(2),
    );
    let generation = match daemon.handle(
        DaemonCommand::Status { repo_path: repo.clone(), known_generation: None },
        t(3),
        0,
    ) {
        HandleStep::WorkingTreeStatus { repo_path, paths, generation } => {
            assert_eq!(repo_path, repo);
            assert_eq!(paths, vec!["src/lib.rs".to_string()]);
            let answer = daemon.finish_status(repo_path, generation, Ok(paths));
            assert!(matches!(answer, DaemonResponse::RepoStatus(_)));
            generation
        }
        other => panic!("unexpected step: {other:?}"),
    };
    // One step for the filesystem event, one for the status answer.
    assert_eq!(generation, 2);
    let again = reply(daemon.handle(
        DaemonCommand::Status { repo_path: repo.clone(), known_generation: Some(generation) },
        t(4),
        0,
    ));
    assert_eq!(
        again,
        DaemonResponse::RepoStatusUnchanged { repo_path: repo.clone(), generation }
    );
}

#[test]
fn unregistered_repository_is_reported() {
    let mut daemon = Daemon::new(InMemoryMetadataStore::new());
    let repo = "/r".to_string();
    register(&mut daemon, &repo);
    match daemon.handle(DaemonCommand::UnregisterRepo { repo_path: repo.clone() }, t(2), 0) {
        HandleStep::ClearRepoConfig { repo_path } => assert_eq!(repo_path, repo),
        other => panic!("unexpected step: {other:?}"),
    }
    assert_eq!(
        daemon.finish_clear(Err("locked".to_string())),
        DaemonResponse::Error("failed to clear repo config: locked".to_string())
    );
    let answer = reply(daemon.handle(
        DaemonCommand::Status { repo_path: repo.clone(), known_generation: None },
        t(3),
        0,
    ));
    assert_eq!(answer, DaemonResponse::Error("repository not registered: /r".to_string()));
}

#[test]
fn queued_jobs_are_acknowledged_and_announced() {
    let mut daemon = Daemon::with_components(
        InMemoryMetadataStore::new(),
        MetricsRegistry::default(),
        true,
        Some("gity fsmonitor-helper".to_string()),
        LogBook::new(200),
    );
    let repo = "/r".to_string();
    match daemon.handle(DaemonCommand::RegisterRepo { repo_path: repo.clone() }, t(1), 0) {
        HandleStep::ConfigureRepo { fsmonitor_helper, .. } => {
            assert_eq!(fsmonitor_helper.as_deref(), Some("gity fsmonitor-helper"));
        }
        other => panic!("unexpected step: {other:?}"),
    }
    let answer = reply(daemon.handle(
        DaemonCommand::QueueJob { repo_path: repo.clone(), job: JobKind::Maintenance, immediate: false },
        t(2),
        0,
    ));
    assert_eq!(answer, DaemonResponse::Ack(gity::ipc::Ack::new("queued Maintenance".to_string())));
    let notes = daemon.take_notifications();
    assert_eq!(notes.len(), 1);
    match &notes[0] {
        DaemonNotification::JobEvent(e) => {
            assert_eq!(e.kind, JobEventKind::Queued);
            assert_eq!(e.job, JobKind::Maintenance);
        }
        other => panic!("unexpected notification: {other:?}"),
    }
    assert!(daemon.take_notifications().is_empty());
    match reply(daemon.handle(DaemonCommand::RepoHealth { repo_path: repo.clone() }, t(3), 0)) {
        DaemonResponse::RepoHealth(h) => assert_eq!(h.pending_jobs, 1),
        other => panic!("unexpected response: {other:?}"),
    }
    match reply(daemon.handle(DaemonCommand::HealthCheck, t(3), 77)) {
        DaemonResponse::Health(h) => {
            assert_eq!(h.repo_count, 1);
            assert_eq!(h.pending_jobs, 1);
            assert_eq!(h.uptime_seconds, 77);
        }
        other => panic!("unexpected response: {other:?}"),
    }
}

#[test]
fn logs_come_back_newest_last() {
    let mut daemon = Daemon::with_components(
        InMemoryMetadataStore::new(),
        MetricsRegistry::default(),
        false,
        None,
        LogBook::new(2),
    );
    let repo = "/r".to_string();
    match daemon.handle(DaemonCommand::FetchLogs { repo_path: repo.clone(), limit: 5 }, t(1), 0) {
        HandleStep::LoadPersistedLogs { limit, .. } => assert_eq!(limit, 5),
        other => panic!("unexpected step: {other:?}"),
    }
    daemon.record_log(&repo, "one".to_string(), t(1));
    daemon.record_log(&repo, "two".to_string(), t(2));
    daemon.record_log(&repo, "three".to_string(), t(3));
    match reply(daemon.handle(DaemonCommand::FetchLogs { repo_path: repo.clone(), limit: 5 }, t(4), 0)) {
        DaemonResponse::Logs(entries) => {
            let messages: Vec<&str> = entries.iter().map(|e| e.message.as_str()).collect();
            assert_eq!(messages, vec!["two", "three"]);
        }
        other => panic!("unexpected response: {other:?}"),
    }
}

#[test]
fn git_internal_paths_are_not_reported_to_fsmonitor() {
    let filtered = filter_working_tree_paths(vec![
        ".git/index".to_string(),
        "src/main.rs".to_string(),
        "sub/.git/HEAD".to_string(),
        ".github/workflow.yml".to_string(),
    ]);
    assert_eq!(filtered, vec!["src/main.rs".to_string(), ".github/workflow.yml".to_string()]);
}

#[test]
fn job_counters_are_recorded_through_the_daemon() {
    let mut daemon = Daemon::new(InMemoryMetadataStore::new());
    assert!(daemon.can_record_job(JobKind::Prefetch, JobCounter::Spawned));
    daemon.record_job(JobKind::Prefetch, JobCounter::Spawned);
    let snapshot = daemon.metrics_snapshot();
    assert_eq!(snapshot.jobs.get(JobKind::Prefetch).unwrap().spawned, 1);
    assert!(snapshot.jobs.get(JobKind::Maintenance).is_none());
}

#[test]
fn watch_event_advances_generation() {
    let mut daemon = Daemon::new(InMemoryMetadataStore::new());
    let repo = "/tmp/demo".to_string();
    assert!(matches!(register(&mut daemon, &repo), DaemonResponse::Ack(_)));
    assert_eq!(daemon.repo_metadata(&repo).unwrap().generation, 0);
    daemon.handle_watch_event(
        &repo,
        &WatchEvent::new("/tmp/demo/file.txt".to_string(), WatchEventKind::Modified),
        t(2),
    );
    let meta = daemon.repo_metadata(&repo).unwrap();
    assert_eq!(meta.generation, 1);
    assert_eq!(meta.dirty_paths, vec!["file.txt".to_string()]);
    assert!(meta.last_event.is_some());
    daemon.handle_watch_event(
        &repo,
        &WatchEvent::new("/tmp/demo/other.txt".to_string(), WatchEventKind::Created),
        t(3),
    );
    assert_eq!(daemon.repo_metadata(&repo).unwrap().generation, 2);
}

#[test]
fn immediate_job_runs_before_queued_ones() {
    let mut daemon = Daemon::new(InMemoryMetadataStore::new());
    let repo = "/tmp/repo".to_string();
    assert!(matches!(register(&mut daemon, &repo), DaemonResponse::Ack(_)));
    for (job, immediate) in [(JobKind::Maintenance, false), (JobKind::Maintenance, false), (JobKind::Prefetch, true)] {
        let r = reply(daemon.handle(
            DaemonCommand::QueueJob { repo_path: repo.clone(), job, immediate },
            t(2),
            0,
        ));
        assert!(matches!(r, DaemonResponse::Ack(_)));
    }
    let first = daemon.next_job().expect("a job");
    assert_eq!(first.kind, JobKind::Prefetch);
    assert_eq!(daemon.next_job().expect("a job").kind, JobKind::Maintenance);
    assert_eq!(daemon.next_job().expect("a job").kind, JobKind::Maintenance);
    assert!(daemon.next_job().is_none());
}
