use gity::daemon::Daemon;
use gity::ipc::{DaemonCommand, DaemonNotification, JobEventKind, JobKind, Timestamp};
use gity::logbook::LogBook;
use gity::metrics::MetricsRegistry;
use gity::runtime::{
    check_reconciliation_needed, finish_job, needs_reconciliation, oneshot_done, process_watch_event,
    start_job, IdleScheduleConfig, ONESHOT_TIMEOUT_SECS, IdleScheduler, RepoIdleState,
};
use gity::storage::{InMemoryMetadataStore, MetadataStore};
use gity::watch::{WatchEvent, WatchEventKind};

const SEC: u64 = 1_000_000_000;

fn t(secs: u64) -> Timestamp {
    Timestamp { secs, nanos: 0 }
}

fn daemon_with(repo: &str) -> Daemon<InMemoryMetadataStore> {
    let mut store = InMemoryMetadataStore::new();
    store.register_repo(repo.to_string(), t(1)).unwrap();
    Daemon::with_components(store, MetricsRegistry::default(), true, None, LogBook::new(200))
}

#[test]
fn idle_config_defaults() {
    let cfg = IdleScheduleConfig::default();
    assert_eq!(cfg.prefetch_idle_secs, 300);
    assert_eq!(cfg.maintenance_idle_secs, 600);
    assert!(cfg.enabled);
}

#[test]
fn idle_state_tracks_activity() {
    let mut st = RepoIdleState::new(10 * SEC);
    assert_eq!(st.idle_duration(25 * SEC), 15 * SEC);
    assert_eq!(st.idle_duration(5 * SEC), 0);
    st.prefetch_scheduled = true;
    st.touch(30 * SEC);
    assert_eq!(st, RepoIdleState::new(30 * SEC));
}

#[test]
fn idle_repositories_get_prefetch_then_maintenance_once() {
    let repo = "/r".to_string();
    let mut daemon = daemon_with(&repo);
    let mut idle = IdleScheduler::new(IdleScheduleConfig::default());
    let repos = daemon.repo_paths();

    // First sighting: the repository counts as active now.
    idle.check_idle_schedules(&mut daemon, &repos, 0, t(100));
    assert!(daemon.next_job().is_none());

    idle.check_idle_schedules(&mut daemon, &repos, 300 * SEC, t(400));
    let job = daemon.next_job().expect("prefetch queued");
    assert_eq!(job.kind, JobKind::Prefetch);
    assert!(daemon.next_job().is_none());

    // Not again during the same idle period.
    idle.check_idle_schedules(&mut daemon, &repos, 500 * SEC, t(600));
    assert!(daemon.next_job().is_none());

    idle.check_idle_schedules(&mut daemon, &repos, 600 * SEC, t(700));
    assert_eq!(daemon.next_job().expect("maintenance queued").kind, JobKind::Maintenance);
    idle.check_idle_schedules(&mut daemon, &repos, 10_000 * SEC, t(20_000));
    assert!(daemon.next_job().is_none());

    // Activity starts a new idle period.
    idle.touch_repo_activity(&repo, 10_000 * SEC);
    idle.check_idle_schedules(&mut daemon, &repos, 10_300 * SEC, t(20_300));
    assert_eq!(daemon.next_job().expect("prefetch again").kind, JobKind::Prefetch);

    let notes = daemon.take_notifications();
    let logged: Vec<String> = notes
        .iter()
        .filter_map(|n| match n {
            DaemonNotification::Log(e) => Some(e.message.clone()),
            _ => None,
        })
        .collect();
    assert_eq!(
        logged,
        vec![
            "idle prefetch scheduled".to_string(),
            "idle maintenance scheduled".to_string(),
            "idle prefetch scheduled".to_string(),
        ]
    );
}

#[test]
fn disabled_idle_scheduling_does_nothing() {
    let mut daemon = daemon_with("/r");
    let mut idle = IdleScheduler::new(IdleScheduleConfig {
        prefetch_idle_secs: 0,
        maintenance_idle_secs: 0,
        enabled: false,
    });
    let repos = daemon.repo_paths();
    idle.check_idle_schedules(&mut daemon, &repos, 1_000 * SEC, t(5));
    assert!(daemon.next_job().is_none());
}

#[test]
fn reconciliation_after_downtime() {
    assert!(!needs_reconciliation(None, t(10_000)));
    assert!(!needs_reconciliation(Some(t(100)), t(400)));
    assert!(needs_reconciliation(Some(t(100)), Timestamp { secs: 400, nanos: 1 }));
    assert!(!needs_reconciliation(Some(t(500)), t(100)));

    let repo = "/r".to_string();
    let mut daemon = daemon_with(&repo);
    daemon.handle_watch_event(
        &repo,
        &WatchEvent::new("/r/a.txt".to_string(), WatchEventKind::Modified),
        t(1_000),
    );
    let mut daemon_drained = daemon;
    let _ = daemon_drained.handle(
        DaemonCommand::FsMonitorSnapshot { repo_path: repo.clone(), last_seen_generation: None },
        t(1_001),
        0,
    );
    let repos = daemon_drained.repo_paths();
    check_reconciliation_needed(&mut daemon_drained, &repos, t(2_000));
    let meta = daemon_drained.repo_metadata(&repo).unwrap();
    assert_eq!(meta.needs_reconciliation, Some(true));
    assert_eq!(meta.dirty_paths, vec![".".to_string()]);
}

#[test]
fn watch_events_are_booked_announced_and_logged() {
    let repo = "/r".to_string();
    let mut daemon = daemon_with(&repo);
    let mut idle = IdleScheduler::new(IdleScheduleConfig::default());
    let event = WatchEvent::new("/r/src/x.rs".to_string(), WatchEventKind::Created);
    process_watch_event(&mut daemon, &mut idle, &repo, &event, 5 * SEC, t(50));
    let meta = daemon.repo_metadata(&repo).unwrap();
    assert_eq!(meta.dirty_paths, vec!["src/x.rs".to_string()]);
    assert_eq!(meta.last_event, Some(t(50)));
    let notes = daemon.take_notifications();
    assert_eq!(notes.len(), 2);
    match &notes[0] {
        DaemonNotification::WatchEvent(w) => assert_eq!(w.path, "src/x.rs"),
        other => panic!("unexpected notification: {other:?}"),
    }
    match &notes[1] {
        DaemonNotification::Log(e) => assert_eq!(e.message, "watch Created /r/src/x.rs"),
        other => panic!("unexpected notification: {other:?}"),
    }
}

#[test]
fn jobs_are_started_and_finished() {
    let repo = "/r".to_string();
    let mut daemon = daemon_with(&repo);
    daemon.handle(DaemonCommand::QueueJob { repo_path: repo.clone(), job: JobKind::Prefetch, immediate: false }, t(2), 0);
    let job = daemon.next_job().unwrap();
    let _ = daemon.take_notifications();
    start_job(&mut daemon, &job, t(3));
    finish_job(&mut daemon, &job, Err("exit status 1".to_string()), 1_500_000_000, t(4));
    let counts = daemon.metrics_snapshot().jobs.get(JobKind::Prefetch).unwrap();
    assert_eq!((counts.spawned, counts.completed, counts.failed), (1, 0, 1));
    let meta = daemon.repo_metadata(&repo).unwrap();
    assert_eq!(meta.pending_jobs, 0);
    assert_eq!(meta.last_event, Some(t(4)));
    let notes = daemon.take_notifications();
    let kinds: Vec<String> = notes
        .iter()
        .map(|n| match n {
            DaemonNotification::Log(e) => format!("log {}", e.message),
            DaemonNotification::JobEvent(e) => format!("job {:?}", e.kind),
            other => format!("{other:?}"),
        })
        .collect();
    assert_eq!(
        kinds,
        vec![
            "log job Prefetch started".to_string(),
            format!("job {:?}", JobEventKind::Started),
            format!("job {:?}", JobEventKind::Failed),
            "log job Prefetch failed after 1.5s: exit status 1".to_string(),
            "log job Prefetch failed after 1.5s: exit status 1".to_string(),
        ]
    );
}

#[test]
fn watcher_plan_starts_new_and_stops_gone() {
    let desired = vec!["/a".to_string(), "/b".to_string(), "/c".to_string()];
    let active = vec!["/c".to_string(), "/z".to_string(), "/a".to_string()];
    let plan = gity::runtime::plan_watchers(&desired, &active);
    assert_eq!(plan.start, vec!["/b".to_string()]);
    assert_eq!(plan.stop, vec!["/z".to_string()]);
    let none = gity::runtime::plan_watchers(&desired, &desired);
    assert!(none.start.is_empty() && none.stop.is_empty());
}

#[test]
fn oneshot_stops_when_idle_or_after_timeout() {
    assert!(oneshot_done(0, 0));
    assert!(!oneshot_done(2, 29_999_999_999));
    assert!(oneshot_done(2, 30_000_000_000));
    assert_eq!(ONESHOT_TIMEOUT_SECS, 30);
}
