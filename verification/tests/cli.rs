use gity::cli::{
    format_bytes, format_fsmonitor_snapshot, format_health, format_logs, format_metrics,
    format_repo_health, format_repo_list, format_repo_status, format_response,
    is_windows_filesystem, resolve_status_decision, validated_path, Cli, CliAction, CliError,
    CliJobKind, Commands, DaemonCommands,
};
use gity::ipc::{
    Ack, DaemonCommand, DaemonError, DaemonHealth, DaemonMetrics, DaemonResponse,
    FsMonitorSnapshot, GlobalMetrics, JobCounters, JobKind, JobMetrics, LogEntry,
    RepoGeneration, RepoHealthDetail, RepoMetrics, RepoStatus, RepoStatusDetail, RepoSummary,
    Timestamp,
};

#[test]
fn cli_action_for_register() {
    // gitz register /tmp/demo
    let cli = Cli { command: Commands::Register { repo_path: "/tmp/demo".to_string() } };
    match cli.into_action() {
        CliAction::Rpc(DaemonCommand::RegisterRepo { repo_path }) => {
            assert_eq!(repo_path, "/tmp/demo");
        }
        other => panic!("unexpected action: {other:?}"),
    }
}

#[test]
fn cli_action_for_status() {
    // gitz status /tmp/demo
    let cli = Cli { command: Commands::Status { repo_path: "/tmp/demo".to_string() } };
    match cli.into_action() {
        CliAction::Rpc(DaemonCommand::Status { repo_path, known_generation }) => {
            assert_eq!(repo_path, "/tmp/demo");
            assert!(known_generation.is_none());
        }
        other => panic!("unexpected action: {other:?}"),
    }
}

#[test]
fn cli_action_for_list_with_stats() {
    // gitz list --stats
    let cli = Cli { command: Commands::List { stats: true } };
    match cli.into_action() {
        CliAction::List { stats } => assert!(stats),
        other => panic!("unexpected action: {other:?}"),
    }
}

#[test]
fn cli_action_for_daemon_metrics() {
    // gitz daemon metrics
    let cli = Cli { command: Commands::Daemon(DaemonCommands::Metrics) };
    match cli.into_action() {
        CliAction::Rpc(DaemonCommand::Metrics) => {}
        other => panic!("unexpected action: {other:?}"),
    }
}

#[test]
fn cli_action_for_events() {
    // gitz events
    let cli = Cli { command: Commands::Events };
    match cli.into_action() {
        CliAction::StreamEvents => {}
        other => panic!("unexpected action: {other:?}"),
    }
}

#[test]
fn cli_action_for_fsmonitor_helper() {
    // gitz fsmonitor-helper 2 123
    let cli = Cli {
        command: Commands::FsmonitorHelper {
            version: 2,
            token: Some("123".to_string()),
            repo: None,
        },
    };
    match cli.into_action() {
        CliAction::FsMonitorHelper { version, token, .. } => {
            assert_eq!(version, 2);
            assert_eq!(token.as_deref(), Some("123"));
        }
        other => panic!("unexpected action: {other:?}"),
    }
}

#[test]
fn cli_action_for_logs_follow() {
    // gitz logs /tmp/demo --follow --limit 5
    let cli = Cli {
        command: Commands::Logs { repo_path: "/tmp/demo".to_string(), follow: true, limit: 5 },
    };
    match cli.into_action() {
        CliAction::Logs { repo_path, follow, limit } => {
            assert_eq!(repo_path, "/tmp/demo");
            assert!(follow);
            assert_eq!(limit, 5);
        }
        other => panic!("unexpected action: {other:?}"),
    }
}

#[test]
fn cli_actions_for_jobs_and_daemon_control() {
    let prefetch = Cli {
        command: Commands::Prefetch { repo_path: "/r".to_string(), now: true },
    };
    assert!(matches!(
        prefetch.into_action(),
        CliAction::Rpc(DaemonCommand::QueueJob { job: JobKind::Prefetch, .. })
    ));
    let queue = Cli {
        command: Commands::Daemon(DaemonCommands::QueueJob {
            repo_path: "/r".to_string(),
            job: CliJobKind::Maintenance,
        }),
    };
    assert!(matches!(
        queue.into_action(),
        CliAction::Rpc(DaemonCommand::QueueJob { job: JobKind::Maintenance, .. })
    ));
    let changed = Cli {
        command: Commands::Changed { repo_path: "/r".to_string(), since: Some(4) },
    };
    assert!(matches!(
        changed.into_action(),
        CliAction::Rpc(DaemonCommand::FsMonitorSnapshot { last_seen_generation: Some(4), .. })
    ));
    let run = Cli { command: Commands::Daemon(DaemonCommands::Run) };
    assert!(matches!(run.into_action(), CliAction::RunDaemon));
    assert_eq!(JobKind::from(CliJobKind::Prefetch), JobKind::Prefetch);
}

#[test]
fn format_fsmonitor_snapshot_lists_paths() {
    let snapshot = FsMonitorSnapshot {
        repo_path: "/tmp/demo".to_string(),
        dirty_paths: vec!["a.txt".to_string(), "dir/b.txt".to_string()],
        generation: 3,
    };
    let text = format_fsmonitor_snapshot(&snapshot);
    assert!(text.contains("a.txt"));
    assert!(text.contains("dir/b.txt"));
    assert!(text.contains("generation 3"));
    assert_eq!(text, "/tmp/demo (generation 3):\n  a.txt\n  dir/b.txt");
}

#[test]
fn format_status_includes_dirty_paths() {
    let output = format_repo_status(&RepoStatusDetail {
        repo_path: "/tmp/demo".to_string(),
        dirty_paths: vec!["file.txt".to_string()],
        generation: 42,
    });
    assert!(output.contains("file.txt"));
    assert!(output.contains("generation 42"));
}

#[test]
fn format_status_of_clean_repo() {
    let output = format_repo_status(&RepoStatusDetail {
        repo_path: "/tmp/demo".to_string(),
        dirty_paths: vec![],
        generation: 0,
    });
    assert_eq!(output, "/tmp/demo: clean (generation 0)");
    let snapshot = FsMonitorSnapshot {
        repo_path: "/r".to_string(),
        dirty_paths: vec![],
        generation: 17,
    };
    assert_eq!(format_fsmonitor_snapshot(&snapshot), "/r: no changes (generation 17)");
}

#[test]
fn format_metrics_includes_counts() {
    let metrics = DaemonMetrics {
        jobs: JobCounters {
            prefetch: Some(JobMetrics { spawned: 3, completed: 2, failed: 1 }),
            maintenance: None,
        },
        global: GlobalMetrics {
            pending_jobs: 1,
            uptime_seconds: 2,
            cpu_percent_tenths: 125,
            rss_bytes: 2048,
        },
        repos: vec![RepoMetrics { repo_path: "/tmp/demo".to_string(), pending_jobs: 3 }],
    };
    let output = format_metrics(&metrics);
    assert!(output.contains("daemon: cpu=12.5%"));
    assert!(output.contains("prefetch: spawned=3, completed=2, failed=1"));
    assert!(output.contains("maintenance: spawned=0, completed=0, failed=0"));
    assert!(output.contains("/tmp/demo -> 3 pending"));
    assert_eq!(
        output,
        "daemon: cpu=12.5%, rss=2.0 KiB, uptime=2s, pending jobs=1\n\
         repo queue depth:\n  /tmp/demo -> 3 pending\n\
         job counters:\n  prefetch: spawned=3, completed=2, failed=1\n\
         \x20 maintenance: spawned=0, completed=0, failed=0"
    );
}

#[test]
fn format_health_lists_generations() {
    let health = DaemonHealth {
        repo_count: 2,
        pending_jobs: 1,
        uptime_seconds: 10,
        repo_generations: vec![
            RepoGeneration { repo_path: "/repo/a".to_string(), generation: 5 },
            RepoGeneration { repo_path: "/repo/b".to_string(), generation: 3 },
        ],
    };
    let output = format_health(&health);
    assert!(output.contains("repos: 2"));
    assert!(output.contains("/repo/a -> generation 5"));
    assert!(output.contains("/repo/b -> generation 3"));
}

#[test]
fn format_health_without_repositories() {
    let health = DaemonHealth {
        repo_count: 0,
        pending_jobs: 0,
        uptime_seconds: 1,
        repo_generations: vec![],
    };
    assert_eq!(format_health(&health), "repos: 0, pending jobs: 0, uptime: 1s");
}

#[test]
fn prints_repo_list() {
    let list = vec![RepoSummary {
        repo_path: "/tmp/demo".to_string(),
        status: RepoStatus::Idle,
        pending_jobs: 1,
        last_event: None,
        generation: 0,
    }];
    let output = format_response(&DaemonResponse::RepoList(list));
    assert!(output.contains("/tmp/demo"));
    assert!(output.contains("[1 jobs, status idle, gen 0]"));
    assert_eq!(format_repo_list(&vec![]), "no repositories registered");
}

#[test]
fn format_repo_health_report() {
    let detail = RepoHealthDetail {
        repo_path: "/r".to_string(),
        generation: 4,
        pending_jobs: 2,
        watcher_active: true,
        last_event: Some(Timestamp { secs: 99, nanos: 10 }),
        dirty_path_count: 1,
        sled_ok: true,
        needs_reconciliation: false,
        throttling_active: false,
        next_scheduled_job: Some("prefetch".to_string()),
    };
    assert_eq!(
        format_repo_health(&detail),
        "Health report for /r\n  generation: 4\n  pending jobs: 2\n  watcher: active\n  \
         last event: 99 (unix)\n  dirty paths: 1\n  sled integrity: ok\n  \
         needs reconciliation: no\n  throttling: off\n  next scheduled job: prefetch"
    );
}

#[test]
fn format_logs_and_other_responses() {
    assert_eq!(format_logs(&vec![]), "no log entries found");
    let entries = vec![LogEntry {
        repo_path: "/r".to_string(),
        message: "hello".to_string(),
        timestamp: Timestamp { secs: 12, nanos: 0 },
    }];
    assert_eq!(format_logs(&entries), "[12] /r: hello");
    let unchanged = DaemonResponse::RepoStatusUnchanged { repo_path: "/r".to_string(), generation: 8 };
    assert_eq!(format_response(&unchanged), "/r: unchanged (generation 8)");
    let ack = DaemonResponse::Ack(Ack::new("registered".to_string()));
    assert_eq!(format_response(&ack), "registered");
    assert_eq!(format_response(&DaemonResponse::Error("boom".to_string())), "boom");
}

#[test]
fn format_bytes_matches_float_formatting() {
    fn reference(bytes: u64) -> String {
        const UNITS: [&str; 5] = ["B", "KiB", "MiB", "GiB", "TiB"];
        let mut value = bytes as f64;
        let mut unit = 0;
        while value >= 1024.0 && unit < UNITS.len() - 1 {
            value /= 1024.0;
            unit += 1;
        }
        if unit == 0 {
            format!("{bytes} {}", UNITS[unit])
        } else {
            format!("{value:.1} {}", UNITS[unit])
        }
    }
    let mut samples: Vec<u64> = vec![
        0, 1, 1023, 1024, 1025, 1075, 1076, 1280, 1331, 1536, 2048, 10_000, 1_048_575,
        1_048_576, 1_100_000, 1_073_741_824, 1_099_511_627_776, 5_000_000_000_000_000,
        9_007_199_254_740_993, 18_014_398_509_481_985, u64::MAX - 1, u64::MAX,
    ];
    let mut x: u64 = 0x9E37_79B9_7F4A_7C15;
    for _ in 0..2000 {
        x ^= x << 13;
        x ^= x >> 7;
        x ^= x << 17;
        samples.push(x >> (x % 64));
    }
    for bytes in samples {
        assert_eq!(format_bytes(bytes), reference(bytes), "bytes = {bytes}");
    }
}

fn sample_detail() -> RepoStatusDetail {
    RepoStatusDetail {
        repo_path: "/repo".to_string(),
        dirty_paths: vec!["file.txt".to_string()],
        generation: 5,
    }
}

#[test]
fn resolve_status_decision_uses_cached_when_unchanged() {
    let cached = sample_detail();
    let response = DaemonResponse::RepoStatusUnchanged {
        repo_path: "/repo".to_string(),
        generation: cached.generation,
    };
    let decision = resolve_status_decision(response, Some(cached.clone()));
    assert!(decision.to_cache.is_none());
    assert!(decision.stderr.is_none());
    assert_eq!(decision.stdout, format_repo_status(&cached));
}

#[test]
fn resolve_status_decision_warns_and_uses_cache_on_error() {
    let cached = sample_detail();
    let response = DaemonResponse::Error("boom".into());
    let decision = resolve_status_decision(response, Some(cached.clone()));
    assert!(decision.to_cache.is_none());
    assert!(decision
        .stderr
        .as_deref()
        .is_some_and(|msg| msg.contains("showing cached status")));
    assert_eq!(decision.stdout, format_repo_status(&cached));
}

#[test]
fn resolve_status_decision_surfaces_error_without_cache() {
    let response = DaemonResponse::Error("boom".into());
    let decision = resolve_status_decision(response, None);
    assert_eq!(decision.stdout, "boom");
    assert!(decision.stderr.is_none());
    assert!(decision.to_cache.is_none());
}

#[test]
fn resolve_status_decision_caches_fresh_status() {
    let detail = sample_detail();
    let decision = resolve_status_decision(DaemonResponse::RepoStatus(detail.clone()), None);
    assert_eq!(decision.to_cache, Some(detail.clone()));
    assert_eq!(decision.stdout, "/repo (generation 5):\n  file.txt");
}

#[test]
fn windows_mounts_are_detected() {
    assert!(is_windows_filesystem(&"/mnt/c/Users".to_string()));
    assert!(is_windows_filesystem(&"/mnt/D".to_string()));
    assert!(!is_windows_filesystem(&"/mnt/".to_string()));
    assert!(!is_windows_filesystem(&"/mnt/1drive".to_string()));
    assert!(!is_windows_filesystem(&"/home/me".to_string()));
}

#[test]
fn cli_errors_have_text() {
    let err = validated_path(String::new()).unwrap_err();
    assert_eq!(err.message(), "path is empty");
    let daemon = CliError::from(DaemonError::Transport("down".to_string()));
    assert_eq!(daemon.message(), "transport error: down");
    assert_eq!(
        CliError::Daemon(DaemonError::Rejected("no".to_string())).message(),
        "daemon rejected command: no"
    );
    assert!(validated_path("/a/./b".to_string()).is_ok());
}

#[test]
fn prefetch_now_goes_to_the_front() {
    let now = Cli { command: Commands::Prefetch { repo_path: "/tmp/demo".to_string(), now: true } };
    let later = Cli { command: Commands::Prefetch { repo_path: "/tmp/demo".to_string(), now: false } };
    match (now.into_action(), later.into_action()) {
        (
            CliAction::Rpc(DaemonCommand::QueueJob { repo_path: a, job: JobKind::Prefetch, immediate: true }),
            CliAction::Rpc(DaemonCommand::QueueJob { repo_path: b, job: JobKind::Prefetch, immediate: false }),
        ) => {
            assert_eq!(a, "/tmp/demo");
            assert_eq!(b, "/tmp/demo");
        }
        other => panic!("unexpected actions: {other:?}"),
    }
    let maintain = Cli { command: Commands::Maintain { repo_path: "/tmp/demo".to_string() } };
    assert!(matches!(
        maintain.into_action(),
        CliAction::Rpc(DaemonCommand::QueueJob { job: JobKind::Maintenance, immediate: false, .. })
    ));
}
