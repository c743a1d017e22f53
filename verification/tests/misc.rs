use gity::demo::{calculate_structure, Elapsed, PhaseStats};
use gity::endpoints::{NngClient, NotificationSubscriber, DEFAULT_ADDR, DEFAULT_EVENTS_ADDR};
use gity::git_config::{clear_settings, performance_settings, ConfigEdit};
use gity::ipc::DaemonHealth;
use gity::logbook::{log_key, LogBook, LogEntryRecord, PersistedLogEntry};
use gity::ipc::Timestamp;
use gity::tray::{format_tray_info, icon_rgba, TrayError};
use gity::watch::{map_event_kind, NotifyEventClass, WatchError, WatchEventKind};

#[test]
fn demo_structure_by_size() {
    assert_eq!(calculate_structure(50), (10, 10, 1));
    assert_eq!(calculate_structure(1000), (10, 10, 10));
    assert_eq!(calculate_structure(5000), (100, 10, 10));
    assert_eq!(calculate_structure(100_000), (100, 100, 10));
    assert_eq!(calculate_structure(100_001), (1000, 100, 10));
}

#[test]
fn demo_averages_round_down() {
    let stats = PhaseStats {
        with_gity_times: vec![
            Elapsed { secs: 1, nanos: 0 },
            Elapsed { secs: 0, nanos: 500_000_001 },
        ],
        without_gity_times: vec![],
    };
    assert_eq!(stats.avg_with_gity(), Elapsed { secs: 0, nanos: 750_000_000 });
    assert_eq!(stats.avg_without_gity(), Elapsed { secs: 0, nanos: 0 });
}

#[test]
fn endpoints_keep_addresses() {
    assert_eq!(NngClient::new(DEFAULT_ADDR.to_string()).address(), "tcp://127.0.0.1:7557");
    assert_eq!(
        NotificationSubscriber::new(DEFAULT_EVENTS_ADDR.to_string()).address(),
        "tcp://127.0.0.1:7558"
    );
}

#[test]
fn git_settings_plan() {
    let set = performance_settings(Some("gity fsmonitor-helper"));
    assert_eq!(set.len(), 7);
    assert_eq!(
        set[0],
        ConfigEdit::SetStr {
            key: "core.fsmonitor".to_string(),
            value: "gity fsmonitor-helper".to_string()
        }
    );
    assert_eq!(
        set[6],
        ConfigEdit::SetStr {
            key: "remote.origin.partialclonefilter".to_string(),
            value: "blob:none".to_string()
        }
    );
    let without = performance_settings(None);
    assert_eq!(without[0], ConfigEdit::Remove { key: "core.fsmonitor".to_string() });
    let clear = clear_settings();
    assert_eq!(clear.len(), 7);
    assert!(clear.iter().all(|e| matches!(e, ConfigEdit::Remove { .. })));
}

#[test]
fn tray_icon_and_info() {
    let rgba = icon_rgba();
    assert_eq!(rgba.len(), 32 * 32 * 4);
    assert_eq!(&rgba[..8], &[64, 128, 255, 255, 64, 128, 255, 255]);
    let info = format_tray_info(&DaemonHealth {
        repo_count: 3,
        pending_jobs: 1,
        uptime_seconds: 9,
        repo_generations: vec![],
    });
    assert_eq!(
        info,
        "Gitz Daemon Status\n------------------\nRepositories: 3\nPending Jobs: 1\nUptime: 9s"
    );
    assert_eq!(TrayError::Menu("x".to_string()).message(), "failed to create menu: x");
}

#[test]
fn watcher_event_kinds() {
    assert_eq!(map_event_kind(NotifyEventClass::Create), Some(WatchEventKind::Created));
    assert_eq!(map_event_kind(NotifyEventClass::Modify), Some(WatchEventKind::Modified));
    assert_eq!(map_event_kind(NotifyEventClass::Remove), Some(WatchEventKind::Deleted));
    assert_eq!(map_event_kind(NotifyEventClass::Access), None);
    assert_eq!(
        WatchError::Backend("gone".to_string()).message(),
        "watcher backend error: gone"
    );
}

#[test]
fn log_keys_sort_by_time() {
    let repo = "/r".to_string();
    let early = log_key(&repo, Timestamp { secs: 1, nanos: 2 });
    let late = log_key(&repo, Timestamp { secs: 2, nanos: 0 });
    assert!(early < late);
    assert_eq!(&early[..3], b"/r\0");
    assert_eq!(early.len(), 3 + 16);
    assert_eq!(&early[3..], &1_000_000_002u128.to_be_bytes());
    let record = LogEntryRecord { timestamp: Timestamp { secs: 5, nanos: 0 }, message: "m".to_string() };
    let persisted = PersistedLogEntry::from_entry(&repo, &record);
    assert_eq!(persisted.message, "m");
    let mut book = LogBook::new(1);
    book.record(&repo, "a".to_string(), Timestamp { secs: 1, nanos: 0 });
    book.record(&repo, "b".to_string(), Timestamp { secs: 2, nanos: 0 });
    let recent = book.recent(&repo, 10).unwrap();
    assert_eq!(recent.len(), 1);
    assert_eq!(recent[0].message, "b");
    assert!(book.recent(&"/other".to_string(), 10).is_none());
}
