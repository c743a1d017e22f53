use gity::ipc::{RepoStatus, Timestamp};
use gity::storage::{
    decode_time, encode_time, repo_key, InMemoryMetadataStore, MetadataStore, StorageContext,
    StorageError,
};

fn now() -> Timestamp {
    Timestamp { secs: 1_700_000_000, nanos: 5 }
}

#[test]
fn register_and_list_repositories() {
    let mut store = InMemoryMetadataStore::new();
    store
        .register_repo("/tmp/demo".to_string(), now())
        .expect("register");
    let repos = store.list_repos().expect("list");
    assert_eq!(repos.len(), 1);
    assert_eq!(repos[0].repo_path, "/tmp/demo");
}

#[test]
fn unregister_repository() {
    let mut store = InMemoryMetadataStore::new();
    let path = "/tmp/demo".to_string();
    store.register_repo(path.clone(), now()).unwrap();
    let removed = store.unregister_repo(&path).unwrap();
    assert!(removed.is_some());
    assert!(store.unregister_repo(&path).unwrap().is_none());
}

#[test]
fn job_counters_do_not_underflow() {
    let mut store = InMemoryMetadataStore::new();
    let path = "/tmp/demo".to_string();
    store.register_repo(path.clone(), now()).unwrap();
    store.increment_jobs(&path, 5).unwrap();
    let snapshot = store.increment_jobs(&path, -10).unwrap();
    assert_eq!(snapshot.pending_jobs, 0);
}

#[test]
fn in_memory_job_status_tracks_pending_jobs() {
    let mut store = InMemoryMetadataStore::new();
    let path = "/tmp/demo".to_string();
    let initial = store.register_repo(path.clone(), now()).unwrap();
    assert_eq!(initial.status, RepoStatus::Idle);
    let snapshot = store.increment_jobs(&path, 1).unwrap();
    assert_eq!(snapshot.status, RepoStatus::Busy);
    let snapshot = store.increment_jobs(&path, -1).unwrap();
    assert_eq!(snapshot.status, RepoStatus::Idle);
}

#[test]
fn record_last_event() {
    let mut store = InMemoryMetadataStore::new();
    let path = "/tmp/demo".to_string();
    store.register_repo(path.clone(), now()).unwrap();
    store.record_event(&path, Timestamp::epoch()).unwrap();
    let repos = store.list_repos().unwrap();
    assert_eq!(repos[0].last_event, Some(Timestamp::epoch()));
}

#[test]
fn dirty_paths_track_changes_in_memory() {
    let mut store = InMemoryMetadataStore::new();
    let path = "/tmp/demo".to_string();
    store.register_repo(path.clone(), now()).unwrap();
    store.mark_dirty_path(&path, "file.txt".to_string()).unwrap();
    store.mark_dirty_path(&path, "file.txt".to_string()).unwrap();
    let dirty = store.drain_dirty_paths(&path).unwrap();
    assert_eq!(dirty, vec!["file.txt".to_string()]);
    assert!(store.drain_dirty_paths(&path).unwrap().is_empty());
}

#[test]
fn generation_counters_increment() {
    let mut store = InMemoryMetadataStore::new();
    let path = "/tmp/demo".to_string();
    store.register_repo(path.clone(), now()).unwrap();
    assert_eq!(store.current_generation(&path).unwrap(), 0);
    store.bump_generation(&path).unwrap();
    assert_eq!(store.current_generation(&path).unwrap(), 1);
}

#[test]
fn test_dirty_paths_tracked_correctly() {
    let mut store = InMemoryMetadataStore::new();
    let repo_path = "/tmp/test_repo".to_string();

    store.register_repo(repo_path.clone(), now()).expect("register");

    store.mark_dirty_path(&repo_path, "file1.txt".to_string()).expect("mark 1");
    store.mark_dirty_path(&repo_path, "file2.txt".to_string()).expect("mark 2");
    store.mark_dirty_path(&repo_path, "file1.txt".to_string()).expect("mark dup");

    let count = store.dirty_path_count(&repo_path).expect("count");
    assert_eq!(count, 2);

    let drained = store.drain_dirty_paths(&repo_path).expect("drain");
    assert_eq!(drained.len(), 2);

    let count_after = store.dirty_path_count(&repo_path).expect("count after");
    assert_eq!(count_after, 0);
}

#[test]
fn registering_twice_keeps_metadata() {
    let mut store = InMemoryMetadataStore::new();
    let path = "/tmp/demo".to_string();
    store.register_repo(path.clone(), now()).unwrap();
    store.increment_jobs(&path, 3).unwrap();
    let again = store
        .register_repo(path.clone(), Timestamp { secs: 9, nanos: 0 })
        .unwrap();
    assert_eq!(again.pending_jobs, 3);
    assert_eq!(again.registered_at, now());
    assert_eq!(store.list_repos().unwrap().len(), 1);
}

#[test]
fn unknown_repository_is_not_found() {
    let mut store = InMemoryMetadataStore::new();
    let path = "/nowhere".to_string();
    match store.increment_jobs(&path, 1) {
        Err(err @ StorageError::NotFound(_)) => {
            assert_eq!(err.message(), "repository not registered: /nowhere");
        }
        other => panic!("unexpected result: {other:?}"),
    }
    assert!(store.get_repo(&path).unwrap().is_none());
    assert!(matches!(
        store.mark_dirty_path(&path, "a".to_string()),
        Err(StorageError::NotFound(_))
    ));
}

#[test]
fn needs_reconciliation_and_watcher_token_are_stored() {
    let mut store = InMemoryMetadataStore::new();
    let path = "/tmp/demo".to_string();
    let fresh = store.register_repo(path.clone(), now()).unwrap();
    assert_eq!(fresh.needs_reconciliation, Some(false));
    store.set_needs_reconciliation(&path, true).unwrap();
    store.set_watcher_token(&path, 7).unwrap();
    store.update_repo_status(&path, RepoStatus::Unknown).unwrap();
    let meta = store.get_repo(&path).unwrap().unwrap();
    assert_eq!(meta.needs_reconciliation, Some(true));
    assert_eq!(meta.last_watcher_token, Some(7));
    assert_eq!(meta.status, RepoStatus::Unknown);
}

#[test]
fn put_repo_replaces_metadata() {
    let mut store = InMemoryMetadataStore::new();
    let path = "/tmp/demo".to_string();
    let mut meta = store.register_repo(path.clone(), now()).unwrap();
    meta.generation = 12;
    store.put_repo(meta);
    assert_eq!(store.current_generation(&path).unwrap(), 12);
    assert_eq!(store.list_repos().unwrap().len(), 1);
}

#[test]
fn times_and_keys_are_encoded() {
    assert_eq!(encode_time(Timestamp { secs: 42, nanos: 999 }), 42);
    assert_eq!(decode_time(42), Timestamp { secs: 42, nanos: 0 });
    assert_eq!(repo_key(&"/tmp/é".to_string()), "/tmp/é".as_bytes().to_vec());
}

#[test]
fn storage_context_layout() {
    let context = StorageContext::new(&"/data".to_string());
    assert_eq!(context.metadata_path(), "/data/sled");
    assert_eq!(context.log_path(), "/data/logs");
}

#[test]
fn test_register_real_repo_in_memory_store() {
    let mut store = InMemoryMetadataStore::new();
    let dir = "/tmp/gity-test-repo".to_string();
    let meta = store.register_repo(dir.clone(), now()).expect("register");

    assert_eq!(meta.repo_path, dir);
    assert_eq!(meta.pending_jobs, 0);
}
