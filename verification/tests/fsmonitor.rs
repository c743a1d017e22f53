use gity::cli::fsmonitor_payload;
use gity::fsmonitor_cache::{decode_generation, decode_snapshot, encode_snapshot, FsMonitorCache};
use gity::ipc::FsMonitorSnapshot;
use gity::status_cache::StatusCache;

fn snapshot(paths: &[&str], generation: u64) -> FsMonitorSnapshot {
    FsMonitorSnapshot {
        repo_path: "/test/repo".to_string(),
        dirty_paths: paths.iter().map(|p| p.to_string()).collect(),
        generation,
    }
}

#[test]
fn test_write_and_read() {
    let written = snapshot(&["src/main.rs", "Cargo.toml"], 42);
    let bytes = encode_snapshot(&written);
    let read_back = decode_snapshot("/test/repo".to_string(), &bytes).unwrap();
    assert_eq!(read_back.generation, 42);
    assert_eq!(read_back.dirty_paths.len(), 2);
    assert_eq!(read_back.dirty_paths[0], "src/main.rs");
    assert_eq!(read_back.dirty_paths[1], "Cargo.toml");
    assert_eq!(read_back, written);
}

#[test]
fn test_read_generation_only() {
    let bytes = encode_snapshot(&snapshot(&["file.txt"], 123));
    assert_eq!(decode_generation(&bytes), Some(123));
}

#[test]
fn test_read_missing() {
    assert!(decode_snapshot("/nonexistent/repo".to_string(), &vec![]).is_none());
    assert!(decode_generation(&vec![]).is_none());
}

#[test]
fn file_layout_matches_format() {
    let bytes = encode_snapshot(&snapshot(&["ab", "é"], 0x0102));
    let mut expected = b"GITY\x01\x00\x00\x00".to_vec();
    expected.extend_from_slice(&0x0102u64.to_le_bytes());
    expected.extend_from_slice(&2u32.to_le_bytes());
    expected.extend_from_slice(&((2 + 2) + (2 + 2) as u32).to_le_bytes());
    expected.extend_from_slice(&[2, 0, b'a', b'b', 2, 0, 0xc3, 0xa9]);
    assert_eq!(bytes, expected);
}

#[test]
fn corrupt_files_are_ignored() {
    let bytes = encode_snapshot(&snapshot(&["src/main.rs"], 7));
    let mut bad_magic = bytes.clone();
    bad_magic[0] = b'X';
    assert!(decode_snapshot("/r".to_string(), &bad_magic).is_none());
    assert!(decode_generation(&bad_magic).is_none());
    let mut bad_version = bytes.clone();
    bad_version[4] = 2;
    assert!(decode_snapshot("/r".to_string(), &bad_version).is_none());
    let truncated = bytes[..bytes.len() - 1].to_vec();
    assert!(decode_snapshot("/r".to_string(), &truncated).is_none());
    assert_eq!(decode_generation(&truncated), Some(7));
    let header_only = bytes[..24].to_vec();
    assert!(decode_snapshot("/r".to_string(), &header_only).is_none());
}

#[test]
fn invalid_utf8_reads_with_replacement() {
    let mut bytes = encode_snapshot(&snapshot(&["ab"], 1));
    let n = bytes.len();
    bytes[n - 1] = 0xff;
    let read = decode_snapshot("/r".to_string(), &bytes).unwrap();
    assert_eq!(read.dirty_paths, vec!["a\u{fffd}".to_string()]);
}

#[test]
fn cache_file_names_hash_the_repository() {
    let cache = FsMonitorCache::new("/cache".to_string());
    let path = cache.cache_path(&"/test/repo".to_string());
    assert!(path.starts_with("/cache/"));
    assert!(path.ends_with(".cache"));
    assert_eq!(path.len(), "/cache/".len() + 16 + ".cache".len());
    // SHA-1 of "abc" is a9993e364706816aba3e25717850c26c9cd0d89d.
    assert_eq!(cache.cache_path(&"abc".to_string()), "/cache/a9993e364706816a.cache");
    let status = StatusCache::new(&"/base".to_string());
    assert_eq!(
        status.cache_path(&"abc".to_string()),
        "/base/status_cache/a9993e364706816aba3e25717850c26c9cd0d89d.json"
    );
}

#[test]
fn test_fsmonitor_protocol_output_format() {
    let snapshot = FsMonitorSnapshot {
        repo_path: "/test/repo".to_string(),
        generation: 42,
        dirty_paths: vec!["src/main.rs".to_string(), "Cargo.toml".to_string()],
    };
    let output = fsmonitor_payload(&snapshot);
    let output_str = String::from_utf8_lossy(&output);
    assert!(output_str.starts_with("42\0"));
    assert!(output_str.contains("src/main.rs\0"));
    assert!(output_str.contains("Cargo.toml\0"));
    assert_eq!(output, b"42\0src/main.rs\0Cargo.toml\0".to_vec());
}
