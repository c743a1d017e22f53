use gity::ipc::{DaemonCommand, JobKind};
use gity::validated_path::{validate_command, MAX_PATH_LENGTH};
use gity::{PathValidationError, ValidatedPath};

#[test]
fn normal_path_accepted() {
    let path = String::from("/home/user/repo");
    assert!(ValidatedPath::new(path).is_ok());
}

#[test]
fn empty_path_rejected() {
    let path = String::new();
    assert!(matches!(
        ValidatedPath::new(path),
        Err(PathValidationError::Empty)
    ));
}

#[test]
fn path_with_null_byte_rejected() {
    // `PathBuf::push("\0")` appends a separator and the NUL.
    let path = String::from("/home/user/repo/\0");
    assert!(matches!(
        ValidatedPath::new(path),
        Err(PathValidationError::ContainsNull)
    ));
}

#[test]
fn path_traversal_rejected() {
    let path = String::from("/home/user/../../../etc");
    assert!(matches!(
        ValidatedPath::new(path),
        Err(PathValidationError::PathTraversal)
    ));
}

#[test]
fn control_characters_rejected() {
    let path = String::from("/home/user/repo/\x01");
    assert!(matches!(
        ValidatedPath::new(path),
        Err(PathValidationError::SuspiciousPattern)
    ));
}

#[test]
fn path_with_dot_normalized() {
    let path = String::from("/home/user/./repo");
    let validated = ValidatedPath::new(path).unwrap();
    assert_eq!(validated.as_path(), "/home/user/repo");
}

#[test]
fn path_with_parent_normalized() {
    let path = String::from("/home/user/../user/repo");
    let validated = ValidatedPath::new(path).unwrap();
    assert_eq!(validated.as_path(), "/home/user/repo");
}

#[test]
fn escape_sequence_rejected() {
    let path = String::from("/home/user/${VAR}");
    assert!(matches!(
        ValidatedPath::new(path),
        Err(PathValidationError::SuspiciousPattern)
    ));
}

#[test]
fn backtick_rejected() {
    let path = String::from("/home/user/`command`");
    assert!(matches!(
        ValidatedPath::new(path),
        Err(PathValidationError::SuspiciousPattern)
    ));
}

#[test]
fn display_trait_works() {
    let path = String::from("/home/user/repo");
    let validated = ValidatedPath::new(path).unwrap();
    assert_eq!(validated.to_string(), "/home/user/repo");
}

#[test]
fn validated_path_serde_roundtrip() {
    // Deserializing re-validates the stored path.
    let path = String::from("/home/user/repo");
    let validated = ValidatedPath::new(path).unwrap();
    let stored = validated.as_path().clone();
    let decoded = ValidatedPath::new(stored).unwrap();
    assert_eq!(validated.as_path(), decoded.as_path());
}

#[test]
fn too_long_path_rejected() {
    let path = format!("/{}", "a".repeat(MAX_PATH_LENGTH));
    match ValidatedPath::new(path) {
        Err(err @ PathValidationError::TooLong { len: 4097, max: 4096 }) => {
            assert_eq!(
                err.message(),
                "path too long: 4097 bytes exceeds maximum of 4096 bytes"
            );
        }
        other => panic!("unexpected result: {other:?}"),
    }
}

#[test]
fn relative_path_normalized_without_root() {
    let validated = ValidatedPath::new(String::from("a/./b//c/")).unwrap();
    assert_eq!(validated.into_inner(), "a/b/c");
}

#[test]
fn root_parent_is_traversal() {
    assert!(matches!(
        ValidatedPath::new(String::from("/..")),
        Err(PathValidationError::PathTraversal)
    ));
}

#[test]
fn normalized_path_validates_to_itself() {
    for raw in ["/home/user/./repo/../repo2", "x/y/../z", "/a//b/"] {
        let once = ValidatedPath::new(String::from(raw)).unwrap().into_inner();
        let twice = ValidatedPath::new(once.clone()).unwrap().into_inner();
        assert_eq!(once, twice);
    }
}

#[test]
fn received_commands_carry_validated_paths() {
    let cmd = DaemonCommand::QueueJob {
        repo_path: String::from("/home/user/./repo"),
        job: JobKind::Prefetch,
        immediate: true,
    };
    assert_eq!(
        validate_command(cmd),
        Ok(DaemonCommand::QueueJob {
            repo_path: String::from("/home/user/repo"),
            job: JobKind::Prefetch,
            immediate: true,
        })
    );
    let bad = DaemonCommand::Status { repo_path: String::from("/home/user/../../../etc"), known_generation: None };
    assert_eq!(validate_command(bad), Err(PathValidationError::PathTraversal));
    assert_eq!(validate_command(DaemonCommand::ListRepos), Ok(DaemonCommand::ListRepos));
    assert_eq!(
        validate_command(DaemonCommand::RegisterRepo { repo_path: String::new() }),
        Err(PathValidationError::Empty)
    );
}

#[test]
fn validated_form_has_no_dot_components() {
    let v = ValidatedPath::new(String::from("./a/./b/../c/")).unwrap();
    assert_eq!(v.as_path(), "a/c");
    // A relative path that resolves to nothing is accepted as the empty path.
    assert_eq!(ValidatedPath::new(String::from(".")).unwrap().as_path(), "");
    assert_eq!(ValidatedPath::new(String::from("a/..")).unwrap().as_path(), "");
}
