use gity::launcher::LaunchSpec;
use gity::paths::GitzPaths;

#[test]
fn launch_spec_uses_current_executable() {
    let spec = LaunchSpec::new(
        "tcp://localhost:1234".to_string(),
        "/usr/local/bin/gitz".to_string(),
    );
    assert!(spec.executable().contains("gitz"));
    assert_eq!(spec.args(), &["daemon", "run"]);
    assert_eq!(spec.address(), "tcp://localhost:1234");
}

#[test]
fn paths_live_under_base() {
    let paths = GitzPaths::new("/home/me/.gitz".to_string());
    assert_eq!(paths.base_dir(), "/home/me/.gitz");
    assert_eq!(paths.config_dir(), "/home/me/.gitz/config");
    assert_eq!(paths.data_dir(), "/home/me/.gitz/data");
    assert_eq!(paths.logs_dir(), "/home/me/.gitz/logs");
    assert_eq!(paths.daemon_log_path(), "/home/me/.gitz/logs/daemon.log");
}

#[test]
fn paths_join_without_doubling_separator() {
    let paths = GitzPaths::new("/base/".to_string());
    assert_eq!(paths.config_dir(), "/base/config");
}
