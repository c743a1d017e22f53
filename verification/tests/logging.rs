use gity::logging::{error_on_failure, warn_on_error};

#[test]
fn warn_on_error_returns_true_on_ok() {
    let result: Result<(), &str> = Ok(());
    assert!(warn_on_error(result, "test"));
}

#[test]
fn warn_on_error_returns_false_on_err() {
    let result: Result<(), &str> = Err("error message");
    assert!(!warn_on_error(result, "test"));
}

#[test]
fn error_on_failure_returns_true_on_ok() {
    let result: Result<(), &str> = Ok(());
    assert!(error_on_failure(result, "test"));
}

#[test]
fn error_on_failure_returns_false_on_err() {
    let result: Result<(), &str> = Err("error message");
    assert!(!error_on_failure(result, "test"));
}
