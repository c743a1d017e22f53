//! Helpers that turn an operation's outcome into a success flag. The
//! caller logs the failure with the context it passes.
use vstd::prelude::*;

verus! {

/// Whether `result` succeeded; a failure is one the caller logs as a
/// warning and carries on.
pub fn warn_on_error<E>(result: Result<(), E>, context: &str) -> (ok: bool)
    ensures
        ok == result is Ok,
{
    match result {
        Ok(()) => true,
        Err(_) => false,
    }
}

/// Whether `result` succeeded; a failure is one the caller logs as an
/// error.
pub fn error_on_failure<E>(result: Result<(), E>, context: &str) -> (ok: bool)
    ensures
        ok == result is Ok,
{
    match result {
        Ok(()) => true,
        Err(_) => false,
    }
}

} // verus!
