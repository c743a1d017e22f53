//! Gity: the core of a daemon that keeps large Git repositories fast.
//!
//! The library holds the daemon's verified logic: request validation,
//! repository metadata bookkeeping, the job scheduler, log and metrics
//! bookkeeping, the fsmonitor cache format and the CLI's rendering.
//! Effects (sockets, files, Git itself, timers) stay with the caller.
pub mod cli;
pub mod daemon;
pub mod demo;
pub mod endpoints;
pub mod fsmonitor_cache;
pub mod git_config;
pub mod git_status;
pub mod ipc;
mod keyed;
pub mod launcher;
pub mod logbook;
pub mod logging;
pub mod message_size;
pub mod metrics;
pub mod pathname;
pub mod paths;
pub mod runtime;
pub mod status_cache;
pub mod storage;
mod text;
pub mod tray;
pub mod validated_path;
pub mod watch;

pub use validated_path::{PathValidationError, ValidatedPath};
