//! Filesystem watch events as the daemon consumes them.
use vstd::prelude::*;

verus! {

/// A change observed under a watched repository.
#[derive(Debug, Clone, PartialEq, Eq)]
pub struct WatchEvent {
    pub path: String,
    pub kind: WatchEventKind,
}

impl WatchEvent {
    pub fn new(path: String, kind: WatchEventKind) -> (e: WatchEvent)
        ensures
            e.path@ == path@,
            e.kind == kind,
    {
        WatchEvent { path, kind }
    }
}

#[derive(Debug, Clone, Copy, PartialEq, Eq, Structural)]
pub enum WatchEventKind {
    Created,
    Modified,
    Deleted,
}

#[derive(Debug, Clone, PartialEq, Eq)]
pub enum WatchError {
    Backend(String),
}

impl WatchError {
    pub open spec fn spec_message(&self) -> Seq<char> {
        match self {
            WatchError::Backend(m) => "watcher backend error: "@ + m@,
        }
    }

    /// The error's human-readable text.
    pub fn message(&self) -> (s: String)
        ensures
            s@ == self.spec_message(),
    {
        match self {
            WatchError::Backend(m) => {
                let mut s = String::from_str("watcher backend error: ");
                s.append(m.as_str());
                s
            },
        }
    }
}

/// A running subscription that can be stopped.
pub trait WatchHandle {
    /// Stops delivering events.
    fn stop(&self);
}

/// The top-level kind of a notification from the operating system's file
/// watcher, one variant per kind it reports.
#[derive(Debug, Clone, Copy, PartialEq, Eq, Structural)]
pub enum NotifyEventClass {
    Any,
    Access,
    Create,
    Modify,
    Remove,
    Other,
}

pub open spec fn spec_map_event_kind(class: NotifyEventClass) -> Option<WatchEventKind> {
    match class {
        NotifyEventClass::Create => Some(WatchEventKind::Created),
        NotifyEventClass::Modify => Some(WatchEventKind::Modified),
        NotifyEventClass::Remove => Some(WatchEventKind::Deleted),
        _ => None,
    }
}

/// The watcher reports a creation as a creation, a modification as a
/// modification and a removal as a deletion, and nothing else: accesses and
/// other notifications are dropped.
pub proof fn lemma_map_event_kind(class: NotifyEventClass)
    ensures
        (spec_map_event_kind(class) == Some(WatchEventKind::Created)) <==> (class == NotifyEventClass::Create),
        (spec_map_event_kind(class) == Some(WatchEventKind::Modified)) <==> (class == NotifyEventClass::Modify),
        (spec_map_event_kind(class) == Some(WatchEventKind::Deleted)) <==> (class == NotifyEventClass::Remove),
{
}

/// Creations, modifications and removals are reported; other kinds are not.
pub fn map_event_kind(class: NotifyEventClass) -> (k: Option<WatchEventKind>)
    ensures
        k == spec_map_event_kind(class),
{
    match class {
        NotifyEventClass::Create => Some(WatchEventKind::Created),
        NotifyEventClass::Modify => Some(WatchEventKind::Modified),
        NotifyEventClass::Remove => Some(WatchEventKind::Deleted),
        _ => None,
    }
}

/// Watcher whose events are emitted by hand, for tests.
#[derive(Debug, Default, Clone, Copy)]
pub struct ManualWatcher;

impl ManualWatcher {
    pub fn new() -> ManualWatcher {
        ManualWatcher
    }
}

/// Watcher that never emits events.
#[derive(Debug, Default, Clone, Copy)]
pub struct NoopWatcher;

impl NoopWatcher {
    pub fn new() -> NoopWatcher {
        NoopWatcher
    }
}

/// Watcher backed by the operating system's file notifications.
#[derive(Debug, Default, Clone, Copy)]
pub struct NotifyWatcher;

impl NotifyWatcher {
    pub fn new() -> NotifyWatcher {
        NotifyWatcher
    }
}

} // verus!
