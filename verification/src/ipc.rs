//! Messages exchanged between the CLI, the tray and the daemon.
//!
//! Paths are held as text and points in time as [`Timestamp`]s; the wire
//! encoding of these messages is the caller's concern.
use vstd::prelude::*;

verus! {

/// A point in time, as the time elapsed since the Unix epoch.
#[derive(Debug, Clone, Copy, PartialEq, Eq, Structural)]
pub struct Timestamp {
    pub secs: u64,
    pub nanos: u32,
}

impl Timestamp {
    /// The Unix epoch itself.
    pub fn epoch() -> (t: Timestamp)
        ensures
            t.secs == 0 && t.nanos == 0,
    {
        Timestamp { secs: 0, nanos: 0 }
    }

    /// Whole seconds since the epoch.
    pub fn as_secs(&self) -> (s: u64)
        ensures
            s == self.secs,
    {
        self.secs
    }

    pub open spec fn spec_as_nanos(self) -> int {
        self.secs * 1_000_000_000 + self.nanos
    }

    /// Nanoseconds since the epoch.
    pub fn as_nanos(&self) -> (n: u128)
        ensures
            n == self.spec_as_nanos(),
    {
        assert(self.secs * 1_000_000_000 + self.nanos <= u64::MAX as int * 1_000_000_000
            + u32::MAX) by (nonlinear_arith);
        (self.secs as u128) * 1_000_000_000 + (self.nanos as u128)
    }
}

/// All commands the CLI/tray can send to the daemon process.
#[derive(Debug, Clone, PartialEq, Eq)]
pub enum DaemonCommand {
    RegisterRepo { repo_path: String },
    UnregisterRepo { repo_path: String },
    ListRepos,
    Status { repo_path: String, known_generation: Option<u64> },
    /// Queue a background job; an `immediate` one goes to the front of the
    /// queue, ahead of the jobs already waiting.
    QueueJob { repo_path: String, job: JobKind, immediate: bool },
    HealthCheck,
    /// Request detailed health diagnostics for a specific repository.
    RepoHealth { repo_path: String },
    Metrics,
    FsMonitorSnapshot { repo_path: String, last_seen_generation: Option<u64> },
    FetchLogs { repo_path: String, limit: usize },
    /// Request graceful daemon shutdown.
    Shutdown,
}

/// Every response the daemon can emit.
#[derive(Debug, Clone, PartialEq, Eq)]
pub enum DaemonResponse {
    Ack(Ack),
    RepoList(Vec<RepoSummary>),
    RepoStatus(RepoStatusDetail),
    RepoStatusUnchanged { repo_path: String, generation: u64 },
    Health(DaemonHealth),
    RepoHealth(RepoHealthDetail),
    Metrics(DaemonMetrics),
    FsMonitorSnapshot(FsMonitorSnapshot),
    Logs(Vec<LogEntry>),
    Error(String),
}

/// Lightweight acknowledgement wrapper used by multiple commands.
#[derive(Debug, Clone, PartialEq, Eq)]
pub struct Ack {
    pub message: String,
}

impl Ack {
    pub fn new(message: String) -> (a: Ack)
        ensures
            a.message@ == message@,
    {
        Ack { message }
    }
}

/// Snapshot of daemon-level health information.
#[derive(Debug, Clone, PartialEq, Eq)]
pub struct DaemonHealth {
    pub repo_count: usize,
    pub pending_jobs: usize,
    pub uptime_seconds: u64,
    pub repo_generations: Vec<RepoGeneration>,
}

/// Detailed health diagnostics for a specific repository.
#[derive(Debug, Clone, PartialEq, Eq)]
pub struct RepoHealthDetail {
    pub repo_path: String,
    pub generation: u64,
    pub pending_jobs: usize,
    pub watcher_active: bool,
    pub last_event: Option<Timestamp>,
    pub dirty_path_count: usize,
    pub sled_ok: bool,
    pub needs_reconciliation: bool,
    pub throttling_active: bool,
    pub next_scheduled_job: Option<String>,
}

/// Generation token for a registered repository.
#[derive(Debug, Clone, PartialEq, Eq)]
pub struct RepoGeneration {
    pub repo_path: String,
    pub generation: u64,
}

/// Counters of each job kind that has been seen at least once.
#[derive(Debug, Clone, Copy, PartialEq, Eq, Structural)]
pub struct JobCounters {
    pub prefetch: Option<JobMetrics>,
    pub maintenance: Option<JobMetrics>,
}

impl JobCounters {
    pub fn new() -> (c: JobCounters)
        ensures
            c.prefetch is None && c.maintenance is None,
    {
        JobCounters { prefetch: None, maintenance: None }
    }

    pub open spec fn spec_get(self, kind: JobKind) -> Option<JobMetrics> {
        match kind {
            JobKind::Prefetch => self.prefetch,
            JobKind::Maintenance => self.maintenance,
        }
    }

    pub open spec fn spec_set(self, kind: JobKind, m: Option<JobMetrics>) -> JobCounters {
        match kind {
            JobKind::Prefetch => JobCounters { prefetch: m, ..self },
            JobKind::Maintenance => JobCounters { maintenance: m, ..self },
        }
    }

    /// The counters of `kind`, if any job of that kind was recorded.
    pub fn get(&self, kind: JobKind) -> (m: Option<JobMetrics>)
        ensures
            m == self.spec_get(kind),
    {
        match kind {
            JobKind::Prefetch => self.prefetch,
            JobKind::Maintenance => self.maintenance,
        }
    }
}

/// Snapshot of daemon metrics such as job counters and resource usage.
#[derive(Debug, Clone, PartialEq, Eq)]
pub struct DaemonMetrics {
    pub jobs: JobCounters,
    pub global: GlobalMetrics,
    pub repos: Vec<RepoMetrics>,
}

impl DaemonMetrics {
    pub fn new() -> (m: DaemonMetrics)
        ensures
            m.jobs.prefetch is None && m.jobs.maintenance is None,
            m.global == GlobalMetrics::spec_default(),
            m.repos@.len() == 0,
    {
        DaemonMetrics { jobs: JobCounters::new(), global: GlobalMetrics::default(), repos: Vec::new() }
    }
}

/// Aggregate daemon-level statistics. CPU usage is held in tenths of a percent.
#[derive(Debug, Clone, Copy, PartialEq, Eq, Structural)]
pub struct GlobalMetrics {
    pub pending_jobs: usize,
    pub uptime_seconds: u64,
    pub cpu_percent_tenths: u64,
    pub rss_bytes: u64,
}

impl GlobalMetrics {
    pub open spec fn spec_default() -> GlobalMetrics {
        GlobalMetrics { pending_jobs: 0, uptime_seconds: 0, cpu_percent_tenths: 0, rss_bytes: 0 }
    }

    pub fn default() -> (g: GlobalMetrics)
        ensures
            g == Self::spec_default(),
    {
        GlobalMetrics { pending_jobs: 0, uptime_seconds: 0, cpu_percent_tenths: 0, rss_bytes: 0 }
    }
}

/// Lightweight view into per-repository queue depth.
#[derive(Debug, Clone, PartialEq, Eq)]
pub struct RepoMetrics {
    pub repo_path: String,
    pub pending_jobs: usize,
}

/// Metadata describing a repository within the daemon.
#[derive(Debug, Clone, PartialEq, Eq)]
pub struct RepoSummary {
    pub repo_path: String,
    pub status: RepoStatus,
    pub pending_jobs: usize,
    pub last_event: Option<Timestamp>,
    pub generation: u64,
}

impl RepoSummary {
    pub fn new(repo_path: String) -> (s: RepoSummary)
        ensures
            s.repo_path@ == repo_path@,
            s.status == RepoStatus::Unknown,
            s.pending_jobs == 0,
            s.last_event is None,
            s.generation == 0,
    {
        RepoSummary {
            repo_path,
            status: RepoStatus::Unknown,
            pending_jobs: 0,
            last_event: None,
            generation: 0,
        }
    }
}

/// Details about a repository used by `gity status`.
#[derive(Debug, Clone, PartialEq, Eq)]
pub struct RepoStatusDetail {
    pub repo_path: String,
    pub dirty_paths: Vec<String>,
    pub generation: u64,
}

/// Snapshot of paths that changed since the previous fsmonitor token.
#[derive(Debug, Clone, PartialEq, Eq)]
pub struct FsMonitorSnapshot {
    pub repo_path: String,
    pub dirty_paths: Vec<String>,
    pub generation: u64,
}

/// A coarse view of repository health.
#[derive(Debug, Clone, Copy, PartialEq, Eq, Structural)]
pub enum RepoStatus {
    Idle,
    Busy,
    Unknown,
}

impl RepoStatus {
    pub open spec fn spec_as_str(self) -> Seq<char> {
        match self {
            RepoStatus::Idle => "idle"@,
            RepoStatus::Busy => "busy"@,
            RepoStatus::Unknown => "unknown"@,
        }
    }

    /// Each status is printed as its own lower-case name, and distinct
    /// statuses print distinct words.
    pub proof fn lemma_as_str(a: RepoStatus, b: RepoStatus)
        ensures
            a.spec_as_str() == b.spec_as_str() ==> a == b,
            (a.spec_as_str() == "busy"@) <==> (a == RepoStatus::Busy),
            (a.spec_as_str() == "idle"@) <==> (a == RepoStatus::Idle),
            (a.spec_as_str() == "unknown"@) <==> (a == RepoStatus::Unknown),
    {
        reveal_strlit("busy");
        reveal_strlit("idle");
        reveal_strlit("unknown");
        assert("busy"@[0] != "idle"@[0]);
        assert("busy"@.len() != "unknown"@.len());
        assert("idle"@.len() != "unknown"@.len());
    }

    pub fn as_str(&self) -> (s: &'static str)
        ensures
            s@ == self.spec_as_str(),
    {
        match self {
            RepoStatus::Idle => "idle",
            RepoStatus::Busy => "busy",
            RepoStatus::Unknown => "unknown",
        }
    }
}

/// Job types queued within the daemon scheduler.
#[derive(Debug, Clone, Copy, PartialEq, Eq, Hash, Structural)]
pub enum JobKind {
    Prefetch,
    Maintenance,
}

impl JobKind {
    pub open spec fn spec_as_str(self) -> Seq<char> {
        match self {
            JobKind::Prefetch => "prefetch"@,
            JobKind::Maintenance => "maintenance"@,
        }
    }

    /// Each job kind is printed as its own lower-case name, and the two
    /// kinds print differently.
    pub proof fn lemma_as_str(a: JobKind, b: JobKind)
        ensures
            a.spec_as_str() == b.spec_as_str() ==> a == b,
            (a.spec_as_str() == "prefetch"@) <==> (a == JobKind::Prefetch),
            (a.spec_as_str() == "maintenance"@) <==> (a == JobKind::Maintenance),
    {
        reveal_strlit("prefetch");
        reveal_strlit("maintenance");
        assert("prefetch"@.len() != "maintenance"@.len());
    }

    pub fn as_str(self) -> (s: &'static str)
        ensures
            s@ == self.spec_as_str(),
    {
        match self {
            JobKind::Prefetch => "prefetch",
            JobKind::Maintenance => "maintenance",
        }
    }
}

/// Counters describing how jobs progressed through the scheduler.
#[derive(Debug, Clone, Copy, PartialEq, Eq, Structural)]
pub struct JobMetrics {
    pub spawned: u64,
    pub completed: u64,
    pub failed: u64,
}

impl JobMetrics {
    pub open spec fn spec_default() -> JobMetrics {
        JobMetrics { spawned: 0, completed: 0, failed: 0 }
    }

    pub fn default() -> (m: JobMetrics)
        ensures
            m == Self::spec_default(),
    {
        JobMetrics { spawned: 0, completed: 0, failed: 0 }
    }
}

/// Streaming notifications emitted by the daemon.
#[derive(Debug, Clone, PartialEq, Eq)]
pub enum DaemonNotification {
    WatchEvent(WatchEventNotification),
    JobEvent(JobEventNotification),
    Log(LogEntry),
    RepoStatus(RepoStatusDetail),
}

/// A filesystem event observed for a registered repository.
#[derive(Debug, Clone, PartialEq, Eq)]
pub struct WatchEventNotification {
    pub repo_path: String,
    pub path: String,
    pub kind: WatchEventKind,
}

#[derive(Debug, Clone, Copy, PartialEq, Eq, Structural)]
pub enum WatchEventKind {
    Created,
    Modified,
    Deleted,
}

/// Lifecycle event for a background job.
#[derive(Debug, Clone, PartialEq, Eq)]
pub struct JobEventNotification {
    pub repo_path: String,
    pub job: JobKind,
    pub kind: JobEventKind,
}

#[derive(Debug, Clone, Copy, PartialEq, Eq, Structural)]
pub enum JobEventKind {
    Queued,
    Started,
    Completed,
    Failed,
}

/// Top-level error used when the CLI fails to talk to the daemon.
#[derive(Debug, Clone, PartialEq, Eq)]
pub enum DaemonError {
    Rejected(String),
    Transport(String),
}

impl DaemonError {
    pub open spec fn spec_message(&self) -> Seq<char> {
        match self {
            DaemonError::Rejected(m) => "daemon rejected command: "@ + m@,
            DaemonError::Transport(m) => "transport error: "@ + m@,
        }
    }

    /// The error's human-readable text.
    pub fn message(&self) -> (s: String)
        ensures
            s@ == self.spec_message(),
    {
        let (prefix, m) = match self {
            DaemonError::Rejected(m) => ("daemon rejected command: ", m),
            DaemonError::Transport(m) => ("transport error: ", m),
        };
        let mut s = String::from_str(prefix);
        s.append(m.as_str());
        s
    }
}

/// Structured log entry emitted by the daemon.
#[derive(Debug, Clone, PartialEq, Eq)]
pub struct LogEntry {
    pub repo_path: String,
    pub message: String,
    pub timestamp: Timestamp,
}

pub struct LogEntryView {
    pub repo_path: Seq<char>,
    pub message: Seq<char>,
    pub timestamp: Timestamp,
}

impl View for LogEntry {
    type V = LogEntryView;

    open spec fn view(&self) -> LogEntryView {
        LogEntryView { repo_path: self.repo_path@, message: self.message@, timestamp: self.timestamp }
    }
}

} // verus!

verus! {

// Abstract values of the messages, with texts as character sequences.

pub struct RepoSummaryView {
    pub repo_path: Seq<char>,
    pub status: RepoStatus,
    pub pending_jobs: usize,
    pub last_event: Option<Timestamp>,
    pub generation: u64,
}

impl View for RepoSummary {
    type V = RepoSummaryView;

    open spec fn view(&self) -> RepoSummaryView {
        RepoSummaryView {
            repo_path: self.repo_path@,
            status: self.status,
            pending_jobs: self.pending_jobs,
            last_event: self.last_event,
            generation: self.generation,
        }
    }
}

pub struct RepoGenerationView {
    pub repo_path: Seq<char>,
    pub generation: u64,
}

impl View for RepoGeneration {
    type V = RepoGenerationView;

    open spec fn view(&self) -> RepoGenerationView {
        RepoGenerationView { repo_path: self.repo_path@, generation: self.generation }
    }
}

pub struct RepoMetricsView {
    pub repo_path: Seq<char>,
    pub pending_jobs: usize,
}

impl View for RepoMetrics {
    type V = RepoMetricsView;

    open spec fn view(&self) -> RepoMetricsView {
        RepoMetricsView { repo_path: self.repo_path@, pending_jobs: self.pending_jobs }
    }
}

/// The abstract value of a repository status or fsmonitor snapshot.
pub struct StatusView {
    pub repo_path: Seq<char>,
    pub dirty_paths: Seq<Seq<char>>,
    pub generation: u64,
}

impl View for RepoStatusDetail {
    type V = StatusView;

    open spec fn view(&self) -> StatusView {
        StatusView {
            repo_path: self.repo_path@,
            dirty_paths: crate::text::names_of(self.dirty_paths@),
            generation: self.generation,
        }
    }
}

impl View for FsMonitorSnapshot {
    type V = StatusView;

    open spec fn view(&self) -> StatusView {
        StatusView {
            repo_path: self.repo_path@,
            dirty_paths: crate::text::names_of(self.dirty_paths@),
            generation: self.generation,
        }
    }
}

pub struct DaemonHealthView {
    pub repo_count: usize,
    pub pending_jobs: usize,
    pub uptime_seconds: u64,
    pub repo_generations: Seq<RepoGenerationView>,
}

impl View for DaemonHealth {
    type V = DaemonHealthView;

    open spec fn view(&self) -> DaemonHealthView {
        DaemonHealthView {
            repo_count: self.repo_count,
            pending_jobs: self.pending_jobs,
            uptime_seconds: self.uptime_seconds,
            repo_generations: self.repo_generations@.map_values(|g: RepoGeneration| g@),
        }
    }
}

pub struct RepoHealthDetailView {
    pub repo_path: Seq<char>,
    pub generation: u64,
    pub pending_jobs: usize,
    pub watcher_active: bool,
    pub last_event: Option<Timestamp>,
    pub dirty_path_count: usize,
    pub sled_ok: bool,
    pub needs_reconciliation: bool,
    pub throttling_active: bool,
    pub next_scheduled_job: Option<Seq<char>>,
}

impl View for RepoHealthDetail {
    type V = RepoHealthDetailView;

    open spec fn view(&self) -> RepoHealthDetailView {
        RepoHealthDetailView {
            repo_path: self.repo_path@,
            generation: self.generation,
            pending_jobs: self.pending_jobs,
            watcher_active: self.watcher_active,
            last_event: self.last_event,
            dirty_path_count: self.dirty_path_count,
            sled_ok: self.sled_ok,
            needs_reconciliation: self.needs_reconciliation,
            throttling_active: self.throttling_active,
            next_scheduled_job: match self.next_scheduled_job {
                Some(j) => Some(j@),
                None => None,
            },
        }
    }
}

pub struct DaemonMetricsView {
    pub jobs: JobCounters,
    pub global: GlobalMetrics,
    pub repos: Seq<RepoMetricsView>,
}

impl View for DaemonMetrics {
    type V = DaemonMetricsView;

    open spec fn view(&self) -> DaemonMetricsView {
        DaemonMetricsView {
            jobs: self.jobs,
            global: self.global,
            repos: self.repos@.map_values(|r: RepoMetrics| r@),
        }
    }
}

pub enum DaemonResponseView {
    Ack(Seq<char>),
    RepoList(Seq<RepoSummaryView>),
    RepoStatus(StatusView),
    RepoStatusUnchanged { repo_path: Seq<char>, generation: u64 },
    Health(DaemonHealthView),
    RepoHealth(RepoHealthDetailView),
    Metrics(DaemonMetricsView),
    FsMonitorSnapshot(StatusView),
    Logs(Seq<LogEntryView>),
    Error(Seq<char>),
}

impl View for DaemonResponse {
    type V = DaemonResponseView;

    open spec fn view(&self) -> DaemonResponseView {
        match self {
            DaemonResponse::Ack(a) => DaemonResponseView::Ack(a.message@),
            DaemonResponse::RepoList(v) => DaemonResponseView::RepoList(
                v@.map_values(|s: RepoSummary| s@),
            ),
            DaemonResponse::RepoStatus(d) => DaemonResponseView::RepoStatus(d@),
            DaemonResponse::RepoStatusUnchanged { repo_path, generation } =>
                DaemonResponseView::RepoStatusUnchanged {
                repo_path: repo_path@,
                generation: *generation,
            },
            DaemonResponse::Health(h) => DaemonResponseView::Health(h@),
            DaemonResponse::RepoHealth(h) => DaemonResponseView::RepoHealth(h@),
            DaemonResponse::Metrics(m) => DaemonResponseView::Metrics(m@),
            DaemonResponse::FsMonitorSnapshot(s) => DaemonResponseView::FsMonitorSnapshot(s@),
            DaemonResponse::Logs(v) => DaemonResponseView::Logs(v@.map_values(|e: LogEntry| e@)),
            DaemonResponse::Error(m) => DaemonResponseView::Error(m@),
        }
    }
}

pub enum NotificationView {
    WatchEvent { repo_path: Seq<char>, path: Seq<char>, kind: WatchEventKind },
    JobEvent { repo_path: Seq<char>, job: JobKind, kind: JobEventKind },
    Log(LogEntryView),
    RepoStatus(StatusView),
}

impl View for DaemonNotification {
    type V = NotificationView;

    open spec fn view(&self) -> NotificationView {
        match self {
            DaemonNotification::WatchEvent(w) => NotificationView::WatchEvent {
                repo_path: w.repo_path@,
                path: w.path@,
                kind: w.kind,
            },
            DaemonNotification::JobEvent(j) => NotificationView::JobEvent {
                repo_path: j.repo_path@,
                job: j.job,
                kind: j.kind,
            },
            DaemonNotification::Log(e) => NotificationView::Log(e@),
            DaemonNotification::RepoStatus(d) => NotificationView::RepoStatus(d@),
        }
    }
}

} // verus!
