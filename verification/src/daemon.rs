//! The daemon's request handling and job queue.
//!
//! [`Daemon::handle`] answers a [`DaemonCommand`]. Where an answer needs work
//! outside the library (touching the repository's Git configuration, running
//! a Git status, sampling process resources, reading persisted logs) it
//! returns a [`HandleStep`] naming that work, and the matching `finish_*`
//! method turns its outcome into the response.
use std::collections::VecDeque;
use vstd::prelude::*;

use crate::ipc::{
    Ack, DaemonCommand, DaemonHealth, DaemonMetrics, DaemonNotification, DaemonResponse, DaemonResponseView,
    FsMonitorSnapshot, GlobalMetrics, JobCounters, JobEventKind, JobEventNotification, JobKind,
    LogEntry, LogEntryView, NotificationView, RepoGeneration, RepoGenerationView, RepoHealthDetail,
    RepoHealthDetailView, RepoMetrics, RepoMetricsView, RepoStatusDetail, RepoSummary,
    RepoSummaryView, StatusView, Timestamp, WatchEventKind as IpcWatchEventKind,
    WatchEventNotification,
};
use crate::logbook::{entries_for, spec_recent, LogBook, LogRecordView};
use crate::metrics::{can_bump, spec_bump, JobCounter, MetricsRegistry};
use crate::pathname::{is_git_internal_path, relative_path, spec_is_git_internal, spec_relative_path};
use crate::watch::{WatchEvent, WatchEventKind};
use crate::storage::{
    fresh_metadata, spec_mark_dirty, spec_next_generation, spec_with_jobs, MetadataStore,
    RepoMetadata, RepoMetadataView, StorageError,
};
use crate::text::names_of;

verus! {

broadcast use vstd::string::group_string_axioms;

/// A job waiting in the scheduler.
#[derive(Debug, Clone)]
pub struct QueuedJob {
    pub repo_path: String,
    pub kind: JobKind,
}

impl View for QueuedJob {
    type V = (Seq<char>, JobKind);

    open spec fn view(&self) -> (Seq<char>, JobKind) {
        (self.repo_path@, self.kind)
    }
}

/// FIFO queue of background jobs.
pub struct Scheduler {
    queue: VecDeque<QueuedJob>,
}

impl Scheduler {
    pub closed spec fn jobs(&self) -> Seq<(Seq<char>, JobKind)> {
        self.queue@.map_values(|j: QueuedJob| j@)
    }

    pub fn new() -> (s: Scheduler)
        ensures
            s.jobs() == Seq::<(Seq<char>, JobKind)>::empty(),
    {
        let s = Scheduler { queue: VecDeque::new() };
        assert(s.jobs() =~= Seq::<(Seq<char>, JobKind)>::empty());
        s
    }

    pub fn enqueue(&mut self, repo_path: String, job: JobKind)
        ensures
            final(self).jobs() == old(self).jobs().push((repo_path@, job)),
    {
        let j = QueuedJob { repo_path, kind: job };
        self.queue.push_back(j);
        assert(self.jobs() =~= old(self).jobs().push(j@));
    }

    /// Puts a job ahead of every job already queued.
    pub fn enqueue_front(&mut self, repo_path: String, job: JobKind)
        ensures
            final(self).jobs() == seq![(repo_path@, job)] + old(self).jobs(),
    {
        let j = QueuedJob { repo_path, kind: job };
        self.queue.push_front(j);
        assert(self.jobs() =~= seq![j@] + old(self).jobs());
    }

    pub fn len(&self) -> (n: usize)
        ensures
            n == self.jobs().len(),
    {
        self.queue.len()
    }

    /// Removes and returns the oldest job.
    pub fn next_job(&mut self) -> (j: Option<QueuedJob>)
        ensures
            old(self).jobs().len() == 0 ==> j is None && final(self).jobs() == old(self).jobs(),
            old(self).jobs().len() > 0 ==> (j matches Some(x) && x@ == old(self).jobs()[0])
                && final(self).jobs() == old(self).jobs().drop_first(),
    {
        let r = self.queue.pop_front();
        assert(self.jobs() =~= (if old(self).jobs().len() > 0 {
            old(self).jobs().drop_first()
        } else {
            old(self).jobs()
        }));
        r
    }
}

/// What [`Daemon::handle`] needs next.
#[derive(Debug)]
pub enum HandleStep {
    /// The command is answered.
    Reply(DaemonResponse),
    /// Apply the performance settings to the repository's Git configuration,
    /// then call [`Daemon::finish_configure`].
    ConfigureRepo { repo_path: String, fsmonitor_helper: Option<String> },
    /// Remove the performance settings, then call [`Daemon::finish_clear`].
    ClearRepoConfig { repo_path: String },
    /// Ask Git which of `paths` (all paths when empty) are dirty, then call
    /// [`Daemon::finish_status`].
    WorkingTreeStatus { repo_path: String, paths: Vec<String>, generation: u64 },
    /// Sample the process's CPU and memory use, then call
    /// [`Daemon::finish_metrics`].
    CollectResources,
    /// Nothing was logged in memory for the repository; read the persisted
    /// log entries instead.
    LoadPersistedLogs { repo_path: String, limit: usize },
}

pub enum HandleStepView {
    Reply(DaemonResponseView),
    ConfigureRepo { repo_path: Seq<char>, fsmonitor_helper: Option<Seq<char>> },
    ClearRepoConfig { repo_path: Seq<char> },
    WorkingTreeStatus { repo_path: Seq<char>, paths: Seq<Seq<char>>, generation: u64 },
    CollectResources,
    LoadPersistedLogs { repo_path: Seq<char>, limit: usize },
}

pub open spec fn opt_view(o: Option<String>) -> Option<Seq<char>> {
    match o {
        Some(s) => Some(s@),
        None => None,
    }
}

impl View for HandleStep {
    type V = HandleStepView;

    open spec fn view(&self) -> HandleStepView {
        match self {
            HandleStep::Reply(r) => HandleStepView::Reply(r@),
            HandleStep::ConfigureRepo { repo_path, fsmonitor_helper } =>
                HandleStepView::ConfigureRepo {
                repo_path: repo_path@,
                fsmonitor_helper: opt_view(*fsmonitor_helper),
            },
            HandleStep::ClearRepoConfig { repo_path } => HandleStepView::ClearRepoConfig {
                repo_path: repo_path@,
            },
            HandleStep::WorkingTreeStatus { repo_path, paths, generation } =>
                HandleStepView::WorkingTreeStatus {
                repo_path: repo_path@,
                paths: names_of(paths@),
                generation: *generation,
            },
            HandleStep::CollectResources => HandleStepView::CollectResources,
            HandleStep::LoadPersistedLogs { repo_path, limit } =>
                HandleStepView::LoadPersistedLogs { repo_path: repo_path@, limit: *limit },
        }
    }
}

/// The parts of the daemon's state that commands change.
pub struct DaemonState {
    pub repos: Map<Seq<char>, RepoMetadataView>,
    pub queue: Seq<(Seq<char>, JobKind)>,
    pub outbox: Seq<NotificationView>,
}

pub open spec fn summary_of(m: RepoMetadataView) -> RepoSummaryView {
    RepoSummaryView {
        repo_path: m.repo_path,
        status: m.status,
        pending_jobs: m.pending_jobs,
        last_event: m.last_event,
        generation: m.generation,
    }
}

/// `v` holds the summary of each registered repository exactly once.
pub open spec fn lists_summaries(repos: Map<Seq<char>, RepoMetadataView>, v: Seq<RepoSummaryView>) -> bool {
    &&& v.len() == repos.dom().len()
    &&& forall|i: int|
        0 <= i < v.len() ==> repos.contains_key(#[trigger] v[i].repo_path) && v[i] == summary_of(
            repos[v[i].repo_path],
        )
    &&& forall|i: int, j: int|
        0 <= i < v.len() && 0 <= j < v.len() && i != j ==> #[trigger] v[i].repo_path
            != #[trigger] v[j].repo_path
}

/// `v` holds the generation of each registered repository exactly once.
pub open spec fn lists_generations(repos: Map<Seq<char>, RepoMetadataView>, v: Seq<RepoGenerationView>) -> bool {
    &&& v.len() == repos.dom().len()
    &&& forall|i: int|
        0 <= i < v.len() ==> repos.contains_key(#[trigger] v[i].repo_path) && v[i].generation
            == repos[v[i].repo_path].generation
    &&& forall|i: int, j: int|
        0 <= i < v.len() && 0 <= j < v.len() && i != j ==> #[trigger] v[i].repo_path
            != #[trigger] v[j].repo_path
}

/// `v` holds the queue depth of each registered repository exactly once.
pub open spec fn lists_queue_depths(repos: Map<Seq<char>, RepoMetadataView>, v: Seq<RepoMetricsView>) -> bool {
    &&& v.len() == repos.dom().len()
    &&& forall|i: int|
        0 <= i < v.len() ==> repos.contains_key(#[trigger] v[i].repo_path) && v[i].pending_jobs
            == repos[v[i].repo_path].pending_jobs
    &&& forall|i: int, j: int|
        0 <= i < v.len() && 0 <= j < v.len() && i != j ==> #[trigger] v[i].repo_path
            != #[trigger] v[j].repo_path
}

pub open spec fn not_registered(p: Seq<char>) -> Seq<char> {
    "repository not registered: "@ + p
}

/// The name `{:?}` gives a job kind.
pub open spec fn job_debug_name(job: JobKind) -> Seq<char> {
    match job {
        JobKind::Prefetch => "Prefetch"@,
        JobKind::Maintenance => "Maintenance"@,
    }
}

/// Job messages name the job's own kind, and the two kinds differently.
pub proof fn lemma_job_debug_name(a: JobKind, b: JobKind)
    ensures
        job_debug_name(a) == job_debug_name(b) ==> a == b,
        (job_debug_name(a) == "Prefetch"@) <==> (a == JobKind::Prefetch),
        (job_debug_name(a) == "Maintenance"@) <==> (a == JobKind::Maintenance),
{
    reveal_strlit("Prefetch");
    reveal_strlit("Maintenance");
    assert("Prefetch"@.len() != "Maintenance"@.len());
}

/// The paths outside the `.git` directory, in order.
pub open spec fn spec_filter_working_tree(paths: Seq<Seq<char>>) -> Seq<Seq<char>>
    decreases paths.len(),
{
    if paths.len() == 0 {
        Seq::empty()
    } else {
        let rest = spec_filter_working_tree(paths.drop_last());
        if spec_is_git_internal(paths.last()) {
            rest
        } else {
            rest.push(paths.last())
        }
    }
}

pub open spec fn health_of(p: Seq<char>, m: RepoMetadataView) -> RepoHealthDetailView {
    RepoHealthDetailView {
        repo_path: p,
        generation: m.generation,
        pending_jobs: m.pending_jobs,
        watcher_active: true,
        last_event: m.last_event,
        dirty_path_count: m.dirty_paths.len() as usize,
        sled_ok: true,
        needs_reconciliation: match m.needs_reconciliation {
            Some(b) => b,
            None => false,
        },
        throttling_active: false,
        next_scheduled_job: None,
    }
}

/// A repository's health report gives the state booked for it: its path,
/// generation, pending jobs and last event, whether it awaits
/// reconciliation, and how many paths are dirty (as many as a snapshot
/// would hand out before draining them). Every sequence in memory has at
/// most `usize::MAX` elements.
pub proof fn lemma_health_reports_metadata(p: Seq<char>, m: RepoMetadataView)
    requires
        m.dirty_paths.len() <= usize::MAX,
    ensures
        health_of(p, m).repo_path == p,
        health_of(p, m).generation == m.generation,
        health_of(p, m).pending_jobs == m.pending_jobs,
        health_of(p, m).last_event == m.last_event,
        health_of(p, m).dirty_path_count == m.dirty_paths.len(),
        health_of(p, m).needs_reconciliation == (m.needs_reconciliation == Some(true)),
{
}

/// The outbox after a notification, when notifications are enabled.
pub open spec fn notify(outbox: Seq<NotificationView>, enabled: bool, n: NotificationView) -> Seq<
    NotificationView,
> {
    if enabled {
        outbox.push(n)
    } else {
        outbox
    }
}

/// How the answer to `command` relates the state before it (`pre`) to the
/// state after it (`post`) and to the returned step.
pub open spec fn handle_post(
    pre: DaemonState,
    post: DaemonState,
    notifying: bool,
    helper: Option<Seq<char>>,
    logs: Map<Seq<char>, Seq<LogRecordView>>,
    command: DaemonCommand,
    now: Timestamp,
    uptime_seconds: u64,
    step: HandleStepView,
) -> bool {
    let unchanged = post == pre;
    match command {
        DaemonCommand::RegisterRepo { repo_path } => {
            let p = repo_path@;
            &&& post.queue == pre.queue
            &&& post.outbox == pre.outbox
            &&& post.repos == if pre.repos.contains_key(p) {
                pre.repos
            } else {
                pre.repos.insert(p, fresh_metadata(p, now))
            }
            &&& step == HandleStepView::ConfigureRepo { repo_path: p, fsmonitor_helper: helper }
        },
        DaemonCommand::UnregisterRepo { repo_path } => {
            let p = repo_path@;
            &&& post.queue == pre.queue
            &&& post.outbox == pre.outbox
            &&& post.repos == pre.repos.remove(p)
            &&& step == if pre.repos.contains_key(p) {
                HandleStepView::ClearRepoConfig { repo_path: p }
            } else {
                HandleStepView::Reply(DaemonResponseView::Error(not_registered(p)))
            }
        },
        DaemonCommand::ListRepos => unchanged && (step matches HandleStepView::Reply(
            DaemonResponseView::RepoList(v),
        ) && lists_summaries(pre.repos, v)),
        DaemonCommand::Status { repo_path, known_generation } => {
            let p = repo_path@;
            &&& post.queue == pre.queue
            &&& post.outbox == pre.outbox
            &&& if !pre.repos.contains_key(p) {
                post.repos == pre.repos && step == HandleStepView::Reply(
                    DaemonResponseView::Error(not_registered(p)),
                )
            } else {
                let m = pre.repos[p];
                let cleared = RepoMetadataView { dirty_paths: Seq::empty(), ..m };
                if m.dirty_paths.len() == 0 && known_generation == Some(m.generation) {
                    &&& post.repos == pre.repos.insert(p, cleared)
                    &&& step == HandleStepView::Reply(
                        DaemonResponseView::RepoStatusUnchanged {
                            repo_path: p,
                            generation: m.generation,
                        },
                    )
                } else {
                    let g = spec_next_generation(m.generation);
                    &&& post.repos == pre.repos.insert(
                        p,
                        RepoMetadataView { generation: g, ..cleared },
                    )
                    &&& step == HandleStepView::WorkingTreeStatus {
                        repo_path: p,
                        paths: m.dirty_paths,
                        generation: g,
                    }
                }
            }
        },
        DaemonCommand::QueueJob { repo_path, job, immediate } => {
            let p = repo_path@;
            &&& post.queue == (if immediate {
                seq![(p, job)] + pre.queue
            } else {
                pre.queue.push((p, job))
            })
            &&& post.outbox == notify(
                pre.outbox,
                notifying,
                NotificationView::JobEvent { repo_path: p, job, kind: JobEventKind::Queued },
            )
            &&& if pre.repos.contains_key(p) {
                &&& post.repos == pre.repos.insert(p, spec_with_jobs(pre.repos[p], 1))
                &&& step == HandleStepView::Reply(
                    DaemonResponseView::Ack("queued "@ + job_debug_name(job)),
                )
            } else {
                &&& post.repos == pre.repos
                &&& step == HandleStepView::Reply(DaemonResponseView::Error(not_registered(p)))
            }
        },
        DaemonCommand::HealthCheck => unchanged && (step matches HandleStepView::Reply(
            DaemonResponseView::Health(h),
        ) && h.repo_count == pre.repos.dom().len() && h.pending_jobs == pre.queue.len()
            && h.uptime_seconds == uptime_seconds && lists_generations(
            pre.repos,
            h.repo_generations,
        )),
        DaemonCommand::Metrics => unchanged && step == HandleStepView::CollectResources,
        DaemonCommand::FsMonitorSnapshot { repo_path, last_seen_generation } => {
            let p = repo_path@;
            &&& post.queue == pre.queue
            &&& post.outbox == pre.outbox
            &&& if !pre.repos.contains_key(p) {
                post.repos == pre.repos && step == HandleStepView::Reply(
                    DaemonResponseView::Error(not_registered(p)),
                )
            } else {
                let m = pre.repos[p];
                let cleared = RepoMetadataView { dirty_paths: Seq::empty(), ..m };
                if m.dirty_paths.len() == 0 && last_seen_generation == Some(m.generation) {
                    &&& post.repos == pre.repos.insert(p, cleared)
                    &&& step == HandleStepView::Reply(
                        DaemonResponseView::FsMonitorSnapshot(
                            StatusView {
                                repo_path: p,
                                dirty_paths: Seq::empty(),
                                generation: m.generation,
                            },
                        ),
                    )
                } else {
                    let g = spec_next_generation(m.generation);
                    &&& post.repos == pre.repos.insert(
                        p,
                        RepoMetadataView { generation: g, ..cleared },
                    )
                    &&& step == HandleStepView::Reply(
                        DaemonResponseView::FsMonitorSnapshot(
                            StatusView {
                                repo_path: p,
                                dirty_paths: spec_filter_working_tree(m.dirty_paths),
                                generation: g,
                            },
                        ),
                    )
                }
            }
        },
        DaemonCommand::FetchLogs { repo_path, limit } => {
            let p = repo_path@;
            &&& unchanged
            &&& step == if logs.contains_key(p) {
                HandleStepView::Reply(
                    DaemonResponseView::Logs(entries_for(p, spec_recent(logs[p], limit))),
                )
            } else {
                HandleStepView::LoadPersistedLogs { repo_path: p, limit }
            }
        },
        DaemonCommand::RepoHealth { repo_path } => {
            let p = repo_path@;
            &&& unchanged
            &&& step == HandleStepView::Reply(
                if pre.repos.contains_key(p) {
                    DaemonResponseView::RepoHealth(health_of(p, pre.repos[p]))
                } else {
                    DaemonResponseView::Error(not_registered(p))
                },
            )
        },
        DaemonCommand::Shutdown => unchanged && step == HandleStepView::Reply(
            DaemonResponseView::Ack("shutdown requested"@),
        ),
    }
}

/// Core daemon logic. IPC layers wrap this struct.
pub struct Daemon<S: MetadataStore> {
    store: S,
    scheduler: Scheduler,
    metrics: MetricsRegistry,
    notifications_enabled: bool,
    outbox: Vec<DaemonNotification>,
    fsmonitor_helper: Option<String>,
    logs: LogBook,
}

impl<S: MetadataStore> Daemon<S> {
    pub closed spec fn state(&self) -> DaemonState {
        DaemonState {
            repos: self.store.repos(),
            queue: self.scheduler.jobs(),
            outbox: self.outbox@.map_values(|n: DaemonNotification| n@),
        }
    }

    /// The store never fails; the contracts that depend on what the store
    /// returns are stated for such a store.
    pub closed spec fn reliable(&self) -> bool {
        self.store.infallible()
    }

    pub closed spec fn notifying(&self) -> bool {
        self.notifications_enabled
    }

    pub closed spec fn helper(&self) -> Option<Seq<char>> {
        opt_view(self.fsmonitor_helper)
    }

    pub closed spec fn logs(&self) -> Map<Seq<char>, Seq<LogRecordView>> {
        self.logs.logs()
    }

    pub closed spec fn log_capacity(&self) -> usize {
        self.logs.spec_capacity()
    }

    pub closed spec fn counters(&self) -> JobCounters {
        self.metrics.counters()
    }

    /// A daemon without notifications or fsmonitor helper, keeping the last
    /// 200 log messages of each repository.
    pub fn new(store: S) -> (d: Daemon<S>)
        ensures
            d.state() == (DaemonState {
                repos: store.repos(),
                queue: Seq::empty(),
                outbox: Seq::empty(),
            }),
            !d.notifying(),
            d.helper() is None,
            d.logs() == Map::<Seq<char>,
            Seq<LogRecordView>>::empty(),
            d.log_capacity() == 200,
            d.counters().prefetch is None && d.counters().maintenance is None,
            d.reliable() == store.infallible(),
    {
        Self::with_components(store, MetricsRegistry::default(), false, None, LogBook::new(200))
    }

    pub fn with_metrics(store: S, metrics: MetricsRegistry) -> (d: Daemon<S>)
        ensures
            d.state() == (DaemonState {
                repos: store.repos(),
                queue: Seq::empty(),
                outbox: Seq::empty(),
            }),
            !d.notifying(),
            d.helper() is None,
            d.logs() == Map::<Seq<char>,
            Seq<LogRecordView>>::empty(),
            d.log_capacity() == 200,
            d.counters() == metrics.counters(),
            d.reliable() == store.infallible(),
    {
        Self::with_components(store, metrics, false, None, LogBook::new(200))
    }

    /// `notifications` turns the outbox on: notable events are queued in it
    /// for [`Daemon::take_notifications`].
    pub fn with_components(
        store: S,
        metrics: MetricsRegistry,
        notifications: bool,
        fsmonitor_helper: Option<String>,
        logs: LogBook,
    ) -> (d: Daemon<S>)
        ensures
            d.state() == (DaemonState {
                repos: store.repos(),
                queue: Seq::empty(),
                outbox: Seq::empty(),
            }),
            d.notifying() == notifications,
            d.helper() == opt_view(fsmonitor_helper),
            d.logs() == logs.logs(),
            d.log_capacity() == logs.spec_capacity(),
            d.counters() == metrics.counters(),
            d.reliable() == store.infallible(),
    {
        let d = Daemon {
            store,
            scheduler: Scheduler::new(),
            metrics,
            notifications_enabled: notifications,
            outbox: Vec::new(),
            fsmonitor_helper,
            logs,
        };
        assert(d.state().outbox =~= Seq::<NotificationView>::empty());
        d
    }

    fn push_notification(&mut self, n: DaemonNotification)
        ensures
            final(self).state() == (DaemonState {
                outbox: notify(old(self).state().outbox, old(self).notifying(), n@),
                ..old(self).state()
            }),
            final(self).notifying() == old(self).notifying(),
            final(self).helper() == old(self).helper(),
            final(self).logs() == old(self).logs(),
            final(self).log_capacity() == old(self).log_capacity(),
            final(self).counters() == old(self).counters(),
            final(self).reliable() == old(self).reliable(),
    {
        if self.notifications_enabled {
            self.outbox.push(n);
            assert(self.state().outbox =~= old(self).state().outbox.push(n@));
        }
    }

    /// Answers `command`; `now` is the current time and `uptime_seconds` the
    /// time since the daemon started.
    pub fn handle(&mut self, command: DaemonCommand, now: Timestamp, uptime_seconds: u64) -> (step: HandleStep)
        ensures
            old(self).reliable() ==> (handle_post(
                old(self).state(),
                final(self).state(),
                old(self).notifying(),
                old(self).helper(),
                old(self).logs(),
                command,
                now,
                uptime_seconds,
                step@,
            )),
            final(self).notifying() == old(self).notifying(),
            final(self).helper() == old(self).helper(),
            final(self).logs() == old(self).logs(),
            final(self).log_capacity() == old(self).log_capacity(),
            final(self).counters() == old(self).counters(),
            final(self).reliable() == old(self).reliable(),
    {
        match command {
            DaemonCommand::RegisterRepo { repo_path } => {
                let ghost p = repo_path@;
                let r = self.store.register_repo(repo_path.clone(), now);
                match r {
                    Ok(_) => HandleStep::ConfigureRepo {
                        repo_path,
                        fsmonitor_helper: clone_opt(&self.fsmonitor_helper),
                    },
                    Err(e) => HandleStep::Reply(err_response(&e)),
                }
            },
            DaemonCommand::UnregisterRepo { repo_path } => {
                match self.store.unregister_repo(&repo_path) {
                    Ok(Some(_)) => HandleStep::ClearRepoConfig { repo_path },
                    Ok(None) => HandleStep::Reply(
                        DaemonResponse::Error(not_registered_message(&repo_path)),
                    ),
                    Err(e) => HandleStep::Reply(err_response(&e)),
                }
            },
            DaemonCommand::ListRepos => {
                match self.store.list_repos() {
                    Ok(repos) => HandleStep::Reply(DaemonResponse::RepoList(summaries(repos))),
                    Err(e) => HandleStep::Reply(err_response(&e)),
                }
            },
            DaemonCommand::Status { repo_path, known_generation } => {
                let ghost pre_repos = self.store.repos();
                let current_generation = match self.store.current_generation(&repo_path) {
                    Ok(g) => g,
                    Err(e) => return HandleStep::Reply(err_response(&e)),
                };
                let dirty_paths = match self.store.drain_dirty_paths(&repo_path) {
                    Ok(paths) => paths,
                    Err(e) => return HandleStep::Reply(err_response(&e)),
                };
                let unchanged = match known_generation {
                    Some(g) => g == current_generation,
                    None => false,
                };
                if dirty_paths.len() == 0 && unchanged {
                    return HandleStep::Reply(
                        DaemonResponse::RepoStatusUnchanged {
                            repo_path,
                            generation: current_generation,
                        },
                    );
                }
                let generation = match self.store.bump_generation(&repo_path) {
                    Ok(g) => g,
                    Err(e) => return HandleStep::Reply(err_response(&e)),
                };
                proof {
                    if self.store.infallible() {
                        let m = pre_repos[repo_path@];
                        assert(self.store.repos() =~= pre_repos.insert(
                            repo_path@,
                            RepoMetadataView {
                                generation: spec_next_generation(m.generation),
                                dirty_paths: Seq::empty(),
                                ..m
                            },
                        ));
                    }
                }
                HandleStep::WorkingTreeStatus { repo_path, paths: dirty_paths, generation }
            },
            DaemonCommand::QueueJob { repo_path, job, immediate } => {
                if immediate {
                    self.scheduler.enqueue_front(repo_path.clone(), job);
                } else {
                    self.scheduler.enqueue(repo_path.clone(), job);
                }
                self.push_notification(
                    DaemonNotification::JobEvent(
                        JobEventNotification {
                            repo_path: repo_path.clone(),
                            job,
                            kind: JobEventKind::Queued,
                        },
                    ),
                );
                match self.store.increment_jobs(&repo_path, 1) {
                    Ok(_) => {
                        let mut message = String::from_str("queued ");
                        message.append(job_debug_str(job));
                        HandleStep::Reply(DaemonResponse::Ack(Ack::new(message)))
                    },
                    Err(e) => HandleStep::Reply(err_response(&e)),
                }
            },
            DaemonCommand::HealthCheck => {
                match self.store.list_repos() {
                    Ok(repos) => {
                        let repo_count = repos.len();
                        let generations = generations(repos);
                        HandleStep::Reply(
                            DaemonResponse::Health(
                                DaemonHealth {
                                    repo_count,
                                    pending_jobs: self.scheduler.len(),
                                    uptime_seconds,
                                    repo_generations: generations,
                                },
                            ),
                        )
                    },
                    Err(e) => HandleStep::Reply(err_response(&e)),
                }
            },
            DaemonCommand::Metrics => HandleStep::CollectResources,
            DaemonCommand::FsMonitorSnapshot { repo_path, last_seen_generation } => {
                let ghost pre_repos = self.store.repos();
                let current_generation = match self.store.current_generation(&repo_path) {
                    Ok(g) => g,
                    Err(e) => return HandleStep::Reply(err_response(&e)),
                };
                let dirty_paths = match self.store.drain_dirty_paths(&repo_path) {
                    Ok(paths) => paths,
                    Err(e) => return HandleStep::Reply(err_response(&e)),
                };
                let unchanged = match last_seen_generation {
                    Some(g) => g == current_generation,
                    None => false,
                };
                if dirty_paths.len() == 0 && unchanged {
                    let snapshot = FsMonitorSnapshot {
                        repo_path,
                        dirty_paths: Vec::new(),
                        generation: current_generation,
                    };
                    assert(snapshot@.dirty_paths =~= Seq::<Seq<char>>::empty());
                    return HandleStep::Reply(DaemonResponse::FsMonitorSnapshot(snapshot));
                }
                let generation = match self.store.bump_generation(&repo_path) {
                    Ok(g) => g,
                    Err(e) => return HandleStep::Reply(err_response(&e)),
                };
                proof {
                    if self.store.infallible() {
                        let m = pre_repos[repo_path@];
                        assert(self.store.repos() =~= pre_repos.insert(
                            repo_path@,
                            RepoMetadataView {
                                generation: spec_next_generation(m.generation),
                                dirty_paths: Seq::empty(),
                                ..m
                            },
                        ));
                    }
                }
                let working_tree_paths = filter_working_tree_paths(dirty_paths);
                HandleStep::Reply(
                    DaemonResponse::FsMonitorSnapshot(
                        FsMonitorSnapshot { repo_path, dirty_paths: working_tree_paths, generation },
                    ),
                )
            },
            DaemonCommand::FetchLogs { repo_path, limit } => {
                match self.logs.recent(&repo_path, limit) {
                    Some(entries) => HandleStep::Reply(DaemonResponse::Logs(entries)),
                    None => HandleStep::LoadPersistedLogs { repo_path, limit },
                }
            },
            DaemonCommand::RepoHealth { repo_path } => HandleStep::Reply(
                self.compute_repo_health(&repo_path),
            ),
            DaemonCommand::Shutdown => HandleStep::Reply(
                DaemonResponse::Ack(Ack::new(String::from_str("shutdown requested"))),
            ),
        }
    }

    /// The health report of `repo_path`.
    pub fn compute_repo_health(&self, repo_path: &String) -> (r: DaemonResponse)
        ensures
            self.reliable() ==> (r@ == if self.state().repos.contains_key(repo_path@) {
                DaemonResponseView::RepoHealth(
                    health_of(repo_path@, self.state().repos[repo_path@]),
                )
            } else {
                DaemonResponseView::Error(not_registered(repo_path@))
            }),
    {
        let meta = match self.store.get_repo(repo_path) {
            Ok(Some(meta)) => meta,
            Ok(None) => return DaemonResponse::Error(not_registered_message(repo_path)),
            Err(e) => return err_response(&e),
        };
        let dirty_path_count = match self.store.dirty_path_count(repo_path) {
            Ok(n) => n,
            Err(_) => 0,
        };
        let needs_reconciliation = match meta.needs_reconciliation {
            Some(b) => b,
            None => false,
        };
        DaemonResponse::RepoHealth(
            RepoHealthDetail {
                repo_path: repo_path.clone(),
                generation: meta.generation,
                pending_jobs: meta.pending_jobs,
                watcher_active: true,
                last_event: meta.last_event,
                dirty_path_count,
                sled_ok: true,
                needs_reconciliation,
                throttling_active: false,
                next_scheduled_job: None,
            },
        )
    }

    /// The answer once Git has been configured for a registered repository.
    pub fn finish_configure(&self, result: Result<(), String>) -> (r: DaemonResponse)
        ensures
            r@ == match result {
                Ok(()) => DaemonResponseView::Ack("registered"@),
                Err(e) => DaemonResponseView::Error("failed to configure repo: "@ + e@),
            },
    {
        match result {
            Ok(()) => DaemonResponse::Ack(Ack::new(String::from_str("registered"))),
            Err(e) => {
                let mut m = String::from_str("failed to configure repo: ");
                m.append(e.as_str());
                DaemonResponse::Error(m)
            },
        }
    }

    /// The answer once the Git configuration of an unregistered repository
    /// has been cleared.
    pub fn finish_clear(&self, result: Result<(), String>) -> (r: DaemonResponse)
        ensures
            r@ == match result {
                Ok(()) => DaemonResponseView::Ack("unregistered"@),
                Err(e) => DaemonResponseView::Error("failed to clear repo config: "@ + e@),
            },
    {
        match result {
            Ok(()) => DaemonResponse::Ack(Ack::new(String::from_str("unregistered"))),
            Err(e) => {
                let mut m = String::from_str("failed to clear repo config: ");
                m.append(e.as_str());
                DaemonResponse::Error(m)
            },
        }
    }

    /// The answer once Git reported the dirty paths of `repo_path`; a status
    /// notification goes out with it.
    pub fn finish_status(&mut self, repo_path: String, generation: u64, result: Result<Vec<String>, String>) -> (r: DaemonResponse)
        ensures
            match result {
                Ok(paths) => {
                    let detail = StatusView {
                        repo_path: repo_path@,
                        dirty_paths: names_of(paths@),
                        generation,
                    };
                    &&& r@ == DaemonResponseView::RepoStatus(detail)
                    &&& final(self).state() == (DaemonState {
                        outbox: notify(
                            old(self).state().outbox,
                            old(self).notifying(),
                            NotificationView::RepoStatus(detail),
                        ),
                        ..old(self).state()
                    })
                },
                Err(e) => {
                    &&& r@ == DaemonResponseView::Error("git status failed: "@ + e@)
                    &&& final(self).state() == old(self).state()
                },
            },
            final(self).notifying() == old(self).notifying(),
            final(self).helper() == old(self).helper(),
            final(self).logs() == old(self).logs(),
            final(self).log_capacity() == old(self).log_capacity(),
            final(self).counters() == old(self).counters(),
            final(self).reliable() == old(self).reliable(),
    {
        match result {
            Ok(dirty_paths) => {
                let detail = RepoStatusDetail { repo_path, dirty_paths, generation };
                let copy = RepoStatusDetail {
                    repo_path: detail.repo_path.clone(),
                    dirty_paths: crate::text::clone_strings(&detail.dirty_paths),
                    generation,
                };
                self.push_notification(DaemonNotification::RepoStatus(copy));
                DaemonResponse::RepoStatus(detail)
            },
            Err(e) => {
                let mut m = String::from_str("git status failed: ");
                m.append(e.as_str());
                DaemonResponse::Error(m)
            },
        }
    }

    /// The metrics answer, given the process's resource use.
    pub fn finish_metrics(&self, uptime_seconds: u64, cpu_percent_tenths: u64, rss_bytes: u64) -> (r: DaemonResponse)
        ensures
            self.reliable() ==> (r@ matches DaemonResponseView::Metrics(m) && m.jobs == self.counters() && m.global
                == (GlobalMetrics {
                pending_jobs: self.state().queue.len() as usize,
                uptime_seconds,
                cpu_percent_tenths,
                rss_bytes,
            }) && lists_queue_depths(self.state().repos, m.repos)),
    {
        match self.store.list_repos() {
            Ok(repos) => {
                let mut snapshot = self.metrics.snapshot();
                snapshot.global = GlobalMetrics {
                    pending_jobs: self.scheduler.len(),
                    uptime_seconds,
                    cpu_percent_tenths,
                    rss_bytes,
                };
                snapshot.repos = queue_depths(repos);
                DaemonResponse::Metrics(snapshot)
            },
            Err(e) => err_response(&e),
        }
    }

    /// Removes and returns the oldest queued job.
    pub fn next_job(&mut self) -> (j: Option<QueuedJob>)
        ensures
            old(self).state().queue.len() == 0 ==> j is None && final(self).state() == old(
                self,
            ).state(),
            old(self).state().queue.len() > 0 ==> (j matches Some(x) && x@ == old(
                self,
            ).state().queue[0]) && final(self).state() == (DaemonState {
                queue: old(self).state().queue.drop_first(),
                ..old(self).state()
            }),
            final(self).notifying() == old(self).notifying(),
            final(self).helper() == old(self).helper(),
            final(self).logs() == old(self).logs(),
            final(self).log_capacity() == old(self).log_capacity(),
            final(self).counters() == old(self).counters(),
            final(self).reliable() == old(self).reliable(),
    {
        self.scheduler.next_job()
    }

    /// Books a finished job: one job fewer pending and the time of the last
    /// event set to `now`.
    pub fn mark_job_completed(&mut self, job: &QueuedJob, now: Timestamp)
        ensures
            old(self).reliable() ==> (final(self).state() == (DaemonState {
                repos: if old(self).state().repos.contains_key(job.repo_path@) {
                    old(self).state().repos.insert(
                        job.repo_path@,
                        RepoMetadataView {
                            last_event: Some(now),
                            ..spec_with_jobs(old(self).state().repos[job.repo_path@], -1isize)
                        },
                    )
                } else {
                    old(self).state().repos
                },
                ..old(self).state()
            })),
            final(self).notifying() == old(self).notifying(),
            final(self).helper() == old(self).helper(),
            final(self).logs() == old(self).logs(),
            final(self).log_capacity() == old(self).log_capacity(),
            final(self).counters() == old(self).counters(),
            final(self).reliable() == old(self).reliable(),
    {
        let ghost pre = self.store.repos();
        let _ = self.store.increment_jobs(&job.repo_path, -1);
        let _ = self.store.record_event(&job.repo_path, now);
        proof {
            if self.store.infallible() && pre.contains_key(job.repo_path@) {
                assert(self.store.repos() =~= pre.insert(
                    job.repo_path@,
                    RepoMetadataView {
                        last_event: Some(now),
                        ..spec_with_jobs(pre[job.repo_path@], -1isize)
                    },
                ));
            }
        }
    }

    /// Books a filesystem event under `repo_path`: the time of the last event,
    /// a new generation, and the changed path (relative to the repository) as
    /// dirty.
    pub fn handle_watch_event(&mut self, repo_path: &String, event: &WatchEvent, now: Timestamp)
        ensures
            old(self).reliable() ==> (final(self).state() == (DaemonState {
                repos: if old(self).state().repos.contains_key(repo_path@) {
                    old(self).state().repos.insert(
                        repo_path@,
                        spec_watch_effect(
                            old(self).state().repos[repo_path@],
                            repo_path@,
                            event.path@,
                            event.kind,
                            now,
                        ),
                    )
                } else {
                    old(self).state().repos
                },
                ..old(self).state()
            })),
            final(self).notifying() == old(self).notifying(),
            final(self).helper() == old(self).helper(),
            final(self).logs() == old(self).logs(),
            final(self).log_capacity() == old(self).log_capacity(),
            final(self).counters() == old(self).counters(),
            final(self).reliable() == old(self).reliable(),
    {
        let ghost pre = self.store.repos();
        let _ = self.store.record_event(repo_path, now);
        let _ = self.store.bump_generation(repo_path);
        if should_track(event.kind) {
            match relative_path(repo_path, &event.path) {
                Some(relative) => {
                    let _ = self.store.mark_dirty_path(repo_path, relative);
                },
                None => {},
            }
        } else if event.kind == WatchEventKind::Deleted {
            let _ = self.store.mark_dirty_path(repo_path, String::from_str("."));
        }
        proof {
            if self.store.infallible() && pre.contains_key(repo_path@) {
                assert(self.store.repos() =~= pre.insert(
                    repo_path@,
                    spec_watch_effect(pre[repo_path@], repo_path@, event.path@, event.kind, now),
                ));
            }
        }
    }

    /// The path of every registered repository, each once.
    pub fn repo_paths(&self) -> (v: Vec<String>)
        ensures
            self.reliable() ==> ({
                &&& (v@.len() == self.state().repos.dom().len())
                &&& (forall|i: int| 0 <= i < v@.len() ==> self.state().repos.contains_key(#[trigger] v@[i]@))
                &&& (forall|i: int, j: int|
                    0 <= i < v@.len() && 0 <= j < v@.len() && i != j ==> #[trigger] v@[i]@
                        != #[trigger] v@[j]@)
            }),
    {
        match self.store.list_repos() {
            Ok(repos) => {
                let ghost l = metas(repos@);
                let mut out: Vec<String> = Vec::new();
                let mut i: usize = 0;
                while i < repos.len()
                    invariant
                        i <= repos@.len(),
                        l == metas(repos@),
                        out@.len() == i,
                        forall|k: int| 0 <= k < i ==> #[trigger] out@[k]@ == l[k].repo_path,
                    decreases repos@.len() - i,
                {
                    out.push(repos[i].repo_path.clone());
                    i = i + 1;
                }
                proof {
                    if self.store.infallible() {
                        assert forall|a: int, b: int|
                            0 <= a < out@.len() && 0 <= b < out@.len() && a != b implies #[trigger] out@[a]@
                            != #[trigger] out@[b]@ by {
                            assert(l[a].repo_path != l[b].repo_path);
                        }
                        assert forall|a: int| 0 <= a < out@.len() implies self.state().repos.contains_key(
                            #[trigger] out@[a]@,
                        ) by {
                            assert(out@[a]@ == l[a].repo_path);
                            assert(repos@[a]@.repo_path == l[a].repo_path);
                        }
                    }
                }
                out
            },
            Err(_) => Vec::new(),
        }
    }

    /// Queues a job and announces it, without touching the repository's
    /// pending-job count (idle scheduling does so).
    pub fn schedule_job(&mut self, repo_path: String, kind: JobKind)
        ensures
            final(self).state() == (DaemonState {
                queue: old(self).state().queue.push((repo_path@, kind)),
                outbox: notify(
                    old(self).state().outbox,
                    old(self).notifying(),
                    NotificationView::JobEvent {
                        repo_path: repo_path@,
                        job: kind,
                        kind: JobEventKind::Queued,
                    },
                ),
                ..old(self).state()
            }),
            final(self).notifying() == old(self).notifying(),
            final(self).helper() == old(self).helper(),
            final(self).logs() == old(self).logs(),
            final(self).log_capacity() == old(self).log_capacity(),
            final(self).counters() == old(self).counters(),
            final(self).reliable() == old(self).reliable(),
    {
        self.scheduler.enqueue(repo_path.clone(), kind);
        self.push_notification(
            DaemonNotification::JobEvent(
                JobEventNotification { repo_path, job: kind, kind: JobEventKind::Queued },
            ),
        );
    }

    /// Announces a job lifecycle event.
    pub fn send_job_notification(&mut self, repo_path: &String, job: JobKind, kind: JobEventKind)
        ensures
            final(self).state() == (DaemonState {
                outbox: notify(
                    old(self).state().outbox,
                    old(self).notifying(),
                    NotificationView::JobEvent { repo_path: repo_path@, job, kind },
                ),
                ..old(self).state()
            }),
            final(self).notifying() == old(self).notifying(),
            final(self).helper() == old(self).helper(),
            final(self).logs() == old(self).logs(),
            final(self).log_capacity() == old(self).log_capacity(),
            final(self).counters() == old(self).counters(),
            final(self).reliable() == old(self).reliable(),
    {
        self.push_notification(
            DaemonNotification::JobEvent(
                JobEventNotification { repo_path: repo_path.clone(), job, kind },
            ),
        );
    }

    /// Logs `message` for `repo_path` and announces the entry.
    pub fn record_log(&mut self, repo_path: &String, message: String, now: Timestamp) -> (e: LogEntry)
        ensures
            e@ == (LogEntryView { repo_path: repo_path@, message: message@, timestamp: now }),
            final(self).logs() == old(self).logs().insert(
                repo_path@,
                crate::logbook::spec_append(
                    if old(self).logs().contains_key(repo_path@) {
                        old(self).logs()[repo_path@]
                    } else {
                        Seq::empty()
                    },
                    LogRecordView { timestamp: now, message: message@ },
                    old(self).log_capacity(),
                ),
            ),
            final(self).state() == (DaemonState {
                outbox: notify(old(self).state().outbox, old(self).notifying(), NotificationView::Log(e@)),
                ..old(self).state()
            }),
            final(self).notifying() == old(self).notifying(),
            final(self).helper() == old(self).helper(),
            final(self).log_capacity() == old(self).log_capacity(),
            final(self).counters() == old(self).counters(),
            final(self).reliable() == old(self).reliable(),
    {
        let entry = self.logs.record(repo_path, message, now);
        let copy = LogEntry {
            repo_path: entry.repo_path.clone(),
            message: entry.message.clone(),
            timestamp: entry.timestamp,
        };
        self.push_notification(DaemonNotification::Log(copy));
        entry
    }

    /// Announces a log entry that was already recorded.
    pub fn resend_log_notification(&mut self, entry: LogEntry)
        ensures
            final(self).state() == (DaemonState {
                outbox: notify(old(self).state().outbox, old(self).notifying(), NotificationView::Log(entry@)),
                ..old(self).state()
            }),
            final(self).notifying() == old(self).notifying(),
            final(self).helper() == old(self).helper(),
            final(self).logs() == old(self).logs(),
            final(self).log_capacity() == old(self).log_capacity(),
            final(self).counters() == old(self).counters(),
            final(self).reliable() == old(self).reliable(),
    {
        self.push_notification(DaemonNotification::Log(entry));
    }

    /// Announces a filesystem event; the path is given relative to the
    /// repository when it lies inside it.
    pub fn emit_watch_notification(&mut self, repo_path: &String, event: &WatchEvent)
        ensures
            final(self).state() == (DaemonState {
                outbox: notify(
                    old(self).state().outbox,
                    old(self).notifying(),
                    NotificationView::WatchEvent {
                        repo_path: repo_path@,
                        path: match spec_relative_path(repo_path@, event.path@) {
                            Some(r) => r,
                            None => event.path@,
                        },
                        kind: spec_map_watch_kind(event.kind),
                    },
                ),
                ..old(self).state()
            }),
            final(self).notifying() == old(self).notifying(),
            final(self).helper() == old(self).helper(),
            final(self).logs() == old(self).logs(),
            final(self).log_capacity() == old(self).log_capacity(),
            final(self).counters() == old(self).counters(),
            final(self).reliable() == old(self).reliable(),
    {
        if self.notifications_enabled {
            let path = match relative_path(repo_path, &event.path) {
                Some(r) => r,
                None => event.path.clone(),
            };
            self.push_notification(
                DaemonNotification::WatchEvent(
                    WatchEventNotification {
                        repo_path: repo_path.clone(),
                        path,
                        kind: map_watch_kind(event.kind),
                    },
                ),
            );
        }
    }

    /// The job counters can advance once more for `kind`.
    pub fn can_record_job(&self, kind: JobKind, which: JobCounter) -> (b: bool)
        ensures
            b == can_bump(self.counters().spec_get(kind), which),
    {
        self.metrics.can_record(kind, which)
    }

    /// Advances a job counter.
    pub fn record_job(&mut self, kind: JobKind, which: JobCounter)
        requires
            can_bump(old(self).counters().spec_get(kind), which),
        ensures
            final(self).counters() == old(self).counters().spec_set(
                kind,
                Some(spec_bump(old(self).counters().spec_get(kind), which)),
            ),
            final(self).state() == old(self).state(),
            final(self).notifying() == old(self).notifying(),
            final(self).helper() == old(self).helper(),
            final(self).logs() == old(self).logs(),
            final(self).log_capacity() == old(self).log_capacity(),
            final(self).reliable() == old(self).reliable(),
    {
        match which {
            JobCounter::Spawned => self.metrics.record_job_spawned(kind),
            JobCounter::Completed => self.metrics.record_job_completed(kind),
            JobCounter::Failed => self.metrics.record_job_failed(kind),
        }
    }

    /// A copy of the job counters.
    pub fn metrics_snapshot(&self) -> (m: DaemonMetrics)
        ensures
            m.jobs == self.counters(),
            m.global == GlobalMetrics::spec_default(),
            m.repos@.len() == 0,
    {
        self.metrics.snapshot()
    }

    /// The metadata of `repo_path`, when it is registered.
    pub fn repo_metadata(&self, repo_path: &String) -> (r: Option<RepoMetadata>)
        ensures
            self.reliable() ==> (match r {
                Some(m) => self.state().repos.contains_key(repo_path@) && m@
                    == self.state().repos[repo_path@],
                None => !self.state().repos.contains_key(repo_path@),
            }),
    {
        match self.store.get_repo(repo_path) {
            Ok(Some(m)) => Some(m),
            _ => None,
        }
    }

    /// Flags `repo_path` as needing reconciliation and marks its whole
    /// working tree (`.`) dirty, so the next status request rescans it.
    pub fn mark_for_reconciliation(&mut self, repo_path: &String)
        ensures
            old(self).reliable() ==> (final(self).state() == (DaemonState {
                repos: if old(self).state().repos.contains_key(repo_path@) {
                    old(self).state().repos.insert(
                        repo_path@,
                        spec_reconciled(old(self).state().repos[repo_path@]),
                    )
                } else {
                    old(self).state().repos
                },
                ..old(self).state()
            })),
            final(self).notifying() == old(self).notifying(),
            final(self).helper() == old(self).helper(),
            final(self).logs() == old(self).logs(),
            final(self).log_capacity() == old(self).log_capacity(),
            final(self).counters() == old(self).counters(),
            final(self).reliable() == old(self).reliable(),
    {
        let ghost pre = self.store.repos();
        let _ = self.store.set_needs_reconciliation(repo_path, true);
        let _ = self.store.mark_dirty_path(repo_path, String::from_str("."));
        proof {
            if self.store.infallible() && pre.contains_key(repo_path@) {
                assert(self.store.repos() =~= pre.insert(repo_path@, spec_reconciled(pre[repo_path@])));
            }
        }
    }

    /// Drains the notifications queued since the last call, oldest first.
    pub fn take_notifications(&mut self) -> (v: Vec<DaemonNotification>)
        ensures
            v@.map_values(|n: DaemonNotification| n@) == old(self).state().outbox,
            final(self).state() == (DaemonState { outbox: Seq::empty(), ..old(self).state() }),
            final(self).notifying() == old(self).notifying(),
            final(self).helper() == old(self).helper(),
            final(self).logs() == old(self).logs(),
            final(self).log_capacity() == old(self).log_capacity(),
            final(self).counters() == old(self).counters(),
            final(self).reliable() == old(self).reliable(),
    {
        let mut out: Vec<DaemonNotification> = Vec::new();
        std::mem::swap(&mut out, &mut self.outbox);
        assert(self.state().outbox =~= Seq::<NotificationView>::empty());
        out
    }
}

/// Asking for a repository's status with the generation the previous answer
/// carried, when nothing changed in between, is answered "unchanged" and
/// changes nothing.
pub proof fn lemma_status_token_roundtrip(
    s0: DaemonState,
    s1: DaemonState,
    s2: DaemonState,
    notifying: bool,
    helper: Option<Seq<char>>,
    logs: Map<Seq<char>, Seq<LogRecordView>>,
    first: DaemonCommand,
    second: DaemonCommand,
    now: Timestamp,
    uptime_seconds: u64,
    step1: HandleStepView,
    step2: HandleStepView,
    g: u64,
)
    requires
        first matches DaemonCommand::Status { repo_path: p1, .. } && second matches DaemonCommand::Status {
            repo_path: p2,
            known_generation: Some(k),
        } && p1@ == p2@ && k == g,
        handle_post(s0, s1, notifying, helper, logs, first, now, uptime_seconds, step1),
        (step1 matches HandleStepView::WorkingTreeStatus { generation, .. } && generation == g)
            || (step1 matches HandleStepView::Reply(
            DaemonResponseView::RepoStatusUnchanged { generation, .. },
        ) && generation == g),
        handle_post(s1, s2, notifying, helper, logs, second, now, uptime_seconds, step2),
    ensures
        s2 == s1,
        second matches DaemonCommand::Status { repo_path, .. } && step2 == HandleStepView::Reply(
            DaemonResponseView::RepoStatusUnchanged { repo_path: repo_path@, generation: g },
        ),
{
    if let DaemonCommand::Status { repo_path: p1, .. } = first {
        if let DaemonCommand::Status { repo_path: p2, .. } = second {
            assert(s0.repos.contains_key(p1@));
            assert(s1.repos.contains_key(p2@));
            assert(s1.repos[p2@].dirty_paths.len() == 0);
            assert(s1.repos[p2@].generation == g);
            assert(s2.repos =~= s1.repos);
        }
    }
}

/// The same for fsmonitor snapshots: a snapshot asked for with the
/// generation of the previous one, when nothing changed in between, lists no
/// paths and keeps the generation.
pub proof fn lemma_snapshot_token_roundtrip(
    s0: DaemonState,
    s1: DaemonState,
    s2: DaemonState,
    notifying: bool,
    helper: Option<Seq<char>>,
    logs: Map<Seq<char>, Seq<LogRecordView>>,
    first: DaemonCommand,
    second: DaemonCommand,
    now: Timestamp,
    uptime_seconds: u64,
    step1: HandleStepView,
    step2: HandleStepView,
    g: u64,
)
    requires
        first matches DaemonCommand::FsMonitorSnapshot { repo_path: p1, .. }
            && second matches DaemonCommand::FsMonitorSnapshot {
            repo_path: p2,
            last_seen_generation: Some(k),
        } && p1@ == p2@ && k == g,
        handle_post(s0, s1, notifying, helper, logs, first, now, uptime_seconds, step1),
        step1 matches HandleStepView::Reply(DaemonResponseView::FsMonitorSnapshot(snap))
            && snap.generation == g,
        handle_post(s1, s2, notifying, helper, logs, second, now, uptime_seconds, step2),
    ensures
        s2 == s1,
        second matches DaemonCommand::FsMonitorSnapshot { repo_path, .. } && step2
            == HandleStepView::Reply(
            DaemonResponseView::FsMonitorSnapshot(
                StatusView { repo_path: repo_path@, dirty_paths: Seq::empty(), generation: g },
            ),
        ),
{
    if let DaemonCommand::FsMonitorSnapshot { repo_path: p1, .. } = first {
        if let DaemonCommand::FsMonitorSnapshot { repo_path: p2, .. } = second {
            assert(s0.repos.contains_key(p1@));
            assert(s1.repos.contains_key(p2@));
            assert(s1.repos[p2@].dirty_paths.len() == 0);
            assert(s1.repos[p2@].generation == g);
            assert(s2.repos =~= s1.repos);
        }
    }
}

/// Registering a repository that is already registered changes nothing of
/// its metadata.
pub proof fn lemma_register_idempotent(
    s0: DaemonState,
    s1: DaemonState,
    s2: DaemonState,
    notifying: bool,
    helper: Option<Seq<char>>,
    logs: Map<Seq<char>, Seq<LogRecordView>>,
    command: DaemonCommand,
    now1: Timestamp,
    now2: Timestamp,
    uptime_seconds: u64,
    step1: HandleStepView,
    step2: HandleStepView,
)
    requires
        command is RegisterRepo,
        handle_post(s0, s1, notifying, helper, logs, command, now1, uptime_seconds, step1),
        handle_post(s1, s2, notifying, helper, logs, command, now2, uptime_seconds, step2),
    ensures
        s2 == s1,
        step2 == step1,
{
    if let DaemonCommand::RegisterRepo { repo_path } = command {
        assert(s1.repos.contains_key(repo_path@));
        assert(s2.repos =~= s1.repos);
    }
}

/// After a repository is unregistered, requests about it are answered
/// "not registered".
pub proof fn lemma_unregister_forgets(
    s0: DaemonState,
    s1: DaemonState,
    s2: DaemonState,
    notifying: bool,
    helper: Option<Seq<char>>,
    logs: Map<Seq<char>, Seq<LogRecordView>>,
    unregister: DaemonCommand,
    status: DaemonCommand,
    now: Timestamp,
    uptime_seconds: u64,
    step1: HandleStepView,
    step2: HandleStepView,
)
    requires
        unregister matches DaemonCommand::UnregisterRepo { repo_path: p1 } && status matches DaemonCommand::Status {
            repo_path: p2,
            ..
        } && p1@ == p2@,
        handle_post(s0, s1, notifying, helper, logs, unregister, now, uptime_seconds, step1),
        handle_post(s1, s2, notifying, helper, logs, status, now, uptime_seconds, step2),
    ensures
        !s2.repos.contains_key(
            match unregister {
                DaemonCommand::UnregisterRepo { repo_path } => repo_path@,
                _ => Seq::empty(),
            },
        ),
        status matches DaemonCommand::Status { repo_path, .. } && step2 == HandleStepView::Reply(
            DaemonResponseView::Error(not_registered(repo_path@)),
        ),
{
}

/// A change seen by the watcher inside a registered repository is among
/// the paths the next status request hands to Git.
pub proof fn lemma_watched_change_reported(
    s0: DaemonState,
    s1: DaemonState,
    notifying: bool,
    helper: Option<Seq<char>>,
    logs: Map<Seq<char>, Seq<LogRecordView>>,
    repo_path: Seq<char>,
    event_path: Seq<char>,
    kind: WatchEventKind,
    event_time: Timestamp,
    status: DaemonCommand,
    now: Timestamp,
    uptime_seconds: u64,
    step: HandleStepView,
)
    requires
        s0.repos.contains_key(repo_path),
        spec_relative_path(repo_path, event_path) is Some,
        status matches DaemonCommand::Status { repo_path: p, .. } && p@ == repo_path,
        handle_post(
            DaemonState {
                repos: s0.repos.insert(
                    repo_path,
                    spec_watch_effect(s0.repos[repo_path], repo_path, event_path, kind, event_time),
                ),
                ..s0
            },
            s1,
            notifying,
            helper,
            logs,
            status,
            now,
            uptime_seconds,
            step,
        ),
    ensures
        step matches HandleStepView::WorkingTreeStatus { paths, .. } && paths.contains(
            spec_relative_path(repo_path, event_path)->0,
        ),
{
    let rel = spec_relative_path(repo_path, event_path)->0;
    let m = s0.repos[repo_path];
    let touched = RepoMetadataView { last_event: Some(event_time), ..m };
    let marked = spec_mark_dirty(touched, rel);
    assert(marked.dirty_paths.contains(rel)) by {
        if !touched.dirty_paths.contains(rel) {
            assert(marked.dirty_paths[marked.dirty_paths.len() - 1] == rel);
        }
    }
}

/// The metadata once reconciliation has been scheduled: flagged, with the
/// whole working tree (`.`) dirty.
pub open spec fn spec_reconciled(m: RepoMetadataView) -> RepoMetadataView {
    spec_mark_dirty(RepoMetadataView { needs_reconciliation: Some(true), ..m }, "."@)
}

/// A watched change that marks a path dirty. Every kind the watcher reports
/// does.
pub open spec fn spec_should_track(kind: WatchEventKind) -> bool {
    match kind {
        WatchEventKind::Created | WatchEventKind::Modified | WatchEventKind::Deleted => true,
    }
}

pub fn should_track(kind: WatchEventKind) -> (b: bool)
    ensures
        b == spec_should_track(kind),
{
    match kind {
        WatchEventKind::Created | WatchEventKind::Modified | WatchEventKind::Deleted => true,
    }
}

pub open spec fn spec_map_watch_kind(kind: WatchEventKind) -> IpcWatchEventKind {
    match kind {
        WatchEventKind::Created => IpcWatchEventKind::Created,
        WatchEventKind::Modified => IpcWatchEventKind::Modified,
        WatchEventKind::Deleted => IpcWatchEventKind::Deleted,
    }
}

/// Subscribers hear of each change under the kind the watcher saw: a
/// creation as a creation, a modification as a modification, a deletion as
/// a deletion; distinct kinds are never announced alike.
pub proof fn lemma_map_watch_kind(a: WatchEventKind, b: WatchEventKind)
    ensures
        spec_map_watch_kind(a) == spec_map_watch_kind(b) ==> a == b,
        (spec_map_watch_kind(a) == IpcWatchEventKind::Created) <==> (a == WatchEventKind::Created),
        (spec_map_watch_kind(a) == IpcWatchEventKind::Modified) <==> (a == WatchEventKind::Modified),
        (spec_map_watch_kind(a) == IpcWatchEventKind::Deleted) <==> (a == WatchEventKind::Deleted),
{
}

/// A watched change at a path not yet dirty makes the repository's health
/// report one more dirty path; a change at a path already dirty leaves the
/// count as it was.
pub proof fn lemma_watch_counts_in_health(
    m: RepoMetadataView,
    r: Seq<char>,
    path: Seq<char>,
    kind: WatchEventKind,
    now: Timestamp,
    rel: Seq<char>,
)
    requires
        spec_relative_path(r, path) == Some(rel),
        m.dirty_paths.len() < usize::MAX,
    ensures
        health_of(r, spec_watch_effect(m, r, path, kind, now)).dirty_path_count == health_of(
            r,
            m,
        ).dirty_path_count + (if m.dirty_paths.contains(rel) { 0int } else { 1int }),
{
}

/// The watcher's event kind as announced to subscribers.
pub fn map_watch_kind(kind: WatchEventKind) -> (k: IpcWatchEventKind)
    ensures
        k == spec_map_watch_kind(kind),
{
    match kind {
        WatchEventKind::Created => IpcWatchEventKind::Created,
        WatchEventKind::Modified => IpcWatchEventKind::Modified,
        WatchEventKind::Deleted => IpcWatchEventKind::Deleted,
    }
}

/// The metadata after a watched change at `path` under `repo_path`: the
/// event's time is booked, the generation advances (each filesystem event
/// moves the fsmonitor token on), and the changed path is marked dirty.
pub open spec fn spec_watch_effect(
    m: RepoMetadataView,
    repo_path: Seq<char>,
    path: Seq<char>,
    kind: WatchEventKind,
    now: Timestamp,
) -> RepoMetadataView {
    let touched = RepoMetadataView {
        last_event: Some(now),
        generation: spec_next_generation(m.generation),
        ..m
    };
    if spec_should_track(kind) {
        match spec_relative_path(repo_path, path) {
            Some(rel) => spec_mark_dirty(touched, rel),
            None => touched,
        }
    } else if kind == WatchEventKind::Deleted {
        spec_mark_dirty(touched, "."@)
    } else {
        touched
    }
}

pub fn clone_opt(o: &Option<String>) -> (r: Option<String>)
    ensures
        opt_view(r) == opt_view(*o),
{
    match o {
        Some(s) => Some(s.clone()),
        None => None,
    }
}

/// "repository not registered: <path>"
pub fn not_registered_message(repo_path: &String) -> (s: String)
    ensures
        s@ == not_registered(repo_path@),
{
    let mut s = String::from_str("repository not registered: ");
    s.append(repo_path.as_str());
    s
}

/// An error response carrying the error's text.
pub fn err_response(err: &StorageError) -> (r: DaemonResponse)
    ensures
        r@ == DaemonResponseView::Error(err.spec_message()),
{
    DaemonResponse::Error(err.message())
}

fn job_debug_str(job: JobKind) -> (s: &'static str)
    ensures
        s@ == job_debug_name(job),
{
    match job {
        JobKind::Prefetch => "Prefetch",
        JobKind::Maintenance => "Maintenance",
    }
}

/// The summary of a repository's metadata.
pub fn repo_summary(meta: RepoMetadata) -> (s: RepoSummary)
    ensures
        s@ == summary_of(meta@),
{
    RepoSummary {
        repo_path: meta.repo_path,
        status: meta.status,
        pending_jobs: meta.pending_jobs,
        last_event: meta.last_event,
        generation: meta.generation,
    }
}

pub open spec fn metas(v: Seq<RepoMetadata>) -> Seq<RepoMetadataView> {
    v.map_values(|m: RepoMetadata| m@)
}

/// Summaries of each repository, in the order given.
fn summaries(repos: Vec<RepoMetadata>) -> (v: Vec<RepoSummary>)
    ensures
        v@.map_values(|s: RepoSummary| s@) == metas(repos@).map_values(
            |m: RepoMetadataView| summary_of(m),
        ),
{
    let ghost want = metas(repos@).map_values(|m: RepoMetadataView| summary_of(m));
    let mut out: Vec<RepoSummary> = Vec::new();
    let mut i: usize = 0;
    while i < repos.len()
        invariant
            i <= repos@.len(),
            want == metas(repos@).map_values(|m: RepoMetadataView| summary_of(m)),
            out@.map_values(|s: RepoSummary| s@) =~= want.take(i as int),
        decreases repos@.len() - i,
    {
        let ghost before = out@;
        let s = repo_summary(repos[i].duplicate());
        out.push(s);
        proof {
            assert(want.take(i + 1) =~= want.take(i as int).push(want[i as int]));
            assert(out@.map_values(|s: RepoSummary| s@) =~= before.map_values(|s: RepoSummary| s@).push(s@));
        }
        i = i + 1;
    }
    assert(want.take(repos@.len() as int) =~= want);
    out
}

/// The generation of each repository, in the order given.
fn generations(repos: Vec<RepoMetadata>) -> (v: Vec<RepoGeneration>)
    ensures
        v@.map_values(|g: RepoGeneration| g@) == metas(repos@).map_values(
            |m: RepoMetadataView| RepoGenerationView { repo_path: m.repo_path, generation: m.generation },
        ),
{
    let ghost want = metas(repos@).map_values(
        |m: RepoMetadataView| RepoGenerationView { repo_path: m.repo_path, generation: m.generation },
    );
    let mut out: Vec<RepoGeneration> = Vec::new();
    let mut i: usize = 0;
    while i < repos.len()
        invariant
            i <= repos@.len(),
            want == metas(repos@).map_values(
                |m: RepoMetadataView| RepoGenerationView { repo_path: m.repo_path, generation: m.generation },
            ),
            out@.map_values(|g: RepoGeneration| g@) =~= want.take(i as int),
        decreases repos@.len() - i,
    {
        let ghost before = out@;
        let g = RepoGeneration { repo_path: repos[i].repo_path.clone(), generation: repos[i].generation };
        out.push(g);
        proof {
            assert(want.take(i + 1) =~= want.take(i as int).push(want[i as int]));
            assert(out@.map_values(|g: RepoGeneration| g@) =~= before.map_values(|g: RepoGeneration| g@).push(g@));
        }
        i = i + 1;
    }
    assert(want.take(repos@.len() as int) =~= want);
    out
}

/// The queue depth of each repository, in the order given.
fn queue_depths(repos: Vec<RepoMetadata>) -> (v: Vec<RepoMetrics>)
    ensures
        v@.map_values(|r: RepoMetrics| r@) == metas(repos@).map_values(
            |m: RepoMetadataView| RepoMetricsView { repo_path: m.repo_path, pending_jobs: m.pending_jobs },
        ),
{
    let ghost want = metas(repos@).map_values(
        |m: RepoMetadataView| RepoMetricsView { repo_path: m.repo_path, pending_jobs: m.pending_jobs },
    );
    let mut out: Vec<RepoMetrics> = Vec::new();
    let mut i: usize = 0;
    while i < repos.len()
        invariant
            i <= repos@.len(),
            want == metas(repos@).map_values(
                |m: RepoMetadataView| RepoMetricsView { repo_path: m.repo_path, pending_jobs: m.pending_jobs },
            ),
            out@.map_values(|r: RepoMetrics| r@) =~= want.take(i as int),
        decreases repos@.len() - i,
    {
        let ghost before = out@;
        let r = RepoMetrics { repo_path: repos[i].repo_path.clone(), pending_jobs: repos[i].pending_jobs };
        out.push(r);
        proof {
            assert(want.take(i + 1) =~= want.take(i as int).push(want[i as int]));
            assert(out@.map_values(|r: RepoMetrics| r@) =~= before.map_values(|r: RepoMetrics| r@).push(r@));
        }
        i = i + 1;
    }
    assert(want.take(repos@.len() as int) =~= want);
    out
}

/// The paths outside the `.git` directory; git's fsmonitor protocol only
/// wants working tree paths.
pub fn filter_working_tree_paths(paths: Vec<String>) -> (v: Vec<String>)
    ensures
        names_of(v@) == spec_filter_working_tree(names_of(paths@)),
{
    let ghost all = names_of(paths@);
    let mut out: Vec<String> = Vec::new();
    let mut i: usize = 0;
    while i < paths.len()
        invariant
            i <= paths@.len(),
            all == names_of(paths@),
            names_of(out@) =~= spec_filter_working_tree(all.take(i as int)),
        decreases paths@.len() - i,
    {
        proof {
            assert(all.take(i + 1).drop_last() =~= all.take(i as int));
            assert(all.take(i + 1).last() == paths@[i as int]@);
        }
        if !is_git_internal_path(&paths[i]) {
            let ghost before = out@;
            out.push(paths[i].clone());
            proof {
                assert(names_of(out@) =~= names_of(before).push(paths@[i as int]@));
            }
        }
        i = i + 1;
    }
    assert(all.take(paths@.len() as int) =~= all);
    out
}

} // verus!
