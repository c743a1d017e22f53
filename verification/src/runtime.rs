//! The daemon's background decisions: reconciliation after downtime, idle
//! scheduling of prefetch and maintenance, and the bookkeeping around watch
//! events and jobs. The caller runs the loop, the timers and the jobs
//! themselves; it hands each outcome back here.
//!
//! Monotonic instants are nanoseconds since a fixed point of the caller's
//! choosing; wall-clock times are [`Timestamp`]s.
use vstd::prelude::*;

use crate::daemon::{
    job_debug_name, notify, spec_map_watch_kind, spec_reconciled, spec_watch_effect, Daemon,
    DaemonState, QueuedJob,
};
use crate::ipc::{JobEventKind, JobKind, LogEntryView, NotificationView, Timestamp};
use crate::keyed::{keyed_map, keys_unique, lemma_keyed_dom, lemma_keyed_index, lemma_keyed_push, lemma_keyed_update};
use crate::logbook::{spec_append, LogRecordView};
use crate::metrics::{can_bump, spec_bump, JobCounter};
use crate::pathname::spec_relative_path;
use crate::storage::MetadataStore;
use crate::text::{contains_string, names_of};
use crate::watch::{WatchEvent, WatchEventKind};

verus! {

broadcast use vstd::string::group_string_axioms;

/// Configuration for idle-time scheduling.
#[derive(Debug, Clone, Copy, PartialEq, Eq)]
pub struct IdleScheduleConfig {
    /// Seconds of inactivity before a prefetch is queued.
    pub prefetch_idle_secs: u64,
    /// Seconds of inactivity before maintenance is queued.
    pub maintenance_idle_secs: u64,
    /// Whether idle scheduling runs at all.
    pub enabled: bool,
}

impl Default for IdleScheduleConfig {
    /// Prefetch after five minutes, maintenance after ten.
    fn default() -> (c: Self)
        ensures
            c == (IdleScheduleConfig {
                prefetch_idle_secs: 300,
                maintenance_idle_secs: 600,
                enabled: true,
            }),
    {
        IdleScheduleConfig { prefetch_idle_secs: 300, maintenance_idle_secs: 600, enabled: true }
    }
}

/// Idle bookkeeping of one repository.
#[derive(Debug, Clone, Copy, PartialEq, Eq)]
pub struct RepoIdleState {
    /// Monotonic instant of the last activity, in nanoseconds.
    pub last_activity: u64,
    pub prefetch_scheduled: bool,
    pub maintenance_scheduled: bool,
}

impl RepoIdleState {
    pub open spec fn fresh(now: u64) -> RepoIdleState {
        RepoIdleState { last_activity: now, prefetch_scheduled: false, maintenance_scheduled: false }
    }

    /// Nanoseconds since the last activity; zero if the clock reads earlier.
    pub open spec fn spec_idle(self, now: u64) -> u64 {
        if now >= self.last_activity {
            (now - self.last_activity) as u64
        } else {
            0
        }
    }

    /// Active at `now`, nothing scheduled yet.
    pub fn new(now: u64) -> (s: RepoIdleState)
        ensures
            s == RepoIdleState::fresh(now),
    {
        RepoIdleState { last_activity: now, prefetch_scheduled: false, maintenance_scheduled: false }
    }

    /// Records activity at `now`; idle jobs may be scheduled again.
    pub fn touch(&mut self, now: u64)
        ensures
            *final(self) == RepoIdleState::fresh(now),
    {
        self.last_activity = now;
        self.prefetch_scheduled = false;
        self.maintenance_scheduled = false;
    }

    pub fn idle_duration(&self, now: u64) -> (d: u64)
        ensures
            d == self.spec_idle(now),
    {
        now.saturating_sub(self.last_activity)
    }
}

/// `idle_nanos` is at least `secs` seconds.
pub open spec fn reached(idle_nanos: u64, secs: u64) -> bool {
    idle_nanos as int >= secs as int * 1_000_000_000
}

fn has_reached(idle_nanos: u64, secs: u64) -> (b: bool)
    ensures
        b == reached(idle_nanos, secs),
{
    (idle_nanos as u128) >= (secs as u128) * 1_000_000_000u128
}

/// The jobs an idle check queues for repository `r` in state `st`.
pub open spec fn idle_jobs(cfg: IdleScheduleConfig, r: Seq<char>, st: RepoIdleState, now: u64) -> Seq<
    (Seq<char>, JobKind),
> {
    let idle = st.spec_idle(now);
    let p = if reached(idle, cfg.prefetch_idle_secs) && !st.prefetch_scheduled {
        seq![(r, JobKind::Prefetch)]
    } else {
        Seq::empty()
    };
    let m = if reached(idle, cfg.maintenance_idle_secs) && !st.maintenance_scheduled {
        seq![(r, JobKind::Maintenance)]
    } else {
        Seq::empty()
    };
    p + m
}

/// The state of a repository after an idle check.
pub open spec fn idle_visit(cfg: IdleScheduleConfig, st: RepoIdleState, now: u64) -> RepoIdleState {
    let idle = st.spec_idle(now);
    RepoIdleState {
        prefetch_scheduled: st.prefetch_scheduled || reached(idle, cfg.prefetch_idle_secs),
        maintenance_scheduled: st.maintenance_scheduled || reached(idle, cfg.maintenance_idle_secs),
        ..st
    }
}

/// An idle check over `repos`, in order, starting from the states `old`:
/// the states kept afterwards (those of `repos` only) and the jobs queued.
/// A repository without a state starts out active at `now`.
pub open spec fn idle_fold(
    cfg: IdleScheduleConfig,
    old: Map<Seq<char>, RepoIdleState>,
    repos: Seq<Seq<char>>,
    now: u64,
) -> (Map<Seq<char>, RepoIdleState>, Seq<(Seq<char>, JobKind)>)
    decreases repos.len(),
{
    if repos.len() == 0 {
        (Map::empty(), Seq::empty())
    } else {
        let prev = idle_fold(cfg, old, repos.drop_last(), now);
        let r = repos.last();
        let st = if prev.0.contains_key(r) {
            prev.0[r]
        } else if old.contains_key(r) {
            old[r]
        } else {
            RepoIdleState::fresh(now)
        };
        (prev.0.insert(r, idle_visit(cfg, st, now)), prev.1 + idle_jobs(cfg, r, st, now))
    }
}

/// The logs after `rec` is logged for `r`.
pub open spec fn log_after(
    logs: Map<Seq<char>, Seq<LogRecordView>>,
    r: Seq<char>,
    rec: LogRecordView,
    cap: usize,
) -> Map<Seq<char>, Seq<LogRecordView>> {
    logs.insert(
        r,
        spec_append(
            if logs.contains_key(r) {
                logs[r]
            } else {
                Seq::empty()
            },
            rec,
            cap,
        ),
    )
}

/// What a daemon's state and logs become when `message` is logged for `r`.
pub open spec fn after_log(
    s: (DaemonState, Map<Seq<char>, Seq<LogRecordView>>),
    notifying: bool,
    cap: usize,
    r: Seq<char>,
    message: Seq<char>,
    now: Timestamp,
) -> (DaemonState, Map<Seq<char>, Seq<LogRecordView>>) {
    let entry = LogEntryView { repo_path: r, message, timestamp: now };
    (
        DaemonState { outbox: notify(s.0.outbox, notifying, NotificationView::Log(entry)), ..s.0 },
        log_after(s.1, r, LogRecordView { timestamp: now, message }, cap),
    )
}

/// The log message of an idle job.
pub open spec fn idle_message(k: JobKind) -> Seq<char> {
    match k {
        JobKind::Prefetch => "idle prefetch scheduled"@,
        JobKind::Maintenance => "idle maintenance scheduled"@,
    }
}

/// One idle job queued, announced and logged.
pub open spec fn after_idle_job(
    s: (DaemonState, Map<Seq<char>, Seq<LogRecordView>>),
    notifying: bool,
    cap: usize,
    job: (Seq<char>, JobKind),
    now: Timestamp,
) -> (DaemonState, Map<Seq<char>, Seq<LogRecordView>>) {
    let queued = DaemonState {
        queue: s.0.queue.push(job),
        outbox: notify(
            s.0.outbox,
            notifying,
            NotificationView::JobEvent { repo_path: job.0, job: job.1, kind: JobEventKind::Queued },
        ),
        ..s.0
    };
    after_log((queued, s.1), notifying, cap, job.0, idle_message(job.1), now)
}

pub open spec fn after_idle_jobs(
    s: (DaemonState, Map<Seq<char>, Seq<LogRecordView>>),
    notifying: bool,
    cap: usize,
    jobs: Seq<(Seq<char>, JobKind)>,
    now: Timestamp,
) -> (DaemonState, Map<Seq<char>, Seq<LogRecordView>>)
    decreases jobs.len(),
{
    if jobs.len() == 0 {
        s
    } else {
        after_idle_job(after_idle_jobs(s, notifying, cap, jobs.drop_last(), now), notifying, cap, jobs.last(), now)
    }
}

/// The daemon's state together with its logs.
pub open spec fn snapshot<S: MetadataStore>(d: Daemon<S>) -> (DaemonState, Map<Seq<char>, Seq<LogRecordView>>) {
    (d.state(), d.logs())
}

/// `a` and `b` agree on everything a command cannot change.
pub open spec fn same_settings<S: MetadataStore>(a: Daemon<S>, b: Daemon<S>) -> bool {
    &&& a.notifying() == b.notifying()
    &&& a.helper() == b.helper()
    &&& a.log_capacity() == b.log_capacity()
    &&& a.reliable() == b.reliable()
}

pub open spec fn idle_pairs(v: Seq<(String, RepoIdleState)>) -> Seq<(Seq<char>, RepoIdleState)> {
    v.map_values(|e: (String, RepoIdleState)| (e.0@, e.1))
}

fn find_state(v: &Vec<(String, RepoIdleState)>, key: &String) -> (r: Option<usize>)
    ensures
        match r {
            Some(j) => j < v@.len() && v@[j as int].0@ == key@,
            None => !keyed_map(idle_pairs(v@)).contains_key(key@),
        },
{
    let mut i: usize = 0;
    while i < v.len()
        invariant
            i <= v@.len(),
            forall|k: int| 0 <= k < i ==> #[trigger] v@[k].0@ != key@,
        decreases v@.len() - i,
    {
        if v[i].0 == *key {
            return Some(i);
        }
        i = i + 1;
    }
    proof {
        lemma_keyed_dom(idle_pairs(v@), key@);
        if keyed_map(idle_pairs(v@)).contains_key(key@) {
            let k = choose|k: int| 0 <= k < idle_pairs(v@).len() && #[trigger] idle_pairs(v@)[k].0 == key@;
            assert(v@[k].0@ == key@);
        }
    }
    None
}

/// Stores `st` under `key`, replacing an earlier state.
fn put_state(v: &mut Vec<(String, RepoIdleState)>, key: &String, st: RepoIdleState)
    requires
        keys_unique(idle_pairs(old(v)@)),
    ensures
        keys_unique(idle_pairs(final(v)@)),
        keyed_map(idle_pairs(final(v)@)) == keyed_map(idle_pairs(old(v)@)).insert(key@, st),
{
    match find_state(v, key) {
        Some(j) => {
            let ghost before = idle_pairs(v@);
            v.set(j, (key.clone(), st));
            proof {
                assert(idle_pairs(v@) =~= before.update(j as int, (before[j as int].0, st)));
                lemma_keyed_update(before, j as int, st);
            }
        },
        None => {
            let ghost before = idle_pairs(v@);
            v.push((key.clone(), st));
            proof {
                assert(idle_pairs(v@) =~= before.push((key@, st)));
                lemma_keyed_push(before, key@, st);
            }
        },
    }
}

/// Idle states of the registered repositories.
pub struct IdleScheduler {
    config: IdleScheduleConfig,
    states: Vec<(String, RepoIdleState)>,
}

impl IdleScheduler {
    #[verifier::type_invariant]
    spec fn wf(self) -> bool {
        keys_unique(idle_pairs(self.states@))
    }

    pub closed spec fn config(&self) -> IdleScheduleConfig {
        self.config
    }

    pub closed spec fn states(&self) -> Map<Seq<char>, RepoIdleState> {
        keyed_map(idle_pairs(self.states@))
    }

    pub fn new(config: IdleScheduleConfig) -> (s: IdleScheduler)
        ensures
            s.config() == config,
            s.states() == Map::<Seq<char>, RepoIdleState>::empty(),
    {
        let s = IdleScheduler { config, states: Vec::new() };
        assert(idle_pairs(s.states@) =~= Seq::<(Seq<char>, RepoIdleState)>::empty());
        s
    }

    /// Records activity in `repo_path` at `now`, if it is tracked.
    pub fn touch_repo_activity(&mut self, repo_path: &String, now: u64)
        ensures
            final(self).config() == old(self).config(),
            final(self).states() == if old(self).states().contains_key(repo_path@) {
                old(self).states().insert(repo_path@, RepoIdleState::fresh(now))
            } else {
                old(self).states()
            },
    {
        proof {
            use_type_invariant(&*self);
        }
        match find_state(&self.states, repo_path) {
            Some(j) => {
                let ghost before = idle_pairs(self.states@);
                let mut states = Vec::new();
                std::mem::swap(&mut states, &mut self.states);
                let mut st = states[j].1;
                st.touch(now);
                proof {
                    lemma_keyed_index(before, j as int);
                }
                put_state(&mut states, repo_path, st);
                self.states = states;
            },
            None => {},
        }
    }

    /// Queues prefetch and maintenance for the repositories in `repos`
    /// (the registered ones, in the daemon's order) that have been idle long
    /// enough, each at most once per idle period, and forgets the others.
    /// `mono_now` is the monotonic time, `now` the wall-clock time.
    pub fn check_idle_schedules<S: MetadataStore>(
        &mut self,
        daemon: &mut Daemon<S>,
        repos: &Vec<String>,
        mono_now: u64,
        now: Timestamp,
    )
        ensures
            final(self).config() == old(self).config(),
            !old(self).config().enabled ==> final(self).states() == old(self).states() && snapshot(
                *final(daemon),
            ) == snapshot(*old(daemon)),
            old(self).config().enabled ==> {
                let r = idle_fold(old(self).config(), old(self).states(), names_of(repos@), mono_now);
                &&& final(self).states() == r.0
                &&& snapshot(*final(daemon)) == after_idle_jobs(
                    snapshot(*old(daemon)),
                    old(daemon).notifying(),
                    old(daemon).log_capacity(),
                    r.1,
                    now,
                )
            },
            same_settings(*final(daemon), *old(daemon)),
            final(daemon).counters() == old(daemon).counters(),
    {
        proof {
            use_type_invariant(&*self);
        }
        if !self.config.enabled {
            return;
        }
        let cfg = self.config;
        let ghost names = names_of(repos@);
        let ghost start = snapshot(*daemon);
        let mut next: Vec<(String, RepoIdleState)> = Vec::new();
        proof {
            assert(idle_pairs(next@) =~= Seq::<(Seq<char>, RepoIdleState)>::empty());
            assert(names.take(0) =~= Seq::<Seq<char>>::empty());
        }
        let mut i: usize = 0;
        while i < repos.len()
            invariant
                i <= repos@.len(),
                names == names_of(repos@),
                cfg == self.config,
                keys_unique(idle_pairs(self.states@)),
                keys_unique(idle_pairs(next@)),
                keyed_map(idle_pairs(next@)) == idle_fold(cfg, self.states(), names.take(i as int), mono_now).0,
                snapshot(*daemon) == after_idle_jobs(
                    start,
                    daemon.notifying(),
                    daemon.log_capacity(),
                    idle_fold(cfg, self.states(), names.take(i as int), mono_now).1,
                    now,
                ),
                start == snapshot(*old(daemon)),
                same_settings(*daemon, *old(daemon)),
                daemon.counters() == old(daemon).counters(),
            decreases repos@.len() - i,
        {
            let ghost prev = idle_fold(cfg, self.states(), names.take(i as int), mono_now);
            let ghost notifying = daemon.notifying();
            let ghost cap = daemon.log_capacity();
            proof {
                assert(names.take(i + 1).drop_last() =~= names.take(i as int));
                assert(names.take(i + 1).last() == repos@[i as int]@);
            }
            let r = &repos[i];
            let st = match find_state(&next, r) {
                Some(j) => {
                    proof {
                        lemma_keyed_index(idle_pairs(next@), j as int);
                    }
                    next[j].1
                },
                None => match find_state(&self.states, r) {
                    Some(j) => {
                        proof {
                            lemma_keyed_index(idle_pairs(self.states@), j as int);
                        }
                        self.states[j].1
                    },
                    None => RepoIdleState::new(mono_now),
                },
            };
            let idle = st.idle_duration(mono_now);
            let mut upd = st;
            let ghost mut jobs = prev.1;
            assert(snapshot(*daemon) == after_idle_jobs(start, notifying, cap, jobs, now));
            if has_reached(idle, cfg.prefetch_idle_secs) && !st.prefetch_scheduled {
                daemon.schedule_job(r.clone(), JobKind::Prefetch);
                daemon.record_log(r, String::from_str("idle prefetch scheduled"), now);
                upd.prefetch_scheduled = true;
                proof {
                    let pj = jobs;
                    jobs = jobs.push((r@, JobKind::Prefetch));
                    assert(jobs.drop_last() =~= pj);
                    assert(snapshot(*daemon) == after_idle_jobs(start, notifying, cap, jobs, now));
                }
            }
            if has_reached(idle, cfg.maintenance_idle_secs) && !st.maintenance_scheduled {
                daemon.schedule_job(r.clone(), JobKind::Maintenance);
                daemon.record_log(r, String::from_str("idle maintenance scheduled"), now);
                upd.maintenance_scheduled = true;
                proof {
                    let pj = jobs;
                    jobs = jobs.push((r@, JobKind::Maintenance));
                    assert(jobs.drop_last() =~= pj);
                    assert(snapshot(*daemon) == after_idle_jobs(start, notifying, cap, jobs, now));
                }
            }
            put_state(&mut next, r, upd);
            proof {
                let cur = idle_fold(cfg, self.states(), names.take(i + 1), mono_now);
                assert(upd == idle_visit(cfg, st, mono_now));
                assert(jobs =~= prev.1 + idle_jobs(cfg, r@, st, mono_now));
                assert(cur.1 == jobs);
            }
            i = i + 1;
        }
        proof {
            assert(names.take(repos@.len() as int) =~= names);
        }
        self.states = next;
    }
}

/// "reconciliation needed after daemon downtime - scheduling status refresh"
pub open spec fn reconciliation_message() -> Seq<char> {
    "reconciliation needed after daemon downtime - scheduling status refresh"@
}

/// More than five minutes passed between the last recorded event and `now`.
pub open spec fn spec_needs_reconciliation(last_event: Option<Timestamp>, now: Timestamp) -> bool {
    match last_event {
        Some(t) => now.spec_as_nanos() - t.spec_as_nanos() > 300_000_000_000,
        None => false,
    }
}

/// Reconciliation is due once more than five minutes have passed since the
/// last event, and stays due as time goes on; a repository that never saw
/// an event needs none.
pub proof fn lemma_reconciliation_threshold(t: Timestamp, now: Timestamp, later: Timestamp)
    ensures
        !spec_needs_reconciliation(None, now),
        now.spec_as_nanos() <= t.spec_as_nanos() + 5 * 60 * 1_000_000_000 ==> !spec_needs_reconciliation(
            Some(t),
            now,
        ),
        now.spec_as_nanos() > t.spec_as_nanos() + 5 * 60 * 1_000_000_000 ==> spec_needs_reconciliation(
            Some(t),
            now,
        ),
        spec_needs_reconciliation(Some(t), now) && later.spec_as_nanos() >= now.spec_as_nanos()
            ==> spec_needs_reconciliation(Some(t), later),
{
}

/// Whether a repository whose last event was at `last_event` missed events
/// while the daemon was down. A repository without events is taken to be
/// freshly registered.
pub fn needs_reconciliation(last_event: Option<Timestamp>, now: Timestamp) -> (b: bool)
    ensures
        b == spec_needs_reconciliation(last_event, now),
{
    match last_event {
        Some(t) => {
            let a = now.as_nanos();
            let b = t.as_nanos();
            a > b && a - b > 300_000_000_000u128
        },
        None => false,
    }
}

/// Reconciliation scheduled for `r`: logged, flagged and marked dirty.
pub open spec fn after_reconciliation(
    s: (DaemonState, Map<Seq<char>, Seq<LogRecordView>>),
    notifying: bool,
    cap: usize,
    r: Seq<char>,
    now: Timestamp,
) -> (DaemonState, Map<Seq<char>, Seq<LogRecordView>>) {
    let logged = after_log(s, notifying, cap, r, reconciliation_message(), now);
    (
        DaemonState {
            repos: if logged.0.repos.contains_key(r) {
                logged.0.repos.insert(r, spec_reconciled(logged.0.repos[r]))
            } else {
                logged.0.repos
            },
            ..logged.0
        },
        logged.1,
    )
}

/// The reconciliation check over `repos`, in order.
pub open spec fn reconciliation_fold(
    s: (DaemonState, Map<Seq<char>, Seq<LogRecordView>>),
    notifying: bool,
    cap: usize,
    repos: Seq<Seq<char>>,
    now: Timestamp,
) -> (DaemonState, Map<Seq<char>, Seq<LogRecordView>>)
    decreases repos.len(),
{
    if repos.len() == 0 {
        s
    } else {
        let prev = reconciliation_fold(s, notifying, cap, repos.drop_last(), now);
        let r = repos.last();
        if prev.0.repos.contains_key(r) && spec_needs_reconciliation(prev.0.repos[r].last_event, now) {
            after_reconciliation(prev, notifying, cap, r, now)
        } else {
            prev
        }
    }
}

/// Logs that `repo_path` needs reconciliation, flags it, and marks its whole
/// working tree dirty to force a full status check.
pub fn schedule_reconciliation<S: MetadataStore>(daemon: &mut Daemon<S>, repo_path: &String, now: Timestamp)
    ensures
        old(daemon).reliable() ==> snapshot(*final(daemon)) == after_reconciliation(
            snapshot(*old(daemon)),
            old(daemon).notifying(),
            old(daemon).log_capacity(),
            repo_path@,
            now,
        ),
        same_settings(*final(daemon), *old(daemon)),
        final(daemon).counters() == old(daemon).counters(),
{
    daemon.record_log(
        repo_path,
        String::from_str("reconciliation needed after daemon downtime - scheduling status refresh"),
        now,
    );
    daemon.mark_for_reconciliation(repo_path);
}

/// Schedules reconciliation for each repository of `repos` (the registered
/// ones, in the daemon's order) whose last event is more than five minutes
/// before `now`.
pub fn check_reconciliation_needed<S: MetadataStore>(daemon: &mut Daemon<S>, repos: &Vec<String>, now: Timestamp)
    ensures
        old(daemon).reliable() ==> snapshot(*final(daemon)) == reconciliation_fold(
            snapshot(*old(daemon)),
            old(daemon).notifying(),
            old(daemon).log_capacity(),
            names_of(repos@),
            now,
        ),
        same_settings(*final(daemon), *old(daemon)),
        final(daemon).counters() == old(daemon).counters(),
{
    let ghost names = names_of(repos@);
    let ghost start = snapshot(*daemon);
    proof {
        assert(names.take(0) =~= Seq::<Seq<char>>::empty());
    }
    let mut i: usize = 0;
    while i < repos.len()
        invariant
            i <= repos@.len(),
            names == names_of(repos@),
            start == snapshot(*old(daemon)),
            old(daemon).reliable() ==> snapshot(*daemon) == reconciliation_fold(
                start,
                daemon.notifying(),
                daemon.log_capacity(),
                names.take(i as int),
                now,
            ),
            same_settings(*daemon, *old(daemon)),
            daemon.counters() == old(daemon).counters(),
        decreases repos@.len() - i,
    {
        proof {
            assert(names.take(i + 1).drop_last() =~= names.take(i as int));
            assert(names.take(i + 1).last() == repos@[i as int]@);
        }
        let r = &repos[i];
        let due = match daemon.repo_metadata(r) {
            Some(meta) => needs_reconciliation(meta.last_event, now),
            None => false,
        };
        if due {
            schedule_reconciliation(daemon, r, now);
        }
        i = i + 1;
    }
    proof {
        assert(names.take(repos@.len() as int) =~= names);
    }
}

/// The name `{:?}` gives a watch event kind.
pub open spec fn watch_kind_debug(kind: WatchEventKind) -> Seq<char> {
    match kind {
        WatchEventKind::Created => "Created"@,
        WatchEventKind::Modified => "Modified"@,
        WatchEventKind::Deleted => "Deleted"@,
    }
}

fn watch_kind_debug_str(kind: WatchEventKind) -> (s: &'static str)
    ensures
        s@ == watch_kind_debug(kind),
{
    match kind {
        WatchEventKind::Created => "Created",
        WatchEventKind::Modified => "Modified",
        WatchEventKind::Deleted => "Deleted",
    }
}

/// "watch <kind> <path>"
pub open spec fn watch_message(event_path: Seq<char>, kind: WatchEventKind) -> Seq<char> {
    "watch "@ + watch_kind_debug(kind) + " "@ + event_path
}

/// What a filesystem event under `r` does to the daemon: the metadata is
/// updated, the event announced and logged.
pub open spec fn after_watch_event(
    s: (DaemonState, Map<Seq<char>, Seq<LogRecordView>>),
    notifying: bool,
    cap: usize,
    r: Seq<char>,
    event_path: Seq<char>,
    kind: WatchEventKind,
    now: Timestamp,
) -> (DaemonState, Map<Seq<char>, Seq<LogRecordView>>) {
    let repos = if s.0.repos.contains_key(r) {
        s.0.repos.insert(r, spec_watch_effect(s.0.repos[r], r, event_path, kind, now))
    } else {
        s.0.repos
    };
    let announced = notify(
        s.0.outbox,
        notifying,
        NotificationView::WatchEvent {
            repo_path: r,
            path: match spec_relative_path(r, event_path) {
                Some(rel) => rel,
                None => event_path,
            },
            kind: spec_map_watch_kind(kind),
        },
    );
    after_log(
        (DaemonState { repos, outbox: announced, ..s.0 }, s.1),
        notifying,
        cap,
        r,
        watch_message(event_path, kind),
        now,
    )
}

/// Handles one filesystem event delivered for `repo_path`: the repository
/// counts as active at `mono_now`, the event is booked, announced and logged.
pub fn process_watch_event<S: MetadataStore>(
    daemon: &mut Daemon<S>,
    idle: &mut IdleScheduler,
    repo_path: &String,
    event: &WatchEvent,
    mono_now: u64,
    now: Timestamp,
)
    ensures
        final(idle).config() == old(idle).config(),
        final(idle).states() == if old(idle).states().contains_key(repo_path@) {
            old(idle).states().insert(repo_path@, RepoIdleState::fresh(mono_now))
        } else {
            old(idle).states()
        },
        old(daemon).reliable() ==> snapshot(*final(daemon)) == after_watch_event(
            snapshot(*old(daemon)),
            old(daemon).notifying(),
            old(daemon).log_capacity(),
            repo_path@,
            event.path@,
            event.kind,
            now,
        ),
        same_settings(*final(daemon), *old(daemon)),
        final(daemon).counters() == old(daemon).counters(),
{
    idle.touch_repo_activity(repo_path, mono_now);
    daemon.handle_watch_event(repo_path, event, now);
    daemon.emit_watch_notification(repo_path, event);
    let mut message = String::from_str("watch ");
    message.append(watch_kind_debug_str(event.kind));
    message.append(" ");
    message.append(event.path.as_str());
    daemon.record_log(repo_path, message, now);
}

/// The text `{:?}` gives a `std::time::Duration` of `nanos` nanoseconds.
pub uninterp spec fn duration_debug(nanos: u64) -> Seq<char>;

/// Formats a `Duration` of `nanos` nanoseconds with `{:?}` (as in `1.5s`).
#[verifier::external_body]
fn duration_text(nanos: u64) -> (s: String)
    ensures
        s@ == duration_debug(nanos),
{
    format!("{:?}", std::time::Duration::from_nanos(nanos))
}

pub open spec fn started_message(kind: JobKind) -> Seq<char> {
    "job "@ + job_debug_name(kind) + " started"@
}

pub open spec fn completed_message(kind: JobKind, elapsed_nanos: u64) -> Seq<char> {
    "job "@ + job_debug_name(kind) + " completed in "@ + duration_debug(elapsed_nanos)
}

pub open spec fn failed_message(kind: JobKind, elapsed_nanos: u64, err: Seq<char>) -> Seq<char> {
    "job "@ + job_debug_name(kind) + " failed after "@ + duration_debug(elapsed_nanos) + ": "@ + err
}

fn job_message(prefix: &str, kind: JobKind, rest: &str) -> (s: String)
    ensures
        s@ == prefix@ + job_debug_name(kind) + rest@,
{
    let mut s = String::from_str(prefix);
    s.append(match kind {
        JobKind::Prefetch => "Prefetch",
        JobKind::Maintenance => "Maintenance",
    });
    s.append(rest);
    s
}

/// A job about to run: counted as spawned, logged, and announced as started.
pub fn start_job<S: MetadataStore>(daemon: &mut Daemon<S>, job: &QueuedJob, now: Timestamp)
    requires
        can_bump(old(daemon).counters().spec_get(job.kind), JobCounter::Spawned),
    ensures
        final(daemon).counters() == old(daemon).counters().spec_set(
            job.kind,
            Some(spec_bump(old(daemon).counters().spec_get(job.kind), JobCounter::Spawned)),
        ),
        ({
            let logged = after_log(
                snapshot(*old(daemon)),
                old(daemon).notifying(),
                old(daemon).log_capacity(),
                job.repo_path@,
                started_message(job.kind),
                now,
            );
            snapshot(*final(daemon)) == (
                DaemonState {
                    outbox: notify(
                        logged.0.outbox,
                        old(daemon).notifying(),
                        NotificationView::JobEvent {
                            repo_path: job.repo_path@,
                            job: job.kind,
                            kind: JobEventKind::Started,
                        },
                    ),
                    ..logged.0
                },
                logged.1,
            )
        }),
        same_settings(*final(daemon), *old(daemon)),
{
    daemon.record_job(job.kind, JobCounter::Spawned);
    let message = job_message("job ", job.kind, " started");
    daemon.record_log(&job.repo_path, message, now);
    daemon.send_job_notification(&job.repo_path, job.kind, JobEventKind::Started);
}

/// The counter a finished job advances.
pub open spec fn outcome_counter(outcome: Result<(), String>) -> JobCounter {
    match outcome {
        Ok(()) => JobCounter::Completed,
        Err(_) => JobCounter::Failed,
    }
}

/// What a finished job does to the daemon, before the job is booked as
/// completed: announced, logged, and on failure the log entry announced a
/// second time.
pub open spec fn after_job_outcome(
    s: (DaemonState, Map<Seq<char>, Seq<LogRecordView>>),
    notifying: bool,
    cap: usize,
    job: (Seq<char>, JobKind),
    outcome: Result<(), String>,
    elapsed_nanos: u64,
    now: Timestamp,
) -> (DaemonState, Map<Seq<char>, Seq<LogRecordView>>) {
    let (event, message) = match outcome {
        Ok(()) => (JobEventKind::Completed, completed_message(job.1, elapsed_nanos)),
        Err(e) => (JobEventKind::Failed, failed_message(job.1, elapsed_nanos, e@)),
    };
    let announced = DaemonState {
        outbox: notify(
            s.0.outbox,
            notifying,
            NotificationView::JobEvent { repo_path: job.0, job: job.1, kind: event },
        ),
        ..s.0
    };
    let logged = after_log((announced, s.1), notifying, cap, job.0, message, now);
    match outcome {
        Ok(()) => logged,
        Err(_) => (
            DaemonState {
                outbox: notify(
                    logged.0.outbox,
                    notifying,
                    NotificationView::Log(LogEntryView { repo_path: job.0, message, timestamp: now }),
                ),
                ..logged.0
            },
            logged.1,
        ),
    }
}

/// A job that ran for `elapsed_nanos` with `outcome` (its error text on
/// failure): counted, announced, logged, and booked as completed at `now`.
pub fn finish_job<S: MetadataStore>(
    daemon: &mut Daemon<S>,
    job: &QueuedJob,
    outcome: Result<(), String>,
    elapsed_nanos: u64,
    now: Timestamp,
)
    requires
        can_bump(old(daemon).counters().spec_get(job.kind), outcome_counter(outcome)),
    ensures
        final(daemon).counters() == old(daemon).counters().spec_set(
            job.kind,
            Some(spec_bump(old(daemon).counters().spec_get(job.kind), outcome_counter(outcome))),
        ),
        old(daemon).reliable() ==> ({
            let mid = after_job_outcome(
                snapshot(*old(daemon)),
                old(daemon).notifying(),
                old(daemon).log_capacity(),
                job@,
                outcome,
                elapsed_nanos,
                now,
            );
            snapshot(*final(daemon)) == (
                DaemonState {
                    repos: if mid.0.repos.contains_key(job.repo_path@) {
                        mid.0.repos.insert(
                            job.repo_path@,
                            crate::storage::RepoMetadataView {
                                last_event: Some(now),
                                ..crate::storage::spec_with_jobs(mid.0.repos[job.repo_path@], -1isize)
                            },
                        )
                    } else {
                        mid.0.repos
                    },
                    ..mid.0
                },
                mid.1,
            )
        }),
        same_settings(*final(daemon), *old(daemon)),
{
    let elapsed = duration_text(elapsed_nanos);
    match &outcome {
        Ok(()) => {
            daemon.record_job(job.kind, JobCounter::Completed);
            daemon.send_job_notification(&job.repo_path, job.kind, JobEventKind::Completed);
            let mut message = job_message("job ", job.kind, " completed in ");
            message.append(elapsed.as_str());
            daemon.record_log(&job.repo_path, message, now);
        },
        Err(err) => {
            daemon.record_job(job.kind, JobCounter::Failed);
            daemon.send_job_notification(&job.repo_path, job.kind, JobEventKind::Failed);
            let mut message = job_message("job ", job.kind, " failed after ");
            message.append(elapsed.as_str());
            message.append(": ");
            message.append(err.as_str());
            let entry = daemon.record_log(&job.repo_path, message, now);
            daemon.resend_log_notification(entry);
        },
    }
    daemon.mark_job_completed(job, now);
}

/// Idle scheduling queues each kind of job at most once per idle period:
/// once a check at `now` has queued (or found due) a kind, a later check
/// without new activity does not queue it again.
pub proof fn lemma_idle_job_once(cfg: IdleScheduleConfig, r: Seq<char>, st: RepoIdleState, now: u64, later: u64)
    requires
        now <= later,
    ensures
        !(idle_jobs(cfg, r, st, now).contains((r, JobKind::Prefetch)) && idle_jobs(
            cfg,
            r,
            idle_visit(cfg, st, now),
            later,
        ).contains((r, JobKind::Prefetch))),
        !(idle_jobs(cfg, r, st, now).contains((r, JobKind::Maintenance)) && idle_jobs(
            cfg,
            r,
            idle_visit(cfg, st, now),
            later,
        ).contains((r, JobKind::Maintenance))),
{
    let p = if reached(st.spec_idle(now), cfg.prefetch_idle_secs) && !st.prefetch_scheduled {
        seq![(r, JobKind::Prefetch)]
    } else {
        Seq::empty()
    };
    let m = if reached(st.spec_idle(now), cfg.maintenance_idle_secs) && !st.maintenance_scheduled {
        seq![(r, JobKind::Maintenance)]
    } else {
        Seq::empty()
    };
    let st2 = idle_visit(cfg, st, now);
    let p2 = if reached(st2.spec_idle(later), cfg.prefetch_idle_secs) && !st2.prefetch_scheduled {
        seq![(r, JobKind::Prefetch)]
    } else {
        Seq::empty()
    };
    let m2 = if reached(st2.spec_idle(later), cfg.maintenance_idle_secs) && !st2.maintenance_scheduled {
        seq![(r, JobKind::Maintenance)]
    } else {
        Seq::empty()
    };
    assert(idle_jobs(cfg, r, st, now) == p + m);
    assert(idle_jobs(cfg, r, st2, later) == p2 + m2);
    if (p + m).contains((r, JobKind::Prefetch)) {
        let i = choose|i: int| 0 <= i < (p + m).len() && (p + m)[i] == (r, JobKind::Prefetch);
        assert(p.len() == 1);
        assert(st2.prefetch_scheduled);
        assert(p2.len() == 0);
        if (p2 + m2).contains((r, JobKind::Prefetch)) {
            let j = choose|j: int| 0 <= j < (p2 + m2).len() && (p2 + m2)[j] == (r, JobKind::Prefetch);
            assert((p2 + m2)[j] == m2[j]);
        }
    }
    if (p + m).contains((r, JobKind::Maintenance)) {
        let i = choose|i: int| 0 <= i < (p + m).len() && (p + m)[i] == (r, JobKind::Maintenance);
        if p.len() == 1 && i == 0 {
            assert((p + m)[0] == p[0]);
        }
        assert(m.len() == 1);
        assert(st2.maintenance_scheduled);
        assert(m2.len() == 0);
        if (p2 + m2).contains((r, JobKind::Maintenance)) {
            let j = choose|j: int| 0 <= j < (p2 + m2).len() && (p2 + m2)[j] == (r, JobKind::Maintenance);
            assert((p2 + m2)[j] == p2[j]);
        }
    }
}

/// Right after activity nothing is queued, unless a threshold is zero.
pub proof fn lemma_no_jobs_when_active(cfg: IdleScheduleConfig, r: Seq<char>, now: u64)
    requires
        cfg.prefetch_idle_secs > 0,
        cfg.maintenance_idle_secs > 0,
    ensures
        idle_jobs(cfg, r, RepoIdleState::fresh(now), now).len() == 0,
{
}

/// The Git invocation that runs a job: `git maintenance run` with the
/// prefetch task, or with `--auto` for maintenance.
pub open spec fn spec_git_job_args(kind: JobKind) -> Seq<Seq<char>> {
    match kind {
        JobKind::Prefetch => seq!["maintenance"@, "run"@, "--task=prefetch"@, "--quiet"@],
        JobKind::Maintenance => seq!["maintenance"@, "run"@, "--auto"@, "--quiet"@],
    }
}

/// Each job runs `git maintenance run` quietly, with the task it names: a
/// prefetch job asks for the prefetch task (and nothing automatic), a
/// maintenance job for the automatic maintenance (and no prefetch), so the
/// two kinds never run the same command.
pub proof fn lemma_git_job_args(kind: JobKind)
    ensures
        spec_git_job_args(kind).take(2) == seq!["maintenance"@, "run"@],
        spec_git_job_args(kind).last() == "--quiet"@,
        spec_git_job_args(JobKind::Prefetch).contains("--task=prefetch"@),
        !spec_git_job_args(JobKind::Prefetch).contains("--auto"@),
        spec_git_job_args(JobKind::Maintenance).contains("--auto"@),
        !spec_git_job_args(JobKind::Maintenance).contains("--task=prefetch"@),
        spec_git_job_args(JobKind::Prefetch) != spec_git_job_args(JobKind::Maintenance),
{
    reveal_strlit("maintenance");
    reveal_strlit("run");
    reveal_strlit("--task=prefetch");
    reveal_strlit("--auto");
    reveal_strlit("--quiet");
    let p = spec_git_job_args(JobKind::Prefetch);
    let m = spec_git_job_args(JobKind::Maintenance);
    assert(spec_git_job_args(kind).take(2) =~= seq!["maintenance"@, "run"@]);
    assert(p[2] == "--task=prefetch"@);
    assert(m[2] == "--auto"@);
    assert("--task=prefetch"@.len() != "--auto"@.len());
    assert("--task=prefetch"@.len() != "maintenance"@.len());
    assert("--task=prefetch"@.len() != "run"@.len());
    assert("--task=prefetch"@.len() != "--quiet"@.len());
    assert("--auto"@.len() != "maintenance"@.len());
    assert("--auto"@.len() != "run"@.len());
    assert("--auto"@.len() != "--quiet"@.len());
    assert(!p.contains("--auto"@));
    assert(!m.contains("--task=prefetch"@));
    assert(p[2] != m[2]);
}

pub fn git_job_args(kind: JobKind) -> (v: Vec<String>)
    ensures
        names_of(v@) == spec_git_job_args(kind),
{
    let mut v: Vec<String> = Vec::new();
    v.push(String::from_str("maintenance"));
    v.push(String::from_str("run"));
    match kind {
        JobKind::Prefetch => v.push(String::from_str("--task=prefetch")),
        JobKind::Maintenance => v.push(String::from_str("--auto")),
    }
    v.push(String::from_str("--quiet"));
    proof {
        assert(names_of(v@) =~= spec_git_job_args(kind));
    }
    v
}

/// How a finished `git` job counts: success, or a failure that only means
/// the repository has no remote (or is no repository) also counts as done;
/// any other failure carries its exit status (-1 without one).
pub open spec fn spec_job_outcome(success: bool, exit_code: Option<i32>, stderr: Seq<char>) -> Result<
    (),
    Seq<char>,
> {
    if success || crate::text::contains_text(stderr, "No remote"@) || crate::text::contains_text(
        stderr,
        "not a git repository"@,
    ) {
        Ok(())
    } else {
        Err(
            "git command exited with status "@ + crate::text::signed_decimal(
                match exit_code {
                    Some(c) => c as int,
                    None => -1,
                },
            ),
        )
    }
}

pub fn job_outcome(success: bool, exit_code: Option<i32>, stderr: &str) -> (r: Result<(), String>)
    ensures
        match spec_job_outcome(success, exit_code, stderr@) {
            Ok(()) => r is Ok,
            Err(m) => r matches Err(e) && e@ == m,
        },
{
    if success || crate::text::find_text(stderr, "No remote") || crate::text::find_text(
        stderr,
        "not a git repository",
    ) {
        return Ok(());
    }
    let mut m = String::from_str("git command exited with status ");
    let code = match exit_code {
        Some(c) => c,
        None => -1,
    };
    let t = crate::text::signed_decimal_text(code);
    m.append(t.as_str());
    Err(m)
}

/// The paths of `xs` that `ys` does not hold, in the order of `xs`.
pub open spec fn missing_from(xs: Seq<Seq<char>>, ys: Seq<Seq<char>>) -> Seq<Seq<char>>
    decreases xs.len(),
{
    if xs.len() == 0 {
        Seq::empty()
    } else {
        let rest = missing_from(xs.drop_last(), ys);
        if ys.contains(xs.last()) {
            rest
        } else {
            rest.push(xs.last())
        }
    }
}

proof fn lemma_missing_from(xs: Seq<Seq<char>>, ys: Seq<Seq<char>>, p: Seq<char>)
    ensures
        missing_from(xs, ys).contains(p) <==> (xs.contains(p) && !ys.contains(p)),
    decreases xs.len(),
{
    if xs.len() > 0 {
        let front = xs.drop_last();
        lemma_missing_from(front, ys, p);
        let rest = missing_from(front, ys);
        if xs.contains(p) && !ys.contains(p) {
            let i = choose|i: int| 0 <= i < xs.len() && xs[i] == p;
            if i < xs.len() - 1 {
                assert(front[i] == p);
            }
        }
        if front.contains(p) {
            let i = choose|i: int| 0 <= i < front.len() && front[i] == p;
            assert(xs[i] == p);
        }
        if !ys.contains(xs.last()) {
            assert(rest.push(xs.last())[rest.len() as int] == xs.last());
            if rest.push(xs.last()).contains(p) && p != xs.last() {
                let i = choose|i: int| 0 <= i < rest.len() + 1 && rest.push(xs.last())[i] == p;
                assert(rest[i] == p);
            }
            if rest.contains(p) {
                let i = choose|i: int| 0 <= i < rest.len() && rest[i] == p;
                assert(rest.push(xs.last())[i] == p);
            }
        }
    }
}

/// Carrying out a watcher plan leaves exactly the desired paths watched: a
/// path is watched afterwards (kept from `active` or started) if and only
/// if `desired` holds it.
pub proof fn lemma_plan_watchers(desired: Seq<Seq<char>>, active: Seq<Seq<char>>, p: Seq<char>)
    ensures
        ((active.contains(p) && !missing_from(active, desired).contains(p))
            || missing_from(desired, active).contains(p)) <==> desired.contains(p),
{
    lemma_missing_from(active, desired, p);
    lemma_missing_from(desired, active, p);
}

fn paths_missing_from(xs: &Vec<String>, ys: &Vec<String>) -> (v: Vec<String>)
    ensures
        names_of(v@) == missing_from(names_of(xs@), names_of(ys@)),
{
    let ghost xn = names_of(xs@);
    let ghost yn = names_of(ys@);
    let mut out: Vec<String> = Vec::new();
    let mut i: usize = 0;
    proof {
        assert(xn.take(0) =~= Seq::<Seq<char>>::empty());
        assert(names_of(out@) =~= Seq::<Seq<char>>::empty());
    }
    while i < xs.len()
        invariant
            i <= xs@.len(),
            xn == names_of(xs@),
            yn == names_of(ys@),
            names_of(out@) == missing_from(xn.take(i as int), yn),
        decreases xs@.len() - i,
    {
        proof {
            assert(xn.take(i + 1).drop_last() =~= xn.take(i as int));
            assert(xn.take(i + 1).last() == xs@[i as int]@);
        }
        if !contains_string(ys, &xs[i]) {
            let ghost before = out@;
            out.push(xs[i].clone());
            proof {
                assert(names_of(out@) =~= names_of(before).push(xs@[i as int]@));
            }
        }
        i = i + 1;
    }
    proof {
        assert(xn.take(xs@.len() as int) =~= xn);
    }
    out
}

/// The watchers to start and to stop so that exactly the registered
/// repositories are watched.
pub struct WatcherPlan {
    /// Registered repositories without a watcher, in registration order.
    pub start: Vec<String>,
    /// Watched paths that are no longer registered.
    pub stop: Vec<String>,
}

/// Plans the watchers: start one for each path of `desired` that `active`
/// lacks, and stop each path of `active` that `desired` lacks.
pub fn plan_watchers(desired: &Vec<String>, active: &Vec<String>) -> (p: WatcherPlan)
    ensures
        names_of(p.start@) == missing_from(names_of(desired@), names_of(active@)),
        names_of(p.stop@) == missing_from(names_of(active@), names_of(desired@)),
{
    WatcherPlan { start: paths_missing_from(desired, active), stop: paths_missing_from(active, desired) }
}

/// Seconds a one-shot daemon waits for its jobs before it gives up.
pub const ONESHOT_TIMEOUT_SECS: u64 = 30;

/// A one-shot daemon stops once no job is pending, or once it has waited
/// [`ONESHOT_TIMEOUT_SECS`] seconds.
pub fn oneshot_done(pending_jobs: usize, waited_nanos: u64) -> (b: bool)
    ensures
        b == (pending_jobs == 0 || waited_nanos >= ONESHOT_TIMEOUT_SECS * 1_000_000_000),
{
    pending_jobs == 0 || waited_nanos >= ONESHOT_TIMEOUT_SECS * 1_000_000_000
}

} // verus!
