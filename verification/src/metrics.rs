//! Counters of background job outcomes.
use vstd::prelude::*;

use crate::ipc::{DaemonMetrics, GlobalMetrics, JobCounters, JobKind, JobMetrics};

verus! {

/// Which counter of a job kind an event advances.
#[derive(Debug, Clone, Copy, PartialEq, Eq, Structural)]
pub enum JobCounter {
    Spawned,
    Completed,
    Failed,
}

/// The counters of a kind with `which` advanced by one; a kind seen for the
/// first time starts from zero.
pub open spec fn spec_bump(m: Option<JobMetrics>, which: JobCounter) -> JobMetrics {
    let base = match m {
        Some(x) => x,
        None => JobMetrics::spec_default(),
    };
    match which {
        JobCounter::Spawned => JobMetrics { spawned: (base.spawned + 1) as u64, ..base },
        JobCounter::Completed => JobMetrics { completed: (base.completed + 1) as u64, ..base },
        JobCounter::Failed => JobMetrics { failed: (base.failed + 1) as u64, ..base },
    }
}

/// The counter `which` can still advance without overflowing.
pub open spec fn can_bump(m: Option<JobMetrics>, which: JobCounter) -> bool {
    match m {
        None => true,
        Some(x) => match which {
            JobCounter::Spawned => x.spawned < u64::MAX,
            JobCounter::Completed => x.completed < u64::MAX,
            JobCounter::Failed => x.failed < u64::MAX,
        },
    }
}

/// Job counters per job kind.
pub struct MetricsRegistry {
    jobs: JobCounters,
}

impl MetricsRegistry {
    pub closed spec fn counters(&self) -> JobCounters {
        self.jobs
    }

    pub fn default() -> (m: MetricsRegistry)
        ensures
            m.counters().prefetch is None && m.counters().maintenance is None,
    {
        MetricsRegistry { jobs: JobCounters::new() }
    }

    pub fn record_job_spawned(&mut self, kind: JobKind)
        requires
            can_bump(old(self).counters().spec_get(kind), JobCounter::Spawned),
        ensures
            final(self).counters() == old(self).counters().spec_set(
                kind,
                Some(spec_bump(old(self).counters().spec_get(kind), JobCounter::Spawned)),
            ),
    {
        self.update(kind, JobCounter::Spawned);
    }

    pub fn record_job_completed(&mut self, kind: JobKind)
        requires
            can_bump(old(self).counters().spec_get(kind), JobCounter::Completed),
        ensures
            final(self).counters() == old(self).counters().spec_set(
                kind,
                Some(spec_bump(old(self).counters().spec_get(kind), JobCounter::Completed)),
            ),
    {
        self.update(kind, JobCounter::Completed);
    }

    pub fn record_job_failed(&mut self, kind: JobKind)
        requires
            can_bump(old(self).counters().spec_get(kind), JobCounter::Failed),
        ensures
            final(self).counters() == old(self).counters().spec_set(
                kind,
                Some(spec_bump(old(self).counters().spec_get(kind), JobCounter::Failed)),
            ),
    {
        self.update(kind, JobCounter::Failed);
    }

    /// True when `which` of `kind` can advance once more.
    pub fn can_record(&self, kind: JobKind, which: JobCounter) -> (b: bool)
        ensures
            b == can_bump(self.counters().spec_get(kind), which),
    {
        match self.jobs.get(kind) {
            None => true,
            Some(x) => match which {
                JobCounter::Spawned => x.spawned < u64::MAX,
                JobCounter::Completed => x.completed < u64::MAX,
                JobCounter::Failed => x.failed < u64::MAX,
            },
        }
    }

    /// A copy of the counters, with empty global and per-repository figures.
    pub fn snapshot(&self) -> (m: DaemonMetrics)
        ensures
            m.jobs == self.counters(),
            m.global == GlobalMetrics::spec_default(),
            m.repos@.len() == 0,
    {
        DaemonMetrics { jobs: self.jobs, global: GlobalMetrics::default(), repos: Vec::new() }
    }

    /// Advances counter `which` of `kind`, creating the kind's counters if needed.
    fn update(&mut self, kind: JobKind, which: JobCounter)
        requires
            can_bump(old(self).counters().spec_get(kind), which),
        ensures
            final(self).counters() == old(self).counters().spec_set(
                kind,
                Some(spec_bump(old(self).counters().spec_get(kind), which)),
            ),
    {
        let mut counters = match self.jobs.get(kind) {
            Some(x) => x,
            None => JobMetrics::default(),
        };
        match which {
            JobCounter::Spawned => counters.spawned = counters.spawned + 1,
            JobCounter::Completed => counters.completed = counters.completed + 1,
            JobCounter::Failed => counters.failed = counters.failed + 1,
        }
        match kind {
            JobKind::Prefetch => self.jobs.prefetch = Some(counters),
            JobKind::Maintenance => self.jobs.maintenance = Some(counters),
        }
    }
}

/// Recording an event advances exactly the counter it names, by one.
pub proof fn lemma_bump_counts_one(m: Option<JobMetrics>, which: JobCounter)
    requires
        can_bump(m, which),
    ensures
        ({
            let before = match m {
                Some(x) => x,
                None => JobMetrics::spec_default(),
            };
            let after = spec_bump(m, which);
            &&& after.spawned == before.spawned + if which == JobCounter::Spawned {
                1int
            } else {
                0int
            }
            &&& after.completed == before.completed + if which == JobCounter::Completed {
                1int
            } else {
                0int
            }
            &&& after.failed == before.failed + if which == JobCounter::Failed {
                1int
            } else {
                0int
            }
        }),
{
}

} // verus!
