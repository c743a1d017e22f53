//! Arithmetic of the benchmark demo: repository shapes and average times.
use vstd::prelude::*;

verus! {

/// Directory layout for a demo repository of `file_count` files: top-level
/// directories, subdirectories in each, files in each subdirectory.
pub open spec fn spec_calculate_structure(file_count: u64) -> (u64, u64, u64) {
    if file_count <= 1000 {
        (10, 10, if file_count / 100 >= 1 { file_count / 100 } else { 1 })
    } else if file_count <= 10000 {
        (100, 10, 10)
    } else if file_count <= 100000 {
        (100, 100, 10)
    } else {
        (1000, 100, 10)
    }
}

pub fn calculate_structure(file_count: u64) -> (r: (u64, u64, u64))
    ensures
        r == spec_calculate_structure(file_count),
{
    if file_count <= 1000 {
        let per = file_count / 100;
        (10, 10, if per >= 1 { per } else { 1 })
    } else if file_count <= 10000 {
        (100, 10, 10)
    } else if file_count <= 100000 {
        (100, 100, 10)
    } else {
        (1000, 100, 10)
    }
}

/// A span of time, as `std::time::Duration` holds it.
#[derive(Debug, Clone, Copy, PartialEq, Eq, Structural)]
pub struct Elapsed {
    pub secs: u64,
    pub nanos: u32,
}

impl Elapsed {
    pub open spec fn total(self) -> int {
        self.secs * 1_000_000_000 + self.nanos
    }
}

pub open spec fn sum_nanos(v: Seq<Elapsed>) -> int
    decreases v.len(),
{
    if v.len() == 0 {
        0
    } else {
        sum_nanos(v.drop_last()) + v.last().total()
    }
}

proof fn lemma_sum_prefix_le(v: Seq<Elapsed>, i: int)
    requires
        0 <= i <= v.len(),
        forall|j: int| 0 <= j < v.len() ==> v[j].nanos < 1_000_000_000,
    ensures
        0 <= sum_nanos(v.take(i)) <= sum_nanos(v),
    decreases v.len(),
{
    if i < v.len() {
        assert(v.drop_last().take(i) =~= v.take(i));
        lemma_sum_prefix_le(v.drop_last(), i);
    } else {
        assert(v.take(i) =~= v);
        if v.len() > 0 {
            lemma_sum_prefix_le(v.drop_last(), i - 1);
        }
    }
}

/// The mean of `times`, rounded down to the nanosecond, as summing
/// `Duration`s and dividing by the count (as a `u32`) gives it; zero for no
/// times.
pub open spec fn spec_average(times: Seq<Elapsed>) -> int {
    if times.len() == 0 {
        0
    } else {
        sum_nanos(times) / (times.len() % 0x1_0000_0000) as int
    }
}

/// Times measured for one demo phase, with and without the daemon.
pub struct PhaseStats {
    pub with_gity_times: Vec<Elapsed>,
    pub without_gity_times: Vec<Elapsed>,
}

/// Nanosecond parts are below a second, the total fits a `Duration`, and
/// the count does not wrap to zero as a `u32`.
pub open spec fn averageable(times: Seq<Elapsed>) -> bool {
    &&& forall|j: int| 0 <= j < times.len() ==> #[trigger] times[j].nanos < 1_000_000_000
    &&& sum_nanos(times) < (u64::MAX as int + 1) * 1_000_000_000
    &&& (times.len() > 0 ==> times.len() % 0x1_0000_0000 != 0)
}

fn average(times: &Vec<Elapsed>) -> (a: Elapsed)
    requires
        averageable(times@),
    ensures
        a.total() == spec_average(times@),
        a.nanos < 1_000_000_000,
{
    if times.len() == 0 {
        return Elapsed { secs: 0, nanos: 0 };
    }
    let mut total: u128 = 0;
    let mut i: usize = 0;
    while i < times.len()
        invariant
            i <= times@.len(),
            averageable(times@),
            total == sum_nanos(times@.take(i as int)),
        decreases times@.len() - i,
    {
        proof {
            assert(times@.take(i + 1).drop_last() =~= times@.take(i as int));
            lemma_sum_prefix_le(times@, i + 1);
        }
        let t = times[i];
        total = total + (t.secs as u128) * 1_000_000_000 + (t.nanos as u128);
        i = i + 1;
    }
    proof {
        assert(times@.take(times@.len() as int) =~= times@);
    }
    let count = ((times.len() as u64) % 0x1_0000_0000) as u128;
    let mean = total / count;
    proof {
        assert(mean <= total) by (nonlinear_arith)
            requires
                count >= 1,
                mean == total / count,
        ;
    }
    Elapsed { secs: (mean / 1_000_000_000) as u64, nanos: (mean % 1_000_000_000) as u32 }
}

impl PhaseStats {
    /// Mean time with the daemon running.
    pub fn avg_with_gity(&self) -> (a: Elapsed)
        requires
            averageable(self.with_gity_times@),
        ensures
            a.total() == spec_average(self.with_gity_times@),
            a.nanos < 1_000_000_000,
    {
        average(&self.with_gity_times)
    }

    /// Mean time without it.
    pub fn avg_without_gity(&self) -> (a: Elapsed)
        requires
            averageable(self.without_gity_times@),
        ensures
            a.total() == spec_average(self.without_gity_times@),
            a.nanos < 1_000_000_000,
    {
        average(&self.without_gity_times)
    }
}

} // verus!
