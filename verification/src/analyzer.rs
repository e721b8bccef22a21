use crate::timing::{elapsed_nanos, instant_now};
use std::time::Instant;
use vstd::arithmetic::div_mod::{
    lemma_div_by_multiple, lemma_div_is_ordered, lemma_fundamental_div_mod,
};
use vstd::prelude::*;
use vstd::relations::{sorted_by, total_ordering};
use vstd::seq_lib::lemma_sorted_unique;

verus! {

broadcast use vstd::seq_lib::group_to_multiset_ensures, vstd::multiset::group_multiset_axioms;

/// Ascending order on sample durations.
pub open spec fn leq64() -> spec_fn(u64, u64) -> bool {
    |x: u64, y: u64| x <= y
}

/// The samples in ascending order.
pub open spec fn sorted_nanos(s: Seq<u64>) -> Seq<u64> {
    s.sort_by(leq64())
}

/// The sum of the samples, in nanoseconds.
pub open spec fn sum_nanos(s: Seq<u64>) -> int
    decreases s.len(),
{
    if s.len() == 0 {
        0
    } else {
        sum_nanos(s.drop_last()) + s.last()
    }
}

/// The sum of the memory samples, in bytes.
pub open spec fn sum_memory(s: Seq<usize>) -> int
    decreases s.len(),
{
    if s.len() == 0 {
        0
    } else {
        sum_memory(s.drop_last()) + s.last()
    }
}

/// Where the 95th percentile sits among `n` ascending samples.
pub open spec fn p95_index(n: int) -> int {
    n * 19 / 20
}

/// A sum of `n` durations is at most `n` times the largest possible one.
proof fn lemma_sum_nanos_bound(s: Seq<u64>)
    ensures
        0 <= sum_nanos(s) <= s.len() * u64::MAX,
    decreases s.len(),
{
    if s.len() == 0 {
    } else {
        lemma_sum_nanos_bound(s.drop_last());
        assert(s.len() * u64::MAX == (s.len() - 1) * u64::MAX + u64::MAX) by (nonlinear_arith);
    }
}

/// A sum of `n` memory samples is at most `n` times the largest possible one.
proof fn lemma_sum_memory_bound(s: Seq<usize>)
    ensures
        0 <= sum_memory(s) <= s.len() * usize::MAX,
    decreases s.len(),
{
    if s.len() == 0 {
    } else {
        lemma_sum_memory_bound(s.drop_last());
        assert(s.len() * usize::MAX == (s.len() - 1) * usize::MAX + usize::MAX)
            by (nonlinear_arith);
    }
}

/// Latency statistics over the recorded samples. All times are in
/// nanoseconds; the memory average is in bytes.
#[derive(Clone, Copy, Debug)]
pub struct PerformanceStats {
    pub total_time: u128,
    pub average_time: u64,
    pub median_time: u64,
    pub p95_time: u64,
    pub min_time: u64,
    pub max_time: u64,
    pub sample_count: usize,
    pub average_memory: usize,
}

impl PerformanceStats {
    /// All statistics at zero.
    pub open spec fn is_zero(self) -> bool {
        &&& self.total_time == 0
        &&& self.average_time == 0
        &&& self.median_time == 0
        &&& self.p95_time == 0
        &&& self.min_time == 0
        &&& self.max_time == 0
        &&& self.sample_count == 0
        &&& self.average_memory == 0
    }
}

impl Default for PerformanceStats {
    fn default() -> (r: Self)
        ensures
            r.is_zero(),
    {
        PerformanceStats {
            total_time: 0,
            average_time: 0,
            median_time: 0,
            p95_time: 0,
            min_time: 0,
            max_time: 0,
            sample_count: 0,
            average_memory: 0,
        }
    }
}

/// Records latency and memory samples and condenses them into statistics.
/// Latencies are measured against the instant `start_measurement` captured.
pub struct PerformanceAnalyzer {
    samples: Vec<u64>,
    memory_samples: Vec<usize>,
    start_time: Option<Instant>,
}

/// The position where `a` keeps `out` sorted when inserted: the first spot
/// whose element is larger.
fn insertion_point(out: &Vec<u64>, a: u64) -> (pos: usize)
    ensures
        pos <= out@.len(),
        forall|x: int| 0 <= x < pos ==> out@[x] <= a,
        pos < out@.len() ==> out@[pos as int] > a,
{
    let mut pos: usize = 0;
    while pos < out.len()
        invariant
            pos <= out@.len(),
            forall|x: int| 0 <= x < pos ==> out@[x] <= a,
        decreases out@.len() - pos,
    {
        if out[pos] > a {
            return pos;
        }
        pos += 1;
    }
    pos
}

/// The input's elements in ascending order.
fn sort_u64(input: &Vec<u64>) -> (r: Vec<u64>)
    ensures
        r@ == sorted_nanos(input@),
        r@.len() == input@.len(),
{
    let mut out: Vec<u64> = Vec::new();
    let mut i: usize = 0;
    while i < input.len()
        invariant
            i <= input@.len(),
            out@.len() == i,
            out@.to_multiset() =~= input@.subrange(0, i as int).to_multiset(),
            sorted_by(out@, leq64()),
        decreases input@.len() - i,
    {
        let a = input[i];
        let pos = insertion_point(&out, a);
        let ghost before = out@;
        out.insert(pos, a);
        proof {
            before.insert_ensures(pos as int, a);
            let p = pos as int;
            let n2 = out@.len() as int;
            assert(forall|k: int| 0 <= k < p ==> out@[k] == before[k]);
            assert(out@[p] == a);
            assert forall|k: int| p < k < n2 implies out@[k] == before[k - 1] by {
                assert(before.insert(p, a)[(k - 1) + 1] == before[k - 1]);
            }
            assert forall|x: int, y: int| 0 <= x < y < n2 implies leq64()(out@[x], out@[y]) by {
                if y < p {
                    if x < y {
                        assert(leq64()(before[x], before[y]));
                    }
                } else if y == p {
                    assert(before[x] <= a);
                } else {
                    if x < p {
                        if x < y - 1 {
                            assert(leq64()(before[x], before[y - 1]));
                        }
                    } else if x == p {
                        assert(p < before.len());
                        assert(before[p] > a);
                        if p < y - 1 {
                            assert(leq64()(before[p], before[y - 1]));
                        }
                    } else {
                        assert(leq64()(before[x - 1], before[y - 1]));
                    }
                }
                assert(out@[x] <= out@[y]);
            }
            assert(sorted_by(out@, leq64()));
            assert(input@.subrange(0, i + 1) =~= input@.subrange(0, i as int).push(input@[i as int]));
        }
        i += 1;
    }
    proof {
        let leq = leq64();
        assert(total_ordering(leq)) by {
            assert forall|x: u64, y: u64| #[trigger] leq(x, y) || #[trigger] leq(y, x) by {}
        }
        assert(input@.subrange(0, input@.len() as int) =~= input@);
        input@.lemma_sort_by_ensures(leq);
        lemma_sorted_unique(out@, sorted_nanos(input@), leq);
    }
    out
}

/// The sum of the samples, which fits in a u128.
fn sum_samples(v: &Vec<u64>) -> (r: u128)
    ensures
        r == sum_nanos(v@),
{
    let mut acc: u128 = 0;
    let mut i: usize = 0;
    while i < v.len()
        invariant
            i <= v@.len(),
            acc == sum_nanos(v@.subrange(0, i as int)),
            acc <= i * (u64::MAX as int),
        decreases v@.len() - i,
    {
        proof {
            assert(v@.subrange(0, i + 1).drop_last() =~= v@.subrange(0, i as int));
            assert((i + 1) * (u64::MAX as int) == i * (u64::MAX as int) + u64::MAX)
                by (nonlinear_arith);
            assert(i * (u64::MAX as int) <= (usize::MAX as int) * (u64::MAX as int))
                by (nonlinear_arith)
                requires
                    0 <= i <= usize::MAX as int,
            ;
            assert((usize::MAX as int) * (u64::MAX as int) + u64::MAX < u128::MAX as int)
                by (nonlinear_arith);
        }
        acc = acc + (v[i] as u128);
        i += 1;
    }
    proof {
        assert(v@.subrange(0, v@.len() as int) =~= v@);
    }
    acc
}

/// The sum of the memory samples, which fits in a u128.
fn sum_memory_samples(v: &Vec<usize>) -> (r: u128)
    ensures
        r == sum_memory(v@),
{
    let mut acc: u128 = 0;
    let mut i: usize = 0;
    while i < v.len()
        invariant
            i <= v@.len(),
            acc == sum_memory(v@.subrange(0, i as int)),
            acc <= i * (usize::MAX as int),
        decreases v@.len() - i,
    {
        proof {
            assert(v@.subrange(0, i + 1).drop_last() =~= v@.subrange(0, i as int));
            assert((i + 1) * (usize::MAX as int) == i * (usize::MAX as int) + usize::MAX)
                by (nonlinear_arith);
            assert(i * (usize::MAX as int) <= (usize::MAX as int) * (usize::MAX as int))
                by (nonlinear_arith)
                requires
                    0 <= i <= usize::MAX as int,
            ;
            assert((usize::MAX as int) * (usize::MAX as int) + usize::MAX < u128::MAX as int)
                by (nonlinear_arith);
        }
        acc = acc + (v[i] as u128);
        i += 1;
    }
    proof {
        assert(v@.subrange(0, v@.len() as int) =~= v@);
    }
    acc
}

impl PerformanceAnalyzer {
    /// The latency samples recorded so far, in nanoseconds, in recording
    /// order.
    pub closed spec fn spec_samples(self) -> Seq<u64> {
        self.samples@
    }

    /// The memory samples recorded so far, in bytes, in recording order.
    pub closed spec fn spec_memory(self) -> Seq<usize> {
        self.memory_samples@
    }

    /// Whether a measurement was started.
    pub closed spec fn started(self) -> bool {
        self.start_time is Some
    }

    /// Creates an analyzer with no samples and no running measurement.
    pub fn new() -> (r: Self)
        ensures
            r.spec_samples() =~= Seq::<u64>::empty(),
            r.spec_memory() =~= Seq::<usize>::empty(),
            !r.started(),
    {
        PerformanceAnalyzer { samples: Vec::new(), memory_samples: Vec::new(), start_time: None }
    }

    /// Starts (or restarts) the measurement clock at the present instant.
    pub fn start_measurement(&mut self)
        ensures
            final(self).spec_samples() == old(self).spec_samples(),
            final(self).spec_memory() == old(self).spec_memory(),
            final(self).started(),
    {
        self.start_time = Some(instant_now());
    }

    /// Records the time elapsed since the measurement started as one more
    /// sample; without a started measurement nothing is recorded. The value
    /// of the sample comes from the clock, so nothing is promised of it.
    pub fn record_sample(&mut self)
        ensures
            final(self).spec_memory() == old(self).spec_memory(),
            final(self).started() == old(self).started(),
            old(self).started() ==> final(self).spec_samples().len() == old(
                self,
            ).spec_samples().len() + 1 && final(self).spec_samples().drop_last() == old(
                self,
            ).spec_samples(),
            !old(self).started() ==> final(self).spec_samples() == old(self).spec_samples(),
    {
        match &self.start_time {
            Some(start) => {
                let t = elapsed_nanos(start);
                self.samples.push(t);
                proof {
                    assert(self.samples@.drop_last() =~= old(self).samples@);
                }
            },
            None => {},
        }
    }

    /// Records a memory usage sample, in bytes.
    pub fn record_memory_usage(&mut self, usage: usize)
        ensures
            final(self).spec_samples() == old(self).spec_samples(),
            final(self).started() == old(self).started(),
            final(self).spec_memory() =~= old(self).spec_memory().push(usage),
    {
        self.memory_samples.push(usage);
    }

    /// Condenses the recorded samples into statistics: the total, the mean,
    /// the median and 95th percentile of the ascending order, the extremes,
    /// the sample count and the mean memory usage. Without samples every
    /// statistic is zero.
    pub fn get_statistics(&self) -> (r: PerformanceStats)
        ensures
            self.spec_samples().len() == 0 ==> r.is_zero(),
            self.spec_samples().len() > 0 ==> {
                let s = self.spec_samples();
                let sorted = sorted_nanos(s);
                &&& r.total_time == sum_nanos(s)
                &&& r.average_time == sum_nanos(s) / (s.len() as int)
                &&& r.median_time == sorted[s.len() as int / 2]
                &&& r.p95_time == sorted[p95_index(s.len() as int)]
                &&& r.min_time == sorted[0]
                &&& r.max_time == sorted[s.len() - 1]
                &&& r.sample_count == s.len()
                &&& r.average_memory == (if self.spec_memory().len() > 0 {
                    sum_memory(self.spec_memory()) / (self.spec_memory().len() as int)
                } else {
                    0int
                })
            },
    {
        let count = self.samples.len();
        if count == 0 {
            return PerformanceStats::default();
        }
        let total = sum_samples(&self.samples);
        let average = {
            proof {
                lemma_sum_nanos_bound(self.samples@);
                lemma_div_is_ordered(
                    total as int,
                    (count as int) * (u64::MAX as int),
                    count as int,
                );
                lemma_div_by_multiple(u64::MAX as int, count as int);
                assert(((count as int) * (u64::MAX as int)) / (count as int) == u64::MAX as int);
            }
            (total / (count as u128)) as u64
        };
        let sorted = sort_u64(&self.samples);
        let median = sorted[count / 2];
        let p95_pos = (((count as u128) * 19) / 20) as usize;
        proof {
            lemma_fundamental_div_mod((count as int) * 19, 20);
            assert(p95_index(count as int) < count as int);
            assert(0 <= p95_index(count as int));
        }
        let p95 = sorted[p95_pos];
        let min_time = sorted[0];
        let max_time = sorted[count - 1];
        let memory_count = self.memory_samples.len();
        let average_memory = if memory_count > 0 {
            let memory_total = sum_memory_samples(&self.memory_samples);
            proof {
                lemma_sum_memory_bound(self.memory_samples@);
                lemma_div_is_ordered(
                    memory_total as int,
                    (memory_count as int) * (usize::MAX as int),
                    memory_count as int,
                );
                lemma_div_by_multiple(usize::MAX as int, memory_count as int);
            }
            (memory_total / (memory_count as u128)) as usize
        } else {
            0
        };
        PerformanceStats {
            total_time: total,
            average_time: average,
            median_time: median,
            p95_time: p95,
            min_time,
            max_time,
            sample_count: count,
            average_memory,
        }
    }
}

} // verus!
