//! Cached load sample with a throttled refresh policy: sampling the
//! platform is expensive, reading the cache is free.

use vstd::prelude::*;
use crate::scheduler::FULL_LOAD_BP;

verus! {

/// Minimum time between two refreshes of the platform probe.
pub const REFRESH_INTERVAL_MS: u64 = 2000;

/// A CPU load reading, in basis points (hundredths of a percent).
#[derive(Clone, Copy, Debug, PartialEq, Eq, Structural)]
pub struct LoadSample {
    pub cpu_bp: u32,
    pub sampled_at_ms: u64,
}

/// The last sample and the time of the last refresh.
#[derive(Clone, Copy, Debug, PartialEq, Eq, Structural)]
pub struct MetricsCache {
    pub last_refresh_ms: u64,
    pub sample: LoadSample,
}

/// A refresh is due once at least `REFRESH_INTERVAL_MS` have passed since the
/// last one.
pub open spec fn refresh_due_spec(last_refresh_ms: int, now_ms: int) -> bool {
    now_ms >= last_refresh_ms + REFRESH_INTERVAL_MS
}

/// One poll at `now_ms`: the cache afterwards and whether a refresh is due.
pub open spec fn poll_step(c: MetricsCache, now_ms: u64) -> (MetricsCache, bool) {
    if refresh_due_spec(c.last_refresh_ms as int, now_ms as int) {
        (MetricsCache { last_refresh_ms: now_ms, ..c }, true)
    } else {
        (c, false)
    }
}

/// Number of refreshes that polling at each of `times` in turn starts,
/// from the cache `c`.
pub open spec fn refresh_count(c: MetricsCache, times: Seq<u64>) -> nat
    decreases times.len(),
{
    if times.len() == 0 {
        0
    } else {
        let (next, due) = poll_step(c, times[0]);
        (if due { 1nat } else { 0nat }) + refresh_count(next, times.drop_first())
    }
}

/// Number of `true` answers in `answers`.
pub open spec fn count_true(answers: Seq<bool>) -> nat
    decreases answers.len(),
{
    if answers.len() == 0 {
        0
    } else {
        (if answers[0] { 1nat } else { 0nat }) + count_true(answers.drop_first())
    }
}

/// Whether `caches` and `answers` record successive `poll_refresh` calls at
/// `times`: `caches[k]` before call `k`, `caches[k + 1]` after it, and
/// `answers[k]` what it returned.
pub open spec fn is_poll_trace(caches: Seq<MetricsCache>, answers: Seq<bool>, times: Seq<u64>) -> bool {
    &&& caches.len() == times.len() + 1
    &&& answers.len() == times.len()
    &&& forall|k: int|
        0 <= k < times.len() ==> (caches[k + 1], answers[k]) == poll_step(#[trigger] caches[k], times[k])
}

impl MetricsCache {
    pub open spec fn wf(&self) -> bool {
        self.sample.cpu_bp <= FULL_LOAD_BP
    }

    pub open spec fn new_spec(start_ms: u64) -> Self {
        MetricsCache { last_refresh_ms: start_ms, sample: LoadSample { cpu_bp: 0, sampled_at_ms: start_ms } }
    }

    /// The cache after storing a reading `cpu_bp` taken at `now_ms`.
    pub open spec fn recorded(self, now_ms: u64, cpu_bp: u32) -> Self {
        MetricsCache {
            last_refresh_ms: self.last_refresh_ms,
            sample: LoadSample {
                cpu_bp: if cpu_bp > FULL_LOAD_BP { FULL_LOAD_BP } else { cpu_bp },
                sampled_at_ms: if now_ms > self.sample.sampled_at_ms {
                    now_ms
                } else {
                    self.sample.sampled_at_ms
                },
            },
        }
    }

    /// A cache whose interval starts at `start_ms`, holding a zero load: until
    /// the first refresh, or for good if the probe is unavailable, the load
    /// reads as zero.
    pub fn new(start_ms: u64) -> (c: Self)
        ensures
            c.wf(),
            c == Self::new_spec(start_ms),
    {
        MetricsCache { last_refresh_ms: start_ms, sample: LoadSample { cpu_bp: 0, sampled_at_ms: start_ms } }
    }

    /// Whether the probe should be sampled at `now_ms`; when it should, the
    /// interval restarts at `now_ms`.
    pub fn poll_refresh(&mut self, now_ms: u64) -> (due: bool)
        ensures
            (*final(self), due) == poll_step(*old(self), now_ms),
            due == refresh_due_spec(old(self).last_refresh_ms as int, now_ms as int),
            final(self).last_refresh_ms == (if due { now_ms } else { old(self).last_refresh_ms }),
            final(self).sample == old(self).sample,
    {
        let due = now_ms >= self.last_refresh_ms && now_ms - self.last_refresh_ms >= REFRESH_INTERVAL_MS;
        if due {
            self.last_refresh_ms = now_ms;
        }
        due
    }

    /// Stores a fresh reading taken at `now_ms`, clamped to full load. The
    /// sample time never moves backwards.
    pub fn record(&mut self, now_ms: u64, cpu_bp: u32)
        ensures
            final(self).wf(),
            *final(self) == old(self).recorded(now_ms, cpu_bp),
    {
        let cpu: u32 = if cpu_bp > FULL_LOAD_BP { FULL_LOAD_BP } else { cpu_bp };
        let at: u64 = if now_ms > self.sample.sampled_at_ms { now_ms } else { self.sample.sampled_at_ms };
        self.sample = LoadSample { cpu_bp: cpu, sampled_at_ms: at };
    }

    /// The cached sample; no platform work.
    pub fn read(&self) -> (s: LoadSample)
        ensures
            s == self.sample,
    {
        self.sample
    }
}

/// Polling at no time later than `c.last_refresh_ms + REFRESH_INTERVAL_MS`
/// (exclusive) starts no refresh.
pub proof fn lemma_no_refresh_before_interval(c: MetricsCache, times: Seq<u64>)
    requires
        forall|i: int| 0 <= i < times.len() ==> times[i] < c.last_refresh_ms + REFRESH_INTERVAL_MS,
    ensures
        refresh_count(c, times) == 0,
    decreases times.len(),
{
    if times.len() > 0 {
        let rest = times.drop_first();
        assert forall|i: int| 0 <= i < rest.len() implies rest[i] < c.last_refresh_ms + REFRESH_INTERVAL_MS by {
            assert(rest[i] == times[i + 1]);
        }
        lemma_no_refresh_before_interval(c, rest);
    }
}

/// Polls at times that all lie within one span shorter than
/// `REFRESH_INTERVAL_MS` start at most one refresh, however many there are.
pub proof fn lemma_refresh_count_throttled(c: MetricsCache, times: Seq<u64>, window_start: int)
    requires
        forall|i: int|
            0 <= i < times.len() ==> window_start <= #[trigger] times[i] < window_start
                + REFRESH_INTERVAL_MS,
    ensures
        refresh_count(c, times) <= 1,
    decreases times.len(),
{
    if times.len() > 0 {
        let rest = times.drop_first();
        assert forall|i: int| 0 <= i < rest.len() implies window_start <= #[trigger] rest[i]
            < window_start + REFRESH_INTERVAL_MS by {
            assert(rest[i] == times[i + 1]);
        }
        let (next, due) = poll_step(c, times[0]);
        if due {
            assert forall|i: int| 0 <= i < rest.len() implies rest[i] < next.last_refresh_ms
                + REFRESH_INTERVAL_MS by {
                assert(rest[i] == times[i + 1]);
            }
            lemma_no_refresh_before_interval(next, rest);
        } else {
            lemma_refresh_count_throttled(next, rest, window_start);
        }
    }
}

/// The refreshes a trace of successive polls reports are those
/// `refresh_count` counts from its first cache.
pub proof fn lemma_trace_refresh_count(caches: Seq<MetricsCache>, answers: Seq<bool>, times: Seq<u64>)
    requires
        is_poll_trace(caches, answers, times),
    ensures
        count_true(answers) == refresh_count(caches[0], times),
    decreases times.len(),
{
    if times.len() > 0 {
        let (c2, a2, t2) = (caches.drop_first(), answers.drop_first(), times.drop_first());
        assert forall|k: int| 0 <= k < t2.len() implies (c2[k + 1], a2[k]) == poll_step(
            #[trigger] c2[k],
            t2[k],
        ) by {
            assert(c2[k] == caches[k + 1] && c2[k + 1] == caches[k + 2]);
            assert(poll_step(caches[k + 1], times[k + 1]) == (caches[k + 2], answers[k + 1]));
        }
        assert(poll_step(caches[0], times[0]) == (caches[1], answers[0]));
        lemma_trace_refresh_count(c2, a2, t2);
    }
}

/// However many successive `poll_refresh` calls a reader makes, when they
/// all fall within one span shorter than `REFRESH_INTERVAL_MS` at most one
/// of them answers that a refresh is due.
pub proof fn lemma_refresh_throttled(
    caches: Seq<MetricsCache>,
    answers: Seq<bool>,
    times: Seq<u64>,
    window_start: int,
)
    requires
        is_poll_trace(caches, answers, times),
        forall|i: int|
            0 <= i < times.len() ==> window_start <= #[trigger] times[i] < window_start
                + REFRESH_INTERVAL_MS,
    ensures
        count_true(answers) <= 1,
{
    lemma_trace_refresh_count(caches, answers, times);
    lemma_refresh_count_throttled(caches[0], times, window_start);
}

} // verus!
