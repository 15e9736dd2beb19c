//! The animation driver's per-tick decisions. The loop that sleeps, samples
//! the platform and pushes icons lives with the caller; each tick it asks
//! this state machine whether to sample and which frame, if any, to push.

use vstd::prelude::*;
use crate::metrics::{MetricsCache, refresh_due_spec};
use crate::scheduler::{fps_for_load, fps_spec, frame_index, frame_index_spec, BASE_FPS};

verus! {

/// Time between two ticks of the driver loop.
pub const TICK_INTERVAL_MS: u64 = 50;

/// State owned by the driver loop.
#[derive(Clone, Copy, Debug, PartialEq, Eq, Structural)]
pub struct AnimationDriver {
    pub metrics: MetricsCache,
    pub current_fps: u32,
    pub last_index: usize,
    pub frame_count: usize,
}

impl AnimationDriver {
    pub open spec fn wf(&self) -> bool {
        &&& self.metrics.wf()
        &&& self.frame_count > 0
        &&& self.last_index < self.frame_count
    }

    /// Frame rate for the cached load.
    pub open spec fn target_fps(&self) -> int {
        fps_spec(self.metrics.sample.cpu_bp as int)
    }

    /// Frame that should be on screen at `now_ms`.
    pub open spec fn target_index(&self, now_ms: int) -> int {
        frame_index_spec(now_ms, self.target_fps(), self.frame_count as int)
    }

    /// Frame pushed by a tick at `now_ms`: the target frame when it differs
    /// from the one on screen, else none.
    pub open spec fn push_at(&self, now_ms: int) -> Option<usize> {
        if self.target_index(now_ms) != self.last_index {
            Some(self.target_index(now_ms) as usize)
        } else {
            None
        }
    }

    /// State after a tick at `now_ms`.
    pub open spec fn after_tick(&self, now_ms: int) -> Self {
        AnimationDriver {
            current_fps: self.target_fps() as u32,
            last_index: self.target_index(now_ms) as usize,
            ..*self
        }
    }

    /// A driver for a bank of `frame_count` frames, started at `start_ms`,
    /// at the base rate and with frame 0 taken as shown.
    pub fn new(frame_count: usize, start_ms: u64) -> (d: Self)
        requires
            frame_count > 0,
        ensures
            d.wf(),
            d.metrics == MetricsCache::new_spec(start_ms),
            d.current_fps == BASE_FPS,
            d.last_index == 0,
            d.frame_count == frame_count,
    {
        AnimationDriver {
            metrics: MetricsCache::new(start_ms),
            current_fps: BASE_FPS,
            last_index: 0,
            frame_count,
        }
    }

    /// First step of a tick: whether the platform probe should be sampled now.
    pub fn sample_due(&mut self, now_ms: u64) -> (due: bool)
        ensures
            due == refresh_due_spec(old(self).metrics.last_refresh_ms as int, now_ms as int),
            final(self).metrics.last_refresh_ms == (if due {
                now_ms
            } else {
                old(self).metrics.last_refresh_ms
            }),
            final(self).metrics.sample == old(self).metrics.sample,
            final(self).current_fps == old(self).current_fps,
            final(self).last_index == old(self).last_index,
            final(self).frame_count == old(self).frame_count,
    {
        self.metrics.poll_refresh(now_ms)
    }

    /// Hands over the reading of a probe sampled at `now_ms`.
    pub fn record_load(&mut self, now_ms: u64, cpu_bp: u32)
        requires
            old(self).wf(),
        ensures
            final(self).wf(),
            *final(self) == (AnimationDriver {
                metrics: old(self).metrics.recorded(now_ms, cpu_bp),
                ..*old(self)
            }),
    {
        self.metrics.record(now_ms, cpu_bp);
    }

    /// Second step of a tick: derives the rate from the cached load, selects
    /// the frame for `now_ms`, and returns it when it must be pushed.
    pub fn advance(&mut self, now_ms: u64) -> (push: Option<usize>)
        requires
            old(self).wf(),
        ensures
            final(self).wf(),
            push == old(self).push_at(now_ms as int),
            *final(self) == old(self).after_tick(now_ms as int),
            push matches Some(i) ==> i < old(self).frame_count,
    {
        let fps = fps_for_load(self.metrics.sample.cpu_bp);
        let index = frame_index(now_ms, fps, self.frame_count);
        self.current_fps = fps;
        if index != self.last_index {
            self.last_index = index;
            Some(index)
        } else {
            None
        }
    }
}

/// Two ticks that fall in the same frame slot of `1000 / fps` ms, with no
/// new sample between them, push at most one frame: the second pushes none.
pub proof fn lemma_one_push_per_slot(d: AnimationDriver, t1: int, t2: int)
    requires
        d.wf(),
        t1 * d.target_fps() / 1000 == t2 * d.target_fps() / 1000,
    ensures
        d.after_tick(t1).push_at(t2) is None,
{
}

/// A tick delayed by any `delay` shows the frame of the instant it actually
/// runs at, whatever was shown before: the driver never catches up through
/// extra frames.
pub proof fn lemma_no_catch_up(d: AnimationDriver, prev_ms: int, delay: int)
    requires
        d.wf(),
        delay >= 0,
    ensures
        d.after_tick(prev_ms).after_tick(prev_ms + delay).last_index
            == d.target_index(prev_ms + delay),
        d.after_tick(prev_ms).push_at(prev_ms + delay) is Some ==>
            d.after_tick(prev_ms).push_at(prev_ms + delay) == Some(
                d.target_index(prev_ms + delay) as usize,
            ),
{
}

} // verus!
