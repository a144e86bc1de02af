//! Mapping of elapsed ticks to the current display frame of a sprite.

use crate::types::Rect;
use vstd::prelude::*;

verus! {

/// An immutable animation template: per-frame source rectangles and tick
/// durations (same length), and whether the sequence loops.
pub struct Animation {
    pub frames: Vec<Rect>,
    pub times: Vec<usize>,
    pub looping: bool,
}

/// The fixed vocabulary of per-sprite animation bookkeeping states.
#[allow(non_camel_case_types)]
#[derive(PartialEq, Eq, Clone, Copy, Debug, Structural)]
pub enum AnimationState {
    Standing_Left,
    Standing_Right,
    Walking_Left,
    Walking_Right,
    Facing_Forwad,
    Fallen,
    Nothing,
}

/// The sum of the durations from index `i` to the end.
pub open spec fn time_sum_from(times: Seq<usize>, i: int) -> int
    decreases times.len() - i,
{
    if 0 <= i < times.len() {
        times[i] + time_sum_from(times, i + 1)
    } else {
        0
    }
}

/// The total duration of one cycle.
pub open spec fn total_time(times: Seq<usize>) -> int {
    time_sum_from(times, 0)
}

/// Every suffix sum of durations is non-negative.
pub proof fn lemma_time_sum_nonneg(times: Seq<usize>, i: int)
    ensures
        time_sum_from(times, i) >= 0,
    decreases times.len() - i,
{
    if 0 <= i < times.len() {
        lemma_time_sum_nonneg(times, i + 1);
    }
}

/// The scan for the active frame, resumed at index `i` with `acc` ticks
/// already accumulated: the first index at or after `i` whose cumulative
/// duration exceeds `t`, or the length when none does.
pub open spec fn frame_scan(times: Seq<usize>, t: int, i: int, acc: int) -> int
    decreases times.len() - i,
{
    if 0 <= i < times.len() {
        if acc + times[i] > t {
            i
        } else {
            frame_scan(times, t, i + 1, acc + times[i])
        }
    } else {
        i
    }
}

/// The index of the frame active at elapsed time `t`: a frame is active
/// while its cumulative start is at most `t` and its cumulative end
/// strictly exceeds `t`.
pub open spec fn frame_index(times: Seq<usize>, t: int) -> int {
    frame_scan(times, t, 0, 0)
}

impl Animation {
    /// The frame shown at tick `now` for an animation activated at tick
    /// `start`. Non-looping sequences whose elapsed time reaches the total
    /// duration show the first frame again, not the last (a quirk the
    /// games rely on, kept deliberately); looping sequences reduce the
    /// elapsed time modulo the cycle.
    pub open spec fn spec_current_frame(self, start: int, now: int) -> Rect {
        let t = now - start;
        if self.looping {
            self.frames@[frame_index(self.times@, t % total_time(self.times@))]
        } else if t >= total_time(self.times@) {
            self.frames@[0]
        } else {
            self.frames@[frame_index(self.times@, t)]
        }
    }

    /// Maps the ticks elapsed since `start_time` to the active frame.
    #[verifier::loop_isolation(false)]
    pub fn current_frame(&self, start_time: usize, now: usize) -> (r: Rect)
        requires
            start_time <= now,
            self.frames@.len() == self.times@.len(),
            self.frames@.len() > 0,
            total_time(self.times@) <= usize::MAX,
            self.looping ==> total_time(self.times@) > 0,
        ensures
            r == self.spec_current_frame(start_time as int, now as int),
    {
        let ghost times = self.times@;
        let n = self.times.len();
        let mut total: usize = 0;
        let mut i: usize = 0;
        while i < n
            invariant
                i <= n,
                total + time_sum_from(times, i as int) == total_time(times),
            decreases n - i,
        {
            proof {
                lemma_time_sum_nonneg(times, i as int + 1);
            }
            total = total + self.times[i];
            i = i + 1;
        }
        let t = now - start_time;
        if !self.looping && t >= total {
            return self.frames[0];
        }
        let disp: usize = if self.looping {
            t % total
        } else {
            t
        };
        let mut acc: usize = 0;
        let mut idx: usize = 0;
        while idx < n && self.times[idx] <= disp - acc
            invariant
                idx <= n,
                acc <= disp,
                disp < total_time(times),
                acc + time_sum_from(times, idx as int) == total_time(times),
                frame_scan(times, disp as int, idx as int, acc as int) == frame_index(
                    times,
                    disp as int,
                ),
            decreases n - idx,
        {
            proof {
                lemma_time_sum_nonneg(times, idx as int + 1);
            }
            acc = acc + self.times[idx];
            idx = idx + 1;
        }
        proof {
            if idx == n {
                assert(acc == total_time(times));
                assert(false);
            }
        }
        self.frames[idx]
    }
}

} // verus!
