//! Frame timing of sprite animations.
use vstd::prelude::*;

verus! {

/// Which of `sprite_count` frames is shown, and how long it has been shown.
/// Times are in milliseconds.
pub struct Animator {
    pub sprite_count: usize,
    pub interval: i64,
    pub current_sprite: usize,
    pub time_since_last: i64,
}

impl Animator {
    pub open spec fn wf(&self) -> bool {
        0 < self.sprite_count && self.current_sprite < self.sprite_count && 0 <= self.time_since_last
    }

    /// An animation of `sprite_count` frames, each shown `interval`
    /// milliseconds, at its first frame.
    pub fn new(sprite_count: usize, interval: i64) -> (r: Animator)
        requires
            0 < sprite_count,
        ensures
            r.wf(),
            r.sprite_count == sprite_count,
            r.interval == interval,
            r.current_sprite == 0,
            r.time_since_last == 0,
    {
        Animator { sprite_count, interval, current_sprite: 0, time_since_last: 0 }
    }

    /// Lets `delta` milliseconds pass: once the frame has been shown for
    /// the interval, the next frame starts, after the last the first.
    pub fn next(&mut self, delta: i64)
        requires
            old(self).wf(),
            0 <= delta,
            old(self).time_since_last + delta <= i64::MAX,
        ensures
            final(self).wf(),
            final(self).sprite_count == old(self).sprite_count,
            final(self).interval == old(self).interval,
            old(self).time_since_last + delta >= old(self).interval ==> {
                &&& final(self).time_since_last == 0
                &&& final(self).current_sprite == (old(self).current_sprite + 1) % (old(self).sprite_count as int)
            },
            old(self).time_since_last + delta < old(self).interval ==> {
                &&& final(self).time_since_last == old(self).time_since_last + delta
                &&& final(self).current_sprite == old(self).current_sprite
            },
    {
        self.time_since_last = self.time_since_last + delta;
        if self.time_since_last >= self.interval {
            self.time_since_last = 0;
            if self.current_sprite == self.sprite_count - 1 {
                proof {
                    vstd::arithmetic::div_mod::lemma_mod_self_0(self.sprite_count as int);
                }
                self.current_sprite = 0;
            } else {
                proof {
                    vstd::arithmetic::div_mod::lemma_small_mod((self.current_sprite + 1) as nat, self.sprite_count as nat);
                }
                self.current_sprite = self.current_sprite + 1;
            }
        }
    }
}

} // verus!
