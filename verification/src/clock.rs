//! The playback clock: the single source of truth for media time.
//!
//! The clock stores an anchored pair of a wall-clock instant and a media
//! time. While playing, `now` grows linearly from the anchor at the current
//! rate; while paused it is frozen at the anchored media time, and no wall
//! anchor is kept. Anchoring avoids drift from accumulated per-tick deltas.

use crate::time::{Fps, MAX_ELAPSED_US, MAX_MEDIA_US, MAX_RATE_MILLI, MAX_WALL_US};
use crate::time::{spec_us_to_frames_floor, spec_us_to_frames_round, us_to_frames_floor, us_to_frames_round};
use vstd::arithmetic::div_mod::{lemma_div_is_ordered, lemma_div_pos_is_pos};
use vstd::arithmetic::mul::{lemma_mul_inequality, lemma_mul_nonnegative};
use vstd::prelude::*;

verus! {

/// Media-time clock with play / pause / seek semantics.
pub struct PlaybackClock {
    pub playing: bool,
    /// Wall-clock anchor in microseconds; kept only while playing.
    pub anchor_wall_us: Option<i64>,
    /// Media-time anchor in microseconds.
    pub anchor_media_us: i64,
    /// Playback rate in thousandths (1000 = real time).
    pub rate_milli: u32,
}

impl PlaybackClock {
    /// The structural invariant: a paused clock holds no wall anchor, and
    /// all quantities stay inside the integer ranges the arithmetic needs.
    pub open spec fn wf(self) -> bool {
        &&& self.playing <==> self.anchor_wall_us is Some
        &&& 0 <= self.anchor_media_us <= MAX_MEDIA_US
        &&& (self.anchor_wall_us matches Some(w) ==> 0 <= w <= MAX_WALL_US)
        &&& self.rate_milli <= MAX_RATE_MILLI
    }

    /// A wall reading the clock may be asked about: at or after the anchor,
    /// and not unreasonably far past it.
    pub open spec fn wall_ok(self, wall_us: int) -> bool {
        &&& 0 <= wall_us <= MAX_WALL_US
        &&& (self.anchor_wall_us matches Some(w) ==> w <= wall_us <= w + MAX_ELAPSED_US)
    }

    /// Media time reported at the given wall reading.
    pub open spec fn spec_now(self, wall_us: int) -> int {
        if self.playing {
            self.anchor_media_us + (wall_us - self.anchor_wall_us->Some_0)
                * self.rate_milli as int / 1000
        } else {
            self.anchor_media_us as int
        }
    }

    proof fn lemma_now_in_range(self, wall_us: int)
        requires
            self.wf(),
            self.wall_ok(wall_us),
        ensures
            self.anchor_media_us <= self.spec_now(wall_us)
                <= self.anchor_media_us + 6_400_000_000_000_000,
    {
        if self.playing {
            let e = wall_us - self.anchor_wall_us->Some_0;
            let r = self.rate_milli as int;
            lemma_mul_nonnegative(e, r);
            lemma_div_pos_is_pos(e * r, 1000);
            lemma_mul_inequality(e, MAX_ELAPSED_US as int, r);
            lemma_mul_inequality(r, MAX_RATE_MILLI as int, MAX_ELAPSED_US as int);
            lemma_div_is_ordered(e * r, MAX_ELAPSED_US as int * MAX_RATE_MILLI as int, 1000);
            assert(MAX_ELAPSED_US as int * MAX_RATE_MILLI as int / 1000
                == 6_400_000_000_000_000);
        }
    }

    pub fn new() -> (r: Self)
        ensures
            r.wf(),
            !r.playing,
            r.anchor_media_us == 0,
            r.rate_milli == 1000,
    {
        PlaybackClock { playing: false, anchor_wall_us: None, anchor_media_us: 0, rate_milli: 1000 }
    }

    /// Start playing from `at_us`, anchored at the current wall reading.
    pub fn play(&mut self, at_us: i64, wall_us: i64)
        requires
            old(self).wf(),
            0 <= at_us <= MAX_MEDIA_US,
            0 <= wall_us <= MAX_WALL_US,
        ensures
            final(self).wf(),
            final(self).playing,
            final(self).anchor_media_us == at_us,
            final(self).anchor_wall_us == Some(wall_us),
            final(self).rate_milli == old(self).rate_milli,
            final(self).spec_now(wall_us as int) == at_us,
    {
        self.playing = true;
        self.anchor_media_us = at_us;
        self.anchor_wall_us = Some(wall_us);
    }

    /// Pause at `at_us`. Afterwards `now` equals `at_us` at every wall
    /// reading, which is the frozen-while-paused rule.
    pub fn pause(&mut self, at_us: i64)
        requires
            old(self).wf(),
            0 <= at_us <= MAX_MEDIA_US,
        ensures
            final(self).wf(),
            !final(self).playing,
            final(self).anchor_media_us == at_us,
            final(self).anchor_wall_us is None,
            final(self).rate_milli == old(self).rate_milli,
            forall|w: int| final(self).spec_now(w) == at_us,
    {
        self.playing = false;
        self.anchor_media_us = at_us;
        self.anchor_wall_us = None;
    }

    /// Move the clock to `t_us`. A playing clock is re-anchored at the
    /// current wall reading; a paused clock just changes its frozen time.
    pub fn seek_to(&mut self, t_us: i64, wall_us: i64)
        requires
            old(self).wf(),
            0 <= t_us <= MAX_MEDIA_US,
            0 <= wall_us <= MAX_WALL_US,
        ensures
            final(self).wf(),
            final(self).playing == old(self).playing,
            final(self).anchor_media_us == t_us,
            final(self).rate_milli == old(self).rate_milli,
            final(self).spec_now(wall_us as int) == t_us,
            !final(self).playing ==> final(self).anchor_wall_us is None,
    {
        if self.playing {
            self.anchor_media_us = t_us;
            self.anchor_wall_us = Some(wall_us);
        } else {
            self.anchor_media_us = t_us;
        }
    }

    /// Change the rate, re-anchoring at the current `now` so the reported
    /// media time is continuous across the change.
    pub fn set_rate(&mut self, rate_milli: u32, wall_us: i64)
        requires
            old(self).wf(),
            old(self).wall_ok(wall_us as int),
            old(self).spec_now(wall_us as int) <= MAX_MEDIA_US,
            rate_milli <= MAX_RATE_MILLI,
        ensures
            final(self).wf(),
            final(self).playing == old(self).playing,
            final(self).rate_milli == rate_milli,
            final(self).spec_now(wall_us as int) == old(self).spec_now(wall_us as int),
    {
        if self.playing {
            let at = self.now(wall_us);
            self.anchor_media_us = at;
            self.anchor_wall_us = Some(wall_us);
        }
        self.rate_milli = rate_milli;
    }

    /// Current media time at the given wall reading.
    pub fn now(&self, wall_us: i64) -> (r: i64)
        requires
            self.wf(),
            self.wall_ok(wall_us as int),
        ensures
            r as int == self.spec_now(wall_us as int),
            0 <= r <= MAX_MEDIA_US + 6_400_000_000_000_000,
    {
        proof {
            self.lemma_now_in_range(wall_us as int);
        }
        if self.playing {
            let anchor = match self.anchor_wall_us {
                Some(w) => w,
                None => 0,
            };
            let elapsed: u128 = (wall_us - anchor) as u128;
            let scaled: u128 = elapsed * (self.rate_milli as u128) / 1000;
            proof {
                lemma_mul_nonnegative(elapsed as int, self.rate_milli as int);
                lemma_mul_inequality(elapsed as int, MAX_ELAPSED_US as int, self.rate_milli as int);
                lemma_mul_inequality(self.rate_milli as int, MAX_RATE_MILLI as int,
                    MAX_ELAPSED_US as int);
                lemma_div_is_ordered(elapsed as int * self.rate_milli as int,
                    MAX_ELAPSED_US as int * MAX_RATE_MILLI as int, 1000);
                lemma_div_pos_is_pos(elapsed as int * self.rate_milli as int, 1000);
                assert(MAX_ELAPSED_US as int * MAX_RATE_MILLI as int / 1000
                    == 6_400_000_000_000_000);
            }
            self.anchor_media_us + (scaled as i64)
        } else {
            self.anchor_media_us
        }
    }
}

/// While a clock is playing, `now` never decreases as wall time advances.
pub proof fn lemma_now_nondecreasing_while_playing(c: PlaybackClock, w1: int, w2: int)
    requires
        c.wf(),
        c.playing,
        c.anchor_wall_us->Some_0 <= w1 <= w2,
    ensures
        c.spec_now(w1) <= c.spec_now(w2),
{
    let a = c.anchor_wall_us->Some_0;
    let r = c.rate_milli as int;
    lemma_mul_inequality(w1 - a, w2 - a, r);
    lemma_div_is_ordered((w1 - a) * r, (w2 - a) * r, 1000);
}

/// While a clock is paused, `now` is the same at every wall reading.
pub proof fn lemma_now_constant_while_paused(c: PlaybackClock, w1: int, w2: int)
    requires
        !c.playing,
    ensures
        c.spec_now(w1) == c.spec_now(w2),
{
}

/// The playhead frame shown for a media time: the nearest frame while
/// paused, the last started frame while playing (which prevents flicker at
/// fractional frame boundaries).
pub open spec fn spec_playhead_frame(now_us: int, fps: Fps, playing: bool) -> int {
    if playing {
        spec_us_to_frames_floor(now_us, fps)
    } else {
        spec_us_to_frames_round(now_us, fps)
    }
}

pub fn playhead_frame(now_us: i64, fps: Fps, playing: bool) -> (r: i64)
    requires
        fps.wf(),
        0 <= now_us <= MAX_MEDIA_US,
    ensures
        r as int == spec_playhead_frame(now_us as int, fps, playing),
        0 <= r,
{
    if playing {
        us_to_frames_floor(now_us, fps)
    } else {
        us_to_frames_round(now_us, fps)
    }
}

} // verus!
