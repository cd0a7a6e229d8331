//! The per-source decode worker state machine and the command debouncer.
//!
//! A worker owns one decoder and runs a tick loop: drain commands, compute
//! the target media time for its mode, decode (with a small retry budget so
//! hardware pipelines can drain), and publish into a latest-wins slot. The
//! loop itself runs on a thread outside this library; every decision it
//! takes is a function here, from state and inputs to the next state and
//! action.

use crate::media::VideoFrame;
use crate::time::{
    Fps, MAX_ELAPSED_US, MAX_MEDIA_US, MAX_RATE_MILLI, MAX_WALL_US, spec_us_to_frames_round,
    us_to_frames_round,
};
use vstd::arithmetic::div_mod::{lemma_div_is_ordered, lemma_div_pos_is_pos};
use vstd::arithmetic::mul::{lemma_mul_inequality, lemma_mul_nonnegative};
use vstd::prelude::*;

verus! {

/// When the decoder returns no frame, how many further calls on the same
/// target one tick may spend to let the pipeline drain.
pub const PREFETCH_BUDGET_PER_TICK: usize = 6;

/// Drive mode of the engine and of each worker.
#[derive(Clone, Copy, Debug, PartialEq, Eq, Structural)]
pub enum PlayState {
    Paused,
    Seeking,
    Playing,
    Scrubbing,
}

/// Engine-side playback state: mode, rate, and the media time the preview
/// currently wants.
#[derive(Clone, Copy, Debug, PartialEq, Eq, Structural)]
pub struct EngineState {
    pub state: PlayState,
    pub rate_milli: u32,
    pub target_pts_us: i64,
}

/// Commands accepted by a decode worker, in delivery order.
#[derive(Clone, Debug)]
pub enum DecodeCmd {
    Play { start_pts_us: i64, rate_milli: u32 },
    Seek { target_pts_us: i64 },
    Pause,
    Stop,
}

pub open spec fn cmd_wf(cmd: DecodeCmd) -> bool {
    match cmd {
        DecodeCmd::Play { start_pts_us, rate_milli } => {
            0 <= start_pts_us <= MAX_MEDIA_US && rate_milli <= MAX_RATE_MILLI
        },
        DecodeCmd::Seek { target_pts_us } => 0 <= target_pts_us <= MAX_MEDIA_US,
        DecodeCmd::Pause => true,
        DecodeCmd::Stop => true,
    }
}

/// Internal state of one decode worker.
pub struct WorkerState {
    pub mode: PlayState,
    pub rate_milli: u32,
    pub anchor_pts_us: i64,
    pub anchor_wall_us: i64,
    pub running: bool,
}

/// What one tick of the worker loop should do.
pub enum TickPlan {
    /// Decode toward this media time, retrying up to the prefetch budget.
    Decode { target_us: i64 },
    /// Paused: sleep briefly and poll commands again.
    Idle,
}

impl WorkerState {
    pub open spec fn wf(self) -> bool {
        &&& 0 <= self.anchor_pts_us <= MAX_MEDIA_US
        &&& 0 <= self.anchor_wall_us <= MAX_WALL_US
        &&& self.rate_milli <= MAX_RATE_MILLI
    }

    /// A fresh worker starts paused at media time zero.
    pub fn new(wall_us: i64) -> (r: Self)
        requires
            0 <= wall_us <= MAX_WALL_US,
        ensures
            r.wf(),
            r.mode == PlayState::Paused,
            r.rate_milli == 1000,
            r.running,
            r.anchor_wall_us == wall_us,
    {
        WorkerState {
            mode: PlayState::Paused,
            rate_milli: 1000,
            anchor_pts_us: 0,
            anchor_wall_us: wall_us,
            running: true,
        }
    }

    /// Apply one drained command. `Play` re-anchors only on the transition
    /// into `Playing` (so repeated `Play`s keep smooth progression) but
    /// always updates the rate; `Seek` retargets; `Pause` idles; `Stop`
    /// ends the loop.
    pub fn apply_cmd(&mut self, cmd: &DecodeCmd, wall_us: i64)
        requires
            old(self).wf(),
            cmd_wf(*cmd),
            0 <= wall_us <= MAX_WALL_US,
        ensures
            final(self).wf(),
            match *cmd {
                DecodeCmd::Play { start_pts_us, rate_milli } => {
                    &&& final(self).rate_milli == rate_milli
                    &&& final(self).mode == PlayState::Playing
                    &&& final(self).running == old(self).running
                    &&& (old(self).mode != PlayState::Playing ==> {
                        &&& final(self).anchor_pts_us == start_pts_us
                        &&& final(self).anchor_wall_us == wall_us
                    })
                    &&& (old(self).mode == PlayState::Playing ==> {
                        &&& final(self).anchor_pts_us == old(self).anchor_pts_us
                        &&& final(self).anchor_wall_us == old(self).anchor_wall_us
                    })
                },
                DecodeCmd::Seek { target_pts_us } => {
                    &&& final(self).mode == PlayState::Seeking
                    &&& final(self).anchor_pts_us == target_pts_us
                    &&& final(self).rate_milli == old(self).rate_milli
                    &&& final(self).anchor_wall_us == old(self).anchor_wall_us
                    &&& final(self).running == old(self).running
                },
                DecodeCmd::Pause => {
                    &&& final(self).mode == PlayState::Paused
                    &&& final(self).anchor_pts_us == old(self).anchor_pts_us
                    &&& final(self).anchor_wall_us == old(self).anchor_wall_us
                    &&& final(self).rate_milli == old(self).rate_milli
                    &&& final(self).running == old(self).running
                },
                DecodeCmd::Stop => {
                    &&& !final(self).running
                    &&& final(self).mode == old(self).mode
                    &&& final(self).anchor_pts_us == old(self).anchor_pts_us
                    &&& final(self).anchor_wall_us == old(self).anchor_wall_us
                    &&& final(self).rate_milli == old(self).rate_milli
                },
            },
    {
        match cmd {
            DecodeCmd::Play { start_pts_us, rate_milli } => {
                if self.mode != PlayState::Playing {
                    self.mode = PlayState::Playing;
                    self.anchor_pts_us = *start_pts_us;
                    self.anchor_wall_us = wall_us;
                }
                self.rate_milli = *rate_milli;
            },
            DecodeCmd::Seek { target_pts_us } => {
                self.mode = PlayState::Seeking;
                self.anchor_pts_us = *target_pts_us;
            },
            DecodeCmd::Pause => {
                self.mode = PlayState::Paused;
            },
            DecodeCmd::Stop => {
                self.running = false;
            },
        }
    }

    /// The media time one playing tick aims for: the anchored pts plus the
    /// rate-scaled wall time since the anchor.
    pub open spec fn spec_play_target(self, wall_us: int) -> int {
        self.anchor_pts_us + (wall_us - self.anchor_wall_us) * self.rate_milli as int / 1000
    }

    /// Decide what this tick does: while playing, chase the rate-scaled
    /// target; while seeking or scrubbing, decode the anchored target;
    /// while paused, do nothing.
    pub fn plan_tick(&self, wall_us: i64) -> (r: TickPlan)
        requires
            self.wf(),
            self.anchor_wall_us <= wall_us <= self.anchor_wall_us + MAX_ELAPSED_US,
        ensures
            match r {
                TickPlan::Decode { target_us } => {
                    &&& self.mode != PlayState::Paused
                    &&& (self.mode == PlayState::Playing ==> target_us == self.spec_play_target(
                        wall_us as int,
                    ))
                    &&& (self.mode != PlayState::Playing ==> target_us == self.anchor_pts_us)
                    &&& 0 <= target_us <= MAX_MEDIA_US + 6_400_000_000_000_000
                },
                TickPlan::Idle => self.mode == PlayState::Paused,
            },
    {
        match self.mode {
            PlayState::Paused => TickPlan::Idle,
            PlayState::Playing => {
                let elapsed: u128 = (wall_us - self.anchor_wall_us) as u128;
                proof {
                    lemma_mul_nonnegative(elapsed as int, self.rate_milli as int);
                    lemma_mul_inequality(elapsed as int, MAX_ELAPSED_US as int,
                        self.rate_milli as int);
                    lemma_mul_inequality(self.rate_milli as int, MAX_RATE_MILLI as int,
                        MAX_ELAPSED_US as int);
                    lemma_div_is_ordered(elapsed as int * self.rate_milli as int,
                        MAX_ELAPSED_US as int * MAX_RATE_MILLI as int, 1000);
                    lemma_div_pos_is_pos(elapsed as int * self.rate_milli as int, 1000);
                    assert(MAX_ELAPSED_US as int * MAX_RATE_MILLI as int / 1000
                        == 6_400_000_000_000_000);
                }
                let scaled: u128 = elapsed * (self.rate_milli as u128) / 1000;
                TickPlan::Decode { target_us: self.anchor_pts_us + (scaled as i64) }
            },
            PlayState::Seeking | PlayState::Scrubbing => TickPlan::Decode {
                target_us: self.anchor_pts_us,
            },
        }
    }
}

/// Index of the first decode attempt that produced a frame, within the
/// initial call plus the per-tick retry budget. The worker stops at the
/// first hit; later entries are never inspected.
pub fn first_decoded_attempt(attempts: &Vec<Option<VideoFrame>>) -> (r: Option<usize>)
    ensures
        r matches Some(i) ==> {
            &&& i < attempts@.len()
            &&& i <= PREFETCH_BUDGET_PER_TICK
            &&& attempts@[i as int] is Some
            &&& forall|j: int| 0 <= j < i ==> attempts@[j] is None
        },
        r is None ==> forall|j: int|
            0 <= j < attempts@.len() && j <= PREFETCH_BUDGET_PER_TICK ==> attempts@[j] is None,
{
    let mut i: usize = 0;
    while i < attempts.len() && i <= PREFETCH_BUDGET_PER_TICK
        invariant
            i <= attempts@.len(),
            i <= PREFETCH_BUDGET_PER_TICK + 1,
            forall|j: int| 0 <= j < i ==> attempts@[j] is None,
        decreases attempts@.len() - i,
    {
        if attempts[i].is_some() {
            return Some(i);
        }
        i = i + 1;
    }
    None
}

/// Consecutive decode misses a worker tolerates before it re-creates its
/// decoder.
pub const MISS_RECREATE_THRESHOLD: u32 = 30;

/// The worker's failure bookkeeping: per-frame decode errors are counted,
/// and when they pile up the decoder is re-created, once; after that the
/// worker only keeps counting.
pub struct DecodeHealth {
    pub misses: u32,
    pub recreated: bool,
}

impl DecodeHealth {
    pub fn new() -> (r: Self)
        ensures
            r.misses == 0,
            !r.recreated,
    {
        DecodeHealth { misses: 0, recreated: false }
    }

    /// A frame decoded: the miss window starts over.
    pub fn record_success(&mut self)
        ensures
            final(self).misses == 0,
            final(self).recreated == old(self).recreated,
    {
        self.misses = 0;
    }

    /// A decode error. Returns whether the decoder must be re-created
    /// now: exactly when the threshold is reached and no re-creation has
    /// happened before, so the decoder is rebuilt at most once.
    pub fn record_miss(&mut self) -> (r: bool)
        ensures
            (r <==> (old(self).misses + 1 >= MISS_RECREATE_THRESHOLD && !old(self).recreated)),
            r ==> final(self).misses == 0 && final(self).recreated,
            !r ==> {
                &&& final(self).recreated == old(self).recreated
                &&& final(self).misses == if old(self).misses < u32::MAX {
                    (old(self).misses + 1) as u32
                } else {
                    old(self).misses
                }
            },
    {
        let next = if self.misses < u32::MAX {
            self.misses + 1
        } else {
            self.misses
        };
        if next >= MISS_RECREATE_THRESHOLD && !self.recreated {
            self.misses = 0;
            self.recreated = true;
            true
        } else {
            self.misses = next;
            false
        }
    }
}

/// The worker's latest-frame slot: a single-cell mailbox where each write
/// overwrites the prior value and a read moves the value out.
pub struct LatestFrameSlot {
    pub frame: Option<VideoFrame>,
}

impl LatestFrameSlot {
    pub fn new() -> (r: Self)
        ensures
            r.frame is None,
    {
        LatestFrameSlot { frame: None }
    }

    /// Install a new frame; whatever was there is dropped (latest wins).
    pub fn publish(&mut self, f: VideoFrame)
        ensures
            final(self).frame == Some(f),
    {
        self.frame = Some(f);
    }

    /// Move the current frame out, leaving the slot empty.
    pub fn take(&mut self) -> (r: Option<VideoFrame>)
        ensures
            r == old(self).frame,
            final(self).frame is None,
    {
        self.frame.take()
    }
}

/// Tolerance for accepting a seeked frame: half a frame duration, but at
/// least 12 milliseconds.
pub fn pick_tolerance_us(fps: Fps) -> (r: i64)
    requires
        fps.wf(),
    ensures
        r as int == if crate::time::spec_frames_to_us(1, fps) / 2 >= 12_000 {
            crate::time::spec_frames_to_us(1, fps) / 2
        } else {
            12_000int
        },
{
    let frame_dur = crate::time::frames_to_us(1, fps);
    let half = frame_dur / 2;
    if half >= 12_000 {
        half
    } else {
        12_000
    }
}

/// Whether a published frame may be shown: while playing every newest
/// frame is taken; otherwise only a frame within the tolerance of the
/// seek target, so stale frames never flash during a scrub.
pub fn accept_frame(mode: PlayState, frame_pts_us: i64, target_us: i64, tol_us: i64) -> (r: bool)
    requires
        0 <= tol_us,
        -MAX_MEDIA_US <= frame_pts_us <= MAX_MEDIA_US,
        0 <= target_us <= MAX_MEDIA_US,
    ensures
        mode == PlayState::Playing ==> r,
        mode != PlayState::Playing ==> r == (-tol_us <= frame_pts_us - target_us <= tol_us),
{
    if mode == PlayState::Playing {
        true
    } else {
        let d = frame_pts_us - target_us;
        -tol_us <= d && d <= tol_us
    }
}

/// What pressing the play/pause toggle does.
pub enum TransportAction {
    /// Pause the clock, engine and audio at the current position.
    Pause,
    /// Start playing from this frame (rewound to the start when the
    /// playhead had run past the end).
    PlayFrom { frame: i64 },
}

/// Decide the transport toggle: pause when playing; otherwise play from
/// the playhead, rewinding to frame zero when it sits at or past the end.
pub fn plan_transport_toggle(playing: bool, playhead: i64, duration_frames: i64) -> (r:
    TransportAction)
    ensures
        playing ==> r is Pause,
        !playing ==> (r matches TransportAction::PlayFrom { frame } && frame == (
        if playhead >= duration_frames {
            0int
        } else {
            playhead as int
        })),
{
    if playing {
        TransportAction::Pause
    } else if playhead >= duration_frames {
        TransportAction::PlayFrom { frame: 0 }
    } else {
        TransportAction::PlayFrom { frame: playhead }
    }
}

/// The debounce key: one command is sent per distinct combination of mode,
/// source path, and (outside playback) seek bucket.
pub struct SentKey {
    pub state: PlayState,
    pub path: String,
    pub bucket: Option<i64>,
}

/// The seek bucket of a media time: the target quantized to the sequence
/// frame grid. While playing there is no bucket; one `Play` is sent per
/// transition.
pub open spec fn spec_seek_bucket(state: PlayState, media_us: int, fps: Fps) -> Option<int> {
    if state == PlayState::Playing {
        None
    } else {
        Some(spec_us_to_frames_round(media_us, fps))
    }
}

pub open spec fn key_matches(k: SentKey, state: PlayState, path: Seq<char>, media_us: int, fps: Fps) -> bool {
    &&& k.state == state
    &&& k.path@ == path
    &&& match (k.bucket, spec_seek_bucket(state, media_us, fps)) {
        (None, None) => true,
        (Some(a), Some(b)) => a == b,
        _ => false,
    }
}

/// Remembers the last command sent per the debounce rule, so a stationary
/// playhead with an unchanged mode sends at most one command per bucket.
pub struct CommandDebouncer {
    pub last_sent: Option<SentKey>,
}

impl CommandDebouncer {
    pub fn new() -> (r: Self)
        ensures
            r.last_sent is None,
    {
        CommandDebouncer { last_sent: None }
    }

    /// Decide whether a command must go to the worker for this mode, path
    /// and target. Returns `None` exactly when the same key was already
    /// sent; otherwise returns the command and remembers the key.
    pub fn plan_command(
        &mut self,
        state: PlayState,
        path: &String,
        media_us: i64,
        rate_milli: u32,
        fps: Fps,
    ) -> (r: Option<DecodeCmd>)
        requires
            fps.wf(),
            0 <= media_us <= MAX_MEDIA_US,
        ensures
            r is None <==> (old(self).last_sent matches Some(k) && key_matches(
                k,
                state,
                path@,
                media_us as int,
                fps,
            )),
            final(self).last_sent matches Some(k) && key_matches(
                k,
                state,
                path@,
                media_us as int,
                fps,
            ),
            r matches Some(cmd) ==> cmd == (if state == PlayState::Playing {
                DecodeCmd::Play { start_pts_us: media_us, rate_milli }
            } else {
                DecodeCmd::Seek { target_pts_us: media_us }
            }),
    {
        let bucket: Option<i64> = if state == PlayState::Playing {
            None
        } else {
            Some(us_to_frames_round(media_us, fps))
        };
        let already = match &self.last_sent {
            None => false,
            Some(k) => {
                let buckets_agree = match (&k.bucket, &bucket) {
                    (None, None) => true,
                    (Some(a), Some(b)) => *a == *b,
                    _ => false,
                };
                k.state == state && k.path == *path && buckets_agree
            },
        };
        if already {
            return None;
        }
        self.last_sent = Some(SentKey { state, path: path.clone(), bucket });
        if state == PlayState::Playing {
            Some(DecodeCmd::Play { start_pts_us: media_us, rate_milli })
        } else {
            Some(DecodeCmd::Seek { target_pts_us: media_us })
        }
    }
}

/// The debounce law: when the playhead is stationary (same media target)
/// and the mode and path are unchanged, the second request sends nothing.
pub proof fn lemma_debounce_suppresses_repeat(
    d: CommandDebouncer,
    state: PlayState,
    path: Seq<char>,
    media_us: int,
    fps: Fps,
)
    requires
        d.last_sent matches Some(k) && key_matches(k, state, path, media_us, fps),
    ensures
        forall|media2: int|
            spec_seek_bucket(state, media2, fps) == spec_seek_bucket(state, media_us, fps)
                ==> (d.last_sent matches Some(k) && key_matches(k, state, path, media2, fps)),
{
}

} // verus!
