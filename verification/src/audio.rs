//! The audio engine model: decoded PCM buffers, the mixer that sums the
//! active clips against the clock, and the small conversions the output
//! device callbacks perform. Samples are 16-bit signed integers.

use crate::convert::{sdiv, spec_sdiv};
use crate::time::{Fps, MAX_RATE_MILLI, MICROS_PER_SECOND, frames_to_us, spec_frames_to_us};
use crate::timeline::{ClipNode, TimelineGraph, TimelineNodeKind, MAX_TIMELINE_US};
use std::collections::VecDeque;
use vstd::prelude::*;

verus! {

/// A decoded PCM block: interleaved 16-bit samples.
#[derive(Clone, Debug)]
pub struct AudioBuffer {
    pub samples: Vec<i16>,
    pub channels: u16,
    pub sample_rate: u32,
}

impl AudioBuffer {
    pub open spec fn wf(self) -> bool {
        &&& 1 <= self.channels <= 64
        &&& 1 <= self.sample_rate <= 1_000_000
    }

    /// Sample of frame `f`, channel `ch`; zero outside the buffer.
    pub open spec fn spec_sample(self, f: int, ch: int) -> int {
        if 0 <= f && 0 <= ch < self.channels && (f * self.channels + ch) < self.samples@.len() {
            self.samples@[f * self.channels + ch] as int
        } else {
            0
        }
    }

    /// Whole frames stored in the buffer.
    pub open spec fn spec_frame_count(self) -> int {
        self.samples@.len() as int / self.channels as int
    }
}

/// Decode little-endian byte pairs into 16-bit samples, as the raw PCM
/// reader hands them over.
pub open spec fn spec_i16_le(lo: u8, hi: u8) -> i16 {
    ((lo as u16 + hi as u16 * 256) as u16) as i16
}

pub fn bytes_to_i16le(bytes: &[u8]) -> (r: Vec<i16>)
    ensures
        r@.len() == bytes@.len() / 2,
        forall|i: int|
            0 <= i < r@.len() ==> #[trigger] r@[i] == spec_i16_le(bytes@[2 * i], bytes@[2 * i + 1]),
{
    let blen = bytes.len();
    let n = blen / 2;
    proof {
        assert(blen == bytes@.len());
        vstd::arithmetic::div_mod::lemma_fundamental_div_mod(bytes@.len() as int, 2);
        vstd::arithmetic::div_mod::lemma_mod_bound(bytes@.len() as int, 2);
    }
    let mut out: Vec<i16> = Vec::new();
    let mut i: usize = 0;
    while i < n
        invariant
            n == bytes@.len() / 2,
            2 * n <= bytes@.len(),
            bytes@.len() <= usize::MAX,
            i <= n,
            out@.len() == i,
            forall|j: int|
                0 <= j < i ==> #[trigger] out@[j] == spec_i16_le(bytes@[2 * j], bytes@[2 * j + 1]),
        decreases n - i,
    {
        let lo = bytes[2 * i];
        let hi = bytes[2 * i + 1];
        let w: u16 = lo as u16 + hi as u16 * 256;
        let v: i16 = #[verifier::truncate] (w as i16);
        out.push(v);
        i = i + 1;
    }
    out
}

/// Fill an output block for a signed 16-bit device: pop queued samples
/// from the front, zero-filling once the queue runs dry.
pub fn fill_audio_i16(len: usize, queue: &mut VecDeque<i16>) -> (r: Vec<i16>)
    ensures
        r@.len() == len,
        forall|i: int|
            0 <= i < len ==> #[trigger] r@[i] == if i < old(queue)@.len() {
                old(queue)@[i]
            } else {
                0i16
            },
        final(queue)@ == if old(queue)@.len() >= len {
            old(queue)@.skip(len as int)
        } else {
            Seq::<i16>::empty()
        },
{
    let mut out: Vec<i16> = Vec::new();
    let mut i: usize = 0;
    while i < len
        invariant
            i <= len,
            out@.len() == i,
            forall|j: int|
                0 <= j < i ==> #[trigger] out@[j] == if j < old(queue)@.len() {
                    old(queue)@[j]
                } else {
                    0i16
                },
            queue@ == if old(queue)@.len() >= i {
                old(queue)@.skip(i as int)
            } else {
                Seq::<i16>::empty()
            },
        decreases len - i,
    {
        let v = match queue.pop_front() {
            Some(v) => v,
            None => 0,
        };
        out.push(v);
        proof {
            if old(queue)@.len() >= i + 1 {
                assert(queue@ =~= old(queue)@.skip(i as int + 1));
            } else {
                assert(queue@ =~= Seq::<i16>::empty());
            }
        }
        i = i + 1;
    }
    out
}

/// Recenter a signed sample for an unsigned 16-bit device.
pub open spec fn spec_u16_center(v: i16) -> u16 {
    (v as int + 32768) as u16
}

/// Fill an output block for an unsigned 16-bit device.
pub fn fill_audio_u16(len: usize, queue: &mut VecDeque<i16>) -> (r: Vec<u16>)
    ensures
        r@.len() == len,
        forall|i: int|
            0 <= i < len ==> #[trigger] r@[i] == spec_u16_center(
                if i < old(queue)@.len() {
                    old(queue)@[i]
                } else {
                    0i16
                },
            ),
{
    let filled = fill_audio_i16(len, queue);
    let mut out: Vec<u16> = Vec::new();
    let mut i: usize = 0;
    while i < len
        invariant
            filled@.len() == len,
            i <= len,
            out@.len() == i,
            forall|j: int| 0 <= j < i ==> #[trigger] out@[j] == spec_u16_center(filled@[j]),
            forall|j: int|
                0 <= j < len ==> #[trigger] filled@[j] == if j < old(queue)@.len() {
                    old(queue)@[j]
                } else {
                    0i16
                },
        decreases len - i,
    {
        let v = filled[i];
        let u: u16 = ((v as i32) + 32768) as u16;
        out.push(u);
        i = i + 1;
    }
    out
}

/// One audio clip activated for playback: where it starts on the
/// timeline, where its media starts, how long it plays, and which decoded
/// buffer it reads (an index into the engine's buffer table).
#[derive(Clone, Copy, Debug)]
pub struct ActiveAudioClip {
    pub start_tl_us: i64,
    pub start_media_us: i64,
    pub duration_us: i64,
    pub buffer: usize,
}

impl ActiveAudioClip {
    pub open spec fn wf(self) -> bool {
        &&& 0 <= self.start_tl_us <= MAX_TIMELINE_US
        &&& 0 <= self.start_media_us <= MAX_TIMELINE_US
        &&& 0 <= self.duration_us <= MAX_TIMELINE_US
    }

    /// Whether the clip's timeline span covers `t`.
    pub open spec fn spec_covers(self, t: int) -> bool {
        self.start_tl_us <= t < self.start_tl_us + self.duration_us
    }
}

pub open spec fn spec_clips_wf(clips: Seq<ActiveAudioClip>, buffers: Seq<AudioBuffer>) -> bool {
    forall|i: int|
        0 <= i < clips.len() ==> (#[trigger] clips[i]).wf() && clips[i].buffer < buffers.len()
            && buffers[clips[i].buffer as int].wf()
}

/// Clips are delivered sorted by their timeline start.
pub open spec fn spec_clips_sorted(clips: Seq<ActiveAudioClip>) -> bool {
    forall|i: int, j: int|
        0 <= i < j < clips.len() ==> (#[trigger] clips[i]).start_tl_us <= (
        #[trigger] clips[j]).start_tl_us
}

/// The linearly interpolated contribution of one clip at timeline time
/// `t`: the media position is scaled to the buffer's sample grid, and the
/// sample between two frames is the exact linear blend.
pub open spec fn spec_clip_sample(c: ActiveAudioClip, b: AudioBuffer, t: int, ch: int) -> int {
    if !c.spec_covers(t) {
        0
    } else {
        let pos_us = c.start_media_us + (t - c.start_tl_us);
        let scaled = pos_us * b.sample_rate;
        let f = scaled / (MICROS_PER_SECOND as int);
        let rem = scaled % (MICROS_PER_SECOND as int);
        let s0 = b.spec_sample(f, ch);
        let s1 = b.spec_sample(f + 1, ch);
        spec_sdiv(s0 * (MICROS_PER_SECOND as int - rem) + s1 * rem, MICROS_PER_SECOND as int)
    }
}

/// The mixed value before clamping: the sum of every clip's contribution
/// from index `j` on.
pub open spec fn spec_mix_from(
    clips: Seq<ActiveAudioClip>,
    buffers: Seq<AudioBuffer>,
    j: int,
    t: int,
    ch: int,
) -> int
    decreases clips.len() - j,
{
    if j < 0 || j >= clips.len() {
        0
    } else {
        spec_clip_sample(clips[j], buffers[clips[j].buffer as int], t, ch) + spec_mix_from(
            clips,
            buffers,
            j + 1,
            t,
            ch,
        )
    }
}

/// Clamp a mixed value to the 16-bit sample range.
pub open spec fn spec_clamp_i16(x: int) -> int {
    if x < -32768 {
        -32768
    } else if x > 32767 {
        32767
    } else {
        x
    }
}

fn clip_sample(c: &ActiveAudioClip, b: &AudioBuffer, t_us: i64, ch: u16) -> (r: i64)
    requires
        c.wf(),
        b.wf(),
        0 <= t_us <= MAX_TIMELINE_US,
    ensures
        r as int == spec_clip_sample(*c, *b, t_us as int, ch as int),
        -32768 <= r <= 32767,
{
    if !(c.start_tl_us <= t_us && t_us < c.start_tl_us + c.duration_us) {
        return 0;
    }
    let pos_us: i64 = c.start_media_us + (t_us - c.start_tl_us);
    proof {
        vstd::arithmetic::mul::lemma_mul_nonnegative(pos_us as int, b.sample_rate as int);
        vstd::arithmetic::mul::lemma_mul_inequality(pos_us as int, 2 * MAX_TIMELINE_US as int,
            b.sample_rate as int);
        vstd::arithmetic::mul::lemma_mul_inequality(b.sample_rate as int, 1_000_000,
            2 * MAX_TIMELINE_US as int);
        vstd::arithmetic::div_mod::lemma_div_pos_is_pos(pos_us as int * b.sample_rate as int,
            MICROS_PER_SECOND as int);
        vstd::arithmetic::div_mod::lemma_div_is_ordered(pos_us as int * b.sample_rate as int,
            2 * MAX_TIMELINE_US as int * 1_000_000, MICROS_PER_SECOND as int);
        vstd::arithmetic::div_mod::lemma_mod_bound(pos_us as int * b.sample_rate as int,
            MICROS_PER_SECOND as int);
    }
    let scaled: u128 = (pos_us as u128) * (b.sample_rate as u128);
    let f: u128 = scaled / (MICROS_PER_SECOND as u128);
    let rem: i64 = (scaled % (MICROS_PER_SECOND as u128)) as i64;
    let s0 = buffer_sample(b, f, ch);
    let s1 = buffer_sample(b, f + 1, ch);
    proof {
        let m = MICROS_PER_SECOND as int;
        let num = s0 as int * (m - rem) + s1 as int * rem;
        assert(num <= 32767 * m) by (nonlinear_arith)
            requires
                num == s0 as int * (m - rem) + s1 as int * rem,
                s0 as int <= 32767,
                s1 as int <= 32767,
                0 <= rem <= m,
        ;
        assert(num >= -32768 * m) by (nonlinear_arith)
            requires
                num == s0 as int * (m - rem) + s1 as int * rem,
                s0 as int >= -32768,
                s1 as int >= -32768,
                0 <= rem <= m,
        ;
        if num >= 0 {
            vstd::arithmetic::div_mod::lemma_div_is_ordered(num, 32767 * m, m);
            vstd::arithmetic::div_mod::lemma_div_by_multiple(32767, m);
            vstd::arithmetic::div_mod::lemma_div_pos_is_pos(num, m);
        } else {
            vstd::arithmetic::div_mod::lemma_div_is_ordered(-num, 32768 * m, m);
            vstd::arithmetic::div_mod::lemma_div_by_multiple(32768, m);
            vstd::arithmetic::div_mod::lemma_div_pos_is_pos(-num, m);
        }
        assert(-32768 * m <= s0 as int * (m - rem) <= 32767 * m) by (nonlinear_arith)
            requires
                -32768 <= s0 as int <= 32767,
                0 <= m - rem <= m,
                m == 1_000_000,
        ;
        assert(-32768 * m <= s1 as int * rem <= 32767 * m) by (nonlinear_arith)
            requires
                -32768 <= s1 as int <= 32767,
                0 <= rem <= m,
                m == 1_000_000,
        ;
    }
    let num: i64 = s0 * (1_000_000 - rem) + s1 * rem;
    sdiv(num, 1_000_000)
}

/// Interpolation endpoint fetch: the stored sample, zero out of range.
fn buffer_sample(b: &AudioBuffer, f: u128, ch: u16) -> (r: i64)
    requires
        b.wf(),
        f <= 0x1_0000_0000_0000_0000,
    ensures
        r as int == b.spec_sample(f as int, ch as int),
        -32768 <= r <= 32767,
{
    if ch >= b.channels {
        return 0;
    }
    proof {
        vstd::arithmetic::mul::lemma_mul_nonnegative(f as int, b.channels as int);
        assert(f as int * b.channels as int <= 0x1_0000_0000_0000_0000 * 64) by (nonlinear_arith)
            requires
                0 <= f as int <= 0x1_0000_0000_0000_0000,
                0 <= b.channels as int <= 64,
        ;
    }
    let idx: u128 = f * (b.channels as u128) + (ch as u128);
    if idx < b.samples.len() as u128 {
        b.samples[idx as usize] as i64
    } else {
        0
    }
}

/// Mix every active clip at a timeline time and clamp the sum to the
/// 16-bit range, exactly as the output device receives it.
pub fn mix_sample(
    clips: &Vec<ActiveAudioClip>,
    buffers: &Vec<AudioBuffer>,
    t_us: i64,
    ch: u16,
) -> (r: i16)
    requires
        spec_clips_wf(clips@, buffers@),
        clips@.len() <= 4096,
        0 <= t_us <= MAX_TIMELINE_US,
    ensures
        r as int == spec_clamp_i16(spec_mix_from(clips@, buffers@, 0, t_us as int, ch as int)),
{
    let n = clips.len();
    let mut acc: i64 = 0;
    let mut j: usize = 0;
    while j < n
        invariant
            spec_clips_wf(clips@, buffers@),
            n == clips@.len(),
            n <= 4096,
            0 <= t_us <= MAX_TIMELINE_US,
            j <= n,
            -32768 * (j as int) <= acc <= 32767 * (j as int),
            spec_mix_from(clips@, buffers@, 0, t_us as int, ch as int) == acc + spec_mix_from(
                clips@,
                buffers@,
                j as int,
                t_us as int,
                ch as int,
            ),
        decreases n - j,
    {
        let c = &clips[j];
        let b = &buffers[c.buffer];
        let s = clip_sample(c, b, t_us, ch);
        proof {
            assert(-32768 * (j as int + 1) <= acc + s <= 32767 * (j as int + 1)) by (nonlinear_arith)
                requires
                    -32768 * (j as int) <= acc <= 32767 * (j as int),
                    -32768 <= s <= 32767,
                    j as int >= 0,
            ;
        }
        acc = acc + s;
        j = j + 1;
    }
    if acc < -32768 {
        -32768
    } else if acc > 32767 {
        32767
    } else {
        acc as i16
    }
}

/// Transport state of the audio engine: whether it runs and from where.
/// It follows the playback clock: start and pause re-seat the position.
pub struct AudioEngineState {
    pub playing: bool,
    pub position_us: i64,
    pub clips: Vec<ActiveAudioClip>,
}

impl AudioEngineState {
    pub fn new() -> (r: Self)
        ensures
            !r.playing,
            r.position_us == 0,
            r.clips@.len() == 0,
    {
        AudioEngineState { playing: false, position_us: 0, clips: Vec::new() }
    }

    /// Begin playback at `at_us` over a pre-sorted clip list.
    pub fn start(&mut self, at_us: i64, clips: Vec<ActiveAudioClip>)
        requires
            spec_clips_sorted(clips@),
        ensures
            final(self).playing,
            final(self).position_us == at_us,
            final(self).clips == clips,
            spec_clips_sorted(final(self).clips@),
    {
        self.playing = true;
        self.position_us = at_us;
        self.clips = clips;
    }

    /// Pause at `at_us`; the clip list is kept for resuming.
    pub fn pause(&mut self, at_us: i64)
        ensures
            !final(self).playing,
            final(self).position_us == at_us,
            final(self).clips == old(self).clips,
    {
        self.playing = false;
        self.position_us = at_us;
    }

    /// Move the play position; no decoder state survives a seek.
    pub fn seek(&mut self, at_us: i64)
        ensures
            final(self).playing == old(self).playing,
            final(self).position_us == at_us,
            final(self).clips == old(self).clips,
    {
        self.position_us = at_us;
    }
}

/// The playback window of one audio clip, as the mixer consumes it:
/// the media offset and duration are divided by the playback rate, and
/// the clip is dropped when nothing of the buffer remains to play.
pub fn active_clip_window(
    timeline_start_us: i64,
    media_start_raw_us: i64,
    timeline_dur_raw_us: i64,
    rate_milli: u32,
    buffer_dur_us: i64,
    buffer: usize,
) -> (r: Option<ActiveAudioClip>)
    requires
        0 <= timeline_start_us <= MAX_TIMELINE_US,
        0 <= media_start_raw_us <= MAX_TIMELINE_US,
        0 <= timeline_dur_raw_us <= MAX_TIMELINE_US,
        10 <= rate_milli <= MAX_RATE_MILLI,
        0 <= buffer_dur_us <= MAX_TIMELINE_US,
    ensures
        ({
            let media = media_start_raw_us as int * 1000 / rate_milli as int;
            let tl_dur = timeline_dur_raw_us as int * 1000 / rate_milli as int;
            let avail = if buffer_dur_us - media >= 0 {
                buffer_dur_us - media
            } else {
                0int
            };
            let dur = if tl_dur < avail {
                tl_dur
            } else {
                avail
            };
            if dur <= 0 {
                r is None
            } else {
                r matches Some(c) && c.start_tl_us == timeline_start_us && c.start_media_us
                    == media && c.duration_us == dur && c.buffer == buffer
            }
        }),
{
    proof {
        vstd::arithmetic::mul::lemma_mul_nonnegative(media_start_raw_us as int, 1000);
        vstd::arithmetic::mul::lemma_mul_nonnegative(timeline_dur_raw_us as int, 1000);
        vstd::arithmetic::div_mod::lemma_div_pos_is_pos(media_start_raw_us as int * 1000,
            rate_milli as int);
        vstd::arithmetic::div_mod::lemma_div_pos_is_pos(timeline_dur_raw_us as int * 1000,
            rate_milli as int);
        vstd::arithmetic::div_mod::lemma_multiply_divide_le(media_start_raw_us as int * 1000,
            rate_milli as int, 100 * MAX_TIMELINE_US as int);
        vstd::arithmetic::div_mod::lemma_multiply_divide_le(timeline_dur_raw_us as int * 1000,
            rate_milli as int, 100 * MAX_TIMELINE_US as int);
        assert(media_start_raw_us as int * 1000 <= rate_milli as int * (100
            * MAX_TIMELINE_US as int)) by (nonlinear_arith)
            requires
                0 <= media_start_raw_us as int <= MAX_TIMELINE_US as int,
                10 <= rate_milli as int,
        ;
        assert(timeline_dur_raw_us as int * 1000 <= rate_milli as int * (100
            * MAX_TIMELINE_US as int)) by (nonlinear_arith)
            requires
                0 <= timeline_dur_raw_us as int <= MAX_TIMELINE_US as int,
                10 <= rate_milli as int,
        ;
    }
    let media: i64 = ((media_start_raw_us as u128) * 1000 / (rate_milli as u128)) as i64;
    let tl_dur: i64 = ((timeline_dur_raw_us as u128) * 1000 / (rate_milli as u128)) as i64;
    let avail: i64 = if buffer_dur_us - media >= 0 {
        buffer_dur_us - media
    } else {
        0
    };
    let dur: i64 = if tl_dur < avail {
        tl_dur
    } else {
        avail
    };
    if dur <= 0 {
        None
    } else {
        Some(
            ActiveAudioClip {
                start_tl_us: timeline_start_us,
                start_media_us: media,
                duration_us: dur,
                buffer,
            },
        )
    }
}

/// The decoded-audio memoization table: one buffer per source path, kept
/// for the whole session. Decoding happens outside this library; the rule
/// here is reuse-on-hit, remember-on-miss, one entry per path.
pub struct AudioBufferCache {
    pub paths: Vec<String>,
    pub buffers: Vec<AudioBuffer>,
}

impl AudioBufferCache {
    pub open spec fn wf(self) -> bool {
        &&& self.paths@.len() == self.buffers@.len()
        &&& forall|i: int, j: int|
            0 <= i < j < self.paths@.len() ==> (#[trigger] self.paths@[i])@ != (
            #[trigger] self.paths@[j])@
        &&& forall|i: int| 0 <= i < self.buffers@.len() ==> (#[trigger] self.buffers@[i]).wf()
    }

    pub fn new() -> (r: Self)
        ensures
            r.wf(),
            r.paths@.len() == 0,
    {
        AudioBufferCache { paths: Vec::new(), buffers: Vec::new() }
    }

    /// Index of the buffer decoded for this path, if one is remembered.
    pub fn find(&self, path: &str) -> (r: Option<usize>)
        requires
            self.wf(),
        ensures
            r matches Some(i) ==> i < self.buffers@.len() && (self.paths@[i as int])@ == path@,
            r is None ==> forall|i: int|
                0 <= i < self.paths@.len() ==> (#[trigger] self.paths@[i])@ != path@,
    {
        let n = self.paths.len();
        let mut i: usize = 0;
        let owned = path.to_owned();
        while i < n
            invariant
                self.wf(),
                n == self.paths@.len(),
                i <= n,
                owned@ == path@,
                forall|j: int| 0 <= j < i ==> (#[trigger] self.paths@[j])@ != path@,
            decreases n - i,
        {
            if self.paths[i] == owned {
                return Some(i);
            }
            i = i + 1;
        }
        None
    }

    /// Remember the decoded buffer of a path seen for the first time; the
    /// returned index stays valid for the rest of the session.
    pub fn store(&mut self, path: String, buf: AudioBuffer) -> (r: usize)
        requires
            old(self).wf(),
            buf.wf(),
            forall|i: int|
                0 <= i < old(self).paths@.len() ==> (#[trigger] old(self).paths@[i])@ != path@,
        ensures
            final(self).wf(),
            r == old(self).paths@.len(),
            final(self).paths@ == old(self).paths@.push(path),
            final(self).buffers@ == old(self).buffers@.push(buf),
    {
        let idx = self.paths.len();
        self.paths.push(path);
        self.buffers.push(buf);
        proof {
            assert forall|i: int, j: int|
                0 <= i < j < self.paths@.len() implies (#[trigger] self.paths@[i])@ != (
                #[trigger] self.paths@[j])@ by {
                if j < self.paths@.len() - 1 {
                    assert(self.paths@[i] == old(self).paths@[i]);
                    assert(self.paths@[j] == old(self).paths@[j]);
                    assert((old(self).paths@[i])@ != (old(self).paths@[j])@);
                } else {
                    assert(self.paths@[i] == old(self).paths@[i]);
                    assert((old(self).paths@[i])@ != self.paths@[j]@);
                }
            }
            assert forall|i: int|
                0 <= i < self.buffers@.len() implies (#[trigger] self.buffers@[i]).wf() by {
                if i < self.buffers@.len() - 1 {
                    assert(self.buffers@[i] == old(self).buffers@[i]);
                    assert(old(self).buffers@[i].wf());
                }
            }
        }
        idx
    }
}

/// Playable length of a decoded buffer in microseconds, capped at the
/// mixer's time range.
pub open spec fn spec_buffer_duration_us(b: AudioBuffer) -> int {
    let frames = b.samples@.len() as int / b.channels as int;
    let dur = frames * (MICROS_PER_SECOND as int) / b.sample_rate as int;
    if dur > MAX_TIMELINE_US {
        MAX_TIMELINE_US as int
    } else {
        dur
    }
}

pub fn buffer_duration_us(b: &AudioBuffer) -> (r: i64)
    requires
        b.wf(),
    ensures
        r as int == spec_buffer_duration_us(*b),
        0 <= r <= MAX_TIMELINE_US,
{
    proof {
        let frames = b.samples@.len() as int / b.channels as int;
        vstd::arithmetic::div_mod::lemma_div_pos_is_pos(b.samples@.len() as int,
            b.channels as int);
        vstd::arithmetic::mul::lemma_mul_nonnegative(frames, MICROS_PER_SECOND as int);
        vstd::arithmetic::div_mod::lemma_div_pos_is_pos(frames * (MICROS_PER_SECOND as int),
            b.sample_rate as int);
    }
    let frames: u128 = (b.samples.len() as u128) / (b.channels as u128);
    let dur: u128 = frames * (MICROS_PER_SECOND as u128) / (b.sample_rate as u128);
    if dur > MAX_TIMELINE_US as u128 {
        MAX_TIMELINE_US
    } else {
        dur as i64
    }
}

/// The position a path is remembered at: the first index whose stored
/// path reads the same.
pub open spec fn spec_cache_index(paths: Seq<String>, p: Seq<char>, j: int) -> Option<int>
    decreases paths.len() - j,
{
    if j < 0 || j >= paths.len() {
        None
    } else if paths[j]@ == p {
        Some(j)
    } else {
        spec_cache_index(paths, p, j + 1)
    }
}

proof fn lemma_cache_index_skip(paths: Seq<String>, p: Seq<char>, j: int)
    requires
        0 <= j <= paths.len(),
        forall|q: int| 0 <= q < j ==> (#[trigger] paths[q])@ != p,
    ensures
        spec_cache_index(paths, p, 0) == spec_cache_index(paths, p, j),
    decreases j,
{
    if j > 0 {
        lemma_cache_index_skip(paths, p, j - 1);
        assert(spec_cache_index(paths, p, j - 1) == spec_cache_index(paths, p, j));
    }
}

/// The clip one graph node contributes to the mixer: its asset must be
/// decoded already, its times must lie inside the mixer's range, and
/// something of the buffer must remain to play after rate scaling.
pub open spec fn spec_clip_for_node(
    c: ClipNode,
    fps: Fps,
    paths: Seq<String>,
    buffers: Seq<AudioBuffer>,
) -> Option<ActiveAudioClip> {
    match c.asset_id {
        None => None,
        Some(path) => match spec_cache_index(paths, path@, 0) {
            None => None,
            Some(bi) => {
                let tl_start = spec_frames_to_us(c.timeline_range.start as int, fps);
                let media_raw = spec_frames_to_us(c.media_range.start as int, fps);
                let tl_dur_raw = spec_frames_to_us(c.timeline_range.duration as int, fps);
                if tl_start > MAX_TIMELINE_US || media_raw > MAX_TIMELINE_US / 100 || tl_dur_raw
                    > MAX_TIMELINE_US / 100 {
                    None
                } else {
                    let rate = c.rate_milli as int;
                    let media = media_raw * 1000 / rate;
                    let tl_dur = tl_dur_raw * 1000 / rate;
                    let bufdur = spec_buffer_duration_us(buffers[bi]);
                    let avail = if bufdur - media >= 0 {
                        bufdur - media
                    } else {
                        0
                    };
                    let dur = if tl_dur < avail {
                        tl_dur
                    } else {
                        avail
                    };
                    if dur <= 0 {
                        None
                    } else {
                        Some(
                            ActiveAudioClip {
                                start_tl_us: tl_start as i64,
                                start_media_us: media as i64,
                                duration_us: dur as i64,
                                buffer: bi as usize,
                            },
                        )
                    }
                }
            },
        },
    }
}

/// Compute one node's mixer clip from the decoded-buffer table.
fn clip_for_node(c: &ClipNode, fps: Fps, cache: &AudioBufferCache) -> (r: Option<ActiveAudioClip>)
    requires
        c.wf(),
        fps.wf(),
        cache.wf(),
    ensures
        r == spec_clip_for_node(*c, fps, cache.paths@, cache.buffers@),
{
    let path = match &c.asset_id {
        Some(p) => p,
        None => {
            return None;
        },
    };
    let bi = match cache.find(path.as_str()) {
        Some(bi) => bi,
        None => {
            proof {
                assert forall|q: int|
                    0 <= q < cache.paths@.len() implies (#[trigger] cache.paths@[q])@ != path@
                    by {}
                lemma_cache_index_skip(cache.paths@, path@, cache.paths@.len() as int);
            }
            return None;
        },
    };
    proof {
        assert forall|q: int| 0 <= q < bi implies (#[trigger] cache.paths@[q])@ != path@ by {
            if (cache.paths@[q])@ == path@ {
                assert((cache.paths@[q])@ != (cache.paths@[bi as int])@);
            }
        }
        lemma_cache_index_skip(cache.paths@, path@, bi as int);
    }
    let tl_start_raw = frames_to_us(c.timeline_range.start, fps);
    let media_raw = frames_to_us(c.media_range.start, fps);
    let tl_dur_raw = frames_to_us(c.timeline_range.duration, fps);
    if tl_start_raw > MAX_TIMELINE_US || media_raw > MAX_TIMELINE_US / 100 || tl_dur_raw
        > MAX_TIMELINE_US / 100 {
        return None;
    }
    let bufdur = buffer_duration_us(&cache.buffers[bi]);
    active_clip_window(tl_start_raw, media_raw, tl_dur_raw, c.rate_milli, bufdur, bi)
}

/// The mixer clips one track contributes, scanning its placements from
/// `j`: every stored clip node whose asset is decoded and playable.
pub open spec fn spec_collect_nodes(
    g: TimelineGraph,
    fps: Fps,
    paths: Seq<String>,
    buffers: Seq<AudioBuffer>,
    t: int,
    j: int,
) -> Seq<ActiveAudioClip>
    decreases g.tracks@[t].node_ids@.len() - j,
{
    if j < 0 || j >= g.tracks@[t].node_ids@.len() {
        Seq::empty()
    } else {
        let rest = spec_collect_nodes(g, fps, paths, buffers, t, j + 1);
        let id = g.tracks@[t].node_ids@[j];
        if g.spec_has_node(id) {
            match g.nodes@[g.spec_node_index(id)].kind {
                TimelineNodeKind::Clip(c) => match spec_clip_for_node(c, fps, paths, buffers) {
                    Some(ac) => seq![ac] + rest,
                    None => rest,
                },
                _ => rest,
            }
        } else {
            rest
        }
    }
}

/// The mixer clips of all audio tracks from `t` on, in track order.
pub open spec fn spec_collect_tracks(
    g: TimelineGraph,
    fps: Fps,
    paths: Seq<String>,
    buffers: Seq<AudioBuffer>,
    t: int,
) -> Seq<ActiveAudioClip>
    decreases g.tracks@.len() - t,
{
    if t < 0 || t >= g.tracks@.len() {
        Seq::empty()
    } else {
        let rest = spec_collect_tracks(g, fps, paths, buffers, t + 1);
        if g.tracks@[t].kind is Audio {
            spec_collect_nodes(g, fps, paths, buffers, t, 0) + rest
        } else {
            rest
        }
    }
}

/// Every collected clip is well formed and points into the buffer table.
proof fn lemma_collect_nodes_wf(
    g: TimelineGraph,
    fps: Fps,
    paths: Seq<String>,
    buffers: Seq<AudioBuffer>,
    t: int,
    j: int,
)
    requires
        g.wf(),
        fps.wf(),
        paths.len() == buffers.len(),
    ensures
        ({
            let s = spec_collect_nodes(g, fps, paths, buffers, t, j);
            forall|k: int|
                0 <= k < s.len() ==> (#[trigger] s[k]).wf() && s[k].buffer < buffers.len()
        }),
    decreases g.tracks@[t].node_ids@.len() - j,
{
    let s = spec_collect_nodes(g, fps, paths, buffers, t, j);
    if 0 <= j < g.tracks@[t].node_ids@.len() {
        lemma_collect_nodes_wf(g, fps, paths, buffers, t, j + 1);
        let rest = spec_collect_nodes(g, fps, paths, buffers, t, j + 1);
        let id = g.tracks@[t].node_ids@[j];
        if g.spec_has_node(id) {
            match g.nodes@[g.spec_node_index(id)].kind {
                TimelineNodeKind::Clip(c) => {
                    assert(crate::timeline::spec_node_wf(g.nodes@[g.spec_node_index(id)]));
                    match spec_clip_for_node(c, fps, paths, buffers) {
                        Some(ac) => {
                            lemma_clip_for_node_wf(c, fps, paths, buffers);
                            assert forall|k: int|
                                0 <= k < s.len() implies (#[trigger] s[k]).wf() && s[k].buffer
                                < buffers.len() by {
                                if k == 0 {
                                    assert(s[k] == ac);
                                } else {
                                    assert(s[k] == rest[k - 1]);
                                }
                            }
                        },
                        None => {},
                    }
                },
                _ => {},
            }
        }
    }
}

proof fn lemma_clip_for_node_wf(c: ClipNode, fps: Fps, paths: Seq<String>, buffers: Seq<
    AudioBuffer,
>)
    requires
        c.wf(),
        fps.wf(),
        paths.len() == buffers.len(),
    ensures
        spec_clip_for_node(c, fps, paths, buffers) matches Some(ac) ==> ac.wf() && ac.buffer
            < buffers.len(),
{
    match c.asset_id {
        None => {},
        Some(path) => {
            lemma_cache_index_bounds(paths, path@, 0);
            match spec_cache_index(paths, path@, 0) {
                None => {},
                Some(bi) => {
                    let tl_start = spec_frames_to_us(c.timeline_range.start as int, fps);
                    let media_raw = spec_frames_to_us(c.media_range.start as int, fps);
                    let tl_dur_raw = spec_frames_to_us(c.timeline_range.duration as int, fps);
                    let rate = c.rate_milli as int;
                    crate::time::lemma_frames_to_us_bounds(c.timeline_range.start as int, fps);
                    crate::time::lemma_frames_to_us_bounds(c.media_range.start as int, fps);
                    crate::time::lemma_frames_to_us_bounds(c.timeline_range.duration as int,
                        fps);
                    if tl_start <= MAX_TIMELINE_US && media_raw <= MAX_TIMELINE_US as int / 100
                        && tl_dur_raw <= MAX_TIMELINE_US as int / 100 {
                        vstd::arithmetic::mul::lemma_mul_nonnegative(media_raw, 1000);
                        vstd::arithmetic::mul::lemma_mul_nonnegative(tl_dur_raw, 1000);
                        vstd::arithmetic::div_mod::lemma_div_pos_is_pos(media_raw * 1000, rate);
                        vstd::arithmetic::div_mod::lemma_div_pos_is_pos(tl_dur_raw * 1000, rate);
                        assert(media_raw * 1000 <= rate * (MAX_TIMELINE_US as int))
                            by (nonlinear_arith)
                            requires
                                0 <= media_raw <= MAX_TIMELINE_US as int / 100,
                                rate >= 10,
                                MAX_TIMELINE_US as int / 100 * 100 <= MAX_TIMELINE_US as int,
                        ;
                        assert(tl_dur_raw * 1000 <= rate * (MAX_TIMELINE_US as int))
                            by (nonlinear_arith)
                            requires
                                0 <= tl_dur_raw <= MAX_TIMELINE_US as int / 100,
                                rate >= 10,
                                MAX_TIMELINE_US as int / 100 * 100 <= MAX_TIMELINE_US as int,
                        ;
                        vstd::arithmetic::div_mod::lemma_multiply_divide_le(media_raw * 1000,
                            rate, MAX_TIMELINE_US as int);
                        vstd::arithmetic::div_mod::lemma_multiply_divide_le(tl_dur_raw * 1000,
                            rate, MAX_TIMELINE_US as int);
                    }
                },
            }
        },
    }
}

proof fn lemma_cache_index_bounds(paths: Seq<String>, p: Seq<char>, j: int)
    ensures
        spec_cache_index(paths, p, j) matches Some(bi) ==> 0 <= bi < paths.len(),
    decreases paths.len() - j,
{
    if 0 <= j < paths.len() && paths[j]@ != p {
        lemma_cache_index_bounds(paths, p, j + 1);
    }
}

/// Gather the mixer clips of every audio track, in the graph's own order.
fn collect_active_clips(g: &TimelineGraph, fps: Fps, cache: &AudioBufferCache) -> (r: Vec<
    ActiveAudioClip,
>)
    requires
        g.wf(),
        fps.wf(),
        cache.wf(),
    ensures
        r@ == spec_collect_tracks(*g, fps, cache.paths@, cache.buffers@, 0),
{
    let n_tracks = g.tracks.len();
    let mut out: Vec<ActiveAudioClip> = Vec::new();
    let mut t: usize = 0;
    proof {
        assert(out@ + spec_collect_tracks(*g, fps, cache.paths@, cache.buffers@, 0)
            =~= spec_collect_tracks(*g, fps, cache.paths@, cache.buffers@, 0));
    }
    while t < n_tracks
        invariant
            g.wf(),
            fps.wf(),
            cache.wf(),
            n_tracks == g.tracks@.len(),
            t <= n_tracks,
            spec_collect_tracks(*g, fps, cache.paths@, cache.buffers@, 0) == out@
                + spec_collect_tracks(*g, fps, cache.paths@, cache.buffers@, t as int),
        decreases n_tracks - t,
    {
        if g.tracks[t].kind.is_audio() {
            let n_ids = g.tracks[t].node_ids.len();
            let mut j: usize = 0;
            proof {
                assert(out@ + (spec_collect_nodes(*g, fps, cache.paths@, cache.buffers@,
                    t as int, 0) + spec_collect_tracks(*g, fps, cache.paths@, cache.buffers@,
                    t as int + 1)) =~= out@ + spec_collect_nodes(*g, fps, cache.paths@,
                    cache.buffers@, t as int, 0) + spec_collect_tracks(*g, fps, cache.paths@,
                    cache.buffers@, t as int + 1));
            }
            while j < n_ids
                invariant
                    g.wf(),
                    fps.wf(),
                    cache.wf(),
                    t < g.tracks@.len(),
                    n_ids == g.tracks@[t as int].node_ids@.len(),
                    j <= n_ids,
                    spec_collect_tracks(*g, fps, cache.paths@, cache.buffers@, 0) == out@
                        + spec_collect_nodes(*g, fps, cache.paths@, cache.buffers@, t as int,
                        j as int) + spec_collect_tracks(*g, fps, cache.paths@, cache.buffers@,
                        t as int + 1),
                decreases n_ids - j,
            {
                let id = g.tracks[t].node_ids[j];
                if let Some(n) = g.find_node(id) {
                    proof {
                        g.lemma_node_index_unique(id, n as int);
                        assert(g.spec_has_node(id));
                    }
                    match &g.nodes[n].kind {
                        TimelineNodeKind::Clip(c) => {
                            proof {
                                assert(c.wf());
                            }
                            if let Some(ac) = clip_for_node(c, fps, cache) {
                                let ghost pre = out@;
                                out.push(ac);
                                proof {
                                    assert(out@ =~= pre + seq![ac]);
                                    assert(pre + (seq![ac] + spec_collect_nodes(*g, fps,
                                        cache.paths@, cache.buffers@, t as int, j + 1)) =~= out@
                                        + spec_collect_nodes(*g, fps, cache.paths@,
                                        cache.buffers@, t as int, j + 1));
                                    assert(pre + (seq![ac] + spec_collect_nodes(*g, fps,
                                        cache.paths@, cache.buffers@, t as int, j + 1))
                                        + spec_collect_tracks(*g, fps, cache.paths@,
                                        cache.buffers@, t as int + 1) =~= out@
                                        + spec_collect_nodes(*g, fps, cache.paths@,
                                        cache.buffers@, t as int, j + 1) + spec_collect_tracks(
                                        *g, fps, cache.paths@, cache.buffers@, t as int + 1));
                                }
                            }
                        },
                        _ => {},
                    }
                }
                j = j + 1;
            }
            proof {
                assert(spec_collect_nodes(*g, fps, cache.paths@, cache.buffers@, t as int,
                    n_ids as int) =~= Seq::<ActiveAudioClip>::empty());
                assert(out@ + Seq::<ActiveAudioClip>::empty() =~= out@);
            }
        }
        t = t + 1;
    }
    proof {
        assert(spec_collect_tracks(*g, fps, cache.paths@, cache.buffers@, n_tracks as int)
            =~= Seq::<ActiveAudioClip>::empty());
        assert(out@ + Seq::<ActiveAudioClip>::empty() =~= out@);
    }
    out
}

/// Order clips by their timeline start, smallest first; the result holds
/// exactly the same clips (as a multiset).
pub fn sort_clips_by_start(clips: Vec<ActiveAudioClip>) -> (r: Vec<ActiveAudioClip>)
    ensures
        spec_clips_sorted(r@),
        r@.to_multiset() == clips@.to_multiset(),
        r@.len() == clips@.len(),
{
    let mut rem = clips;
    let mut out: Vec<ActiveAudioClip> = Vec::new();
    proof {
        broadcast use vstd::seq_lib::group_to_multiset_ensures;

        assert(out@.to_multiset().add(rem@.to_multiset()) =~= rem@.to_multiset());
    }
    while rem.len() > 0
        invariant
            spec_clips_sorted(out@),
            out@.to_multiset().add(rem@.to_multiset()) == clips@.to_multiset(),
            out@.len() + rem@.len() == clips@.len(),
            forall|a: int, b: int|
                0 <= a < out@.len() && 0 <= b < rem@.len() ==> (#[trigger] out@[a]).start_tl_us
                    <= (#[trigger] rem@[b]).start_tl_us,
        decreases rem@.len(),
    {
        let n = rem.len();
        let mut m: usize = 0;
        let mut q: usize = 1;
        while q < n
            invariant
                n == rem@.len(),
                m < n,
                q <= n,
                forall|x: int| 0 <= x < q ==> rem@[m as int].start_tl_us <= (#[trigger] rem@[x]).start_tl_us,
            decreases n - q,
        {
            if rem[q].start_tl_us < rem[m].start_tl_us {
                m = q;
            }
            q = q + 1;
        }
        let ghost rem_old = rem@;
        let ghost out_old = out@;
        let e = rem.remove(m);
        out.push(e);
        proof {
            broadcast use vstd::seq_lib::group_to_multiset_ensures;

            assert(rem@.to_multiset() =~= rem_old.to_multiset().remove(e));
            assert(out@.to_multiset() =~= out_old.to_multiset().insert(e));
            assert(rem_old.to_multiset().count(e) > 0) by {
                assert(rem_old.contains(e));
            }
            assert(out@.to_multiset().add(rem@.to_multiset()) =~= out_old.to_multiset().add(
                rem_old.to_multiset()));
            assert forall|a: int, b: int|
                0 <= a < b < out@.len() implies (#[trigger] out@[a]).start_tl_us <= (
                #[trigger] out@[b]).start_tl_us by {
                if b < out@.len() - 1 {
                    assert(out_old[a].start_tl_us <= out_old[b].start_tl_us);
                } else {
                    assert(out@[b] == e);
                    assert(out_old[a].start_tl_us <= rem_old[m as int].start_tl_us);
                }
            }
            assert forall|a: int, b: int|
                0 <= a < out@.len() && 0 <= b < rem@.len() implies (
                #[trigger] out@[a]).start_tl_us <= (#[trigger] rem@[b]).start_tl_us by {
                let b0 = if b < m as int {
                    b
                } else {
                    b + 1
                };
                assert(rem@[b] == rem_old[b0]);
                if a < out@.len() - 1 {
                    assert(out_old[a].start_tl_us <= rem_old[b0].start_tl_us);
                } else {
                    assert(out@[a] == e);
                    assert(rem_old[m as int].start_tl_us <= rem_old[b0].start_tl_us);
                }
            }
        }
    }
    out
}

/// Assemble the mixer's input: every playable audio clip of the graph's
/// audio tracks, against the decoded-buffer table, sorted by timeline
/// start. The result is exactly the collected clips of
/// `spec_collect_tracks`, reordered.
pub fn build_audio_clips(g: &TimelineGraph, fps: Fps, cache: &AudioBufferCache) -> (r: Vec<
    ActiveAudioClip,
>)
    requires
        g.wf(),
        fps.wf(),
        cache.wf(),
    ensures
        spec_clips_sorted(r@),
        spec_clips_wf(r@, cache.buffers@),
        r@.to_multiset() == spec_collect_tracks(*g, fps, cache.paths@, cache.buffers@,
            0).to_multiset(),
        r@.len() == spec_collect_tracks(*g, fps, cache.paths@, cache.buffers@, 0).len(),
{
    let collected = collect_active_clips(g, fps, cache);
    let ghost collected_view = collected@;
    let sorted = sort_clips_by_start(collected);
    proof {
        broadcast use vstd::seq_lib::group_to_multiset_ensures;

        assert forall|k: int|
            0 <= k < sorted@.len() implies (#[trigger] sorted@[k]).wf() && sorted@[k].buffer
            < cache.buffers@.len() && cache.buffers@[sorted@[k].buffer as int].wf() by {
            let e = sorted@[k];
            assert(sorted@.contains(e));
            assert(sorted@.to_multiset().count(e) > 0);
            assert(collected_view.to_multiset().count(e) > 0);
            assert(collected_view.contains(e));
            let i = choose|i: int| 0 <= i < collected_view.len() && collected_view[i] == e;
            lemma_collect_tracks_wf(*g, fps, cache.paths@, cache.buffers@, 0);
            assert(spec_collect_tracks(*g, fps, cache.paths@, cache.buffers@, 0)[i] == e);
            assert(e.buffer < cache.buffers@.len());
        }
    }
    sorted
}

/// Well-formedness of every clip the track walk collects.
proof fn lemma_collect_tracks_wf(
    g: TimelineGraph,
    fps: Fps,
    paths: Seq<String>,
    buffers: Seq<AudioBuffer>,
    t: int,
)
    requires
        g.wf(),
        fps.wf(),
        paths.len() == buffers.len(),
    ensures
        ({
            let s = spec_collect_tracks(g, fps, paths, buffers, t);
            forall|k: int|
                0 <= k < s.len() ==> (#[trigger] s[k]).wf() && s[k].buffer < buffers.len()
        }),
    decreases g.tracks@.len() - t,
{
    let s = spec_collect_tracks(g, fps, paths, buffers, t);
    if 0 <= t < g.tracks@.len() {
        lemma_collect_tracks_wf(g, fps, paths, buffers, t + 1);
        let rest = spec_collect_tracks(g, fps, paths, buffers, t + 1);
        if g.tracks@[t].kind is Audio {
            lemma_collect_nodes_wf(g, fps, paths, buffers, t, 0);
            let head = spec_collect_nodes(g, fps, paths, buffers, t, 0);
            assert forall|k: int|
                0 <= k < s.len() implies (#[trigger] s[k]).wf() && s[k].buffer < buffers.len()
                by {
                if k < head.len() {
                    assert(s[k] == head[k]);
                } else {
                    assert(s[k] == rest[k - head.len()]);
                }
            }
        }
    }
}

} // verus!
