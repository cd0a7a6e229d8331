//! Integer time base for the whole engine.
//!
//! Media time and wall-clock time are measured in microseconds (`i64`),
//! playback rates in thousandths (`u32`, 1000 = real time), and frame rates
//! as exact rationals (`Fps`). Conversions between frames and microseconds
//! are stated and proved over mathematical integers.

use vstd::arithmetic::div_mod::{lemma_div_pos_is_pos, lemma_multiply_divide_le};
use vstd::arithmetic::mul::{lemma_mul_inequality, lemma_mul_nonnegative};
use vstd::prelude::*;

verus! {

/// Timeline positions and frame indices, in frames.
pub type Frame = i64;

pub const MICROS_PER_SECOND: i64 = 1_000_000;

/// Largest frame index the conversions accept (about one year at 30 fps).
pub const MAX_FRAME: i64 = 1_000_000_000;

/// Largest media time the conversions can produce, in microseconds.
pub const MAX_MEDIA_US: i64 = 1_000_000_000_000_000_000;

/// Largest wall-clock reading the clock accepts, in microseconds.
pub const MAX_WALL_US: i64 = 1_000_000_000_000_000_000;

/// Longest span a clock may stay anchored without re-anchoring (about three
/// years), so that `elapsed * rate` stays well inside `i64`.
pub const MAX_ELAPSED_US: i64 = 100_000_000_000_000;

/// Playback rate of exactly 1.0, in thousandths.
pub const RATE_ONE_MILLI: u32 = 1000;

/// Largest accepted playback rate (64x), in thousandths.
pub const MAX_RATE_MILLI: u32 = 64_000;

/// A frame rate as the exact rational `num / den` frames per second.
#[derive(Clone, Copy, Debug, PartialEq, Eq, Structural)]
pub struct Fps {
    pub num: u32,
    pub den: u32,
}

impl Fps {
    /// Well-formed frame rates are between 0.001 and 1000 fps, with both
    /// terms positive and at most one million.
    pub open spec fn wf(self) -> bool {
        &&& 1 <= self.num <= 1_000_000
        &&& 1 <= self.den <= 1_000_000
        &&& self.num <= 1000 * self.den
        &&& self.den <= 1000 * self.num
    }

    pub fn new(num: u32, den: u32) -> (r: Self)
        ensures
            r.num == num,
            r.den == den,
    {
        Fps { num, den }
    }
}

/// Exact media time of a frame count: `frames * den / num` seconds,
/// truncated to whole microseconds.
pub open spec fn spec_frames_to_us(frames: int, fps: Fps) -> int {
    frames * fps.den as int * MICROS_PER_SECOND as int / fps.num as int
}

/// Frame index covering a media time, rounded half-up.
pub open spec fn spec_us_to_frames_round(t_us: int, fps: Fps) -> int {
    (t_us * fps.num as int + fps.den as int * 500_000) / (fps.den as int * MICROS_PER_SECOND as int)
}

/// Frame index covering a media time, rounded down.
pub open spec fn spec_us_to_frames_floor(t_us: int, fps: Fps) -> int {
    t_us * fps.num as int / (fps.den as int * MICROS_PER_SECOND as int)
}

pub proof fn lemma_frames_to_us_bounds(frames: int, fps: Fps)
    requires
        fps.wf(),
        0 <= frames <= MAX_FRAME as int,
    ensures
        0 <= spec_frames_to_us(frames, fps) <= MAX_MEDIA_US as int,
{
    let num = fps.num as int;
    let den = fps.den as int;
    lemma_mul_nonnegative(frames, den);
    lemma_mul_nonnegative(frames * den, 1_000_000);
    lemma_div_pos_is_pos(frames * den * 1_000_000, num);
    assert(frames * den * 1_000_000 <= num * (frames * 1_000_000_000)) by (nonlinear_arith)
        requires
            frames >= 0,
            num >= 1,
            den <= 1000 * num,
    ;
    lemma_multiply_divide_le(frames * den * 1_000_000, num, frames * 1_000_000_000);
    lemma_mul_inequality(frames, MAX_FRAME as int, 1_000_000_000);
}

/// Media time of a frame count under the given frame rate.
pub fn frames_to_us(frames: i64, fps: Fps) -> (r: i64)
    requires
        fps.wf(),
        0 <= frames <= MAX_FRAME,
    ensures
        r as int == spec_frames_to_us(frames as int, fps),
        0 <= r <= MAX_MEDIA_US,
{
    proof {
        lemma_frames_to_us_bounds(frames as int, fps);
        assert(frames as int * fps.den as int <= 1_000_000_000_000_000) by (nonlinear_arith)
            requires
                0 <= frames as int <= 1_000_000_000,
                0 <= fps.den as int <= 1_000_000,
        ;
        lemma_mul_inequality(frames as int * fps.den as int, 1_000_000_000_000_000, 1_000_000);
        lemma_mul_nonnegative(frames as int, fps.den as int);
        lemma_mul_nonnegative(frames as int * fps.den as int, 1_000_000);
    }
    let prod: u128 = (frames as u128) * (fps.den as u128) * (MICROS_PER_SECOND as u128);
    let q: u128 = prod / (fps.num as u128);
    q as i64
}

pub proof fn lemma_us_to_frames_bounds(t_us: int, fps: Fps)
    requires
        fps.wf(),
        0 <= t_us <= MAX_MEDIA_US as int,
    ensures
        0 <= spec_us_to_frames_floor(t_us, fps) <= t_us + 1,
        0 <= spec_us_to_frames_round(t_us, fps) <= t_us + 1,
{
    let num = fps.num as int;
    let den = fps.den as int;
    let b = den * 1_000_000;
    assert(b >= 1_000_000) by (nonlinear_arith)
        requires
            b == den * 1_000_000,
            den >= 1,
    ;
    lemma_mul_nonnegative(t_us, num);
    lemma_mul_nonnegative(den, 500_000);
    lemma_div_pos_is_pos(t_us * num, b);
    lemma_div_pos_is_pos(t_us * num + den * 500_000, b);
    assert(t_us * num + den * 500_000 <= b * (t_us + 1)) by (nonlinear_arith)
        requires
            b == den * 1_000_000,
            t_us >= 0,
            den >= 1,
            num <= 1000 * den,
    ;
    lemma_multiply_divide_le(t_us * num + den * 500_000, b, t_us + 1);
    assert(t_us * num <= b * (t_us + 1)) by (nonlinear_arith)
        requires
            b == den * 1_000_000,
            t_us >= 0,
            den >= 1,
            num <= 1000 * den,
    ;
    lemma_multiply_divide_le(t_us * num, b, t_us + 1);
}

/// Frame index of a media time, rounded half-up (used while paused, so the
/// displayed frame is the nearest one).
pub fn us_to_frames_round(t_us: i64, fps: Fps) -> (r: i64)
    requires
        fps.wf(),
        0 <= t_us <= MAX_MEDIA_US,
    ensures
        r as int == spec_us_to_frames_round(t_us as int, fps),
        0 <= r,
{
    proof {
        lemma_us_to_frames_bounds(t_us as int, fps);
        lemma_mul_inequality(t_us as int, MAX_MEDIA_US as int, fps.num as int);
        lemma_mul_nonnegative(t_us as int, fps.num as int);
        lemma_mul_nonnegative(fps.den as int, 500_000);
        lemma_mul_inequality(fps.den as int, 1_000_000, 500_000);
        lemma_mul_nonnegative(fps.den as int, 1_000_000);
        assert(MAX_MEDIA_US as int * fps.num as int <= 0x10_0000_0000_0000_0000_0000_0000)
            by (nonlinear_arith)
            requires
                0 <= fps.num as int <= 1_000_000,
        ;
    }
    let a: u128 = (t_us as u128) * (fps.num as u128) + (fps.den as u128) * 500_000;
    let b: u128 = (fps.den as u128) * (MICROS_PER_SECOND as u128);
    let q: u128 = a / b;
    q as i64
}

/// Frame index of a media time, rounded down (used while playing, so a frame
/// is never shown before its start).
pub fn us_to_frames_floor(t_us: i64, fps: Fps) -> (r: i64)
    requires
        fps.wf(),
        0 <= t_us <= MAX_MEDIA_US,
    ensures
        r as int == spec_us_to_frames_floor(t_us as int, fps),
        0 <= r,
{
    proof {
        lemma_us_to_frames_bounds(t_us as int, fps);
        lemma_mul_inequality(t_us as int, MAX_MEDIA_US as int, fps.num as int);
        lemma_mul_nonnegative(t_us as int, fps.num as int);
        lemma_mul_nonnegative(fps.den as int, 1_000_000);
        assert(MAX_MEDIA_US as int * fps.num as int <= 0x10_0000_0000_0000_0000_0000_0000)
            by (nonlinear_arith)
            requires
                0 <= fps.num as int <= 1_000_000,
        ;
    }
    let a: u128 = (t_us as u128) * (fps.num as u128);
    let b: u128 = (fps.den as u128) * (MICROS_PER_SECOND as u128);
    let q: u128 = a / b;
    q as i64
}

} // verus!
