//! Drag interactions on the timeline: moving a clip and trimming either
//! edge, with the clamping rules that keep every preview state legal.

use crate::time::{Frame, MAX_FRAME};
use vstd::prelude::*;

verus! {

/// What a drag gesture is doing to a clip.
#[derive(Clone, Copy, PartialEq, Eq, Debug, Structural)]
pub enum DragMode {
    Move,
    TrimStart,
    TrimEnd,
}

/// A drag in progress: which item is dragged, how, and the spans it had
/// when the gesture started.
#[derive(Clone, Copy, Debug)]
pub struct DragState {
    pub track: usize,
    pub item: usize,
    pub mode: DragMode,
    pub orig_from: Frame,
    pub orig_dur: Frame,
}

/// New start frame of a moved clip: shifted by the drag delta, never
/// before frame zero.
pub fn drag_move_from(orig_from: Frame, delta_frames: i64) -> (r: Frame)
    requires
        0 <= orig_from <= MAX_FRAME,
        -MAX_FRAME <= delta_frames <= MAX_FRAME,
    ensures
        r == if orig_from + delta_frames >= 0 {
            orig_from + delta_frames
        } else {
            0
        },
{
    let f = orig_from + delta_frames;
    if f >= 0 {
        f
    } else {
        0
    }
}

/// Trimming the left edge: the new start is clamped to `[0, end - 1]`,
/// media is advanced by the frames cut away, and at least one frame
/// always remains.
pub fn drag_trim_start(orig_from: Frame, orig_dur: Frame, delta_frames: i64) -> (r: (
    Frame,
    Frame,
    Frame,
))
    requires
        0 <= orig_from <= MAX_FRAME,
        1 <= orig_dur <= MAX_FRAME,
        orig_from + orig_dur <= MAX_FRAME,
        -MAX_FRAME <= delta_frames <= MAX_FRAME,
    ensures
        ({
            let (new_from, new_dur, media_delta) = r;
            let shifted = orig_from + delta_frames;
            let clamped = if shifted < 0 {
                0int
            } else if shifted > orig_from + orig_dur - 1 {
                orig_from + orig_dur - 1
            } else {
                shifted
            };
            &&& new_from == clamped
            &&& media_delta == if clamped - orig_from >= 0 {
                clamped - orig_from
            } else {
                0int
            }
            &&& new_dur == if orig_dur - media_delta >= 1 {
                orig_dur - media_delta
            } else {
                1int
            }
            &&& 1 <= new_dur
            &&& 0 <= new_from
        }),
{
    let shifted = orig_from + delta_frames;
    let hi = orig_from + orig_dur - 1;
    let new_from = if shifted < 0 {
        0
    } else if shifted > hi {
        hi
    } else {
        shifted
    };
    let media_delta = if new_from > orig_from {
        new_from - orig_from
    } else {
        0
    };
    let new_dur = if orig_dur - media_delta >= 1 {
        orig_dur - media_delta
    } else {
        1
    };
    (new_from, new_dur, media_delta)
}

/// Trimming the right edge: the duration follows the drag delta but never
/// drops below one frame.
pub fn drag_trim_end(orig_dur: Frame, delta_frames: i64) -> (r: Frame)
    requires
        1 <= orig_dur <= MAX_FRAME,
        -MAX_FRAME <= delta_frames <= MAX_FRAME,
    ensures
        r == if orig_dur + delta_frames >= 1 {
            orig_dur + delta_frames
        } else {
            1int
        },
{
    let d = orig_dur + delta_frames;
    if d >= 1 {
        d
    } else {
        1
    }
}

} // verus!
