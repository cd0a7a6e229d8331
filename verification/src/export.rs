//! Offline export planning: cutting the sequence into constant-content
//! video segments at item edges, collecting audio clips, and the small
//! codec and progress rules of the export dialog.

use crate::sequence::{Item, ItemKind, Sequence};
use crate::time::{Frame, MAX_FRAME};
use vstd::prelude::*;

verus! {

/// A sequence the export and topmost-item walks accept: bounded duration
/// and well-formed items everywhere.
pub open spec fn spec_sequence_wf(s: Sequence) -> bool {
    &&& 0 <= s.duration_in_frames <= MAX_FRAME
    &&& forall|t: int|
        0 <= t < s.tracks@.len() ==> crate::sequence::spec_items_wf(
            #[trigger] s.tracks@[t].items@,
        )
}

pub open spec fn spec_item_covers(it: Item, f: int) -> bool {
    it.from <= f < it.from + it.duration_in_frames
}

pub open spec fn spec_item_is_audio(it: Item) -> bool {
    it.kind is Audio
}

/// The first covering non-audio item of track `t`, scanning from `j`.
pub open spec fn spec_topmost_in_track(s: Sequence, t: int, j: int, f: int) -> Option<int>
    decreases s.tracks@[t].items@.len() - j,
{
    if j < 0 || j >= s.tracks@[t].items@.len() {
        None
    } else if spec_item_covers(s.tracks@[t].items@[j], f) && !spec_item_is_audio(
        s.tracks@[t].items@[j],
    ) {
        Some(j)
    } else {
        spec_topmost_in_track(s, t, j + 1, f)
    }
}

/// The topmost covering non-audio item at a frame: tracks are scanned
/// from the last (highest priority) down.
pub open spec fn spec_topmost(s: Sequence, t: int, f: int) -> Option<(int, int)>
    decreases t + 1,
{
    if t < 0 {
        None
    } else {
        match spec_topmost_in_track(s, t, 0, f) {
            Some(j) => Some((t, j)),
            None => spec_topmost(s, t - 1, f),
        }
    }
}

pub open spec fn spec_topmost_item(s: Sequence, f: int) -> Option<(int, int)> {
    spec_topmost(s, s.tracks@.len() - 1, f)
}

proof fn lemma_topmost_in_track_props(s: Sequence, t: int, j: int, f: int)
    requires
        0 <= t < s.tracks@.len(),
        0 <= j,
        spec_topmost_in_track(s, t, j, f) is Some,
    ensures
        ({
            let k = spec_topmost_in_track(s, t, j, f)->0;
            &&& j <= k < s.tracks@[t].items@.len()
            &&& spec_item_covers(s.tracks@[t].items@[k], f)
            &&& !spec_item_is_audio(s.tracks@[t].items@[k])
        }),
    decreases s.tracks@[t].items@.len() - j,
{
    if j < s.tracks@[t].items@.len() {
        if spec_item_covers(s.tracks@[t].items@[j], f) && !spec_item_is_audio(
            s.tracks@[t].items@[j],
        ) {
        } else {
            lemma_topmost_in_track_props(s, t, j + 1, f);
        }
    }
}

/// The topmost-item law: the item the walk picks covers the frame, is not
/// an audio item, and its indices are in range.
pub proof fn lemma_topmost_props(s: Sequence, t: int, f: int)
    requires
        t < s.tracks@.len(),
        spec_topmost(s, t, f) is Some,
    ensures
        ({
            let (t2, j) = spec_topmost(s, t, f)->0;
            &&& 0 <= t2 <= t
            &&& 0 <= j < s.tracks@[t2].items@.len()
            &&& spec_item_covers(s.tracks@[t2].items@[j], f)
            &&& !spec_item_is_audio(s.tracks@[t2].items@[j])
        }),
    decreases t + 1,
{
    if t >= 0 {
        match spec_topmost_in_track(s, t, 0, f) {
            Some(j) => {
                lemma_topmost_in_track_props(s, t, 0, f);
            },
            None => {
                lemma_topmost_props(s, t - 1, f);
            },
        }
    }
}

/// The topmost non-audio item covering a frame, with its track and item
/// indices, exactly as `spec_topmost_item` picks it.
pub fn topmost_item_covering(s: &Sequence, frame: Frame) -> (r: Option<(usize, usize)>)
    requires
        spec_sequence_wf(*s),
    ensures
        match spec_topmost_item(*s, frame as int) {
            Some((t, j)) => {
                &&& r matches Some((rt, rj)) && rt == t && rj == j
                &&& 0 <= t < s.tracks@.len()
                &&& 0 <= j < s.tracks@[t].items@.len()
                &&& spec_item_covers(s.tracks@[t].items@[j], frame as int)
            },
            None => r is None,
        },
{
    proof {
        if spec_topmost_item(*s, frame as int) is Some {
            lemma_topmost_props(*s, s.tracks@.len() - 1, frame as int);
        }
    }
    let n_tracks = s.tracks.len();
    let mut ti: usize = n_tracks;
    while ti > 0
        invariant
            spec_sequence_wf(*s),
            n_tracks == s.tracks@.len(),
            ti <= n_tracks,
            spec_topmost(*s, n_tracks as int - 1, frame as int) == spec_topmost(
                *s,
                ti as int - 1,
                frame as int,
            ),
        decreases ti,
    {
        let t = ti - 1;
        let n_items = s.tracks[t].items.len();
        let mut j: usize = 0;
        while j < n_items
            invariant
                spec_sequence_wf(*s),
                t < s.tracks@.len(),
                n_items == s.tracks@[t as int].items@.len(),
                j <= n_items,
                spec_topmost(*s, s.tracks@.len() - 1, frame as int) == spec_topmost(
                    *s,
                    t as int,
                    frame as int,
                ),
                spec_topmost_in_track(*s, t as int, 0, frame as int) == spec_topmost_in_track(
                    *s,
                    t as int,
                    j as int,
                    frame as int,
                ),
            decreases n_items - j,
        {
            let it = &s.tracks[t].items[j];
            let is_audio = match &it.kind {
                ItemKind::Audio { .. } => true,
                _ => false,
            };
            if !is_audio && it.from <= frame && frame < it.from + it.duration_in_frames {
                return Some((t, j));
            }
            j = j + 1;
        }
        ti = ti - 1;
    }
    None
}

/// Whether `e` is an edge (start or end) of some non-audio item.
pub open spec fn spec_is_edge(s: Sequence, e: int) -> bool {
    exists|t: int, k: int|
        0 <= t < s.tracks@.len() && 0 <= k < s.tracks@[t].items@.len() && !spec_item_is_audio(
            #[trigger] s.tracks@[t].items@[k],
        ) && (s.tracks@[t].items@[k].from == e || s.tracks@[t].items@[k].from
            + s.tracks@[t].items@[k].duration_in_frames == e)
}

/// The next cut after `cur`: the smallest non-audio item edge strictly
/// between `cur` and the sequence end, or the sequence end itself.
pub fn next_breakpoint(s: &Sequence, cur: Frame) -> (r: Frame)
    requires
        spec_sequence_wf(*s),
        0 <= cur < s.duration_in_frames,
    ensures
        cur < r <= s.duration_in_frames,
        forall|e: int| spec_is_edge(*s, e) ==> !(cur < e < r),
        r == s.duration_in_frames || spec_is_edge(*s, r as int),
{
    let n_tracks = s.tracks.len();
    let mut best: i64 = s.duration_in_frames;
    let mut t: usize = 0;
    while t < n_tracks
        invariant
            spec_sequence_wf(*s),
            0 <= cur < s.duration_in_frames,
            n_tracks == s.tracks@.len(),
            t <= n_tracks,
            cur < best <= s.duration_in_frames,
            best == s.duration_in_frames || spec_is_edge(*s, best as int),
            forall|t2: int, k2: int|
                0 <= t2 < t && 0 <= k2 < s.tracks@[t2].items@.len() && !spec_item_is_audio(
                    #[trigger] s.tracks@[t2].items@[k2],
                ) ==> !(cur < s.tracks@[t2].items@[k2].from < best) && !(cur
                    < s.tracks@[t2].items@[k2].from + s.tracks@[t2].items@[k2].duration_in_frames
                    < best),
        decreases n_tracks - t,
    {
        let n_items = s.tracks[t].items.len();
        let mut k: usize = 0;
        while k < n_items
            invariant
                spec_sequence_wf(*s),
                0 <= cur < s.duration_in_frames,
                t < s.tracks@.len(),
                n_items == s.tracks@[t as int].items@.len(),
                k <= n_items,
                cur < best <= s.duration_in_frames,
                best == s.duration_in_frames || spec_is_edge(*s, best as int),
                forall|t2: int, k2: int|
                    0 <= t2 < t && 0 <= k2 < s.tracks@[t2].items@.len() && !spec_item_is_audio(
                        #[trigger] s.tracks@[t2].items@[k2],
                    ) ==> !(cur < s.tracks@[t2].items@[k2].from < best) && !(cur
                        < s.tracks@[t2].items@[k2].from
                        + s.tracks@[t2].items@[k2].duration_in_frames < best),
                forall|k2: int|
                    0 <= k2 < k && !spec_item_is_audio(
                        #[trigger] s.tracks@[t as int].items@[k2],
                    ) ==> !(cur < s.tracks@[t as int].items@[k2].from < best) && !(cur
                        < s.tracks@[t as int].items@[k2].from
                        + s.tracks@[t as int].items@[k2].duration_in_frames < best),
            decreases n_items - k,
        {
            let it = &s.tracks[t].items[k];
            let is_audio = match &it.kind {
                ItemKind::Audio { .. } => true,
                _ => false,
            };
            if !is_audio {
                if cur < it.from && it.from < best {
                    best = it.from;
                }
                let e = it.from + it.duration_in_frames;
                if cur < e && e < best {
                    best = e;
                }
            }
            k = k + 1;
        }
        t = t + 1;
    }
    best
}

/// One cut of the export plan: between two consecutive breakpoints the
/// topmost content never changes.
#[derive(Clone, Debug)]
pub enum VideoSegKind {
    /// Cut from a video source, starting this many frames into the media.
    Video { path: String, media_start_frames: i64 },
    Image { path: String },
    Black,
}

#[derive(Clone, Debug)]
pub struct VideoSegment {
    pub kind: VideoSegKind,
    pub start_frame: i64,
    pub duration_frames: i64,
}

/// What a segment must carry given the topmost item at its start.
pub open spec fn spec_segment_matches(s: Sequence, seg: VideoSegment) -> bool {
    match spec_topmost_item(s, seg.start_frame as int) {
        Some((t, j)) => {
            let it = s.tracks@[t].items@[j];
            match it.kind {
                ItemKind::Video { src, .. } => {
                    &&& seg.kind matches VideoSegKind::Video { .. }
                    &&& seg.kind->Video_path@ == src@
                    &&& seg.kind->Video_media_start_frames == seg.start_frame - it.from
                },
                ItemKind::Image { src } => {
                    &&& seg.kind matches VideoSegKind::Image { .. }
                    &&& seg.kind->Image_path@ == src@
                },
                _ => seg.kind is Black,
            }
        },
        None => seg.kind is Black,
    }
}

/// Cut the sequence into consecutive video segments at non-audio item
/// edges. The segments tile `[0, duration)` in order, each lasts at least
/// one frame, no item edge falls strictly inside any segment, and each
/// segment carries the topmost content at its start.
pub fn build_video_segments(s: &Sequence) -> (r: Vec<VideoSegment>)
    requires
        spec_sequence_wf(*s),
    ensures
        s.duration_in_frames == 0 ==> r@.len() == 0,
        s.duration_in_frames > 0 ==> r@.len() >= 1 && r@[0].start_frame == 0 && r@[r@.len()
            - 1].start_frame + r@[r@.len() - 1].duration_frames == s.duration_in_frames,
        forall|i: int|
            0 <= i < r@.len() - 1 ==> #[trigger] r@[i].start_frame + r@[i].duration_frames
                == r@[i + 1].start_frame,
        forall|i: int| 0 <= i < r@.len() ==> (#[trigger] r@[i]).duration_frames >= 1,
        forall|i: int|
            0 <= i < r@.len() ==> spec_segment_matches(*s, #[trigger] r@[i]),
        forall|i: int, e: int|
            #![trigger r@[i], spec_is_edge(*s, e)]
            0 <= i < r@.len() && spec_is_edge(*s, e) ==> !(r@[i].start_frame < e
                < r@[i].start_frame + r@[i].duration_frames),
{
    let mut out: Vec<VideoSegment> = Vec::new();
    let mut cur: i64 = 0;
    if s.duration_in_frames <= 0 {
        return out;
    }
    while cur < s.duration_in_frames
        invariant
            spec_sequence_wf(*s),
            s.duration_in_frames > 0,
            0 <= cur <= s.duration_in_frames,
            cur == 0 ==> out@.len() == 0,
            cur > 0 ==> out@.len() >= 1 && out@[0].start_frame == 0 && out@[out@.len()
                - 1].start_frame + out@[out@.len() - 1].duration_frames == cur,
            forall|i: int|
                0 <= i < out@.len() - 1 ==> #[trigger] out@[i].start_frame
                    + out@[i].duration_frames == out@[i + 1].start_frame,
            forall|i: int| 0 <= i < out@.len() ==> (#[trigger] out@[i]).duration_frames >= 1,
            forall|i: int|
                0 <= i < out@.len() ==> spec_segment_matches(*s, #[trigger] out@[i]),
            forall|i: int, e: int|
                #![trigger out@[i], spec_is_edge(*s, e)]
                0 <= i < out@.len() && spec_is_edge(*s, e) ==> !(out@[i].start_frame
                    < e < out@[i].start_frame + out@[i].duration_frames),
        decreases s.duration_in_frames - cur,
    {
        let next = next_breakpoint(s, cur);
        let kind = match topmost_item_covering(s, cur) {
            Some((t, j)) => {
                let it = &s.tracks[t].items[j];
                match &it.kind {
                    ItemKind::Video { src, .. } => VideoSegKind::Video {
                        path: src.clone(),
                        media_start_frames: cur - it.from,
                    },
                    ItemKind::Image { src } => VideoSegKind::Image { path: src.clone() },
                    _ => VideoSegKind::Black,
                }
            },
            None => VideoSegKind::Black,
        };
        out.push(VideoSegment { kind, start_frame: cur, duration_frames: next - cur });
        cur = next;
    }
    out
}

/// An audio clip of the export plan, in frames on the timeline.
#[derive(Clone, Debug)]
pub struct AudioClipSeg {
    pub path: String,
    pub offset_frames: i64,
    pub duration_frames: i64,
}

/// Whether an export audio clip matches some audio item of the sequence.
pub open spec fn spec_audio_clip_ok(s: Sequence, c: AudioClipSeg) -> bool {
    exists|t: int, k: int|
        0 <= t < s.tracks@.len() && 0 <= k < s.tracks@[t].items@.len()
            && #[trigger] spec_audio_clip_matches(s, t, k, c)
}

/// Whether an export audio clip matches the item at (t, k).
pub open spec fn spec_audio_clip_matches(s: Sequence, t: int, k: int, c: AudioClipSeg) -> bool {
    &&& s.tracks@[t].items@[k].kind matches ItemKind::Audio { .. }
    &&& c.path@ == s.tracks@[t].items@[k].kind->Audio_src@
    &&& c.offset_frames == s.tracks@[t].items@[k].from
    &&& c.duration_frames == s.tracks@[t].items@[k].duration_in_frames
}

/// Collect the audio clips of the sequence: exactly the audio items of
/// every track, each with its timeline offset and duration.
pub fn collect_audio_clips(s: &Sequence) -> (r: Vec<AudioClipSeg>)
    requires
        spec_sequence_wf(*s),
    ensures
        forall|i: int| 0 <= i < r@.len() ==> spec_audio_clip_ok(*s, #[trigger] r@[i]),
        forall|t: int, k: int|
            0 <= t < s.tracks@.len() && 0 <= k < s.tracks@[t].items@.len() && ((
            #[trigger] s.tracks@[t].items@[k].kind) matches ItemKind::Audio { .. }) ==> exists|
                i: int,
            |
                0 <= i < r@.len() && spec_audio_clip_matches(*s, t, k, #[trigger] r@[i]),
{
    let n_tracks = s.tracks.len();
    let mut out: Vec<AudioClipSeg> = Vec::new();
    let mut t: usize = 0;
    while t < n_tracks
        invariant
            spec_sequence_wf(*s),
            n_tracks == s.tracks@.len(),
            t <= n_tracks,
            forall|i: int| 0 <= i < out@.len() ==> spec_audio_clip_ok(*s, #[trigger] out@[i]),
            forall|t2: int, k2: int|
                0 <= t2 < t && 0 <= k2 < s.tracks@[t2].items@.len() && ((
                #[trigger] s.tracks@[t2].items@[k2].kind) matches ItemKind::Audio { .. }) ==> exists|
                    i: int,
                |
                    0 <= i < out@.len() && spec_audio_clip_matches(*s, t2, k2, #[trigger] out@[i]),
        decreases n_tracks - t,
    {
        let n_items = s.tracks[t].items.len();
        let mut k: usize = 0;
        while k < n_items
            invariant
                spec_sequence_wf(*s),
                t < s.tracks@.len(),
                n_items == s.tracks@[t as int].items@.len(),
                k <= n_items,
                forall|i: int| 0 <= i < out@.len() ==> spec_audio_clip_ok(*s, #[trigger] out@[i]),
                forall|t2: int, k2: int|
                    0 <= t2 < t && 0 <= k2 < s.tracks@[t2].items@.len() && ((
                    #[trigger] s.tracks@[t2].items@[k2].kind) matches ItemKind::Audio { .. })
                        ==> exists|i: int|
                        0 <= i < out@.len() && spec_audio_clip_matches(
                            *s,
                            t2,
                            k2,
                            #[trigger] out@[i],
                        ),
                forall|k2: int|
                    0 <= k2 < k && ((#[trigger] s.tracks@[t as int].items@[k2].kind) matches ItemKind::Audio { .. })
                        ==> exists|i: int|
                        0 <= i < out@.len() && spec_audio_clip_matches(
                            *s,
                            t as int,
                            k2,
                            #[trigger] out@[i],
                        ),
            decreases n_items - k,
        {
            let it = &s.tracks[t].items[k];
            match &it.kind {
                ItemKind::Audio { src, .. } => {
                    let ghost prev = out@;
                    out.push(
                        AudioClipSeg {
                            path: src.clone(),
                            offset_frames: it.from,
                            duration_frames: it.duration_in_frames,
                        },
                    );
                    proof {
                        assert(spec_audio_clip_matches(
                            *s,
                            t as int,
                            k as int,
                            out@[out@.len() - 1],
                        ));
                        assert forall|i: int| 0 <= i < out@.len() implies spec_audio_clip_ok(
                            *s,
                            #[trigger] out@[i],
                        ) by {
                            if i < out@.len() - 1 {
                                assert(out@[i] == prev[i]);
                                assert(spec_audio_clip_ok(*s, prev[i]));
                            } else {
                                assert(spec_audio_clip_matches(*s, t as int, k as int, out@[i]));
                            }
                        }
                        assert forall|t2: int, k2: int|
                            0 <= t2 < t as int && 0 <= k2 < s.tracks@[t2].items@.len() && ((
                            #[trigger] s.tracks@[t2].items@[k2].kind) matches ItemKind::Audio {
                                ..
                            }) implies exists|i: int|
                            0 <= i < out@.len() && spec_audio_clip_matches(
                                *s,
                                t2,
                                k2,
                                #[trigger] out@[i],
                            ) by {
                            let i = choose|i: int|
                                0 <= i < prev.len() && spec_audio_clip_matches(
                                    *s,
                                    t2,
                                    k2,
                                    #[trigger] prev[i],
                                );
                            assert(out@[i] == prev[i]);
                            assert(spec_audio_clip_matches(*s, t2, k2, out@[i]));
                        }
                        assert forall|k2: int|
                            0 <= k2 < k as int + 1 && ((
                            #[trigger] s.tracks@[t as int].items@[k2].kind) matches ItemKind::Audio {
                                ..
                            }) implies exists|i: int|
                            0 <= i < out@.len() && spec_audio_clip_matches(
                                *s,
                                t as int,
                                k2,
                                #[trigger] out@[i],
                            ) by {
                            if k2 < k as int {
                                let i = choose|i: int|
                                    0 <= i < prev.len() && spec_audio_clip_matches(
                                        *s,
                                        t as int,
                                        k2,
                                        #[trigger] prev[i],
                                    );
                                assert(out@[i] == prev[i]);
                                assert(spec_audio_clip_matches(*s, t as int, k2, out@[i]));
                            } else {
                                assert(spec_audio_clip_matches(
                                    *s,
                                    t as int,
                                    k2,
                                    out@[out@.len() - 1],
                                ));
                            }
                        }
                    }
                },
                _ => {},
            }
            k = k + 1;
        }
        t = t + 1;
    }
    out
}

/// Export codecs offered by the dialog.
#[derive(Clone, Copy, Debug, PartialEq, Eq, Structural)]
pub enum ExportCodec {
    H264,
    Av1,
}

impl Default for ExportCodec {
    fn default() -> (r: Self)
        ensures
            r == ExportCodec::H264,
    {
        ExportCodec::H264
    }
}

/// Output resolution presets.
#[derive(Clone, Copy, Debug, PartialEq, Eq, Structural)]
pub enum ExportPreset {
    Source,
    P1080,
    P4K,
}

impl Default for ExportPreset {
    fn default() -> (r: Self)
        ensures
            r == ExportPreset::Source,
    {
        ExportPreset::Source
    }
}

/// The output dimensions a preset selects for a given source size.
pub fn preset_dimensions(preset: ExportPreset, src_w: u32, src_h: u32) -> (r: (u32, u32))
    ensures
        preset == ExportPreset::Source ==> r == (src_w, src_h),
        preset == ExportPreset::P1080 ==> r == (1920u32, 1080u32),
        preset == ExportPreset::P4K ==> r == (3840u32, 2160u32),
{
    match preset {
        ExportPreset::Source => (src_w, src_h),
        ExportPreset::P1080 => (1920, 1080),
        ExportPreset::P4K => (3840, 2160),
    }
}

/// The constant-rate-factor range the dialog offers per codec.
pub fn crf_range(codec: ExportCodec) -> (r: (i32, i32))
    ensures
        codec == ExportCodec::H264 ==> r == (12i32, 32i32),
        codec == ExportCodec::Av1 ==> r == (20i32, 50i32),
{
    match codec {
        ExportCodec::H264 => (12, 32),
        ExportCodec::Av1 => (20, 50),
    }
}

/// Export progress as thousandths of the whole, clamped to complete.
pub fn progress_permille(out_time_ms: u64, total_ms: u64) -> (r: u32)
    ensures
        total_ms == 0 ==> r == 0,
        total_ms > 0 ==> r as int == if out_time_ms as int * 1000 / total_ms as int > 1000 {
            1000int
        } else {
            out_time_ms as int * 1000 / total_ms as int
        },
        r <= 1000,
{
    if total_ms == 0 {
        return 0;
    }
    proof {
        vstd::arithmetic::mul::lemma_mul_nonnegative(out_time_ms as int, 1000);
        vstd::arithmetic::div_mod::lemma_div_pos_is_pos(out_time_ms as int * 1000,
            total_ms as int);
    }
    let scaled: u128 = (out_time_ms as u128) * 1000 / (total_ms as u128);
    if scaled > 1000 {
        1000
    } else {
        scaled as u32
    }
}

} // verus!
