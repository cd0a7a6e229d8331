use std::collections::VecDeque;

use preview_core::audio::{
    active_clip_window, build_audio_clips, bytes_to_i16le, fill_audio_i16, fill_audio_u16,
    mix_sample, sort_clips_by_start, ActiveAudioClip, AudioBuffer, AudioBufferCache,
    AudioEngineState,
};
use preview_core::assets::{adjust_extension, is_image_path, nearest_common_ancestor, parse_hex_color};
use preview_core::interaction::{drag_move_from, drag_trim_end, drag_trim_start, DragMode};
use preview_core::jobs::{job_kind_name, JobKind, JobQueue, JobSpec};
use preview_core::time::Fps;
use preview_core::timeline::{
    ClipNode, FrameRange, TimelineGraph, TimelineNode, TimelineNodeKind, TrackBinding, TrackKind,
};

#[test]
fn le_bytes_become_signed_samples() {
    let bytes = vec![0x00, 0x00, 0xff, 0x7f, 0x00, 0x80, 0x01];
    let samples = bytes_to_i16le(&bytes);
    assert_eq!(samples, vec![0, 32767, -32768]);
}

#[test]
fn device_fill_pops_and_zero_fills() {
    let mut q: VecDeque<i16> = VecDeque::new();
    q.push_back(5);
    q.push_back(-7);
    let out = fill_audio_i16(4, &mut q);
    assert_eq!(out, vec![5, -7, 0, 0]);
    assert!(q.is_empty());
    let mut q2: VecDeque<i16> = VecDeque::new();
    q2.push_back(-32768);
    q2.push_back(0);
    q2.push_back(32767);
    let out2 = fill_audio_u16(3, &mut q2);
    assert_eq!(out2, vec![0, 32768, 65535]);
}

fn mono_buffer(samples: Vec<i16>, rate: u32) -> AudioBuffer {
    AudioBuffer { samples, channels: 1, sample_rate: rate }
}

#[test]
fn mixer_reads_the_clip_sample_at_the_clock_time() {
    // A 4-sample mono buffer at 1000 Hz: one sample per millisecond.
    let buffers = vec![mono_buffer(vec![100, 200, 300, 400], 1000)];
    let clips = vec![ActiveAudioClip {
        start_tl_us: 1_000_000,
        start_media_us: 0,
        duration_us: 4_000,
        buffer: 0,
    }];
    // Exactly on sample 1 (one millisecond into the media).
    assert_eq!(mix_sample(&clips, &buffers, 1_001_000, 0), 200);
    // Halfway between samples 1 and 2: exact linear blend.
    assert_eq!(mix_sample(&clips, &buffers, 1_001_500, 0), 250);
    // Outside the clip: silence.
    assert_eq!(mix_sample(&clips, &buffers, 5_000_000, 0), 0);
}

#[test]
fn mixer_sums_overlapping_clips_and_clamps() {
    let buffers = vec![mono_buffer(vec![30000, 30000], 1000)];
    let clip = ActiveAudioClip { start_tl_us: 0, start_media_us: 0, duration_us: 2_000, buffer: 0 };
    let clips = vec![clip, clip];
    // 30000 + 30000 clamps to the sample ceiling.
    assert_eq!(mix_sample(&clips, &buffers, 0, 0), 32767);
}

#[test]
fn engine_state_follows_start_pause_seek() {
    let mut e = AudioEngineState::new();
    e.start(2_000_000, vec![]);
    assert!(e.playing);
    assert_eq!(e.position_us, 2_000_000);
    e.pause(3_000_000);
    assert!(!e.playing);
    assert_eq!(e.position_us, 3_000_000);
    e.seek(500_000);
    assert_eq!(e.position_us, 500_000);
    assert!(!e.playing);
}

#[test]
fn clip_window_scales_by_rate_and_buffer_length() {
    // 2x rate halves the playable duration; the buffer limits it further.
    let c = active_clip_window(1_000_000, 0, 4_000_000, 2000, 1_500_000, 3).expect("clip");
    assert_eq!(c.start_tl_us, 1_000_000);
    assert_eq!(c.start_media_us, 0);
    assert_eq!(c.duration_us, 1_500_000);
    assert_eq!(c.buffer, 3);
    // Nothing left of the buffer after the media offset: no clip.
    assert!(active_clip_window(0, 2_000_000, 1_000_000, 1000, 1_000_000, 0).is_none());
}

#[test]
fn job_queue_skips_canceled_jobs() {
    let mut q = JobQueue::new();
    let spec = |kind| JobSpec { asset_id: String::from("asset"), kind, priority: 0 };
    assert!(q.submit(String::from("a"), spec(JobKind::Waveform)));
    assert!(q.submit(String::from("b"), spec(JobKind::Proxy)));
    q.cancel(String::from("a"));
    let (id, job) = q.next_job().expect("one live job");
    assert_eq!(id, "b");
    assert_eq!(job.kind, JobKind::Proxy);
    assert!(q.next_job().is_none());
    // A submission under a canceled identifier is refused.
    assert!(!q.submit(String::from("a"), spec(JobKind::Thumbnails)));
}

#[test]
fn job_ids_are_hyphenated_uuids() {
    let mut q = JobQueue::new();
    let id = q.enqueue(JobSpec { asset_id: String::from("x"), kind: JobKind::SeekIndex, priority: 1 });
    assert_eq!(id.len(), 36);
    let id2 = q.enqueue(JobSpec { asset_id: String::from("x"), kind: JobKind::SeekIndex, priority: 1 });
    assert_ne!(id, id2);
    assert_eq!(q.queue.len(), 2);
}

#[test]
fn job_kind_names_match_the_catalog() {
    assert_eq!(job_kind_name(JobKind::Waveform), "waveform");
    assert_eq!(job_kind_name(JobKind::Thumbnails), "thumbs");
    assert_eq!(job_kind_name(JobKind::Proxy), "proxy");
    assert_eq!(job_kind_name(JobKind::SeekIndex), "seekidx");
}

#[test]
fn image_paths_are_detected_by_suffix() {
    assert!(is_image_path("shot.png"));
    assert!(is_image_path("SHOT.PNG"));
    assert!(is_image_path("photo.JpEg"));
    assert!(is_image_path("a/b/c.jpg"));
    assert!(!is_image_path("movie.mov"));
    assert!(!is_image_path("png"));
}

#[test]
fn hex_colors_parse_with_and_without_hash() {
    assert_eq!(parse_hex_color("#ff8000"), Some((255, 128, 0)));
    assert_eq!(parse_hex_color("00FF00"), Some((0, 255, 0)));
    assert_eq!(parse_hex_color("##ff0080"), Some((255, 0, 128))); // any run of marks
    assert_eq!(parse_hex_color("#zz0000"), None);
    assert_eq!(parse_hex_color("#fff"), None);
    assert_eq!(parse_hex_color(""), None);
}

#[test]
fn common_ancestor_is_the_longest_shared_prefix() {
    let p = |parts: &[&str]| parts.iter().map(|s| s.to_string()).collect::<Vec<_>>();
    let paths = vec![p(&["home", "user", "clips", "a.mov"]), p(&["home", "user", "music"])];
    let anc = nearest_common_ancestor(&paths).expect("non-empty input");
    assert_eq!(anc, p(&["home", "user"]));
    assert!(nearest_common_ancestor(&Vec::new()).is_none());
    let solo = vec![p(&["data", "x"])];
    assert_eq!(nearest_common_ancestor(&solo).unwrap(), p(&["data", "x"]));
}

#[test]
fn drag_rules_clamp_to_legal_spans() {
    assert_eq!(drag_move_from(10, -30), 0);
    assert_eq!(drag_move_from(10, 5), 15);
    // Trimming the start cannot cross the end and advances the media.
    let (from, dur, delta) = drag_trim_start(10, 20, 5);
    assert_eq!((from, dur, delta), (15, 15, 5));
    let (from, dur, delta) = drag_trim_start(10, 20, 100);
    assert_eq!((from, dur, delta), (29, 1, 19));
    let (from, dur, delta) = drag_trim_start(10, 20, -100);
    assert_eq!((from, dur, delta), (0, 20, 0));
    assert_eq!(drag_trim_end(20, -100), 1);
    assert_eq!(drag_trim_end(20, 7), 27);
    assert_eq!(DragMode::Move, DragMode::Move);
}

#[test]
fn job_dispatch_returns_the_first_live_job() {
    let mut q = JobQueue::new();
    let spec = |kind| JobSpec { asset_id: String::from("asset"), kind, priority: 0 };
    assert!(q.submit(String::from("a"), spec(JobKind::Waveform)));
    assert!(q.submit(String::from("b"), spec(JobKind::Proxy)));
    assert!(q.submit(String::from("c"), spec(JobKind::Thumbnails)));
    let (id, _) = q.next_job().expect("first job");
    assert_eq!(id, "a");
    // The remainder of the queue is untouched.
    assert_eq!(q.queue.len(), 2);
    assert_eq!(q.queue[0].0, "b");
}

#[test]
fn extensions_are_rewritten_after_the_last_dot() {
    assert_eq!(adjust_extension("export.mp4", "mkv"), "export.mkv");
    assert_eq!(adjust_extension("clip", "mkv"), "clip.mkv");
    assert_eq!(adjust_extension("a.b/c", "mkv"), "a.b/c.mkv");
    assert_eq!(adjust_extension("dir.x/name.mov", "mp4"), "dir.x/name.mp4");
    assert_eq!(adjust_extension("archive.tar.gz", "zip"), "archive.tar.zip");
}

#[test]
fn audio_buffers_are_decoded_once_per_path() {
    let mut cache = AudioBufferCache::new();
    assert!(cache.find("song.flac").is_none());
    let idx = cache.store(
        String::from("song.flac"),
        AudioBuffer { samples: vec![1, 2, 3], channels: 1, sample_rate: 1000 },
    );
    assert_eq!(idx, 0);
    // A later request reuses the stored buffer instead of decoding again.
    let hit = cache.find("song.flac").expect("memoized");
    assert_eq!(hit, 0);
    assert_eq!(cache.buffers[hit].samples, vec![1, 2, 3]);
    assert!(cache.find("other.wav").is_none());
}

#[test]
fn build_audio_clips_collects_and_sorts_audio_tracks() {
    let clip = |id: u64, asset: Option<&str>, tl_start: i64, rate: u32| TimelineNode {
        id,
        label: None,
        kind: TimelineNodeKind::Clip(ClipNode {
            asset_id: asset.map(|s| s.to_string()),
            media_range: FrameRange::new(0, 30),
            timeline_range: FrameRange::new(tl_start, 30),
            rate_milli: rate,
            reverse: false,
        }),
        locked: false,
    };
    // Two audio clips placed out of order, one clip without an asset, and
    // a video track that must be ignored.
    let g = TimelineGraph {
        nodes: vec![
            clip(1, Some("late.wav"), 60, 1000),
            clip(2, Some("early.wav"), 0, 1000),
            clip(3, None, 30, 1000),
            clip(4, Some("video.mov"), 0, 1000),
        ],
        tracks: vec![
            TrackBinding {
                id: 1,
                name: String::from("A1"),
                kind: TrackKind::Audio,
                node_ids: vec![1, 2, 3],
            },
            TrackBinding {
                id: 2,
                name: String::from("V1"),
                kind: TrackKind::Video,
                node_ids: vec![4],
            },
        ],
        next_node_id: 5,
    };
    let mut cache = AudioBufferCache::new();
    let buf = |n: usize| AudioBuffer { samples: vec![0i16; n], channels: 1, sample_rate: 1000 };
    cache.store(String::from("late.wav"), buf(4000));
    cache.store(String::from("early.wav"), buf(4000));
    let clips = build_audio_clips(&g, Fps::new(30, 1), &cache);
    // The asset-less clip contributes nothing; the rest come out sorted.
    assert_eq!(clips.len(), 2);
    assert_eq!(clips[0].start_tl_us, 0);
    assert_eq!(clips[0].buffer, 1);
    assert_eq!(clips[1].start_tl_us, 2_000_000);
    assert_eq!(clips[1].buffer, 0);
    // The buffer runs 4 seconds; a one-second clip plays in full.
    assert_eq!(clips[0].duration_us, 1_000_000);
}

#[test]
fn clip_sort_orders_by_timeline_start() {
    let c = |start: i64| ActiveAudioClip {
        start_tl_us: start,
        start_media_us: 0,
        duration_us: 1,
        buffer: 0,
    };
    let sorted = sort_clips_by_start(vec![c(30), c(10), c(20), c(10)]);
    let starts: Vec<i64> = sorted.iter().map(|x| x.start_tl_us).collect();
    assert_eq!(starts, vec![10, 10, 20, 30]);
}
