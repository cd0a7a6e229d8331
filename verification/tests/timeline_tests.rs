use preview_core::export::{
    build_video_segments, collect_audio_clips, crf_range, next_breakpoint, preset_dimensions,
    progress_permille, topmost_item_covering, ExportCodec, ExportPreset, VideoSegKind,
};
use preview_core::sequence::{derive_tracks, item_from_node, max_item_end, Item, ItemKind, Sequence, Track};
use preview_core::time::Fps;
use preview_core::timeline::{
    active_audio_media_time, active_video_media_time, visual_source_at, ClipNode, FrameRange,
    GeneratorMeta, TimelineCommand, TimelineError, TimelineGraph, TimelineNode, TimelineNodeKind,
    TrackBinding, TrackKind, TrackPlacement, VisualSource,
};

fn clip_node(id: u64, asset: Option<&str>, tl_start: i64, tl_dur: i64, media_start: i64) -> TimelineNode {
    TimelineNode {
        id,
        label: None,
        kind: TimelineNodeKind::Clip(ClipNode {
            asset_id: asset.map(|s| s.to_string()),
            media_range: FrameRange::new(media_start, tl_dur),
            timeline_range: FrameRange::new(tl_start, tl_dur),
            rate_milli: 1000,
            reverse: false,
        }),
        locked: false,
    }
}

fn one_track_graph(nodes: Vec<TimelineNode>, kind: TrackKind) -> TimelineGraph {
    let ids: Vec<u64> = nodes.iter().map(|n| n.id).collect();
    let max_id = ids.iter().copied().max().unwrap_or(0);
    TimelineGraph {
        nodes,
        tracks: vec![TrackBinding {
            id: 1,
            name: String::from("V1"),
            kind,
            node_ids: ids,
        }],
        next_node_id: max_id + 1,
    }
}

#[test]
fn visual_source_covers_the_playhead() {
    // One clip covering frames 10..60: the playhead inside it resolves,
    // the end frame itself (half-open) does not.
    let g = one_track_graph(vec![clip_node(1, Some("a.mov"), 10, 50, 0)], TrackKind::Video);
    match visual_source_at(&g, 10) {
        Some(VisualSource::Media { path, is_image }) => {
            assert_eq!(path, "a.mov");
            assert!(!is_image);
        }
        other => panic!("expected media source, got {:?}", other),
    }
    assert!(visual_source_at(&g, 59).is_some());
    assert!(visual_source_at(&g, 60).is_none());
    assert!(visual_source_at(&g, 9).is_none());
}

#[test]
fn visual_source_skips_audio_tracks_and_topmost_wins() {
    let mut g = one_track_graph(vec![clip_node(1, Some("base.mov"), 0, 100, 0)], TrackKind::Video);
    // An audio track above is skipped; a video track above it wins.
    g.nodes.push(clip_node(2, Some("voice.wav"), 0, 100, 0));
    g.tracks.push(TrackBinding {
        id: 2,
        name: String::from("A1"),
        kind: TrackKind::Audio,
        node_ids: vec![2],
    });
    g.nodes.push(clip_node(3, Some("over.mov"), 20, 30, 0));
    g.tracks.push(TrackBinding {
        id: 3,
        name: String::from("V2"),
        kind: TrackKind::Video,
        node_ids: vec![3],
    });
    g.next_node_id = 4;
    match visual_source_at(&g, 25) {
        Some(VisualSource::Media { path, .. }) => assert_eq!(path, "over.mov"),
        other => panic!("topmost clip must win, got {:?}", other),
    }
    match visual_source_at(&g, 5) {
        Some(VisualSource::Media { path, .. }) => assert_eq!(path, "base.mov"),
        other => panic!("background clip expected, got {:?}", other),
    }
}

#[test]
fn generators_resolve_to_solid_and_text() {
    let solid = TimelineNode {
        id: 1,
        label: None,
        kind: TimelineNodeKind::Generator {
            generator_id: String::from("solid"),
            timeline_range: FrameRange::new(0, 10),
            meta: GeneratorMeta { color: Some(String::from("#ff0000")), text: None },
        },
        locked: false,
    };
    let g = one_track_graph(vec![solid], TrackKind::Video);
    match visual_source_at(&g, 5) {
        Some(VisualSource::Solid { color }) => assert_eq!(color, "#ff0000"),
        other => panic!("solid expected, got {:?}", other),
    }
}

#[test]
fn active_video_media_time_applies_offset_and_rate() {
    // Clip at timeline frame 30, media starts at frame 60, 30 fps, 1x.
    let g = one_track_graph(vec![clip_node(1, Some("a.mov"), 30, 60, 60)], TrackKind::Video);
    let fps = Fps::new(30, 1);
    // Timeline 1.5 s = frame 45; local 0.5 s; media = 2.0 s + 0.5 s.
    let (path, us) = active_video_media_time(&g, fps, 1_500_000).expect("covered");
    assert_eq!(path, "a.mov");
    assert_eq!(us, 2_500_000);
    // Outside the clip: nothing.
    assert!(active_video_media_time(&g, fps, 4_000_000).is_none());
}

#[test]
fn active_audio_falls_back_to_video_track() {
    let g = one_track_graph(vec![clip_node(1, Some("a.mov"), 0, 300, 0)], TrackKind::Video);
    let fps = Fps::new(30, 1);
    let (path, us) = active_audio_media_time(&g, fps, 1_000_000).expect("fallback");
    assert_eq!(path, "a.mov");
    assert_eq!(us, 1_000_000);
}

#[test]
fn insert_rejects_collisions_and_bad_placements() {
    let mut g = one_track_graph(vec![clip_node(1, Some("a.mov"), 0, 10, 0)], TrackKind::Video);
    // Node id collision.
    let r = g.apply_command(TimelineCommand::InsertNode {
        node: clip_node(1, Some("b.mov"), 20, 10, 0),
        placement: TrackPlacement { track_id: 1, position: None },
    });
    assert!(matches!(r, Err(TimelineError::InvalidOp(_))));
    // Track not found.
    let r = g.apply_command(TimelineCommand::InsertNode {
        node: clip_node(2, Some("b.mov"), 20, 10, 0),
        placement: TrackPlacement { track_id: 77, position: None },
    });
    assert!(matches!(r, Err(TimelineError::InvalidOp(_))));
    // Placement out of range.
    let r = g.apply_command(TimelineCommand::InsertNode {
        node: clip_node(2, Some("b.mov"), 20, 10, 0),
        placement: TrackPlacement { track_id: 1, position: Some(5) },
    });
    assert!(matches!(r, Err(TimelineError::InvalidOp(_))));
    // A failing command leaves the graph unchanged.
    assert_eq!(g.nodes.len(), 1);
    assert_eq!(g.tracks[0].node_ids, vec![1]);
    // A valid insert lands at the requested position.
    let r = g.apply_command(TimelineCommand::InsertNode {
        node: clip_node(2, Some("b.mov"), 20, 10, 0),
        placement: TrackPlacement { track_id: 1, position: Some(0) },
    });
    assert!(r.is_ok());
    assert_eq!(g.tracks[0].node_ids, vec![2, 1]);
}

#[test]
fn update_and_remove_respect_presence() {
    let mut g = one_track_graph(vec![clip_node(1, Some("a.mov"), 0, 10, 0)], TrackKind::Video);
    let r = g.apply_command(TimelineCommand::UpdateNode {
        node: clip_node(9, Some("x.mov"), 0, 10, 0),
    });
    assert!(matches!(r, Err(TimelineError::InvalidOp(_))));
    let r = g.apply_command(TimelineCommand::RemoveNode { node_id: 9 });
    assert!(matches!(r, Err(TimelineError::InvalidOp(_))));
    let r = g.apply_command(TimelineCommand::RemoveNode { node_id: 1 });
    assert!(r.is_ok());
    assert_eq!(g.nodes.len(), 0);
    assert!(g.tracks[0].node_ids.is_empty());
}

#[test]
fn split_preserves_coverage_and_media_continuity() {
    // Clip timelineRange = [10, 50], mediaRange = [100, 50]; split at 30.
    let mut g = one_track_graph(vec![clip_node(7, Some("a.mov"), 10, 50, 100)], TrackKind::Video);
    let rid = g.split_clip_at_frame(0, 0, 30).expect("split succeeds");
    assert_eq!(g.tracks[0].node_ids, vec![7, rid]);
    let left = match &g.nodes[0].kind {
        TimelineNodeKind::Clip(c) => c,
        _ => panic!("left clip"),
    };
    assert_eq!((left.timeline_range.start, left.timeline_range.duration), (10, 20));
    assert_eq!((left.media_range.start, left.media_range.duration), (100, 20));
    let right = match &g.nodes[1].kind {
        TimelineNodeKind::Clip(c) => c,
        _ => panic!("right clip"),
    };
    assert_eq!((right.timeline_range.start, right.timeline_range.duration), (30, 30));
    assert_eq!((right.media_range.start, right.media_range.duration), (120, 30));
    // Union of coverage equals the original: no frame lost.
    assert_eq!(left.timeline_range.start + left.timeline_range.duration, right.timeline_range.start);
    assert_eq!(right.timeline_range.start + right.timeline_range.duration, 60);
}

#[test]
fn split_outside_the_clip_is_refused() {
    let mut g = one_track_graph(vec![clip_node(7, Some("a.mov"), 10, 50, 100)], TrackKind::Video);
    assert!(g.split_clip_at_frame(0, 0, 10).is_none());
    assert!(g.split_clip_at_frame(0, 0, 60).is_none());
    assert!(g.split_clip_at_frame(0, 5, 30).is_none());
    assert_eq!(g.nodes.len(), 1);
}

fn video_item(id: u64, from: i64, dur: i64, src: &str) -> Item {
    Item {
        id,
        from,
        duration_in_frames: dur,
        kind: ItemKind::Video {
            src: src.to_string(),
            frame_rate: Some(Fps::new(30, 1)),
            in_offset_us: 0,
            rate_milli: 1000,
        },
    }
}

fn audio_item(id: u64, from: i64, dur: i64, src: &str) -> Item {
    Item {
        id,
        from,
        duration_in_frames: dur,
        kind: ItemKind::Audio { src: src.to_string(), in_offset_us: 0, rate_milli: 1000 },
    }
}

#[test]
fn export_segments_cut_at_item_edges() {
    let mut seq = Sequence::new(String::from("Main"), 1920, 1080, Fps::new(30, 1), 100);
    seq.add_track(Track {
        name: String::from("V1"),
        items: vec![video_item(1, 20, 30, "a.mov"), audio_item(2, 0, 100, "a.wav")],
    });
    let segs = build_video_segments(&seq);
    assert_eq!(segs.len(), 3);
    assert_eq!((segs[0].start_frame, segs[0].duration_frames), (0, 20));
    assert!(matches!(segs[0].kind, VideoSegKind::Black));
    assert_eq!((segs[1].start_frame, segs[1].duration_frames), (20, 30));
    match &segs[1].kind {
        VideoSegKind::Video { path, media_start_frames } => {
            assert_eq!(path, "a.mov");
            assert_eq!(*media_start_frames, 0);
        }
        other => panic!("video segment expected, got {:?}", other),
    }
    assert_eq!((segs[2].start_frame, segs[2].duration_frames), (50, 50));
    assert!(matches!(segs[2].kind, VideoSegKind::Black));
    let clips = collect_audio_clips(&seq);
    assert_eq!(clips.len(), 1);
    assert_eq!(clips[0].path, "a.wav");
    assert_eq!(clips[0].offset_frames, 0);
    assert_eq!(clips[0].duration_frames, 100);
}

#[test]
fn next_breakpoint_finds_the_first_edge() {
    let mut seq = Sequence::new(String::from("Main"), 640, 360, Fps::new(30, 1), 100);
    seq.add_track(Track { name: String::from("V1"), items: vec![video_item(1, 20, 30, "a.mov")] });
    assert_eq!(next_breakpoint(&seq, 0), 20);
    assert_eq!(next_breakpoint(&seq, 20), 50);
    assert_eq!(next_breakpoint(&seq, 50), 100);
}

#[test]
fn topmost_item_prefers_later_tracks() {
    let mut seq = Sequence::new(String::from("Main"), 640, 360, Fps::new(30, 1), 100);
    seq.add_track(Track { name: String::from("V1"), items: vec![video_item(1, 0, 100, "lo.mov")] });
    seq.add_track(Track { name: String::from("V2"), items: vec![video_item(2, 40, 10, "hi.mov")] });
    assert_eq!(topmost_item_covering(&seq, 45), Some((1, 0)));
    assert_eq!(topmost_item_covering(&seq, 10), Some((0, 0)));
    assert_eq!(topmost_item_covering(&seq, 99), Some((0, 0)));
}

#[test]
fn item_from_node_flattens_clips_and_generators() {
    let fps = Fps::new(30, 1);
    let clip = clip_node(5, Some("a.mov"), 10, 20, 90);
    let item = item_from_node(&clip, &TrackKind::Video, fps).expect("clip item");
    assert_eq!(item.from, 10);
    assert_eq!(item.duration_in_frames, 20);
    match item.kind {
        ItemKind::Video { src, in_offset_us, rate_milli, .. } => {
            assert_eq!(src, "a.mov");
            assert_eq!(in_offset_us, 3_000_000); // 90 frames at 30 fps
            assert_eq!(rate_milli, 1000);
        }
        other => panic!("video item expected, got {:?}", other),
    }
    let on_audio = item_from_node(&clip, &TrackKind::Audio, fps).expect("audio item");
    assert!(matches!(on_audio.kind, ItemKind::Audio { .. }));
}

#[test]
fn sequence_duration_is_the_largest_item_end() {
    let items = vec![video_item(1, 0, 10, "a"), video_item(2, 30, 25, "b")];
    assert_eq!(max_item_end(&items), 55);
    assert_eq!(max_item_end(&Vec::new()), 0);
}

#[test]
fn export_dialog_rules() {
    assert_eq!(preset_dimensions(ExportPreset::Source, 1280, 720), (1280, 720));
    assert_eq!(preset_dimensions(ExportPreset::P1080, 1280, 720), (1920, 1080));
    assert_eq!(preset_dimensions(ExportPreset::P4K, 1280, 720), (3840, 2160));
    assert_eq!(crf_range(ExportCodec::H264), (12, 32));
    assert_eq!(crf_range(ExportCodec::Av1), (20, 50));
    assert_eq!(ExportCodec::default(), ExportCodec::H264);
    assert_eq!(ExportPreset::default(), ExportPreset::Source);
    assert_eq!(progress_permille(0, 1000), 0);
    assert_eq!(progress_permille(500, 1000), 500);
    assert_eq!(progress_permille(2000, 1000), 1000);
    assert_eq!(progress_permille(7, 0), 0);
}

#[test]
fn derive_tracks_flattens_the_graph() {
    let mut g = one_track_graph(vec![clip_node(1, Some("a.mov"), 0, 30, 0)], TrackKind::Video);
    g.nodes.push(clip_node(2, Some("b.wav"), 10, 50, 0));
    g.tracks.push(TrackBinding {
        id: 2,
        name: String::from("A1"),
        kind: TrackKind::Audio,
        node_ids: vec![2],
    });
    g.next_node_id = 3;
    let (tracks, duration) = derive_tracks(&g, Fps::new(30, 1));
    assert_eq!(tracks.len(), 2);
    assert_eq!(tracks[0].name, "V1");
    assert_eq!(tracks[0].items.len(), 1);
    assert!(matches!(tracks[0].items[0].kind, ItemKind::Video { .. }));
    assert!(matches!(tracks[1].items[0].kind, ItemKind::Audio { .. }));
    // The duration is the largest item end: the audio clip runs to 60.
    assert_eq!(duration, 60);
}

#[test]
fn move_placement_transfers_a_node_between_tracks() {
    let mut g = one_track_graph(vec![clip_node(1, Some("a.mov"), 0, 10, 0)], TrackKind::Video);
    g.tracks.push(TrackBinding {
        id: 2,
        name: String::from("V2"),
        kind: TrackKind::Video,
        node_ids: vec![],
    });
    let r = g.apply_command(TimelineCommand::MovePlacement {
        node_id: 1,
        from_track: 1,
        to_track: 2,
        position: None,
    });
    assert!(r.is_ok());
    assert!(g.tracks[0].node_ids.is_empty());
    assert_eq!(g.tracks[1].node_ids, vec![1]);
    // A move to a missing track is refused and changes nothing.
    let r = g.apply_command(TimelineCommand::MovePlacement {
        node_id: 1,
        from_track: 2,
        to_track: 9,
        position: None,
    });
    assert!(matches!(r, Err(TimelineError::InvalidOp(_))));
    assert_eq!(g.tracks[1].node_ids, vec![1]);
}
