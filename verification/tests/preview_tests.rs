use preview_core::cache::{CachedFrame, FrameCache, FrameCacheKey};
use preview_core::clock::{playhead_frame, PlaybackClock};
use preview_core::media::{VideoFrame, YuvPixFmt};
use preview_core::ring::{
    align_to, expected_uv_len, expected_y_len, pad_rows, plane_texture_formats,
    validate_plane_sizes, PlaneRing, PlaneTextureFormat, Presenter, UploadDecision,
};
use preview_core::time::Fps;
use preview_core::ring::split_planes;
use preview_core::worker::{
    accept_frame, first_decoded_attempt, pick_tolerance_us, plan_transport_toggle,
    CommandDebouncer, DecodeCmd, DecodeHealth, LatestFrameSlot, PlayState, TickPlan,
    TransportAction, WorkerState, MISS_RECREATE_THRESHOLD,
};

#[test]
fn clock_now_is_anchored_while_playing() {
    let mut c = PlaybackClock::new();
    c.play(2_000_000, 10_000_000);
    assert_eq!(c.now(10_000_000), 2_000_000);
    assert_eq!(c.now(11_000_000), 3_000_000);
    // Non-decreasing along wall time.
    assert!(c.now(11_500_000) >= c.now(11_000_000));
}

#[test]
fn clock_is_frozen_while_paused() {
    let mut c = PlaybackClock::new();
    c.play(0, 0);
    c.pause(5_500_000);
    // Immediately after pause(sec), now() == sec, at any wall reading.
    assert_eq!(c.now(123), 5_500_000);
    assert_eq!(c.now(999_999_999), 5_500_000);
}

#[test]
fn clock_resumes_from_paused_position() {
    let mut c = PlaybackClock::new();
    c.play(0, 0);
    c.pause(1_333_333);
    let t0 = c.now(50);
    c.play(t0, 20_000_000);
    // Media time continues from the paused position, not from a frame grid.
    assert_eq!(c.now(20_000_000), 1_333_333);
}

#[test]
fn clock_rate_scales_elapsed_wall_time() {
    let mut c = PlaybackClock::new();
    c.play(0, 0);
    c.set_rate(2000, 1_000_000); // 2x after one second
    assert_eq!(c.now(1_000_000), 1_000_000);
    assert_eq!(c.now(2_000_000), 3_000_000);
}

#[test]
fn playhead_rounds_when_paused_and_floors_when_playing() {
    let fps = Fps::new(24, 1);
    // 1.333333 s at 24 fps is frame 31.99999: rounds to 32, floors to 31.
    assert_eq!(playhead_frame(1_333_333, fps, false), 32);
    assert_eq!(playhead_frame(1_333_333, fps, true), 31);
}

#[test]
fn plane_sizes_match_the_format_rules() {
    // NV12: |Y| = w*h, |UV| = 2*ceil(w/2)*ceil(h/2); P010 doubles both.
    assert_eq!(expected_y_len(YuvPixFmt::Nv12, 1920, 1080), 1920 * 1080);
    assert_eq!(expected_uv_len(YuvPixFmt::Nv12, 1920, 1080), 2 * 960 * 540);
    assert_eq!(expected_y_len(YuvPixFmt::P010, 1920, 1080), 2 * 1920 * 1080);
    assert_eq!(expected_uv_len(YuvPixFmt::P010, 1920, 1080), 4 * 960 * 540);
    // Odd dimensions round the chroma plane up.
    assert_eq!(expected_uv_len(YuvPixFmt::Nv12, 3, 3), 2 * 2 * 2);
    assert!(validate_plane_sizes(YuvPixFmt::Nv12, 4, 2, 8, 4));
    assert!(!validate_plane_sizes(YuvPixFmt::Nv12, 4, 2, 7, 4));
}

#[test]
fn row_padding_copies_rows_and_zero_fills() {
    let src: Vec<u8> = vec![1, 2, 3, 4, 5, 6];
    let padded = pad_rows(&src, 2, 3, 8);
    assert_eq!(padded.len(), 16);
    assert_eq!(&padded[0..3], &[1, 2, 3]);
    assert_eq!(&padded[3..8], &[0, 0, 0, 0, 0]);
    assert_eq!(&padded[8..11], &[4, 5, 6]);
    assert_eq!(&padded[11..16], &[0, 0, 0, 0, 0]);
}

#[test]
fn align_to_rounds_up_to_gpu_pitch() {
    assert_eq!(align_to(1920, 256), 2048);
    assert_eq!(align_to(2048, 256), 2048);
    assert_eq!(align_to(1, 256), 256);
}

#[test]
fn mismatched_planes_are_dropped_not_uploaded() {
    let mut p = Presenter::new();
    let y = vec![0u8; 7]; // wrong: should be 8 for 4x2 NV12
    let uv = vec![0u8; 4];
    match p.prepare_upload(YuvPixFmt::Nv12, 4, 2, &y, &uv) {
        UploadDecision::DropBadPlanes { log_now } => assert!(log_now),
        _ => panic!("bad planes must be dropped"),
    }
    // The ring did not move and the second mismatch is not logged again.
    assert_eq!(p.ring.write, 0);
    assert_eq!(p.ring.present, 0);
    match p.prepare_upload(YuvPixFmt::Nv12, 4, 2, &y, &uv) {
        UploadDecision::DropBadPlanes { log_now } => assert!(!log_now),
        _ => panic!("bad planes must be dropped"),
    }
}

#[test]
fn well_sized_planes_are_uploaded_padded() {
    let mut p = Presenter::new();
    let y: Vec<u8> = (0..8u8).collect();
    let uv = vec![9u8, 8, 7, 6];
    match p.prepare_upload(YuvPixFmt::Nv12, 4, 2, &y, &uv) {
        UploadDecision::Upload(plan) => {
            assert_eq!(plan.slot, 0);
            assert_eq!(plan.y_pad_bpr, 256);
            assert_eq!(plan.uv_pad_bpr, 256);
            assert_eq!(plan.y_rows, 2);
            assert_eq!(plan.uv_rows, 1);
            assert_eq!(plan.y_padded.len(), 512);
            assert_eq!(&plan.y_padded[0..4], &[0, 1, 2, 3]);
            assert_eq!(&plan.y_padded[256..260], &[4, 5, 6, 7]);
            assert_eq!(plan.y_padded[4], 0);
            assert_eq!(&plan.uv_padded[0..4], &[9, 8, 7, 6]);
        }
        _ => panic!("upload expected"),
    }
    assert_eq!(p.ring.present, 0);
    assert_eq!(p.ring.write, 1);
}

#[test]
fn ring_never_advances_into_the_present_slot() {
    // Ten thousand upload attempts while the present slot is perturbed
    // pseudo-randomly; every attempt either uploads or drops, and an
    // accepted upload never lands where stepping forward would hit the
    // present slot.
    let mut ring = PlaneRing::new();
    let mut uploads: u64 = 0;
    let mut drops: u64 = 0;
    let mut seed: u64 = 0x2545_f491_4f6c_dd1d;
    let total = 10_000;
    for _ in 0..total {
        // xorshift pseudo-random presenter behaviour
        seed ^= seed << 13;
        seed ^= seed >> 7;
        seed ^= seed << 17;
        if seed % 3 == 0 {
            ring.present = (seed % 3) as usize;
        }
        let before_present = ring.present;
        let before_write = ring.write;
        match ring.try_advance() {
            Some(slot) => {
                uploads += 1;
                assert_eq!(slot, before_write);
                assert_ne!((before_write + 1) % 3, before_present);
                assert_eq!(ring.present, slot);
                assert_eq!(ring.write, (slot + 1) % 3);
            }
            None => {
                drops += 1;
                assert_eq!((before_write + 1) % 3, before_present);
                assert_eq!(ring.write, before_write);
                assert_eq!(ring.present, before_present);
            }
        }
    }
    assert_eq!(uploads + drops, total);
    assert!(uploads > 0);
}

#[test]
fn worker_play_anchors_once_and_seek_retargets() {
    let mut w = WorkerState::new(0);
    assert_eq!(w.mode, PlayState::Paused);
    w.apply_cmd(&DecodeCmd::Play { start_pts_us: 1_000_000, rate_milli: 1000 }, 500);
    assert_eq!(w.mode, PlayState::Playing);
    assert_eq!(w.anchor_pts_us, 1_000_000);
    assert_eq!(w.anchor_wall_us, 500);
    // A repeated Play keeps the anchor (smooth progression) but updates rate.
    w.apply_cmd(&DecodeCmd::Play { start_pts_us: 9_999, rate_milli: 2000 }, 800);
    assert_eq!(w.anchor_pts_us, 1_000_000);
    assert_eq!(w.rate_milli, 2000);
    w.apply_cmd(&DecodeCmd::Seek { target_pts_us: 7_500_000 }, 900);
    assert_eq!(w.mode, PlayState::Seeking);
    assert_eq!(w.anchor_pts_us, 7_500_000);
    match w.plan_tick(1000) {
        TickPlan::Decode { target_us } => assert_eq!(target_us, 7_500_000),
        TickPlan::Idle => panic!("seeking must decode"),
    }
    w.apply_cmd(&DecodeCmd::Pause, 1000);
    match w.plan_tick(1100) {
        TickPlan::Idle => {}
        _ => panic!("paused must idle"),
    }
    w.apply_cmd(&DecodeCmd::Stop, 1200);
    assert!(!w.running);
}

#[test]
fn playing_tick_chases_the_rate_scaled_target() {
    let mut w = WorkerState::new(0);
    w.apply_cmd(&DecodeCmd::Play { start_pts_us: 2_000_000, rate_milli: 2000 }, 1_000_000);
    match w.plan_tick(1_500_000) {
        TickPlan::Decode { target_us } => assert_eq!(target_us, 3_000_000),
        TickPlan::Idle => panic!("playing must decode"),
    }
}

#[test]
fn latest_slot_is_latest_wins_and_read_steal() {
    let mut slot = LatestFrameSlot::new();
    let mk = |ts: i64| VideoFrame {
        format: YuvPixFmt::Nv12,
        y_plane: vec![],
        uv_plane: vec![],
        width: 2,
        height: 2,
        timestamp_us: ts,
    };
    slot.publish(mk(1));
    slot.publish(mk(2));
    let got = slot.take().expect("frame");
    assert_eq!(got.timestamp_us, 2);
    assert!(slot.take().is_none());
}

#[test]
fn debounce_sends_one_command_per_bucket() {
    let fps = Fps::new(30, 1);
    let mut d = CommandDebouncer::new();
    let path = String::from("clip.mov");
    // Stationary playhead, unchanged mode: exactly one Seek per bucket.
    let first = d.plan_command(PlayState::Seeking, &path, 5_000_000, 1000, fps);
    assert!(matches!(first, Some(DecodeCmd::Seek { target_pts_us: 5_000_000 })));
    let second = d.plan_command(PlayState::Seeking, &path, 5_000_000, 1000, fps);
    assert!(second.is_none());
    // A target in the same frame bucket is also suppressed.
    let same_bucket = d.plan_command(PlayState::Seeking, &path, 5_001_000, 1000, fps);
    assert!(same_bucket.is_none());
    // A different bucket sends again.
    let third = d.plan_command(PlayState::Seeking, &path, 6_000_000, 1000, fps);
    assert!(third.is_some());
    // Entering playback sends one Play; repeating it sends nothing.
    let play = d.plan_command(PlayState::Playing, &path, 6_000_000, 1000, fps);
    assert!(matches!(play, Some(DecodeCmd::Play { .. })));
    assert!(d.plan_command(PlayState::Playing, &path, 7_000_000, 1000, fps).is_none());
}

#[test]
fn frame_pick_tolerance_and_acceptance() {
    let fps = Fps::new(30, 1);
    // Half a frame at 30 fps is 16666 microseconds.
    assert_eq!(pick_tolerance_us(fps), 16_666);
    // At 1000 fps the floor of 12 milliseconds wins.
    assert_eq!(pick_tolerance_us(Fps::new(1000, 1)), 12_000);
    assert!(accept_frame(PlayState::Playing, 0, 9_000_000, 1));
    assert!(accept_frame(PlayState::Seeking, 7_490_000, 7_500_000, 16_666));
    assert!(!accept_frame(PlayState::Seeking, 7_400_000, 7_500_000, 16_666));
}

#[test]
fn transport_toggle_pauses_or_rewinds() {
    assert!(matches!(plan_transport_toggle(true, 100, 600), TransportAction::Pause));
    assert!(matches!(
        plan_transport_toggle(false, 100, 600),
        TransportAction::PlayFrom { frame: 100 }
    ));
    assert!(matches!(
        plan_transport_toggle(false, 600, 600),
        TransportAction::PlayFrom { frame: 0 }
    ));
}

fn mk_key(path: &str, t_us: i64) -> FrameCacheKey {
    FrameCacheKey::new(path, t_us, 64, 36)
}

fn mk_frame(tag: u8) -> CachedFrame {
    CachedFrame { format: YuvPixFmt::Nv12, y: vec![tag], uv: vec![tag], width: 1, height: 1 }
}

#[test]
fn cache_key_buckets_tenths_of_seconds() {
    let a = FrameCacheKey::new("x", 1_230_000, 0, 0);
    let b = FrameCacheKey::new("x", 1_250_000, 0, 0);
    let c = FrameCacheKey::new("x", 1_260_000, 0, 0);
    assert_eq!(a.time_bucket, 12);
    assert_eq!(b.time_bucket, 13); // rounds half up
    assert_eq!(c.time_bucket, 13);
}

#[test]
fn cache_keeps_capacity_entries_and_mru_is_last_inserted() {
    // Capacity K = 3, N = 5 unique keys: after all lookups and inserts the
    // cache holds exactly K entries and the most recent is the last one.
    let mut cache = FrameCache::with_capacity(3);
    let paths = ["a", "b", "c", "d", "e"];
    for (i, p) in paths.iter().enumerate() {
        let key = mk_key(p, 0);
        assert!(cache.lookup(&key).is_none());
        cache.insert(key, mk_frame(i as u8));
    }
    assert_eq!(cache.len(), 3);
    let last = mk_key("e", 0);
    let idx = cache.lookup(&last).expect("most recent entry present");
    assert_eq!(idx, 2);
    assert_eq!(cache.frame_at(idx).y, vec![4]);
    // The two oldest were evicted.
    assert!(cache.lookup(&mk_key("a", 0)).is_none());
    assert!(cache.lookup(&mk_key("b", 0)).is_none());
}

#[test]
fn cache_lookup_moves_entry_to_mru() {
    let mut cache = FrameCache::with_capacity(3);
    for (i, p) in ["a", "b", "c"].iter().enumerate() {
        cache.insert(mk_key(p, 0), mk_frame(i as u8));
    }
    // Touch "a": it becomes most recent, so "b" is evicted next.
    assert!(cache.lookup(&mk_key("a", 0)).is_some());
    cache.insert(mk_key("d", 0), mk_frame(9));
    assert!(cache.lookup(&mk_key("a", 0)).is_some());
    assert!(cache.lookup(&mk_key("b", 0)).is_none());
    assert_eq!(cache.len(), 3);
}

#[test]
fn retry_budget_takes_the_first_decoded_frame() {
    let mk = |ts: i64| VideoFrame {
        format: YuvPixFmt::Nv12,
        y_plane: vec![],
        uv_plane: vec![],
        width: 2,
        height: 2,
        timestamp_us: ts,
    };
    // Two dry calls, then a frame: the third attempt is picked.
    let attempts = vec![None, None, Some(mk(7))];
    assert_eq!(first_decoded_attempt(&attempts), Some(2));
    // Nothing within the budget of one initial call plus six retries.
    let dry: Vec<Option<VideoFrame>> = (0..7).map(|_| None).collect();
    assert_eq!(first_decoded_attempt(&dry), None);
    // A frame past the budget is not taken.
    let mut late: Vec<Option<VideoFrame>> = (0..7).map(|_| None).collect();
    late.push(Some(mk(1)));
    assert_eq!(first_decoded_attempt(&late), None);
}

#[test]
fn raw_frames_split_into_planes() {
    // A 2x2 NV12 frame: 4 Y bytes then 2 UV bytes.
    let data = vec![1u8, 2, 3, 4, 9, 8];
    let (y, uv) = split_planes(YuvPixFmt::Nv12, 2, 2, &data).expect("split");
    assert_eq!(y, vec![1, 2, 3, 4]);
    assert_eq!(uv, vec![9, 8]);
    // Short reads are refused.
    assert!(split_planes(YuvPixFmt::Nv12, 2, 2, &data[..5]).is_none());
}

#[test]
fn decoder_is_recreated_once_after_a_miss_streak() {
    let mut h = DecodeHealth::new();
    for _ in 0..MISS_RECREATE_THRESHOLD - 1 {
        assert!(!h.record_miss());
    }
    assert!(h.record_miss()); // the threshold miss triggers one rebuild
    assert!(h.recreated);
    for _ in 0..2 * MISS_RECREATE_THRESHOLD {
        assert!(!h.record_miss()); // never a second rebuild
    }
    let mut h2 = DecodeHealth::new();
    for _ in 0..MISS_RECREATE_THRESHOLD - 1 {
        assert!(!h2.record_miss());
    }
    h2.record_success(); // a decoded frame resets the window
    assert!(!h2.record_miss());
}

#[test]
fn frozen_presenter_limits_uploads_to_ring_capacity() {
    // While the presenter never advances, the writer fills the free slots
    // and then drops every further frame instead of stalling.
    let mut ring = PlaneRing::new();
    let pinned = ring.present;
    let mut uploads: u32 = 0;
    let mut drops: u32 = 0;
    for _ in 0..12 {
        match ring.try_advance() {
            Some(_) => uploads += 1,
            None => drops += 1,
        }
        ring.present = pinned; // the reader is stuck on its slot
    }
    assert!(uploads <= 3);
    assert_eq!(uploads + drops, 12);
    assert!(drops >= 9);
}

#[test]
fn p010_falls_back_to_uint_textures() {
    assert_eq!(
        plane_texture_formats(YuvPixFmt::Nv12, false),
        (PlaneTextureFormat::R8Unorm, PlaneTextureFormat::Rg8Unorm)
    );
    assert_eq!(
        plane_texture_formats(YuvPixFmt::P010, true),
        (PlaneTextureFormat::R16Unorm, PlaneTextureFormat::Rg16Unorm)
    );
    // A device without 16-bit normalized textures gets the uint variants.
    assert_eq!(
        plane_texture_formats(YuvPixFmt::P010, false),
        (PlaneTextureFormat::R16Uint, PlaneTextureFormat::Rg16Uint)
    );
}

#[test]
fn cache_batch_eviction_drops_the_oldest() {
    let mut cache = FrameCache::with_capacity(8);
    for (i, p) in ["a", "b", "c", "d"].iter().enumerate() {
        cache.insert(mk_key(p, 0), mk_frame(i as u8));
    }
    cache.evict_oldest(2);
    assert_eq!(cache.len(), 2);
    assert!(cache.lookup(&mk_key("a", 0)).is_none());
    assert!(cache.lookup(&mk_key("b", 0)).is_none());
    assert!(cache.lookup(&mk_key("c", 0)).is_some());
    // A cache at or below the requested count is left untouched.
    cache.evict_oldest(10);
    assert_eq!(cache.len(), 2);
    cache.evict_oldest(2);
    assert_eq!(cache.len(), 2);
    assert!(cache.lookup(&mk_key("c", 0)).is_some());
    assert!(cache.lookup(&mk_key("d", 0)).is_some());
}

#[test]
fn presenter_remembers_the_published_frame() {
    let mut p = Presenter::new();
    assert!(p.current_plane_slot().is_none());
    let y: Vec<u8> = vec![0u8; 8];
    let uv = vec![0u8; 4];
    match p.prepare_upload(YuvPixFmt::Nv12, 4, 2, &y, &uv) {
        UploadDecision::Upload(plan) => {
            let (fmt, slot) = p.current_plane_slot().expect("published");
            assert_eq!(fmt, YuvPixFmt::Nv12);
            assert_eq!(slot, plan.slot);
            assert_eq!((p.last_width, p.last_height), (4, 2));
            assert_eq!(p.present_tick, 1);
        }
        _ => panic!("upload expected"),
    }
}
