//! The flat sequence model consumed by drawing and export: tracks of
//! items derived from the timeline graph.

use crate::time::{Fps, Frame, MAX_FRAME, frames_to_us, spec_frames_to_us};
use crate::timeline::{TimelineGraph, TimelineNode, TimelineNodeKind, TrackKind, spec_node_wf};
use vstd::prelude::*;

verus! {

/// The visual/audio content of a flat timeline item.
#[derive(Clone, Debug)]
pub enum ItemKind {
    Solid { color: String },
    Text { text: String, color: String },
    Video { src: String, frame_rate: Option<Fps>, in_offset_us: i64, rate_milli: u32 },
    Image { src: String },
    Audio { src: String, in_offset_us: i64, rate_milli: u32 },
}

/// One flat item: a span of frames on a track.
#[derive(Clone, Debug)]
pub struct Item {
    pub id: crate::timeline::NodeId,
    pub from: Frame,
    pub duration_in_frames: Frame,
    pub kind: ItemKind,
}

#[derive(Clone, Debug)]
pub struct Track {
    pub name: String,
    pub items: Vec<Item>,
}

/// A sequence: project-level geometry plus the flat track list.
#[derive(Clone, Debug)]
pub struct Sequence {
    pub name: String,
    pub width: u32,
    pub height: u32,
    pub fps: Fps,
    pub duration_in_frames: Frame,
    pub tracks: Vec<Track>,
}

impl Sequence {
    pub fn new(name: String, width: u32, height: u32, fps: Fps, duration_in_frames: Frame) -> (r:
        Self)
        ensures
            r.name == name,
            r.width == width,
            r.height == height,
            r.fps == fps,
            r.duration_in_frames == duration_in_frames,
            r.tracks@.len() == 0,
    {
        Sequence { name, width, height, fps, duration_in_frames, tracks: Vec::new() }
    }

    pub fn add_track(&mut self, track: Track)
        ensures
            final(self).tracks@ == old(self).tracks@.push(track),
            final(self).name == old(self).name,
            final(self).width == old(self).width,
            final(self).height == old(self).height,
            final(self).fps == old(self).fps,
            final(self).duration_in_frames == old(self).duration_in_frames,
    {
        self.tracks.push(track);
    }
}

/// How a flat item must mirror a graph node on a track of the given kind:
/// clips become video or audio items (audio on audio tracks), solid and
/// text generators become their items, everything else maps to nothing.
pub open spec fn spec_item_matches(
    node: TimelineNode,
    track_kind: TrackKind,
    fps: Fps,
    r: Option<Item>,
) -> bool {
    match node.kind {
        TimelineNodeKind::Clip(c) => {
            &&& r matches Some(item)
            &&& ({
                let item = r->0;
                let src_view = match c.asset_id {
                    Some(p) => p@,
                    None => Seq::<char>::empty(),
                };
                &&& item.id == node.id
                &&& item.from == c.timeline_range.start
                &&& item.duration_in_frames == c.timeline_range.duration
                &&& if track_kind is Audio {
                    &&& item.kind matches ItemKind::Audio { src, in_offset_us, rate_milli }
                    &&& item.kind->Audio_src@ == src_view
                    &&& item.kind->Audio_in_offset_us == spec_frames_to_us(
                        c.media_range.start as int,
                        fps,
                    )
                    &&& item.kind->Audio_rate_milli == c.rate_milli
                } else {
                    &&& item.kind matches ItemKind::Video { .. }
                    &&& item.kind->Video_src@ == src_view
                    &&& item.kind->Video_frame_rate == Some(fps)
                    &&& item.kind->Video_in_offset_us == spec_frames_to_us(
                        c.media_range.start as int,
                        fps,
                    )
                    &&& item.kind->Video_rate_milli == c.rate_milli
                }
            })
        },
        TimelineNodeKind::Generator { generator_id, timeline_range, meta } => {
            if generator_id@ == "solid"@ {
                &&& r matches Some(item)
                &&& ({
                    let item = r->0;
                    &&& item.id == node.id
                    &&& item.from == timeline_range.start
                    &&& item.duration_in_frames == timeline_range.duration
                    &&& item.kind matches ItemKind::Solid { .. }
                    &&& item.kind->Solid_color@ == match meta.color {
                        Some(cv) => cv@,
                        None => "#4c4c4c"@,
                    }
                })
            } else if generator_id@ == "text"@ {
                &&& r matches Some(item)
                &&& ({
                    let item = r->0;
                    &&& item.id == node.id
                    &&& item.from == timeline_range.start
                    &&& item.duration_in_frames == timeline_range.duration
                    &&& item.kind matches ItemKind::Text { .. }
                    &&& item.kind->Text_text@ == match meta.text {
                        Some(tv) => tv@,
                        None => ""@,
                    }
                    &&& item.kind->Text_color@ == match meta.color {
                        Some(cv) => cv@,
                        None => "#ffffff"@,
                    }
                })
            } else {
                r is None
            }
        },
        _ => r is None,
    }
}

/// Flatten one graph node into an item for drawing and export.
pub fn item_from_node(node: &TimelineNode, track_kind: &TrackKind, fps: Fps) -> (r: Option<Item>)
    requires
        spec_node_wf(*node),
        fps.wf(),
    ensures
        spec_item_matches(*node, *track_kind, fps, r),
{
    match &node.kind {
        TimelineNodeKind::Clip(c) => {
            let src = match &c.asset_id {
                Some(p) => p.clone(),
                None => String::new(),
            };
            let in_offset_us = frames_to_us(c.media_range.start, fps);
            let kind = if track_kind.is_audio() {
                ItemKind::Audio { src, in_offset_us, rate_milli: c.rate_milli }
            } else {
                ItemKind::Video {
                    src,
                    frame_rate: Some(fps),
                    in_offset_us,
                    rate_milli: c.rate_milli,
                }
            };
            Some(
                Item {
                    id: node.id,
                    from: c.timeline_range.start,
                    duration_in_frames: c.timeline_range.duration,
                    kind,
                },
            )
        },
        TimelineNodeKind::Generator { generator_id, timeline_range, meta } => {
            let solid_marker = "solid".to_owned();
            let text_marker = "text".to_owned();
            if *generator_id == solid_marker {
                let color = match &meta.color {
                    Some(c) => c.clone(),
                    None => "#4c4c4c".to_owned(),
                };
                Some(
                    Item {
                        id: node.id,
                        from: timeline_range.start,
                        duration_in_frames: timeline_range.duration,
                        kind: ItemKind::Solid { color },
                    },
                )
            } else if *generator_id == text_marker {
                let text = match &meta.text {
                    Some(t) => t.clone(),
                    None => "".to_owned(),
                };
                let color = match &meta.color {
                    Some(c) => c.clone(),
                    None => "#ffffff".to_owned(),
                };
                Some(
                    Item {
                        id: node.id,
                        from: timeline_range.start,
                        duration_in_frames: timeline_range.duration,
                        kind: ItemKind::Text { text, color },
                    },
                )
            } else {
                None
            }
        },
        _ => None,
    }
}

/// The frame right after the last item of any track: the sequence length
/// derived from its contents.
pub open spec fn spec_item_end(it: Item) -> int {
    it.from + it.duration_in_frames
}

pub open spec fn spec_items_wf(items: Seq<Item>) -> bool {
    forall|k: int|
        0 <= k < items.len() ==> 0 <= #[trigger] items[k].from && 1 <= items[k].duration_in_frames
            && items[k].from + items[k].duration_in_frames <= MAX_FRAME
}

/// Largest end frame over a list of items (zero for an empty list).
pub fn max_item_end(items: &Vec<Item>) -> (r: Frame)
    requires
        spec_items_wf(items@),
    ensures
        0 <= r <= MAX_FRAME,
        forall|k: int| 0 <= k < items@.len() ==> spec_item_end(#[trigger] items@[k]) <= r,
        r == 0 || exists|k: int|
            0 <= k < items@.len() && spec_item_end(#[trigger] items@[k]) == r,
{
    let n = items.len();
    let mut best: i64 = 0;
    let mut k: usize = 0;
    while k < n
        invariant
            n == items@.len(),
            spec_items_wf(items@),
            k <= n,
            0 <= best <= MAX_FRAME,
            forall|j: int| 0 <= j < k ==> spec_item_end(#[trigger] items@[j]) <= best,
            best == 0 || exists|j: int|
                0 <= j < k && spec_item_end(#[trigger] items@[j]) == best,
        decreases n - k,
    {
        let e = items[k].from + items[k].duration_in_frames;
        if e > best {
            best = e;
        }
        k = k + 1;
    }
    best
}

/// Whether a node yields a flat item at all: clips always do, generators
/// only when the preview can synthesize them.
pub open spec fn spec_node_presentable(n: TimelineNode) -> bool {
    match n.kind {
        TimelineNodeKind::Clip(_) => true,
        TimelineNodeKind::Generator { generator_id, .. } => generator_id@ == "solid"@
            || generator_id@ == "text"@,
        _ => false,
    }
}

/// An item of a derived track is justified by some placement of the
/// track: a stored node it mirrors.
pub open spec fn spec_item_sound(
    g: TimelineGraph,
    kind: TrackKind,
    fps: Fps,
    ids: Seq<crate::timeline::NodeId>,
    item: Item,
) -> bool {
    exists|j: int|
        0 <= j < ids.len() && g.spec_has_node(#[trigger] ids[j]) && spec_item_matches(
            g.nodes@[g.spec_node_index(ids[j])],
            kind,
            fps,
            Some(item),
        )
}

/// What flattening one track guarantees: well-formed items, each item
/// mirroring a stored node of the track, and every presentable node of
/// the track mirrored by some item.
pub open spec fn spec_track_derived(
    g: TimelineGraph,
    kind: TrackKind,
    fps: Fps,
    ids: Seq<crate::timeline::NodeId>,
    items: Seq<Item>,
) -> bool {
    &&& spec_items_wf(items)
    &&& forall|k: int|
        0 <= k < items.len() ==> spec_item_sound(g, kind, fps, ids, #[trigger] items[k])
    &&& forall|j: int|
        0 <= j < ids.len() && g.spec_has_node(#[trigger] ids[j]) && spec_node_presentable(
            g.nodes@[g.spec_node_index(ids[j])],
        ) ==> exists|k: int|
            0 <= k < items.len() && spec_item_matches(
                g.nodes@[g.spec_node_index(ids[j])],
                kind,
                fps,
                Some(#[trigger] items[k]),
            )
}

/// Flatten one track of the graph: every placement that names a stored,
/// presentable node becomes an item; dangling references are skipped.
pub fn derive_track(g: &crate::timeline::TimelineGraph, track_index: usize, fps: Fps) -> (r:
    Track)
    requires
        g.wf(),
        track_index < g.tracks@.len(),
        fps.wf(),
    ensures
        r.name@ == g.tracks@[track_index as int].name@,
        spec_track_derived(
            *g,
            g.tracks@[track_index as int].kind,
            fps,
            g.tracks@[track_index as int].node_ids@,
            r.items@,
        ),
{
    let binding_kind = &g.tracks[track_index].kind;
    let n_ids = g.tracks[track_index].node_ids.len();
    let mut items: Vec<Item> = Vec::new();
    let mut j: usize = 0;
    while j < n_ids
        invariant
            g.wf(),
            fps.wf(),
            track_index < g.tracks@.len(),
            binding_kind == &g.tracks@[track_index as int].kind,
            n_ids == g.tracks@[track_index as int].node_ids@.len(),
            j <= n_ids,
            spec_items_wf(items@),
            forall|k: int|
                0 <= k < items@.len() ==> spec_item_sound(
                    *g,
                    g.tracks@[track_index as int].kind,
                    fps,
                    g.tracks@[track_index as int].node_ids@,
                    #[trigger] items@[k],
                ),
            forall|j2: int|
                0 <= j2 < j && g.spec_has_node(
                    #[trigger] g.tracks@[track_index as int].node_ids@[j2],
                ) && spec_node_presentable(
                    g.nodes@[g.spec_node_index(g.tracks@[track_index as int].node_ids@[j2])],
                ) ==> exists|k: int|
                    0 <= k < items@.len() && spec_item_matches(
                        g.nodes@[g.spec_node_index(g.tracks@[track_index as int].node_ids@[j2])],
                        g.tracks@[track_index as int].kind,
                        fps,
                        Some(#[trigger] items@[k]),
                    ),
        decreases n_ids - j,
    {
        let id = g.tracks[track_index].node_ids[j];
        let ghost prev = items@;
        if let Some(n) = g.find_node(id) {
            proof {
                g.lemma_node_index_unique(id, n as int);
                assert(g.spec_has_node(id));
                assert(spec_node_wf(g.nodes@[n as int]));
            }
            if let Some(item) = item_from_node(&g.nodes[n], binding_kind, fps) {
                items.push(item);
                proof {
                    let gi = *g;
                    let kind = gi.tracks@[track_index as int].kind;
                    let ids = gi.tracks@[track_index as int].node_ids@;
                    let node = gi.nodes@[n as int];
                    let pushed = items@[items@.len() - 1];
                    assert(spec_item_matches(node, kind, fps, Some(pushed)));
                    assert(match node.kind {
                        TimelineNodeKind::Clip(c) => {
                            pushed.from == c.timeline_range.start
                                && pushed.duration_in_frames == c.timeline_range.duration
                        },
                        TimelineNodeKind::Generator { timeline_range, .. } => {
                            pushed.from == timeline_range.start && pushed.duration_in_frames
                                == timeline_range.duration
                        },
                        _ => false,
                    });
                    assert(spec_items_wf(items@));
                    assert(spec_item_sound(gi, kind, fps, ids, pushed));
                    assert forall|k: int|
                        0 <= k < items@.len() implies spec_item_sound(
                        gi,
                        kind,
                        fps,
                        ids,
                        #[trigger] items@[k],
                    ) by {
                        if k < items@.len() - 1 {
                            assert(items@[k] == prev[k]);
                        }
                    }
                    assert forall|j2: int|
                        0 <= j2 < j + 1 && gi.spec_has_node(#[trigger] ids[j2])
                            && spec_node_presentable(
                            gi.nodes@[gi.spec_node_index(ids[j2])],
                        ) implies exists|k: int|
                        0 <= k < items@.len() && spec_item_matches(
                            gi.nodes@[gi.spec_node_index(ids[j2])],
                            kind,
                            fps,
                            Some(#[trigger] items@[k]),
                        ) by {
                        if j2 < j as int {
                            let k = choose|k: int|
                                0 <= k < prev.len() && spec_item_matches(
                                    gi.nodes@[gi.spec_node_index(ids[j2])],
                                    kind,
                                    fps,
                                    Some(#[trigger] prev[k]),
                                );
                            assert(items@[k] == prev[k]);
                        } else {
                            assert(items@[items@.len() - 1] == pushed);
                        }
                    }
                }
            } else {
                proof {
                    assert(!spec_node_presentable(g.nodes@[n as int]));
                }
            }
        }
        j = j + 1;
    }
    let name = g.tracks[track_index].name.clone();
    Track { name, items }
}

/// Flatten the whole graph into tracks plus the derived sequence length:
/// the largest end frame of any item, zero for an empty timeline.
pub fn derive_tracks(g: &crate::timeline::TimelineGraph, fps: Fps) -> (r: (Vec<Track>, Frame))
    requires
        g.wf(),
        fps.wf(),
    ensures
        r.0@.len() == g.tracks@.len(),
        forall|t: int|
            0 <= t < g.tracks@.len() ==> {
                &&& (#[trigger] r.0@[t]).name@ == g.tracks@[t].name@
                &&& spec_track_derived(*g, g.tracks@[t].kind, fps, g.tracks@[t].node_ids@,
                    r.0@[t].items@)
            },
        0 <= r.1 <= MAX_FRAME,
        forall|t: int, k: int|
            0 <= t < r.0@.len() && 0 <= k < r.0@[t].items@.len() ==> spec_item_end(
                #[trigger] r.0@[t].items@[k],
            ) <= r.1,
{
    let n_tracks = g.tracks.len();
    let mut tracks: Vec<Track> = Vec::new();
    let mut max_end: i64 = 0;
    let mut t: usize = 0;
    while t < n_tracks
        invariant
            g.wf(),
            fps.wf(),
            n_tracks == g.tracks@.len(),
            t <= n_tracks,
            tracks@.len() == t,
            0 <= max_end <= MAX_FRAME,
            forall|t2: int|
                0 <= t2 < t ==> {
                    &&& (#[trigger] tracks@[t2]).name@ == g.tracks@[t2].name@
                    &&& spec_track_derived(*g, g.tracks@[t2].kind, fps, g.tracks@[t2].node_ids@,
                        tracks@[t2].items@)
                },
            forall|t2: int, k: int|
                0 <= t2 < tracks@.len() && 0 <= k < tracks@[t2].items@.len() ==> spec_item_end(
                    #[trigger] tracks@[t2].items@[k],
                ) <= max_end,
        decreases n_tracks - t,
    {
        let track = derive_track(g, t, fps);
        let end = max_item_end(&track.items);
        if end > max_end {
            max_end = end;
        }
        tracks.push(track);
        t = t + 1;
    }
    (tracks, max_end)
}

} // verus!
