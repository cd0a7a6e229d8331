//! The timeline model: an immutable-by-convention graph of tracks and
//! nodes, mutated only through commands, and the resolver that maps a
//! playhead position to the active visual source and media time.

use crate::time::{Fps, Frame, MAX_FRAME, MAX_MEDIA_US, MAX_RATE_MILLI, frames_to_us, spec_frames_to_us, spec_us_to_frames_round, us_to_frames_round};
use vstd::prelude::*;

verus! {

pub type NodeId = u64;

pub type TrackId = u64;

/// Media times handed to the resolver stay below this (about 115 days), so
/// rate scaling cannot leave `i64`.
pub const MAX_TIMELINE_US: i64 = 10_000_000_000_000_000;

/// A half-open span in frames: it covers `start <= f < start + duration`.
#[derive(Clone, Copy, Debug)]
pub struct FrameRange {
    pub start: Frame,
    pub duration: Frame,
}

impl FrameRange {
    /// Ranges cover at least one frame and stay inside the frame bounds
    /// the time conversions accept.
    pub open spec fn wf(self) -> bool {
        &&& 1 <= self.duration
        &&& 0 <= self.start
        &&& self.start + self.duration <= MAX_FRAME
    }

    pub open spec fn spec_end(self) -> int {
        self.start + self.duration
    }

    pub open spec fn spec_contains(self, f: int) -> bool {
        self.start <= f < self.start + self.duration
    }

    pub fn new(start: Frame, duration: Frame) -> (r: Self)
        ensures
            r.start == start,
            r.duration == duration,
    {
        FrameRange { start, duration }
    }

    pub fn end(&self) -> (r: Frame)
        requires
            self.wf(),
        ensures
            r == self.spec_end(),
    {
        self.start + self.duration
    }

    /// Whether a frame lies inside the range; the end frame itself is not
    /// covered (half-open).
    pub fn contains(&self, f: Frame) -> (r: bool)
        requires
            self.wf(),
        ensures
            r == self.spec_contains(f as int),
    {
        self.start <= f && f < self.start + self.duration
    }
}

/// A clip: a span of source media placed on the timeline. The media frame
/// played at timeline frame `t` is
/// `media_range.start + (t - timeline_range.start) * rate`.
#[derive(Clone, Debug)]
pub struct ClipNode {
    pub asset_id: Option<String>,
    pub media_range: FrameRange,
    pub timeline_range: FrameRange,
    /// Playback rate in thousandths; at least 10 (0.01).
    pub rate_milli: u32,
    pub reverse: bool,
}

impl ClipNode {
    pub open spec fn wf(self) -> bool {
        &&& self.media_range.wf()
        &&& self.timeline_range.wf()
        &&& 10 <= self.rate_milli <= MAX_RATE_MILLI
    }
}

/// The plain values a generator's metadata carries for the preview.
#[derive(Clone, Debug)]
pub struct GeneratorMeta {
    pub color: Option<String>,
    pub text: Option<String>,
}

#[derive(Clone, Debug)]
pub enum TimelineNodeKind {
    Clip(ClipNode),
    Generator { generator_id: String, timeline_range: FrameRange, meta: GeneratorMeta },
    Transition,
    Effect,
}

#[derive(Clone, Debug)]
pub struct TimelineNode {
    pub id: NodeId,
    pub label: Option<String>,
    pub kind: TimelineNodeKind,
    pub locked: bool,
}

pub open spec fn spec_node_wf(n: TimelineNode) -> bool {
    match n.kind {
        TimelineNodeKind::Clip(c) => c.wf(),
        TimelineNodeKind::Generator { timeline_range, .. } => timeline_range.wf(),
        _ => true,
    }
}

/// The timeline span a node occupies, if it is presentable (transitions
/// and effects are not presented by the preview core).
pub open spec fn spec_node_range(n: TimelineNode) -> Option<FrameRange> {
    match n.kind {
        TimelineNodeKind::Clip(c) => Some(c.timeline_range),
        TimelineNodeKind::Generator { timeline_range, .. } => Some(timeline_range),
        _ => None,
    }
}

pub fn node_frame_range(n: &TimelineNode) -> (r: Option<FrameRange>)
    ensures
        r == spec_node_range(*n),
{
    match &n.kind {
        TimelineNodeKind::Clip(c) => Some(c.timeline_range),
        TimelineNodeKind::Generator { timeline_range, .. } => Some(*timeline_range),
        _ => None,
    }
}

#[derive(Clone, Debug)]
pub enum TrackKind {
    Video,
    Audio,
    Automation,
    Custom(String),
}

impl TrackKind {
    pub fn is_audio(&self) -> (r: bool)
        ensures
            r == (self is Audio),
    {
        match self {
            TrackKind::Audio => true,
            _ => false,
        }
    }
}

/// A track: an ordered list of node identifiers. A node appears in exactly
/// one track at a time; the graph owns the nodes themselves.
#[derive(Clone, Debug)]
pub struct TrackBinding {
    pub id: TrackId,
    pub name: String,
    pub kind: TrackKind,
    pub node_ids: Vec<NodeId>,
}

/// The timeline graph: nodes owned centrally, tracks holding identifier
/// sequences, and a counter from which fresh node identifiers are drawn.
#[derive(Clone, Debug)]
pub struct TimelineGraph {
    pub nodes: Vec<TimelineNode>,
    pub tracks: Vec<TrackBinding>,
    pub next_node_id: NodeId,
}

#[derive(Clone, Debug)]
pub enum TimelineError {
    InvalidOp(String),
}

impl TimelineGraph {
    pub open spec fn spec_node_id_at(self, i: int) -> NodeId {
        self.nodes@[i].id
    }

    /// Node identifiers are unique, below the allocation counter, and
    /// every node's ranges are well formed.
    pub open spec fn wf(self) -> bool {
        &&& forall|i: int, j: int|
            0 <= i < j < self.nodes@.len() ==> self.spec_node_id_at(i) != self.spec_node_id_at(j)
        &&& forall|i: int| 0 <= i < self.nodes@.len() ==> #[trigger] self.spec_node_id_at(i) < self.next_node_id
        &&& forall|i: int| 0 <= i < self.nodes@.len() ==> spec_node_wf(#[trigger] self.nodes@[i])
    }

    pub open spec fn spec_has_node(self, id: NodeId) -> bool {
        exists|i: int| 0 <= i < self.nodes@.len() && self.spec_node_id_at(i) == id
    }

    pub fn new() -> (r: Self)
        ensures
            r.wf(),
            r.nodes@.len() == 0,
            r.tracks@.len() == 0,
    {
        TimelineGraph { nodes: Vec::new(), tracks: Vec::new(), next_node_id: 1 }
    }

    /// Position of a node in the node table.
    pub fn find_node(&self, id: NodeId) -> (r: Option<usize>)
        ensures
            r matches Some(i) ==> i < self.nodes@.len() && self.spec_node_id_at(i as int) == id,
            r is None ==> !self.spec_has_node(id),
    {
        let n = self.nodes.len();
        let mut i: usize = 0;
        while i < n
            invariant
                n == self.nodes@.len(),
                i <= n,
                forall|j: int| 0 <= j < i ==> self.spec_node_id_at(j) != id,
            decreases n - i,
        {
            if self.nodes[i].id == id {
                return Some(i);
            }
            i = i + 1;
        }
        None
    }

    /// Position of a track in the track list.
    pub fn find_track(&self, id: TrackId) -> (r: Option<usize>)
        ensures
            r matches Some(t) ==> t < self.tracks@.len() && self.tracks@[t as int].id == id,
            r is None ==> forall|t: int| 0 <= t < self.tracks@.len() ==> self.tracks@[t].id != id,
    {
        let n = self.tracks.len();
        let mut i: usize = 0;
        while i < n
            invariant
                n == self.tracks@.len(),
                i <= n,
                forall|j: int| 0 <= j < i ==> self.tracks@[j].id != id,
            decreases n - i,
        {
            if self.tracks[i].id == id {
                return Some(i);
            }
            i = i + 1;
        }
        None
    }

    /// Draw a fresh node identifier, which provably collides with no node
    /// already in the graph.
    pub fn fresh_node_id(&mut self) -> (r: NodeId)
        requires
            old(self).wf(),
            old(self).next_node_id < u64::MAX,
        ensures
            final(self).wf(),
            final(self).nodes == old(self).nodes,
            final(self).tracks == old(self).tracks,
            !old(self).spec_has_node(r),
            r == old(self).next_node_id,
            final(self).next_node_id == old(self).next_node_id + 1,
    {
        let id = self.next_node_id;
        self.next_node_id = self.next_node_id + 1;
        proof {
            assert forall|i: int, j: int|
                0 <= i < j < self.nodes@.len() implies self.spec_node_id_at(i)
                != self.spec_node_id_at(j) by {
                assert(old(self).spec_node_id_at(i) != old(self).spec_node_id_at(j));
            }
            assert forall|i: int|
                0 <= i < self.nodes@.len() implies #[trigger] self.spec_node_id_at(i)
                < self.next_node_id by {
                assert(old(self).spec_node_id_at(i) < old(self).next_node_id);
            }
            assert forall|i: int|
                0 <= i < self.nodes@.len() implies spec_node_wf(#[trigger] self.nodes@[i]) by {
                assert(spec_node_wf(old(self).nodes@[i]));
            }
            assert forall|i: int|
                0 <= i < old(self).nodes@.len() implies old(self).spec_node_id_at(i) != id by {
                assert(old(self).spec_node_id_at(i) < old(self).next_node_id);
            }
        }
        id
    }
}

/// The placement-list predicate that keeps everything but one identifier.
pub open spec fn spec_keep(id: NodeId) -> spec_fn(NodeId) -> bool {
    |x: NodeId| x != id
}

/// Remove every occurrence of an identifier from a placement list.
fn remove_id(v: &Vec<NodeId>, id: NodeId) -> (r: Vec<NodeId>)
    ensures
        r@ == v@.filter(spec_keep(id)),
{
    let n = v.len();
    let mut out: Vec<NodeId> = Vec::new();
    proof {
        reveal(Seq::filter);
        assert(v@.take(0int).filter(spec_keep(id)) =~= out@);
    }
    let mut i: usize = 0;
    while i < n
        invariant
            n == v@.len(),
            i <= n,
            out@ == v@.take(i as int).filter(spec_keep(id)),
        decreases n - i,
    {
        proof {
            reveal(Seq::filter);
            assert(v@.take(i + 1).drop_last() =~= v@.take(i as int));
            assert(v@.take(i + 1).last() == v@[i as int]);
        }
        let x = v[i];
        if x != id {
            out.push(x);
        }
        proof {
            reveal(Seq::filter);
            assert(out@ == v@.take(i + 1).filter(spec_keep(id)));
        }
        i = i + 1;
    }
    proof {
        assert(v@.take(n as int) =~= v@);
    }
    out
}

/// Where a node is placed when inserted into a track.
#[derive(Clone, Debug)]
pub struct TrackPlacement {
    pub track_id: TrackId,
    /// Index within the track; the end when absent.
    pub position: Option<usize>,
}

/// Commands that mutate the timeline graph. A command that would break an
/// invariant is rejected whole with `InvalidOp`.
#[derive(Clone, Debug)]
pub enum TimelineCommand {
    InsertNode { node: TimelineNode, placement: TrackPlacement },
    UpdateNode { node: TimelineNode },
    RemoveNode { node_id: NodeId },
    MovePlacement { node_id: NodeId, from_track: TrackId, to_track: TrackId, position: Option<usize> },
}

/// Exec check of a node's structural invariants.
pub fn node_wf_check(n: &TimelineNode) -> (r: bool)
    ensures
        r == spec_node_wf(*n),
{
    match &n.kind {
        TimelineNodeKind::Clip(c) => {
            1 <= c.media_range.duration && 0 <= c.media_range.start && c.media_range.start
                <= MAX_FRAME - c.media_range.duration && 1 <= c.timeline_range.duration && 0
                <= c.timeline_range.start && c.timeline_range.start <= MAX_FRAME
                - c.timeline_range.duration && 10 <= c.rate_milli && c.rate_milli
                <= MAX_RATE_MILLI
        },
        TimelineNodeKind::Generator { timeline_range, .. } => {
            1 <= timeline_range.duration && 0 <= timeline_range.start && timeline_range.start
                <= MAX_FRAME - timeline_range.duration
        },
        _ => true,
    }
}

impl TimelineGraph {
    /// Track identifiers are unique too; commands address tracks by id.
    pub open spec fn tracks_wf(self) -> bool {
        forall|i: int, j: int|
            0 <= i < j < self.tracks@.len() ==> self.tracks@[i].id != self.tracks@[j].id
    }

    /// Well-formedness only constrains the node table, so it survives any
    /// change that leaves the nodes and the id counter alone.
    proof fn lemma_wf_same_nodes(a: TimelineGraph, b: TimelineGraph)
        requires
            a.wf(),
            b.nodes == a.nodes,
            b.next_node_id == a.next_node_id,
        ensures
            b.wf(),
    {
        assert forall|i: int, j: int|
            0 <= i < j < b.nodes@.len() implies b.spec_node_id_at(i) != b.spec_node_id_at(j) by {
            assert(a.spec_node_id_at(i) != a.spec_node_id_at(j));
        }
        assert forall|i: int|
            0 <= i < b.nodes@.len() implies #[trigger] b.spec_node_id_at(i) < b.next_node_id by {
            assert(a.spec_node_id_at(i) < a.next_node_id);
        }
        assert forall|i: int|
            0 <= i < b.nodes@.len() implies spec_node_wf(#[trigger] b.nodes@[i]) by {
            assert(spec_node_wf(a.nodes@[i]));
        }
    }

    /// Whether an insert command is accepted: no node id collision, a node
    /// that keeps the invariants, an existing target track, and a position
    /// inside that track.
    pub open spec fn spec_insert_ok(self, node: TimelineNode, placement: TrackPlacement) -> bool {
        &&& !self.spec_has_node(node.id)
        &&& spec_node_wf(node)
        &&& node.id < u64::MAX
        &&& exists|t: int|
            0 <= t < self.tracks@.len() && (#[trigger] self.tracks@[t].id) == placement.track_id
              && (placement.position matches Some(p) ==> p <= self.tracks@[t].node_ids@.len())
    }

    /// Insert a node and place its identifier on one track.
    fn insert_node(&mut self, node: TimelineNode, placement: TrackPlacement) -> (r: Result<
        (),
        TimelineError,
    >)
        requires
            old(self).wf(),
            old(self).tracks_wf(),
        ensures
            final(self).wf(),
            final(self).tracks_wf(),
            (r is Ok <==> old(self).spec_insert_ok(node, placement)),
            r is Err ==> *final(self) == *old(self),
            r is Ok ==> {
                &&& final(self).nodes@ == old(self).nodes@.push(node)
                &&& final(self).tracks@.len() == old(self).tracks@.len()
                &&& forall|t: int|
                    0 <= t < old(self).tracks@.len() && old(self).tracks@[t].id
                        != placement.track_id ==> final(self).tracks@[t] == old(self).tracks@[t]
                &&& forall|t: int|
                    0 <= t < old(self).tracks@.len() && (#[trigger] old(self).tracks@[t].id)
                        == placement.track_id ==> {
                        &&& final(self).tracks@[t].id == old(self).tracks@[t].id
                        &&& final(self).tracks@[t].node_ids@ == old(
                            self,
                        ).tracks@[t].node_ids@.insert(
                            match placement.position {
                                Some(p) => p as int,
                                None => old(self).tracks@[t].node_ids@.len() as int,
                            },
                            node.id,
                        )
                    }
            },
    {
        if !node_wf_check(&node) {
            return Err(TimelineError::InvalidOp("node breaks timeline invariants".to_owned()));
        }
        if node.id == u64::MAX {
            return Err(TimelineError::InvalidOp("node id out of range".to_owned()));
        }
        if self.find_node(node.id).is_some() {
            proof {
                assert(self.spec_has_node(node.id));
            }
            return Err(TimelineError::InvalidOp("node id collision".to_owned()));
        }
        let t = match self.find_track(placement.track_id) {
            Some(t) => t,
            None => {
                return Err(TimelineError::InvalidOp("track not found".to_owned()));
            },
        };
        let track_len = self.tracks[t].node_ids.len();
        let pos = match placement.position {
            Some(p) => {
                if p > track_len {
                    proof {
                        assert forall|u: int|
                            0 <= u < self.tracks@.len() && (#[trigger] self.tracks@[u].id)
                                == placement.track_id implies u == t as int by {
                            if u != t as int {
                                if u < t as int {
                                    assert(self.tracks@[u].id != self.tracks@[t as int].id);
                                } else {
                                    assert(self.tracks@[t as int].id != self.tracks@[u].id);
                                }
                            }
                        }
                    }
                    return Err(TimelineError::InvalidOp("placement out of range".to_owned()));
                }
                p
            },
            None => track_len,
        };
        let mut binding = self.tracks.remove(t);
        let node_id = node.id;
        binding.node_ids.insert(pos, node_id);
        self.tracks.insert(t, binding);
        self.nodes.push(node);
        if node_id >= self.next_node_id {
            self.next_node_id = node_id + 1;
        }
        proof {
            let olds = old(self).tracks@;
            assert(self.tracks@ =~= olds.update(
                t as int,
                TrackBinding {
                    node_ids: binding.node_ids,
                    ..olds[t as int]
                },
            ));
            assert forall|u: int|
                0 <= u < olds.len() && (#[trigger] olds[u].id) == placement.track_id implies u
                == t as int by {
                if u != t as int {
                    assert(olds[u].id != olds[t as int].id);
                }
            }
            assert(old(self).spec_insert_ok(node, placement));
            assert forall|i: int, j: int|
                0 <= i < j < self.nodes@.len() implies self.spec_node_id_at(i)
                != self.spec_node_id_at(j) by {
                if j < self.nodes@.len() - 1 {
                    assert(old(self).spec_node_id_at(i) != old(self).spec_node_id_at(j));
                } else {
                    assert(old(self).spec_node_id_at(i) != node.id);
                }
            }
            assert forall|i: int|
                0 <= i < self.nodes@.len() implies #[trigger] self.spec_node_id_at(i)
                < self.next_node_id by {
                if i < self.nodes@.len() - 1 {
                    assert(old(self).spec_node_id_at(i) < old(self).next_node_id);
                }
            }
            assert forall|i: int|
                0 <= i < self.nodes@.len() implies spec_node_wf(#[trigger] self.nodes@[i]) by {
                if i < self.nodes@.len() - 1 {
                    assert(spec_node_wf(old(self).nodes@[i]));
                }
            }
        }
        Ok(())
    }

    /// Replace the stored node that carries the given node's identifier.
    fn update_node(&mut self, node: TimelineNode) -> (r: Result<(), TimelineError>)
        requires
            old(self).wf(),
            old(self).tracks_wf(),
        ensures
            final(self).wf(),
            final(self).tracks_wf(),
            (r is Ok <==> (old(self).spec_has_node(node.id) && spec_node_wf(node))),
            r is Err ==> *final(self) == *old(self),
            r is Ok ==> {
                &&& final(self).nodes@.len() == old(self).nodes@.len()
                &&& final(self).tracks == old(self).tracks
                &&& forall|i: int|
                    0 <= i < old(self).nodes@.len() && old(self).spec_node_id_at(i) != node.id
                        ==> final(self).nodes@[i] == old(self).nodes@[i]
                &&& forall|i: int|
                    0 <= i < old(self).nodes@.len() && (#[trigger] old(self).spec_node_id_at(i))
                        == node.id ==> final(self).nodes@[i] == node
            },
    {
        if !node_wf_check(&node) {
            return Err(TimelineError::InvalidOp("node breaks timeline invariants".to_owned()));
        }
        let i = match self.find_node(node.id) {
            Some(i) => i,
            None => {
                return Err(TimelineError::InvalidOp("node not found".to_owned()));
            },
        };
        let id = node.id;
        let _old_node = self.nodes.remove(i);
        self.nodes.insert(i, node);
        proof {
            assert(self.nodes@ =~= old(self).nodes@.update(i as int, node));
            assert forall|a: int, b: int|
                0 <= a < b < self.nodes@.len() implies self.spec_node_id_at(a)
                != self.spec_node_id_at(b) by {
                assert(old(self).spec_node_id_at(a) != old(self).spec_node_id_at(b));
            }
            assert forall|a: int|
                0 <= a < self.nodes@.len() implies #[trigger] self.spec_node_id_at(a)
                < self.next_node_id by {
                assert(old(self).spec_node_id_at(a) < old(self).next_node_id);
            }
            assert forall|a: int|
                0 <= a < self.nodes@.len() implies spec_node_wf(#[trigger] self.nodes@[a]) by {
                if a != i as int {
                    assert(spec_node_wf(old(self).nodes@[a]));
                }
            }
            assert forall|a: int|
                0 <= a < old(self).nodes@.len() && (#[trigger] old(self).spec_node_id_at(a))
                    == id implies self.nodes@[a] == node by {
                if a != i as int {
                    if a < i as int {
                        assert(old(self).spec_node_id_at(a) != old(self).spec_node_id_at(
                            i as int,
                        ));
                    } else {
                        assert(old(self).spec_node_id_at(i as int) != old(self).spec_node_id_at(
                            a,
                        ));
                    }
                }
            }
        }
        Ok(())
    }

    /// Remove a node and drop its identifier from every track.
    fn remove_node(&mut self, node_id: NodeId) -> (r: Result<(), TimelineError>)
        requires
            old(self).wf(),
            old(self).tracks_wf(),
        ensures
            final(self).wf(),
            final(self).tracks_wf(),
            (r is Ok <==> old(self).spec_has_node(node_id)),
            r is Err ==> *final(self) == *old(self),
            r is Ok ==> {
                &&& final(self).nodes@.len() == old(self).nodes@.len() - 1
                &&& !final(self).spec_has_node(node_id)
                &&& final(self).tracks@.len() == old(self).tracks@.len()
                &&& forall|t: int|
                    0 <= t < old(self).tracks@.len() ==> {
                        &&& (#[trigger] final(self).tracks@[t]).id == old(self).tracks@[t].id
                        &&& final(self).tracks@[t].node_ids@ == old(
                            self,
                        ).tracks@[t].node_ids@.filter(spec_keep(node_id))
                    }
            },
    {
        let i = match self.find_node(node_id) {
            Some(i) => i,
            None => {
                return Err(TimelineError::InvalidOp("node not found".to_owned()));
            },
        };
        let _removed = self.nodes.remove(i);
        proof {
            assert forall|a: int, b: int|
                0 <= a < b < self.nodes@.len() implies self.spec_node_id_at(a)
                != self.spec_node_id_at(b) by {
                let a0 = if a < i as int { a } else { a + 1 };
                let b0 = if b < i as int { b } else { b + 1 };
                assert(self.nodes@[a] == old(self).nodes@[a0]);
                assert(self.nodes@[b] == old(self).nodes@[b0]);
                assert(old(self).spec_node_id_at(a0) != old(self).spec_node_id_at(b0));
            }
            assert forall|a: int|
                0 <= a < self.nodes@.len() implies #[trigger] self.spec_node_id_at(a)
                < self.next_node_id by {
                let a0 = if a < i as int { a } else { a + 1 };
                assert(self.nodes@[a] == old(self).nodes@[a0]);
                assert(old(self).spec_node_id_at(a0) < old(self).next_node_id);
            }
            assert forall|a: int|
                0 <= a < self.nodes@.len() implies spec_node_wf(#[trigger] self.nodes@[a]) by {
                let a0 = if a < i as int { a } else { a + 1 };
                assert(self.nodes@[a] == old(self).nodes@[a0]);
                assert(spec_node_wf(old(self).nodes@[a0]));
            }
            assert forall|a: int|
                0 <= a < self.nodes@.len() implies #[trigger] self.spec_node_id_at(a)
                != node_id by {
                let a0 = if a < i as int { a } else { a + 1 };
                assert(self.nodes@[a] == old(self).nodes@[a0]);
                if a0 < i as int {
                    assert(old(self).spec_node_id_at(a0) != old(self).spec_node_id_at(i as int));
                } else {
                    assert(old(self).spec_node_id_at(i as int) != old(self).spec_node_id_at(a0));
                }
            }
        }
        let ghost nodes_done = *self;
        proof {
            assert(nodes_done.wf());
        }
        let n_tracks = self.tracks.len();
        let mut t: usize = 0;
        while t < n_tracks
            invariant
                n_tracks == self.tracks@.len(),
                n_tracks == old(self).tracks@.len(),
                t <= n_tracks,
                self.nodes == nodes_done.nodes,
                self.next_node_id == nodes_done.next_node_id,
                forall|u: int|
                    t <= u < n_tracks ==> #[trigger] self.tracks@[u] == old(self).tracks@[u],
                forall|u: int|
                    0 <= u < t ==> {
                        &&& (#[trigger] self.tracks@[u]).id == old(self).tracks@[u].id
                        &&& self.tracks@[u].name == old(self).tracks@[u].name
                        &&& self.tracks@[u].node_ids@ == old(self).tracks@[u].node_ids@.filter(
                            spec_keep(node_id),
                        )
                    },
            decreases n_tracks - t,
        {
            let ghost pre = self.tracks@;
            let mut binding = self.tracks.remove(t);
            let filtered = remove_id(&binding.node_ids, node_id);
            binding.node_ids = filtered;
            self.tracks.insert(t, binding);
            proof {
                assert(self.tracks@ =~= pre.update(t as int, binding));
            }
            t = t + 1;
        }
        proof {
            TimelineGraph::lemma_wf_same_nodes(nodes_done, *self);
            assert forall|a: int|
                0 <= a < self.nodes@.len() implies #[trigger] self.spec_node_id_at(a) != node_id
                by {
                assert(nodes_done.spec_node_id_at(a) != node_id);
            }
            assert forall|a: int, b: int|
                0 <= a < b < self.tracks@.len() implies self.tracks@[a].id != self.tracks@[b].id
                by {
                assert(old(self).tracks@[a].id != old(self).tracks@[b].id);
                assert(self.tracks@[a].id == old(self).tracks@[a].id);
                assert(self.tracks@[b].id == old(self).tracks@[b].id);
            }
        }
        Ok(())
    }

    /// Apply one editing command; on failure the graph is unchanged.
    pub fn apply_command(&mut self, cmd: TimelineCommand) -> (r: Result<(), TimelineError>)
        requires
            old(self).wf(),
            old(self).tracks_wf(),
        ensures
            final(self).wf(),
            final(self).tracks_wf(),
            r is Err ==> *final(self) == *old(self),
            (cmd matches TimelineCommand::InsertNode { node, placement } ==> (r is Ok <==> old(
                self,
            ).spec_insert_ok(node, placement))),
            (cmd matches TimelineCommand::UpdateNode { node } ==> (r is Ok <==> (old(
                self,
            ).spec_has_node(node.id) && spec_node_wf(node)))),
            (cmd matches TimelineCommand::RemoveNode { node_id } ==> {
                &&& (r is Ok <==> old(self).spec_has_node(node_id))
                &&& (r is Ok ==> !final(self).spec_has_node(node_id))
            }),
    {
        match cmd {
            TimelineCommand::InsertNode { node, placement } => self.insert_node(node, placement),
            TimelineCommand::UpdateNode { node } => self.update_node(node),
            TimelineCommand::RemoveNode { node_id } => self.remove_node(node_id),
            TimelineCommand::MovePlacement { node_id, from_track, to_track, position } => self
                .move_placement(node_id, from_track, to_track, position),
        }
    }

    /// Move a node's placement from one track to another.
    fn move_placement(
        &mut self,
        node_id: NodeId,
        from_track: TrackId,
        to_track: TrackId,
        position: Option<usize>,
    ) -> (r: Result<(), TimelineError>)
        requires
            old(self).wf(),
            old(self).tracks_wf(),
        ensures
            final(self).wf(),
            final(self).tracks_wf(),
            r is Err ==> *final(self) == *old(self),
            (r is Ok <==> ((exists|t: int|
                0 <= t < old(self).tracks@.len() && (#[trigger] old(self).tracks@[t]).id
                    == from_track) && (exists|t: int|
                0 <= t < old(self).tracks@.len() && (#[trigger] old(self).tracks@[t]).id
                    == to_track))),
            r is Ok ==> {
                &&& final(self).nodes == old(self).nodes
                &&& final(self).tracks@.len() == old(self).tracks@.len()
                &&& forall|t: int|
                    0 <= t < old(self).tracks@.len() ==> (#[trigger] final(self).tracks@[t]).id
                        == old(self).tracks@[t].id
                &&& forall|t: int|
                    0 <= t < old(self).tracks@.len() && (#[trigger] old(self).tracks@[t]).id
                        != from_track && old(self).tracks@[t].id != to_track
                        ==> final(self).tracks@[t] == old(self).tracks@[t]
                &&& forall|t: int|
                    0 <= t < old(self).tracks@.len() && (#[trigger] old(self).tracks@[t]).id
                        == from_track && old(self).tracks@[t].id != to_track
                        ==> final(self).tracks@[t].node_ids@
                        == old(self).tracks@[t].node_ids@.filter(spec_keep(node_id))
                &&& forall|t: int|
                    0 <= t < old(self).tracks@.len() && (#[trigger] old(self).tracks@[t]).id
                        == to_track ==> ({
                        let mid = if old(self).tracks@[t].id == from_track {
                            old(self).tracks@[t].node_ids@.filter(spec_keep(node_id))
                        } else {
                            old(self).tracks@[t].node_ids@
                        };
                        let pos2 = match position {
                            Some(p) => if p as int <= mid.len() {
                                p as int
                            } else {
                                mid.len() as int
                            },
                            None => mid.len() as int,
                        };
                        final(self).tracks@[t].node_ids@ == mid.insert(pos2, node_id)
                    })
            },
    {
        let from = match self.find_track(from_track) {
            Some(t) => t,
            None => {
                return Err(TimelineError::InvalidOp("track not found".to_owned()));
            },
        };
        let to = match self.find_track(to_track) {
            Some(t) => t,
            None => {
                return Err(TimelineError::InvalidOp("track not found".to_owned()));
            },
        };
        let mut from_binding = self.tracks.remove(from);
        let filtered = remove_id(&from_binding.node_ids, node_id);
        from_binding.node_ids = filtered;
        let ghost mid = self.tracks@;
        self.tracks.insert(from, from_binding);
        proof {
            assert(self.tracks@ =~= mid.insert(from as int, from_binding));
            assert forall|a: int, b: int|
                0 <= a < b < self.tracks@.len() implies self.tracks@[a].id != self.tracks@[b].id
                by {
                assert(self.tracks@[a].id == old(self).tracks@[a].id);
                assert(self.tracks@[b].id == old(self).tracks@[b].id);
                assert(old(self).tracks@[a].id != old(self).tracks@[b].id);
            }
        }
        proof {
            TimelineGraph::lemma_wf_same_nodes(*old(self), *self);
        }
        let ghost cleared = *self;
        let mut to_binding = self.tracks.remove(to);
        let pos = match position {
            Some(p) => {
                if p > to_binding.node_ids.len() {
                    to_binding.node_ids.len()
                } else {
                    p
                }
            },
            None => to_binding.node_ids.len(),
        };
        to_binding.node_ids.insert(pos, node_id);
        let ghost mid2 = self.tracks@;
        self.tracks.insert(to, to_binding);
        proof {
            assert(self.tracks@ =~= mid2.insert(to as int, to_binding));
            assert forall|a: int, b: int|
                0 <= a < b < self.tracks@.len() implies self.tracks@[a].id != self.tracks@[b].id
                by {
                assert(self.tracks@[a].id == cleared.tracks@[a].id);
                assert(self.tracks@[b].id == cleared.tracks@[b].id);
                assert(cleared.tracks@[a].id != cleared.tracks@[b].id);
            }
            assert forall|t: int|
                0 <= t < old(self).tracks@.len() implies (#[trigger] self.tracks@[t]).id == old(
                self,
            ).tracks@[t].id by {
                assert(self.tracks@[t].id == cleared.tracks@[t].id);
            }
            TimelineGraph::lemma_wf_same_nodes(cleared, *self);
        }
        Ok(())
    }
}

/// What the preview shows at a playhead position: a decodable media source,
/// a solid color, or synthesized text.
#[derive(Clone, Debug)]
pub enum VisualSource {
    Media { path: String, is_image: bool },
    Solid { color: String },
    Text,
}

/// Ghost outcome of the top-down track walk: the walk aborted on a dangling
/// node reference, found nothing, or stopped at a node.
pub enum WalkHit {
    Abort,
    Missed,
    Hit { track: int, node: int },
}

/// Whether a node's timeline span covers the playhead.
pub open spec fn spec_covering(n: TimelineNode, p: int) -> bool {
    match spec_node_range(n) {
        Some(r) => r.spec_contains(p),
        None => false,
    }
}

/// Whether a covering node stops the visual walk: every clip does, and the
/// generators the preview can synthesize (solid and text).
pub open spec fn spec_node_resolves(n: TimelineNode) -> bool {
    match n.kind {
        TimelineNodeKind::Clip(_) => true,
        TimelineNodeKind::Generator { generator_id, .. } => generator_id@ == "solid"@
            || generator_id@ == "text"@,
        _ => false,
    }
}

impl TimelineGraph {
    /// The index the node table holds a given identifier at.
    pub open spec fn spec_node_index(self, id: NodeId) -> int {
        choose|i: int| 0 <= i < self.nodes@.len() && self.spec_node_id_at(i) == id
    }

    pub proof fn lemma_node_index_unique(self, id: NodeId, i: int)
        requires
            self.wf(),
            0 <= i < self.nodes@.len(),
            self.spec_node_id_at(i) == id,
        ensures
            self.spec_node_index(id) == i,
    {
        let j = self.spec_node_index(id);
        assert(self.spec_has_node(id));
        if j < i {
            assert(self.spec_node_id_at(j) != self.spec_node_id_at(i));
        } else if j > i {
            assert(self.spec_node_id_at(i) != self.spec_node_id_at(j));
        }
    }
}

/// The visual walk within one track, from placement `j` on: the first
/// covering, resolving node wins; a dangling node reference aborts.
pub open spec fn spec_walk_nodes(g: TimelineGraph, t: int, j: int, p: int) -> WalkHit
    decreases g.tracks@[t].node_ids@.len() - j,
{
    if j < 0 || j >= g.tracks@[t].node_ids@.len() {
        WalkHit::Missed
    } else {
        let id = g.tracks@[t].node_ids@[j];
        if !g.spec_has_node(id) {
            WalkHit::Abort
        } else {
            let n = g.spec_node_index(id);
            if spec_covering(g.nodes@[n], p) && spec_node_resolves(g.nodes@[n]) {
                WalkHit::Hit { track: t, node: n }
            } else {
                spec_walk_nodes(g, t, j + 1, p)
            }
        }
    }
}

/// The visual walk over tracks, from `t` downward. Iteration order is
/// top-down: the last track has the highest priority, audio tracks are
/// skipped, and a track that misses passes the walk to the one below.
pub open spec fn spec_walk_tracks(g: TimelineGraph, t: int, p: int) -> WalkHit
    decreases t + 1,
{
    if t < 0 {
        WalkHit::Missed
    } else if g.tracks@[t].kind is Audio {
        spec_walk_tracks(g, t - 1, p)
    } else {
        match spec_walk_nodes(g, t, 0, p) {
            WalkHit::Missed => spec_walk_tracks(g, t - 1, p),
            other => other,
        }
    }
}

/// Where the visual walk of the whole graph stops for a playhead.
pub open spec fn spec_visual_hit(g: TimelineGraph, p: int) -> WalkHit {
    spec_walk_tracks(g, g.tracks@.len() - 1, p)
}

/// What the preview must show for the node the walk stopped at.
pub open spec fn spec_source_matches(
    g: TimelineGraph,
    t: int,
    n: int,
    r: Option<VisualSource>,
) -> bool {
    match g.nodes@[n].kind {
        TimelineNodeKind::Clip(c) => match c.asset_id {
            Some(p) => {
                &&& r matches Some(VisualSource::Media { path, is_image })
                &&& ({
                    let path_of = |r2: Option<VisualSource>| match r2 {
                        Some(VisualSource::Media { path, .. }) => path@,
                        _ => Seq::<char>::empty(),
                    };
                    path_of(r) == p@
                })
                &&& ({
                    let img_of = |r2: Option<VisualSource>| match r2 {
                        Some(VisualSource::Media { is_image, .. }) => is_image,
                        _ => false,
                    };
                    img_of(r) == (g.tracks@[t].kind matches TrackKind::Custom(cid) && cid@
                        == "image"@)
                })
            },
            None => r is None,
        },
        TimelineNodeKind::Generator { generator_id, meta, .. } => {
            if generator_id@ == "solid"@ {
                &&& r matches Some(VisualSource::Solid { color })
                &&& ({
                    let color_of = |r2: Option<VisualSource>| match r2 {
                        Some(VisualSource::Solid { color }) => color@,
                        _ => Seq::<char>::empty(),
                    };
                    color_of(r) == match meta.color {
                        Some(c) => c@,
                        None => "#000000"@,
                    }
                })
            } else {
                r is Some && r matches Some(VisualSource::Text)
            }
        },
        _ => true,
    }
}

/// The node the walk stops at always covers the playhead: whatever
/// `visual_source_at` returns comes from a clip or generator whose
/// timeline range satisfies `start <= playhead < end`.
pub proof fn lemma_walk_nodes_hit_covers(g: TimelineGraph, t: int, j: int, p: int)
    requires
        spec_walk_nodes(g, t, j, p) matches WalkHit::Hit { .. },
    ensures
        ({
            let hit = spec_walk_nodes(g, t, j, p);
            let n = hit->node;
            &&& hit->track == t
            &&& 0 <= n < g.nodes@.len()
            &&& spec_covering(g.nodes@[n], p)
            &&& spec_node_resolves(g.nodes@[n])
        }),
    decreases g.tracks@[t].node_ids@.len() - j,
{
    let id = g.tracks@[t].node_ids@[j];
    if g.spec_has_node(id) {
        let n = g.spec_node_index(id);
        if spec_covering(g.nodes@[n], p) && spec_node_resolves(g.nodes@[n]) {
        } else {
            lemma_walk_nodes_hit_covers(g, t, j + 1, p);
        }
    }
}

/// The track walk only stops on covering nodes of non-audio tracks.
pub proof fn lemma_walk_tracks_hit_covers(g: TimelineGraph, t: int, p: int)
    requires
        t < g.tracks@.len(),
        spec_walk_tracks(g, t, p) matches WalkHit::Hit { .. },
    ensures
        ({
            let hit = spec_walk_tracks(g, t, p);
            let n = hit->node;
            &&& 0 <= hit->track <= t
            &&& 0 <= n < g.nodes@.len()
            &&& spec_covering(g.nodes@[n], p)
            &&& spec_node_resolves(g.nodes@[n])
            &&& !(g.tracks@[hit->track].kind is Audio)
        }),
    decreases t + 1,
{
    if t >= 0 {
        if g.tracks@[t as int].kind is Audio {
            lemma_walk_tracks_hit_covers(g, t - 1, p);
        } else {
            match spec_walk_nodes(g, t, 0, p) {
                WalkHit::Missed => {
                    lemma_walk_tracks_hit_covers(g, t - 1, p);
                },
                WalkHit::Abort => {},
                WalkHit::Hit { .. } => {
                    lemma_walk_nodes_hit_covers(g, t, 0, p);
                },
            }
        }
    }
}

/// The covering law for the resolver: a hit of the visual walk names a
/// clip or generator whose timeline range contains the playhead.
pub proof fn lemma_visual_hit_covers(g: TimelineGraph, p: int)
    requires
        spec_visual_hit(g, p) matches WalkHit::Hit { .. },
    ensures
        ({
            let hit = spec_visual_hit(g, p);
            let n = hit->node;
            &&& 0 <= hit->track < g.tracks@.len()
            &&& 0 <= n < g.nodes@.len()
            &&& spec_covering(g.nodes@[n], p)
            &&& !(g.tracks@[hit->track].kind is Audio)
        }),
{
    lemma_walk_tracks_hit_covers(g, g.tracks@.len() - 1, p);
}

/// Resolve the visual source at a playhead frame: walk tracks top-down
/// (highest priority last), skip audio tracks, and stop at the first
/// covering clip or known generator. The playhead frame exactly at a
/// range's end is not covered.
pub fn visual_source_at(g: &TimelineGraph, playhead: i64) -> (r: Option<VisualSource>)
    requires
        g.wf(),
    ensures
        match spec_visual_hit(*g, playhead as int) {
            WalkHit::Abort => r is None,
            WalkHit::Missed => r is None,
            WalkHit::Hit { track, node } => spec_source_matches(*g, track, node, r),
        },
{
    let n_tracks = g.tracks.len();
    let mut ti: usize = n_tracks;
    while ti > 0
        invariant
            g.wf(),
            n_tracks == g.tracks@.len(),
            ti <= n_tracks,
            spec_walk_tracks(*g, n_tracks as int - 1, playhead as int) == spec_walk_tracks(
                *g,
                ti as int - 1,
                playhead as int,
            ),
        decreases ti,
    {
        let t = ti - 1;
        if !g.tracks[t].kind.is_audio() {
            let n_nodes = g.tracks[t].node_ids.len();
            let mut j: usize = 0;
            while j < n_nodes
                invariant
                    g.wf(),
                    t < g.tracks@.len(),
                    n_nodes == g.tracks@[t as int].node_ids@.len(),
                    j <= n_nodes,
                    !(g.tracks@[t as int].kind is Audio),
                    spec_walk_tracks(*g, g.tracks@.len() - 1, playhead as int)
                        == spec_walk_tracks(*g, t as int, playhead as int),
                    spec_walk_nodes(*g, t as int, 0, playhead as int) == spec_walk_nodes(
                        *g,
                        t as int,
                        j as int,
                        playhead as int,
                    ),
                decreases n_nodes - j,
            {
                let id = g.tracks[t].node_ids[j];
                let n = match g.find_node(id) {
                    Some(n) => n,
                    None => {
                        proof {
                            assert(spec_walk_nodes(*g, t as int, j as int, playhead as int)
                                == WalkHit::Abort);
                        }
                        return None;
                    },
                };
                proof {
                    g.lemma_node_index_unique(id, n as int);
                    assert(g.spec_has_node(id));
                }
                let node = &g.nodes[n];
                let covering = match node_frame_range(node) {
                    Some(range) => range.contains(playhead),
                    None => false,
                };
                if covering {
                    match &node.kind {
                        TimelineNodeKind::Clip(c) => {
                            proof {
                                assert(spec_walk_nodes(*g, t as int, j as int, playhead as int)
                                    == (WalkHit::Hit { track: t as int, node: n as int }));
                            }
                            match &c.asset_id {
                                Some(path) => {
                                    let image_marker = "image".to_owned();
                                    let is_image = match &g.tracks[t].kind {
                                        TrackKind::Custom(cid) => *cid == image_marker,
                                        _ => false,
                                    };
                                    return Some(
                                        VisualSource::Media { path: path.clone(), is_image },
                                    );
                                },
                                None => {
                                    return None;
                                },
                            }
                        },
                        TimelineNodeKind::Generator { generator_id, meta, .. } => {
                            let solid_marker = "solid".to_owned();
                            let text_marker = "text".to_owned();
                            if *generator_id == solid_marker {
                                proof {
                                    assert(spec_walk_nodes(
                                        *g,
                                        t as int,
                                        j as int,
                                        playhead as int,
                                    ) == (WalkHit::Hit { track: t as int, node: n as int }));
                                }
                                let color = match &meta.color {
                                    Some(c) => c.clone(),
                                    None => "#000000".to_owned(),
                                };
                                return Some(VisualSource::Solid { color });
                            } else if *generator_id == text_marker {
                                proof {
                                    assert(spec_walk_nodes(
                                        *g,
                                        t as int,
                                        j as int,
                                        playhead as int,
                                    ) == (WalkHit::Hit { track: t as int, node: n as int }));
                                }
                                return Some(VisualSource::Text);
                            }
                        },
                        _ => {},
                    }
                }
                proof {
                    assert(spec_walk_nodes(*g, t as int, j as int, playhead as int)
                        == spec_walk_nodes(*g, t as int, j + 1, playhead as int));
                }
                j = j + 1;
            }
        }
        ti = ti - 1;
    }
    None
}

/// The media-time walk within one track: the first covering clip wins;
/// nodes that are not clips are passed over; a dangling reference aborts.
pub open spec fn spec_media_walk_nodes(g: TimelineGraph, t: int, j: int, p: int) -> WalkHit
    decreases g.tracks@[t].node_ids@.len() - j,
{
    if j < 0 || j >= g.tracks@[t].node_ids@.len() {
        WalkHit::Missed
    } else {
        let id = g.tracks@[t].node_ids@[j];
        if !g.spec_has_node(id) {
            WalkHit::Abort
        } else {
            let n = g.spec_node_index(id);
            if g.nodes@[n].kind matches TimelineNodeKind::Clip(c) && c.timeline_range.spec_contains(p) {
                WalkHit::Hit { track: t, node: n }
            } else {
                spec_media_walk_nodes(g, t, j + 1, p)
            }
        }
    }
}

/// The media-time walk over tracks, from `t` downward, restricted either
/// to audio tracks or to everything but audio tracks.
pub open spec fn spec_media_walk_tracks(g: TimelineGraph, t: int, p: int, want_audio: bool) -> WalkHit
    decreases t + 1,
{
    if t < 0 {
        WalkHit::Missed
    } else if (g.tracks@[t].kind is Audio) != want_audio {
        spec_media_walk_tracks(g, t - 1, p, want_audio)
    } else {
        match spec_media_walk_nodes(g, t, 0, p) {
            WalkHit::Missed => spec_media_walk_tracks(g, t - 1, p, want_audio),
            other => other,
        }
    }
}

pub open spec fn spec_media_hit(g: TimelineGraph, p: int, want_audio: bool) -> WalkHit {
    spec_media_walk_tracks(g, g.tracks@.len() - 1, p, want_audio)
}

/// Media time of a clip at a timeline time: the clip's media start plus
/// the rate-scaled local offset into the clip.
pub open spec fn spec_clip_media_us(c: ClipNode, tl_us: int, fps: Fps) -> int {
    let start_us = spec_frames_to_us(c.timeline_range.start as int, fps);
    let local = if tl_us - start_us > 0 { tl_us - start_us } else { 0 };
    spec_frames_to_us(c.media_range.start as int, fps) + local * c.rate_milli as int / 1000
}

/// What a media-time resolution must return for the clip a walk stopped
/// at: its asset path and the clip's media time, or nothing when the clip
/// carries no asset.
pub open spec fn spec_media_result_matches(
    g: TimelineGraph,
    n: int,
    r: Option<(String, i64)>,
    tl_us: int,
    fps: Fps,
) -> bool {
    match g.nodes@[n].kind {
        TimelineNodeKind::Clip(c) => match c.asset_id {
            Some(p) => {
                &&& r is Some
                &&& ({
                    let path_of = |r2: Option<(String, i64)>| match r2 {
                        Some((path, _)) => path@,
                        None => Seq::<char>::empty(),
                    };
                    path_of(r) == p@
                })
                &&& ({
                    let us_of = |r2: Option<(String, i64)>| match r2 {
                        Some((_, us)) => us as int,
                        None => 0int,
                    };
                    us_of(r) == spec_clip_media_us(c, tl_us, fps)
                })
            },
            None => r is None,
        },
        _ => true,
    }
}

/// Rate-scaled media time of a clip, in microseconds.
fn clip_media_us(c: &ClipNode, tl_us: i64, fps: Fps) -> (r: i64)
    requires
        c.wf(),
        fps.wf(),
        0 <= tl_us <= MAX_TIMELINE_US,
    ensures
        r as int == spec_clip_media_us(*c, tl_us as int, fps),
        0 <= r,
{
    let start_us = frames_to_us(c.timeline_range.start, fps);
    let local: i64 = if tl_us > start_us {
        tl_us - start_us
    } else {
        0
    };
    let media_start_us = frames_to_us(c.media_range.start, fps);
    proof {
        vstd::arithmetic::mul::lemma_mul_nonnegative(local as int, c.rate_milli as int);
        vstd::arithmetic::mul::lemma_mul_inequality(local as int, MAX_TIMELINE_US as int,
            c.rate_milli as int);
        vstd::arithmetic::mul::lemma_mul_inequality(c.rate_milli as int, MAX_RATE_MILLI as int,
            MAX_TIMELINE_US as int);
        vstd::arithmetic::div_mod::lemma_div_is_ordered(local as int * c.rate_milli as int,
            MAX_TIMELINE_US as int * MAX_RATE_MILLI as int, 1000);
        vstd::arithmetic::div_mod::lemma_div_pos_is_pos(local as int * c.rate_milli as int, 1000);
        assert(MAX_TIMELINE_US as int * MAX_RATE_MILLI as int / 1000
            == 640_000_000_000_000_000);
    }
    let scaled: u128 = (local as u128) * (c.rate_milli as u128) / 1000;
    media_start_us + (scaled as i64)
}

/// Resolve the active video source and its media time at a timeline time:
/// the same top-down walk, restricted to clips, with the playhead frame
/// rounded to the sequence frame grid.
pub fn active_video_media_time(g: &TimelineGraph, fps: Fps, timeline_us: i64) -> (r: Option<(
    String,
    i64,
)>)
    requires
        g.wf(),
        fps.wf(),
        0 <= timeline_us <= MAX_TIMELINE_US,
    ensures
        match spec_media_hit(*g, spec_us_to_frames_round(timeline_us as int, fps), false) {
            WalkHit::Abort => r is None,
            WalkHit::Missed => r is None,
            WalkHit::Hit { node, .. } => spec_media_result_matches(
                *g,
                node,
                r,
                timeline_us as int,
                fps,
            ),
        },
{
    media_time_walk_result(g, fps, timeline_us, false)
}

/// Resolve the active audio source and media time: the same walk over the
/// audio tracks, falling back to the video walk when no audio clip covers
/// the playhead.
pub fn active_audio_media_time(g: &TimelineGraph, fps: Fps, timeline_us: i64) -> (r: Option<(
    String,
    i64,
)>)
    requires
        g.wf(),
        fps.wf(),
        0 <= timeline_us <= MAX_TIMELINE_US,
    ensures
        match spec_media_hit(*g, spec_us_to_frames_round(timeline_us as int, fps), true) {
            WalkHit::Abort => r is None,
            WalkHit::Missed => match spec_media_hit(
                *g,
                spec_us_to_frames_round(timeline_us as int, fps),
                false,
            ) {
                WalkHit::Abort => r is None,
                WalkHit::Missed => r is None,
                WalkHit::Hit { node, .. } => spec_media_result_matches(
                    *g,
                    node,
                    r,
                    timeline_us as int,
                    fps,
                ),
            },
            WalkHit::Hit { node, .. } => spec_media_result_matches(
                *g,
                node,
                r,
                timeline_us as int,
                fps,
            ),
        },
{
    let audio = media_time_walk(g, fps, timeline_us, true);
    match audio {
        MediaWalkResult::Hit(r) => r,
        MediaWalkResult::Aborted => None,
        MediaWalkResult::Missed => media_time_walk_result(g, fps, timeline_us, false),
    }
}

/// Exec outcome of one media walk, distinguishing a miss (which the audio
/// path turns into a fallback) from an abort and from a hit.
enum MediaWalkResult {
    Hit(Option<(String, i64)>),
    Missed,
    Aborted,
}

fn media_time_walk_result(g: &TimelineGraph, fps: Fps, timeline_us: i64, want_audio: bool) -> (r:
    Option<(String, i64)>)
    requires
        g.wf(),
        fps.wf(),
        0 <= timeline_us <= MAX_TIMELINE_US,
    ensures
        match spec_media_hit(*g, spec_us_to_frames_round(timeline_us as int, fps), want_audio) {
            WalkHit::Abort => r is None,
            WalkHit::Missed => r is None,
            WalkHit::Hit { node, .. } => spec_media_result_matches(
                *g,
                node,
                r,
                timeline_us as int,
                fps,
            ),
        },
{
    match media_time_walk(g, fps, timeline_us, want_audio) {
        MediaWalkResult::Hit(r) => r,
        MediaWalkResult::Aborted => None,
        MediaWalkResult::Missed => None,
    }
}

fn media_time_walk(g: &TimelineGraph, fps: Fps, timeline_us: i64, want_audio: bool) -> (r:
    MediaWalkResult)
    requires
        g.wf(),
        fps.wf(),
        0 <= timeline_us <= MAX_TIMELINE_US,
    ensures
        match spec_media_hit(*g, spec_us_to_frames_round(timeline_us as int, fps), want_audio) {
            WalkHit::Abort => r is Aborted,
            WalkHit::Missed => r is Missed,
            WalkHit::Hit { node, .. } => r matches MediaWalkResult::Hit(inner)
                && spec_media_result_matches(*g, node, inner, timeline_us as int, fps),
        },
{
    let playhead = us_to_frames_round(timeline_us, fps);
    let n_tracks = g.tracks.len();
    let mut ti: usize = n_tracks;
    while ti > 0
        invariant
            g.wf(),
            fps.wf(),
            0 <= timeline_us <= MAX_TIMELINE_US,
            playhead as int == spec_us_to_frames_round(timeline_us as int, fps),
            n_tracks == g.tracks@.len(),
            ti <= n_tracks,
            spec_media_walk_tracks(*g, n_tracks as int - 1, playhead as int, want_audio)
                == spec_media_walk_tracks(*g, ti as int - 1, playhead as int, want_audio),
        decreases ti,
    {
        let t = ti - 1;
        if g.tracks[t].kind.is_audio() == want_audio {
            let n_nodes = g.tracks[t].node_ids.len();
            let mut j: usize = 0;
            while j < n_nodes
                invariant
                    g.wf(),
                    fps.wf(),
                    0 <= timeline_us <= MAX_TIMELINE_US,
                    playhead as int == spec_us_to_frames_round(timeline_us as int, fps),
                    t < g.tracks@.len(),
                    n_nodes == g.tracks@[t as int].node_ids@.len(),
                    j <= n_nodes,
                    (g.tracks@[t as int].kind is Audio) == want_audio,
                    spec_media_walk_tracks(*g, g.tracks@.len() - 1, playhead as int, want_audio)
                        == spec_media_walk_tracks(*g, t as int, playhead as int, want_audio),
                    spec_media_walk_nodes(*g, t as int, 0, playhead as int)
                        == spec_media_walk_nodes(*g, t as int, j as int, playhead as int),
                decreases n_nodes - j,
            {
                let id = g.tracks[t].node_ids[j];
                let n = match g.find_node(id) {
                    Some(n) => n,
                    None => {
                        return MediaWalkResult::Aborted;
                    },
                };
                proof {
                    g.lemma_node_index_unique(id, n as int);
                    assert(g.spec_has_node(id));
                }
                match &g.nodes[n].kind {
                    TimelineNodeKind::Clip(c) => {
                        if c.timeline_range.contains(playhead) {
                            proof {
                                assert(spec_media_walk_nodes(
                                    *g,
                                    t as int,
                                    j as int,
                                    playhead as int,
                                ) == (WalkHit::Hit { track: t as int, node: n as int }));
                            }
                            match &c.asset_id {
                                Some(path) => {
                                    let us = clip_media_us(c, timeline_us, fps);
                                    return MediaWalkResult::Hit(Some((path.clone(), us)));
                                },
                                None => {
                                    return MediaWalkResult::Hit(None);
                                },
                            }
                        }
                    },
                    _ => {},
                }
                proof {
                    assert(spec_media_walk_nodes(*g, t as int, j as int, playhead as int)
                        == spec_media_walk_nodes(*g, t as int, j + 1, playhead as int));
                }
                j = j + 1;
            }
        }
        ti = ti - 1;
    }
    MediaWalkResult::Missed
}

impl TimelineGraph {
    /// Whether a split command is accepted: a clip or generator sits at
    /// the placement, the split frame falls strictly inside its span, and
    /// for a clip the shifted media span stays inside the frame bounds.
    pub open spec fn spec_split_ok(self, track: int, item: int, split: int) -> bool {
        &&& 0 <= track < self.tracks@.len()
        &&& 0 <= item < self.tracks@[track].node_ids@.len()
        &&& self.spec_has_node(self.tracks@[track].node_ids@[item])
        &&& ({
            let n = self.nodes@[self.spec_node_index(self.tracks@[track].node_ids@[item])];
            match n.kind {
                TimelineNodeKind::Clip(c) => {
                    &&& c.timeline_range.start < split < c.timeline_range.spec_end()
                    &&& c.media_range.start + (c.timeline_range.spec_end()
                        - c.timeline_range.start) <= MAX_FRAME
                },
                TimelineNodeKind::Generator { timeline_range, .. } => {
                    timeline_range.start < split < timeline_range.spec_end()
                },
                _ => false,
            }
        })
    }

    /// Split the clip or generator at (track, item) at a timeline frame.
    /// The left part keeps the node and its identifier; the right part is
    /// a fresh node placed directly after it on the same track. The two
    /// parts cover exactly what the original covered, and for a clip the
    /// media ranges continue seamlessly: no frame is lost.
    pub fn split_clip_at_frame(&mut self, track: usize, item: usize, split_frame: i64) -> (r:
        Option<NodeId>)
        requires
            old(self).wf(),
            old(self).tracks_wf(),
            old(self).next_node_id < u64::MAX,
        ensures
            final(self).wf(),
            final(self).tracks_wf(),
            (r is Some <==> old(self).spec_split_ok(track as int, item as int, split_frame as int)),
            r is None ==> *final(self) == *old(self),
            r matches Some(rid) ==> ({
                let lid = old(self).tracks@[track as int].node_ids@[item as int];
                let li = old(self).spec_node_index(lid);
                let old_node = old(self).nodes@[li];
                let left = final(self).nodes@[li];
                let right = final(self).nodes@[final(self).nodes@.len() - 1];
                &&& final(self).nodes@.len() == old(self).nodes@.len() + 1
                &&& right.id == rid
                &&& left.id == lid
                &&& final(self).tracks@[track as int].node_ids@ == old(
                    self,
                ).tracks@[track as int].node_ids@.insert(item + 1, rid)
                &&& match old_node.kind {
                    TimelineNodeKind::Clip(c) => {
                        &&& left.kind matches TimelineNodeKind::Clip(_)
                        &&& right.kind matches TimelineNodeKind::Clip(_)
                        &&& ({
                            let lc = left.kind->Clip_0;
                            let rc = right.kind->Clip_0;
                            &&& lc.timeline_range.start == c.timeline_range.start
                            &&& lc.timeline_range.duration == split_frame - c.timeline_range.start
                            &&& lc.media_range.start == c.media_range.start
                            &&& lc.media_range.duration == split_frame - c.timeline_range.start
                            &&& rc.timeline_range.start == split_frame
                            &&& rc.timeline_range.duration == c.timeline_range.spec_end()
                                - split_frame
                            &&& rc.media_range.start == c.media_range.start + (split_frame
                                - c.timeline_range.start)
                            &&& rc.media_range.duration == c.timeline_range.spec_end()
                                - split_frame
                            &&& lc.timeline_range.spec_end() == rc.timeline_range.start
                            &&& rc.timeline_range.spec_end() == c.timeline_range.spec_end()
                            &&& lc.rate_milli == c.rate_milli
                            &&& rc.rate_milli == c.rate_milli
                            &&& (c.asset_id matches Some(p) ==> lc.asset_id matches Some(lp)
                                && lp@ == p@)
                            &&& (c.asset_id matches Some(p2) ==> rc.asset_id matches Some(rp)
                                && rp@ == p2@)
                            &&& (c.asset_id is None ==> lc.asset_id is None && rc.asset_id
                                is None)
                        })
                    },
                    TimelineNodeKind::Generator { timeline_range: tr, generator_id: gid, .. } => {
                        &&& left.kind matches TimelineNodeKind::Generator { .. }
                        &&& right.kind matches TimelineNodeKind::Generator { .. }
                        &&& ({
                            let ltr = left.kind->Generator_timeline_range;
                            let rtr = right.kind->Generator_timeline_range;
                            &&& ltr.start == tr.start
                            &&& ltr.duration == split_frame - tr.start
                            &&& rtr.start == split_frame
                            &&& rtr.duration == tr.spec_end() - split_frame
                            &&& ltr.spec_end() == rtr.start
                            &&& rtr.spec_end() == tr.spec_end()
                            &&& left.kind->Generator_generator_id@ == gid@
                            &&& right.kind->Generator_generator_id@ == gid@
                        })
                    },
                    _ => false,
                }
            }),
    {
        if track >= self.tracks.len() {
            return None;
        }
        if item >= self.tracks[track].node_ids.len() {
            return None;
        }
        let lid = self.tracks[track].node_ids[item];
        let track_id = self.tracks[track].id;
        let li = match self.find_node(lid) {
            Some(i) => i,
            None => {
                return None;
            },
        };
        proof {
            self.lemma_node_index_unique(lid, li as int);
            assert(self.spec_has_node(lid));
        }
        let label = match &self.nodes[li].label {
            Some(l) => Some(l.clone()),
            None => None,
        };
        let locked = self.nodes[li].locked;
        let (left_kind, right_kind) = match &self.nodes[li].kind {
            TimelineNodeKind::Clip(c) => {
                let s = c.timeline_range.start;
                let e = c.timeline_range.end();
                if split_frame <= s || split_frame >= e {
                    return None;
                }
                if c.media_range.start > MAX_FRAME - (e - s) {
                    return None;
                }
                let left_dur = split_frame - s;
                let right_dur = e - split_frame;
                let asset_l = match &c.asset_id {
                    Some(p) => Some(p.clone()),
                    None => None,
                };
                let asset_r = match &c.asset_id {
                    Some(p) => Some(p.clone()),
                    None => None,
                };
                let left = TimelineNodeKind::Clip(
                    ClipNode {
                        asset_id: asset_l,
                        media_range: FrameRange::new(c.media_range.start, left_dur),
                        timeline_range: FrameRange::new(s, left_dur),
                        rate_milli: c.rate_milli,
                        reverse: c.reverse,
                    },
                );
                let right = TimelineNodeKind::Clip(
                    ClipNode {
                        asset_id: asset_r,
                        media_range: FrameRange::new(c.media_range.start + left_dur, right_dur),
                        timeline_range: FrameRange::new(split_frame, right_dur),
                        rate_milli: c.rate_milli,
                        reverse: c.reverse,
                    },
                );
                (left, right)
            },
            TimelineNodeKind::Generator { generator_id, timeline_range, meta } => {
                let s = timeline_range.start;
                let e = timeline_range.end();
                if split_frame <= s || split_frame >= e {
                    return None;
                }
                let left = TimelineNodeKind::Generator {
                    generator_id: generator_id.clone(),
                    timeline_range: FrameRange::new(s, split_frame - s),
                    meta: GeneratorMeta {
                        color: match &meta.color {
                            Some(c2) => Some(c2.clone()),
                            None => None,
                        },
                        text: match &meta.text {
                            Some(t2) => Some(t2.clone()),
                            None => None,
                        },
                    },
                };
                let right = TimelineNodeKind::Generator {
                    generator_id: generator_id.clone(),
                    timeline_range: FrameRange::new(split_frame, e - split_frame),
                    meta: GeneratorMeta {
                        color: match &meta.color {
                            Some(c2) => Some(c2.clone()),
                            None => None,
                        },
                        text: match &meta.text {
                            Some(t2) => Some(t2.clone()),
                            None => None,
                        },
                    },
                };
                (left, right)
            },
            _ => {
                return None;
            },
        };
        proof {
            assert(spec_node_wf(self.nodes@[li as int]));
        }
        let rid = self.fresh_node_id();
        let left_node = TimelineNode { id: lid, label: label.clone(), kind: left_kind, locked };
        let right_node = TimelineNode { id: rid, label, kind: right_kind, locked };
        proof {
            assert(spec_node_wf(left_node));
            assert(spec_node_wf(right_node));
            assert(self.spec_node_id_at(li as int) == lid);
            assert(self.spec_has_node(lid));
        }
        let ghost before_update = *self;
        let upd = self.update_node(left_node);
        match upd {
            Ok(()) => {},
            Err(_) => {
                proof {
                    assert(false);
                }
                return None;
            },
        }
        proof {
            assert(lid != rid) by {
                assert(old(self).spec_node_id_at(li as int) < old(self).next_node_id);
            }
            assert forall|i: int|
                0 <= i < self.nodes@.len() implies #[trigger] self.spec_node_id_at(i) != rid by {
                if before_update.spec_node_id_at(i) == lid {
                    assert(self.nodes@[i] == left_node);
                } else {
                    assert(self.nodes@[i] == before_update.nodes@[i]);
                    assert(before_update.nodes@[i] == old(self).nodes@[i]);
                    assert(!old(self).spec_has_node(rid));
                    assert(old(self).spec_node_id_at(i) != rid);
                }
            }
            assert(!self.spec_has_node(rid));
            assert(self.tracks@[track as int].id == track_id);
            assert(self.spec_insert_ok(
                right_node,
                TrackPlacement { track_id: track_id, position: Some((item + 1) as usize) },
            ));
        }
        let ins = self.insert_node(
            right_node,
            TrackPlacement { track_id: track_id, position: Some(item + 1) },
        );
        match ins {
            Ok(()) => {},
            Err(_) => {
                proof {
                    assert forall|u: int|
                        0 <= u < self.tracks@.len() && (#[trigger] self.tracks@[u].id)
                            == track_id implies u == track as int by {
                        if u != track as int {
                            if u < track as int {
                                assert(self.tracks@[u].id != self.tracks@[track as int].id);
                            } else {
                                assert(self.tracks@[track as int].id != self.tracks@[u].id);
                            }
                        }
                    }
                    assert(false);
                }
                return None;
            },
        }
        proof {
            assert forall|u: int|
                0 <= u < old(self).tracks@.len() && (#[trigger] old(self).tracks@[u].id)
                    == track_id implies u == track as int by {
                if u != track as int {
                    if u < track as int {
                        assert(old(self).tracks@[u].id != old(self).tracks@[track as int].id);
                    } else {
                        assert(old(self).tracks@[track as int].id != old(self).tracks@[u].id);
                    }
                }
            }
        }
        Some(rid)
    }
}

} // verus!
