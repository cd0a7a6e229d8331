//! The frame cache: a small LRU of recently decoded YUV frames, keyed by
//! source path, quantized time, and requested size. It serves scrub reuse;
//! the hot playback path goes through the worker's latest-frame slot.

use crate::media::YuvPixFmt;
use vstd::prelude::*;

verus! {

/// Default capacity of a frame cache, in entries.
pub const FRAME_CACHE_CAPACITY: usize = 64;

/// Cache keys quantize time to tenths of a second.
pub const CACHE_BUCKET_US: i64 = 100_000;

/// Largest media time a cache key can carry without leaving `u32` buckets.
pub const MAX_CACHE_TIME_US: i64 = 400_000_000_000_000;

/// Cache key: source path, media time rounded to the nearest tenth of a
/// second, and the requested output size.
pub struct FrameCacheKey {
    pub path: String,
    pub time_bucket: u32,
    pub width: u32,
    pub height: u32,
}

/// The mathematical identity of a key.
pub open spec fn spec_key_view(k: FrameCacheKey) -> (Seq<char>, u32, u32, u32) {
    (k.path@, k.time_bucket, k.width, k.height)
}

impl FrameCacheKey {
    /// Quantize a media time to the nearest tenth of a second.
    pub open spec fn spec_bucket(t_us: int) -> int {
        (t_us + 50_000) / CACHE_BUCKET_US as int
    }

    pub fn new(path: &str, t_us: i64, width: u32, height: u32) -> (r: Self)
        requires
            0 <= t_us <= MAX_CACHE_TIME_US,
        ensures
            r.path@ == path@,
            r.time_bucket == Self::spec_bucket(t_us as int),
            r.width == width,
            r.height == height,
    {
        let bucket: i64 = (t_us + 50_000) / CACHE_BUCKET_US;
        FrameCacheKey { path: path.to_owned(), time_bucket: bucket as u32, width, height }
    }

    /// Key equality, over the path text and the three numeric fields.
    pub fn matches(&self, other: &FrameCacheKey) -> (r: bool)
        ensures
            r <==> spec_key_view(*self) == spec_key_view(*other),
    {
        let same = self.path == other.path && self.time_bucket == other.time_bucket
            && self.width == other.width && self.height == other.height;
        proof {
            if same {
                assert(spec_key_view(*self) == spec_key_view(*other));
            }
        }
        same
    }
}

/// A cached decoded frame: both planes and their geometry.
pub struct CachedFrame {
    pub format: YuvPixFmt,
    pub y: Vec<u8>,
    pub uv: Vec<u8>,
    pub width: u32,
    pub height: u32,
}

/// LRU cache of decoded frames. The entry order is the recency order:
/// index 0 is the oldest, the last entry the most recently used.
pub struct FrameCache {
    pub entries: Vec<(FrameCacheKey, CachedFrame)>,
    pub capacity: usize,
    pub hits: u64,
    pub misses: u64,
}

impl FrameCache {
    pub open spec fn spec_key_at(self, i: int) -> (Seq<char>, u32, u32, u32) {
        spec_key_view(self.entries@[i].0)
    }

    /// Bounded by its capacity, with no key stored twice.
    pub open spec fn wf(self) -> bool {
        &&& 1 <= self.capacity
        &&& self.entries@.len() <= self.capacity
        &&& forall|i: int, j: int|
            0 <= i < j < self.entries@.len() ==> self.spec_key_at(i) != self.spec_key_at(j)
    }

    pub open spec fn spec_has(self, kv: (Seq<char>, u32, u32, u32)) -> bool {
        exists|i: int| 0 <= i < self.entries@.len() && self.spec_key_at(i) == kv
    }

    pub fn with_capacity(capacity: usize) -> (r: Self)
        requires
            capacity >= 1,
        ensures
            r.wf(),
            r.entries@.len() == 0,
            r.capacity == capacity,
            r.hits == 0,
            r.misses == 0,
    {
        FrameCache { entries: Vec::new(), capacity, hits: 0, misses: 0 }
    }

    pub fn new() -> (r: Self)
        ensures
            r.wf(),
            r.entries@.len() == 0,
            r.capacity == FRAME_CACHE_CAPACITY,
    {
        Self::with_capacity(FRAME_CACHE_CAPACITY)
    }

    pub fn len(&self) -> (r: usize)
        ensures
            r == self.entries@.len(),
    {
        self.entries.len()
    }

    /// Position of a key, if present.
    pub fn find(&self, key: &FrameCacheKey) -> (r: Option<usize>)
        ensures
            r matches Some(i) ==> i < self.entries@.len() && self.spec_key_at(i as int)
                == spec_key_view(*key),
            r is None ==> !self.spec_has(spec_key_view(*key)),
    {
        let n = self.entries.len();
        let mut i: usize = 0;
        while i < n
            invariant
                n == self.entries@.len(),
                i <= n,
                forall|j: int| 0 <= j < i ==> self.spec_key_at(j) != spec_key_view(*key),
            decreases n - i,
        {
            if self.entries[i].0.matches(key) {
                return Some(i);
            }
            i = i + 1;
        }
        None
    }

    /// Move the entry at `i` to the most-recently-used position.
    pub fn touch(&mut self, i: usize)
        requires
            old(self).wf(),
            i < old(self).entries@.len(),
        ensures
            final(self).wf(),
            final(self).entries@ == old(self).entries@.remove(i as int).push(
                old(self).entries@[i as int],
            ),
            final(self).entries@.len() == old(self).entries@.len(),
            final(self).capacity == old(self).capacity,
            final(self).spec_key_at(final(self).entries@.len() - 1) == old(self).spec_key_at(
                i as int,
            ),
    {
        let e = self.entries.remove(i);
        self.entries.push(e);
        proof {
            let olds = old(self).entries@;
            let news = self.entries@;
            assert(news == olds.remove(i as int).push(olds[i as int]));
            assert forall|a: int, b: int|
                0 <= a < b < news.len() implies spec_key_view(news[a].0) != spec_key_view(
                news[b].0,
            ) by {
                if b < news.len() - 1 {
                    let a0 = if a < i as int { a } else { a + 1 };
                    let b0 = if b < i as int { b } else { b + 1 };
                    assert(news[a] == olds[a0]);
                    assert(news[b] == olds[b0]);
                    assert(old(self).spec_key_at(a0) != old(self).spec_key_at(b0));
                } else {
                    let a0 = if a < i as int { a } else { a + 1 };
                    assert(news[a] == olds[a0]);
                    assert(news[b] == olds[i as int]);
                    assert(old(self).spec_key_at(a0) != old(self).spec_key_at(i as int));
                }
            }
        }
    }

    proof fn lemma_wf_same_entries(a: FrameCache, b: FrameCache)
        requires
            a.wf(),
            b.entries == a.entries,
            b.capacity == a.capacity,
        ensures
            b.wf(),
    {
        assert forall|i: int, j: int|
            0 <= i < j < b.entries@.len() implies b.spec_key_at(i) != b.spec_key_at(j) by {
            assert(a.spec_key_at(i) != a.spec_key_at(j));
        }
    }

    /// Record and find: on a hit the entry moves to the MRU position and
    /// its new index is returned; on a miss nothing is stored.
    pub fn lookup(&mut self, key: &FrameCacheKey) -> (r: Option<usize>)
        requires
            old(self).wf(),
        ensures
            final(self).wf(),
            final(self).capacity == old(self).capacity,
            final(self).entries@.len() == old(self).entries@.len(),
            (r is Some <==> old(self).spec_has(spec_key_view(*key))),
            r matches Some(i) ==> {
                &&& i == final(self).entries@.len() - 1
                &&& final(self).spec_key_at(i as int) == spec_key_view(*key)
            },
            r is None ==> final(self).entries@ == old(self).entries@,
    {
        match self.find(key) {
            Some(i) => {
                proof {
                    assert(old(self).spec_key_at(i as int) == spec_key_view(*key));
                }
                self.touch(i);
                let ghost touched = *self;
                if self.hits < u64::MAX {
                    self.hits = self.hits + 1;
                }
                proof {
                    Self::lemma_wf_same_entries(touched, *self);
                }
                let n = self.entries.len();
                Some(n - 1)
            },
            None => {
                if self.misses < u64::MAX {
                    self.misses = self.misses + 1;
                }
                proof {
                    Self::lemma_wf_same_entries(*old(self), *self);
                }
                None
            },
        }
    }

    /// Borrow the frame stored at an index (as returned by `lookup`).
    pub fn frame_at(&self, i: usize) -> (r: &CachedFrame)
        requires
            i < self.entries@.len(),
        ensures
            *r == self.entries@[i as int].1,
    {
        &self.entries[i].1
    }


    /// Drop the `count` least-recently-used entries — but only when more
    /// than `count` entries are held; a cache at or below that size is
    /// left untouched.
    pub fn evict_oldest(&mut self, count: usize)
        requires
            old(self).wf(),
        ensures
            final(self).wf(),
            final(self).capacity == old(self).capacity,
            old(self).entries@.len() <= count ==> final(self).entries@ == old(self).entries@,
            old(self).entries@.len() > count ==> final(self).entries@ == old(
                self,
            ).entries@.skip(count as int),
    {
        if self.entries.len() <= count {
            return;
        }
        proof {
            assert(self.entries@.skip(0int) =~= self.entries@);
        }
        let mut i: usize = 0;
        while i < count
            invariant
                old(self).wf(),
                self.capacity == old(self).capacity,
                i <= count,
                count < old(self).entries@.len(),
                self.entries@ == old(self).entries@.skip(i as int),
            decreases count - i,
        {
            let _evicted = self.entries.remove(0);
            proof {
                assert(self.entries@ =~= old(self).entries@.skip(i + 1));
            }
            i = i + 1;
        }
        proof {
            let m = count as int;
            assert forall|a: int, b: int|
                0 <= a < b < self.entries@.len() implies self.spec_key_at(a)
                != self.spec_key_at(b) by {
                assert(self.entries@[a] == old(self).entries@[a + m]);
                assert(self.entries@[b] == old(self).entries@[b + m]);
                assert(old(self).spec_key_at(a + m) != old(self).spec_key_at(b + m));
            }
        }
    }

    /// Insert a frame for a key that is not yet cached. The new entry
    /// becomes the most recently used; when the cache is full the oldest
    /// entry is evicted, so the cache never exceeds its capacity.
    pub fn insert(&mut self, key: FrameCacheKey, frame: CachedFrame)
        requires
            old(self).wf(),
            !old(self).spec_has(spec_key_view(key)),
        ensures
            final(self).wf(),
            final(self).capacity == old(self).capacity,
            final(self).entries@.len() == if old(self).entries@.len() < old(self).capacity {
                old(self).entries@.len() + 1int
            } else {
                old(self).capacity as int
            },
            final(self).entries@ == if old(self).entries@.len() < old(self).capacity {
                old(self).entries@.push((key, frame))
            } else {
                old(self).entries@.subrange(1, old(self).entries@.len() as int).push((key, frame))
            },
            final(self).spec_key_at(final(self).entries@.len() - 1) == spec_key_view(key),
            final(self).spec_has(spec_key_view(key)),
    {
        if self.entries.len() >= self.capacity {
            let _evicted = self.entries.remove(0);
            proof {
                assert(self.entries@ == old(self).entries@.remove(0));
                assert(self.entries@ =~= old(self).entries@.subrange(
                    1,
                    old(self).entries@.len() as int,
                ));
            }
        }
        let ghost mid = self.entries@;
        self.entries.push((key, frame));
        proof {
            let news = self.entries@;
            let n = news.len() as int;
            assert(news[n - 1] == (key, frame));
            assert forall|a: int, b: int|
                0 <= a < b < n implies spec_key_view(news[a].0) != spec_key_view(news[b].0) by {
                if b < n - 1 {
                    if old(self).entries@.len() < old(self).capacity {
                        assert(news[a] == old(self).entries@[a]);
                        assert(news[b] == old(self).entries@[b]);
                        assert(old(self).spec_key_at(a) != old(self).spec_key_at(b));
                    } else {
                        assert(news[a] == old(self).entries@[a + 1]);
                        assert(news[b] == old(self).entries@[b + 1]);
                        assert(old(self).spec_key_at(a + 1) != old(self).spec_key_at(b + 1));
                    }
                } else {
                    if old(self).entries@.len() < old(self).capacity {
                        assert(news[a] == old(self).entries@[a]);
                        assert(old(self).spec_key_at(a) != spec_key_view(key));
                    } else {
                        assert(news[a] == old(self).entries@[a + 1]);
                        assert(old(self).spec_key_at(a + 1) != spec_key_view(key));
                    }
                }
            }
        }
    }
}

} // verus!
