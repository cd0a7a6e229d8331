//! The GPU plane ring: triple-buffered YUV plane uploads with row-padded
//! staging, drop-on-full, and strict plane-size validation.
//!
//! The ring holds three slots of Y and UV textures with staging buffers.
//! The writer publishes a slot by making it the present slot and stepping
//! its own index forward; when stepping forward would land on the present
//! slot, the frame is dropped instead, so an upload never advances into the
//! slot the reader is showing.

use crate::media::YuvPixFmt;
use vstd::arithmetic::div_mod::{
    lemma_div_pos_is_pos, lemma_fundamental_div_mod_converse, lemma_multiply_divide_le,
};
use vstd::arithmetic::mul::{lemma_mul_inequality, lemma_mul_nonnegative};
use vstd::prelude::*;

verus! {

/// Number of slots in the ring.
pub const RING_SLOTS: usize = 3;

/// GPU buffer-to-texture copies require row pitches in multiples of this.
pub const ROW_ALIGN: usize = 256;

/// Largest accepted frame dimension.
pub const MAX_DIM: u32 = 16384;

pub open spec fn spec_dims_ok(w: u32, h: u32) -> bool {
    &&& 1 <= w <= MAX_DIM
    &&& 1 <= h <= MAX_DIM
}

/// Bytes per Y sample: one for 8-bit NV12, two for 16-bit P010.
pub open spec fn spec_y_bpp(fmt: YuvPixFmt) -> int {
    match fmt {
        YuvPixFmt::Nv12 => 1,
        YuvPixFmt::P010 => 2,
    }
}

/// Bytes per interleaved UV texel (one U sample and one V sample).
pub open spec fn spec_uv_bpp(fmt: YuvPixFmt) -> int {
    match fmt {
        YuvPixFmt::Nv12 => 2,
        YuvPixFmt::P010 => 4,
    }
}

/// Chroma plane width: the luma width halved, rounded up.
pub open spec fn spec_uv_width(w: u32) -> int {
    (w + 1) / 2
}

pub open spec fn spec_uv_height(h: u32) -> int {
    (h + 1) / 2
}

/// Required Y plane size in bytes for a frame of this format and size.
pub open spec fn spec_y_plane_len(fmt: YuvPixFmt, w: u32, h: u32) -> int {
    w * h * spec_y_bpp(fmt)
}

/// Required UV plane size in bytes for a frame of this format and size.
pub open spec fn spec_uv_plane_len(fmt: YuvPixFmt, w: u32, h: u32) -> int {
    spec_uv_width(w) * spec_uv_height(h) * spec_uv_bpp(fmt)
}

proof fn lemma_plane_len_bounds(fmt: YuvPixFmt, w: u32, h: u32)
    requires
        spec_dims_ok(w, h),
    ensures
        0 < spec_y_plane_len(fmt, w, h) <= 0x8000_0000,
        0 < spec_uv_plane_len(fmt, w, h) <= 0x8000_0000,
{
    assert(0 < w as int * h as int * spec_y_bpp(fmt) <= 0x8000_0000) by (nonlinear_arith)
        requires
            1 <= w as int <= 16384,
            1 <= h as int <= 16384,
            1 <= spec_y_bpp(fmt) <= 2,
    ;
    assert(0 < ((w + 1) / 2) as int * ((h + 1) / 2) as int * spec_uv_bpp(fmt) <= 0x8000_0000)
        by (nonlinear_arith)
        requires
            1 <= ((w + 1) / 2) as int <= 16384,
            1 <= ((h + 1) / 2) as int <= 16384,
            1 <= spec_uv_bpp(fmt) <= 4,
    ;
}

/// Required Y plane size in bytes.
pub fn expected_y_len(fmt: YuvPixFmt, w: u32, h: u32) -> (r: usize)
    requires
        spec_dims_ok(w, h),
    ensures
        r == spec_y_plane_len(fmt, w, h),
{
    proof {
        lemma_plane_len_bounds(fmt, w, h);
    }
    let bpp: usize = match fmt {
        YuvPixFmt::Nv12 => 1,
        YuvPixFmt::P010 => 2,
    };
    (w as usize) * (h as usize) * bpp
}

/// Required UV plane size in bytes.
pub fn expected_uv_len(fmt: YuvPixFmt, w: u32, h: u32) -> (r: usize)
    requires
        spec_dims_ok(w, h),
    ensures
        r == spec_uv_plane_len(fmt, w, h),
{
    proof {
        lemma_plane_len_bounds(fmt, w, h);
    }
    let bpp: usize = match fmt {
        YuvPixFmt::Nv12 => 2,
        YuvPixFmt::P010 => 4,
    };
    (((w + 1) / 2) as usize) * (((h + 1) / 2) as usize) * bpp
}

/// Whether two decoded planes have exactly the sizes the format and
/// dimensions demand.
pub fn validate_plane_sizes(fmt: YuvPixFmt, w: u32, h: u32, y_len: usize, uv_len: usize) -> (r:
    bool)
    requires
        spec_dims_ok(w, h),
    ensures
        r <==> (y_len == spec_y_plane_len(fmt, w, h) && uv_len == spec_uv_plane_len(fmt, w, h)),
{
    let ey = expected_y_len(fmt, w, h);
    let euv = expected_uv_len(fmt, w, h);
    y_len == ey && uv_len == euv
}

/// `v` rounded up to the next multiple of `align`.
pub open spec fn spec_align_to(v: int, align: int) -> int {
    ((v + align - 1) / align) * align
}

pub proof fn lemma_align_to_bounds(v: int, align: int)
    requires
        0 <= v,
        1 <= align,
    ensures
        v <= spec_align_to(v, align) < v + align,
        spec_align_to(v, align) % align == 0,
{
    let q = (v + align - 1) / align;
    vstd::arithmetic::div_mod::lemma_fundamental_div_mod(v + align - 1, align);
    vstd::arithmetic::div_mod::lemma_mod_bound(v + align - 1, align);
    assert(q * align == v + align - 1 - (v + align - 1) % align) by (nonlinear_arith)
        requires
            v + align - 1 == align * q + (v + align - 1) % align,
    ;
    assert((q * align) % align == 0) by {
        vstd::arithmetic::div_mod::lemma_mod_multiples_basic(q, align);
    }
}

/// Round a row pitch up to the GPU copy alignment.
pub fn align_to(v: usize, align: usize) -> (r: usize)
    requires
        1 <= align,
        v + align <= usize::MAX,
    ensures
        r == spec_align_to(v as int, align as int),
        v <= r < v + align,
        r % align == 0,
{
    proof {
        lemma_align_to_bounds(v as int, align as int);
        lemma_div_pos_is_pos(v as int + align as int - 1, align as int);
        assert(((v + align - 1) as int / align as int) * align as int <= v as int + align as int
            - 1);
    }
    ((v + align - 1) / align) * align
}

/// The byte at offset `k` of a row-padded plane: source bytes fill the
/// first `src_bpr` bytes of each padded row, the rest of the row is zero.
pub open spec fn spec_padded_byte(src: Seq<u8>, src_bpr: int, pad_bpr: int, k: int) -> u8 {
    if k % pad_bpr < src_bpr {
        src[(k / pad_bpr) * src_bpr + k % pad_bpr]
    } else {
        0
    }
}

/// Copy a tightly packed plane into a row-padded buffer, zero-filling the
/// padding, as GPU staging uploads require.
pub fn pad_rows(src: &[u8], rows: usize, src_bpr: usize, pad_bpr: usize) -> (r: Vec<u8>)
    requires
        src@.len() == rows * src_bpr,
        1 <= src_bpr <= pad_bpr,
        rows * pad_bpr <= 0x1_0000_0000,
        rows >= 1,
    ensures
        r@.len() == rows * pad_bpr,
        forall|k: int|
            0 <= k < rows * pad_bpr ==> r@[k] == spec_padded_byte(
                src@,
                src_bpr as int,
                pad_bpr as int,
                k,
            ),
{
    let mut out: Vec<u8> = Vec::new();
    let mut row: usize = 0;
    proof {
        lemma_mul_nonnegative(rows as int, pad_bpr as int);
        assert(rows * src_bpr <= rows * pad_bpr) by (nonlinear_arith)
            requires
                src_bpr <= pad_bpr,
                rows >= 0,
        ;
    }
    while row < rows
        invariant
            src@.len() == rows * src_bpr,
            1 <= src_bpr <= pad_bpr,
            rows * pad_bpr <= 0x1_0000_0000,
            rows * src_bpr <= 0x1_0000_0000,
            row <= rows,
            out@.len() == row * pad_bpr,
            forall|k: int|
                0 <= k < row * pad_bpr ==> out@[k] == spec_padded_byte(
                    src@,
                    src_bpr as int,
                    pad_bpr as int,
                    k,
                ),
        decreases rows - row,
    {
        let mut col: usize = 0;
        proof {
            lemma_mul_inequality(row as int + 1, rows as int, pad_bpr as int);
            lemma_mul_inequality(row as int + 1, rows as int, src_bpr as int);
            assert((row + 1) * pad_bpr == row * pad_bpr + pad_bpr) by (nonlinear_arith);
            assert((row + 1) * src_bpr == row * src_bpr + src_bpr) by (nonlinear_arith);
            lemma_mul_nonnegative(row as int, src_bpr as int);
        }
        while col < pad_bpr
            invariant
                src@.len() == rows * src_bpr,
                1 <= src_bpr <= pad_bpr,
                rows * pad_bpr <= 0x1_0000_0000,
                rows * src_bpr <= 0x1_0000_0000,
                row < rows,
                col <= pad_bpr,
                row * pad_bpr + pad_bpr <= rows * pad_bpr,
                row * src_bpr + src_bpr <= rows * src_bpr,
                row * src_bpr >= 0,
                out@.len() == row * pad_bpr + col,
                forall|k: int|
                    0 <= k < row * pad_bpr + col ==> out@[k] == spec_padded_byte(
                        src@,
                        src_bpr as int,
                        pad_bpr as int,
                        k,
                    ),
            decreases pad_bpr - col,
        {
            let b: u8 = if col < src_bpr {
                src[row * src_bpr + col]
            } else {
                0
            };
            out.push(b);
            proof {
                let k = row as int * pad_bpr as int + col as int;
                lemma_fundamental_div_mod_converse(k, pad_bpr as int, row as int, col as int);
                assert(out@[k] == spec_padded_byte(src@, src_bpr as int, pad_bpr as int, k));
            }
            col = col + 1;
        }
        row = row + 1;
    }
    out
}

/// Writer and reader indices of the three-slot plane ring.
pub struct PlaneRing {
    pub write: usize,
    pub present: usize,
}

impl PlaneRing {
    pub open spec fn wf(self) -> bool {
        self.write < RING_SLOTS && self.present < RING_SLOTS
    }

    /// Holds once a frame has been published: the writer sits one step
    /// ahead of the reader, so the slot being written is never the slot
    /// being shown.
    pub open spec fn published(self) -> bool {
        self.write == (self.present + 1) % (RING_SLOTS as int)
    }

    pub fn new() -> (r: Self)
        ensures
            r.wf(),
            r.write == 0,
            r.present == 0,
    {
        PlaneRing { write: 0, present: 0 }
    }

    /// Attempt one upload step. When stepping the writer forward would
    /// land on the present slot, the frame is dropped and nothing changes;
    /// otherwise the written slot becomes the present slot and the writer
    /// advances.
    pub fn try_advance(&mut self) -> (r: Option<usize>)
        requires
            old(self).wf(),
        ensures
            final(self).wf(),
            ((old(self).write + 1) % (RING_SLOTS as int) == old(self).present) <==> r is None,
            r is None ==> *final(self) == *old(self),
            r matches Some(slot) ==> {
                &&& slot == old(self).write
                &&& final(self).present == slot
                &&& final(self).write == (slot + 1) % (RING_SLOTS as int)
                &&& final(self).published()
                &&& old(self).published() ==> slot != old(self).present
            },
    {
        let next = (self.write + 1) % RING_SLOTS;
        if next == self.present {
            return None;
        }
        let slot = self.write;
        self.present = slot;
        self.write = next;
        Some(slot)
    }
}

/// Everything the GPU copy step needs for one frame: the slot to fill and
/// the row-padded staging contents for both planes.
pub struct UploadPlan {
    pub slot: usize,
    pub y_padded: Vec<u8>,
    pub uv_padded: Vec<u8>,
    pub y_pad_bpr: usize,
    pub uv_pad_bpr: usize,
    pub y_rows: u32,
    pub uv_rows: u32,
}

/// What became of one upload attempt.
pub enum UploadDecision {
    /// The frame was accepted; perform the staged copies and draw the slot.
    Upload(UploadPlan),
    /// The writer would have advanced into the present slot; the frame is
    /// dropped so the presenter never stalls.
    DropRingFull,
    /// The decoded planes disagree with the expected sizes; the frame is
    /// dropped, and `log_now` is true only the first time this happens.
    DropBadPlanes { log_now: bool },
}

/// Upload side of the preview presenter: the ring indices, the log-once
/// latch for plane-size mismatches, and what the draw call needs to know
/// about the last published frame (its format, size and publication
/// order).
pub struct Presenter {
    pub ring: PlaneRing,
    pub size_mismatch_logged: bool,
    /// Format of the last published frame; nothing published yet if absent.
    pub last_fmt: Option<YuvPixFmt>,
    pub last_width: u32,
    pub last_height: u32,
    /// Counts publications, so stale views can be told from fresh ones.
    pub present_tick: u64,
}

impl Presenter {
    pub open spec fn wf(self) -> bool {
        self.ring.wf()
    }

    pub fn new() -> (r: Self)
        ensures
            r.wf(),
            r.ring.write == 0,
            r.ring.present == 0,
            !r.size_mismatch_logged,
            r.last_fmt is None,
            r.present_tick == 0,
    {
        Presenter {
            ring: PlaneRing::new(),
            size_mismatch_logged: false,
            last_fmt: None,
            last_width: 0,
            last_height: 0,
            present_tick: 0,
        }
    }

    /// The plane textures the draw call must reference: the present slot
    /// of the ring, in the last published format — or nothing while no
    /// frame has been published.
    pub fn current_plane_slot(&self) -> (r: Option<(YuvPixFmt, usize)>)
        requires
            self.wf(),
        ensures
            (r is Some <==> self.last_fmt is Some),
            r matches Some((fmt, slot)) ==> Some(fmt) == self.last_fmt && slot
                == self.ring.present && slot < RING_SLOTS,
    {
        match self.last_fmt {
            Some(fmt) => Some((fmt, self.ring.present)),
            None => None,
        }
    }

    /// Decide one frame upload: drop when the ring is full, drop (and log
    /// at most once) when the plane sizes are wrong, otherwise advance the
    /// ring and hand back row-padded staging contents for the written slot.
    pub fn prepare_upload(&mut self, fmt: YuvPixFmt, w: u32, h: u32, y: &[u8], uv: &[u8]) -> (r:
        UploadDecision)
        requires
            old(self).wf(),
            spec_dims_ok(w, h),
        ensures
            final(self).wf(),
            ({
                let full = (old(self).ring.write + 1) % (RING_SLOTS as int)
                    == old(self).ring.present;
                let sized = y@.len() == spec_y_plane_len(fmt, w, h) && uv@.len()
                    == spec_uv_plane_len(fmt, w, h);
                &&& (r is DropRingFull <==> full)
                &&& (full ==> *final(self) == *old(self))
                &&& (r is DropBadPlanes <==> !full && !sized)
                &&& (!full && !sized ==> {
                    &&& final(self).size_mismatch_logged
                    &&& final(self).ring == old(self).ring
                    &&& final(self).last_fmt == old(self).last_fmt
                    &&& final(self).present_tick == old(self).present_tick
                    &&& (r matches UploadDecision::DropBadPlanes { log_now } ==> log_now == !old(
                        self,
                    ).size_mismatch_logged)
                })
                &&& (r is Upload <==> !full && sized)
            }),
            r matches UploadDecision::Upload(plan) ==> {
                &&& plan.slot == old(self).ring.write
                &&& final(self).ring.present == plan.slot
                &&& final(self).ring.write == (plan.slot + 1) % (RING_SLOTS as int)
                &&& final(self).ring.published()
                &&& (old(self).ring.published() ==> plan.slot != old(self).ring.present)
                &&& final(self).size_mismatch_logged == old(self).size_mismatch_logged
                &&& final(self).last_fmt == Some(fmt)
                &&& final(self).last_width == w
                &&& final(self).last_height == h
                &&& final(self).present_tick == if old(self).present_tick < u64::MAX {
                    (old(self).present_tick + 1) as u64
                } else {
                    old(self).present_tick
                }
                &&& plan.y_rows == h
                &&& plan.uv_rows == spec_uv_height(h)
                &&& plan.y_pad_bpr == spec_align_to(w * spec_y_bpp(fmt), ROW_ALIGN as int)
                &&& plan.uv_pad_bpr == spec_align_to(
                    spec_uv_width(w) * spec_uv_bpp(fmt),
                    ROW_ALIGN as int,
                )
                &&& plan.y_padded@.len() == h * plan.y_pad_bpr
                &&& plan.uv_padded@.len() == spec_uv_height(h) * plan.uv_pad_bpr
                &&& (forall|k: int|
                    0 <= k < plan.y_padded@.len() ==> plan.y_padded@[k] == spec_padded_byte(
                        y@,
                        w * spec_y_bpp(fmt),
                        plan.y_pad_bpr as int,
                        k,
                    ))
                &&& (forall|k: int|
                    0 <= k < plan.uv_padded@.len() ==> plan.uv_padded@[k] == spec_padded_byte(
                        uv@,
                        spec_uv_width(w) * spec_uv_bpp(fmt),
                        plan.uv_pad_bpr as int,
                        k,
                    ))
            },
    {
        let next = (self.ring.write + 1) % RING_SLOTS;
        if next == self.ring.present {
            return UploadDecision::DropRingFull;
        }
        if !validate_plane_sizes(fmt, w, h, y.len(), uv.len()) {
            let log_now = !self.size_mismatch_logged;
            self.size_mismatch_logged = true;
            return UploadDecision::DropBadPlanes { log_now };
        }
        let y_bpp: usize = match fmt {
            YuvPixFmt::Nv12 => 1,
            YuvPixFmt::P010 => 2,
        };
        let uv_bpp: usize = match fmt {
            YuvPixFmt::Nv12 => 2,
            YuvPixFmt::P010 => 4,
        };
        let uv_w: usize = ((w + 1) / 2) as usize;
        let uv_h: usize = ((h + 1) / 2) as usize;
        let y_bpr: usize = (w as usize) * y_bpp;
        let uv_bpr: usize = uv_w * uv_bpp;
        let y_pad_bpr = align_to(y_bpr, ROW_ALIGN);
        let uv_pad_bpr = align_to(uv_bpr, ROW_ALIGN);
        proof {
            lemma_plane_len_bounds(fmt, w, h);
            assert(h as int * (w as int * y_bpp as int) == w as int * h as int * y_bpp as int)
                by (nonlinear_arith);
            assert(uv_h as int * (uv_w as int * uv_bpp as int) == uv_w as int * uv_bpp as int
                * uv_h as int) by (nonlinear_arith);
            assert(spec_uv_plane_len(fmt, w, h) == ((w + 1) / 2) as int * ((h + 1) / 2) as int
                * spec_uv_bpp(fmt));
            assert(((w + 1) / 2) as int * ((h + 1) / 2) as int * spec_uv_bpp(fmt)
                == ((w + 1) / 2) as int * spec_uv_bpp(fmt) * ((h + 1) / 2) as int)
                by (nonlinear_arith);
            assert(h as int * y_pad_bpr as int <= 16384 * 33024) by (nonlinear_arith)
                requires
                    h <= 16384,
                    y_pad_bpr <= 33024,
                    h >= 1,
                    y_pad_bpr >= 1,
            ;
            assert(uv_h as int * uv_pad_bpr as int <= 16384 * 33024) by (nonlinear_arith)
                requires
                    uv_h <= 16384,
                    uv_pad_bpr <= 33024,
                    uv_h >= 1,
                    uv_pad_bpr >= 1,
            ;
        }
        let y_padded = pad_rows(y, h as usize, y_bpr, y_pad_bpr);
        let uv_padded = pad_rows(uv, uv_h, uv_bpr, uv_pad_bpr);
        let slot = match self.ring.try_advance() {
            Some(s) => s,
            None => 0,
        };
        self.last_fmt = Some(fmt);
        self.last_width = w;
        self.last_height = h;
        if self.present_tick < u64::MAX {
            self.present_tick = self.present_tick + 1;
        }
        UploadDecision::Upload(
            UploadPlan {
                slot,
                y_padded,
                uv_padded,
                y_pad_bpr,
                uv_pad_bpr,
                y_rows: h,
                uv_rows: ((h + 1) / 2) as u32,
            },
        )
    }
}

/// Split one raw frame (a packed Y plane followed by a packed UV plane)
/// into its two planes, refusing byte streams that are too short.
pub fn split_planes(fmt: YuvPixFmt, w: u32, h: u32, data: &[u8]) -> (r: Option<(Vec<u8>, Vec<u8>)>)
    requires
        spec_dims_ok(w, h),
    ensures
        r is Some <==> data@.len() >= spec_y_plane_len(fmt, w, h) + spec_uv_plane_len(fmt, w, h),
        r matches Some((y, uv)) ==> {
            &&& y@ == data@.subrange(0, spec_y_plane_len(fmt, w, h))
            &&& uv@ == data@.subrange(
                spec_y_plane_len(fmt, w, h),
                spec_y_plane_len(fmt, w, h) + spec_uv_plane_len(fmt, w, h),
            )
        },
{
    let y_len = expected_y_len(fmt, w, h);
    let uv_len = expected_uv_len(fmt, w, h);
    proof {
        lemma_plane_len_bounds(fmt, w, h);
    }
    if data.len() < y_len || data.len() - y_len < uv_len {
        return None;
    }
    let y = vstd::slice::slice_to_vec(vstd::slice::slice_subrange(data, 0, y_len));
    let uv = vstd::slice::slice_to_vec(vstd::slice::slice_subrange(data, y_len, y_len + uv_len));
    Some((y, uv))
}

/// Texture formats a plane ring allocates, one per plane.
#[derive(Clone, Copy, Debug, PartialEq, Eq, Structural)]
pub enum PlaneTextureFormat {
    R8Unorm,
    Rg8Unorm,
    R16Unorm,
    Rg16Unorm,
    R16Uint,
    Rg16Uint,
}

/// Pick the texture formats for the Y and UV planes: 8-bit normalized for
/// NV12; 16-bit normalized for P010 when the device offers it, and the
/// 16-bit unsigned-integer fallback (sampled without filtering) when not.
pub fn plane_texture_formats(fmt: YuvPixFmt, supports_16bit_norm: bool) -> (r: (
    PlaneTextureFormat,
    PlaneTextureFormat,
))
    ensures
        fmt == YuvPixFmt::Nv12 ==> r == (PlaneTextureFormat::R8Unorm,
        PlaneTextureFormat::Rg8Unorm),
        fmt == YuvPixFmt::P010 && supports_16bit_norm ==> r == (PlaneTextureFormat::R16Unorm,
        PlaneTextureFormat::Rg16Unorm),
        fmt == YuvPixFmt::P010 && !supports_16bit_norm ==> r == (PlaneTextureFormat::R16Uint,
        PlaneTextureFormat::Rg16Uint),
{
    match fmt {
        YuvPixFmt::Nv12 => (PlaneTextureFormat::R8Unorm, PlaneTextureFormat::Rg8Unorm),
        YuvPixFmt::P010 => {
            if supports_16bit_norm {
                (PlaneTextureFormat::R16Unorm, PlaneTextureFormat::Rg16Unorm)
            } else {
                (PlaneTextureFormat::R16Uint, PlaneTextureFormat::Rg16Uint)
            }
        },
    }
}


} // verus!
