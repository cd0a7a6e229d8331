//! YUV to RGB conversion arithmetic.
//!
//! The production path converts BT.709 limited-range NV12 and P010 on the
//! GPU; the exact rational parameters of that shader's uniform block are
//! produced here. The CPU fallback converts whole planes to RGBA with the
//! same BT.709 limited-range rules. All conversions are fixed-point
//! integer arithmetic with stated rounding, so every channel is pinned
//! exactly.

use vstd::prelude::*;

verus! {

/// Truncating signed division by a positive divisor (rounds toward zero),
/// matching what floating-point-free shader math needs for centered chroma.
pub open spec fn spec_sdiv(a: int, b: int) -> int {
    if a >= 0 {
        a / b
    } else {
        -((-a) / b)
    }
}

/// Truncating signed division, executable form.
pub fn sdiv(a: i64, b: i64) -> (r: i64)
    requires
        1 <= b <= 0x7fff_ffff,
        -0x2000_0000_0000_0000 <= a <= 0x2000_0000_0000_0000,
    ensures
        r as int == spec_sdiv(a as int, b as int),
{
    if a >= 0 {
        let q: u64 = (a as u64) / (b as u64);
        q as i64
    } else {
        let q: u64 = ((-a) as u64) / (b as u64);
        -(q as i64)
    }
}

/// Clamp a Q16.16 color value to an 8-bit channel, rounding half-up.
pub open spec fn spec_q16_to_u8(x: int) -> int {
    if x < 0 {
        0
    } else if (x + 32768) / 65536 > 255 {
        255
    } else {
        (x + 32768) / 65536
    }
}

fn q16_to_u8(x: i64) -> (r: u8)
    requires
        -0x1_0000_0000_0000 <= x <= 0x1_0000_0000_0000,
    ensures
        r as int == spec_q16_to_u8(x as int),
{
    if x < 0 {
        0
    } else {
        let q: i64 = (x + 32768) / 65536;
        if q > 255 {
            255
        } else {
            q as u8
        }
    }
}

/// Limited-range luma in Q16.16 units of the 0..255 output scale:
/// `max(y - bias, 0) * 255 / span`, where `span` is the coded luma range.
pub open spec fn spec_luma_q16(y: int, bias: int, span: int) -> int {
    if y <= bias {
        0
    } else {
        (y - bias) * 255 * 65536 / span
    }
}

/// Centered limited-range chroma in Q16.16 units of the 0..255 scale:
/// `(c - mid) * 255 / span`.
pub open spec fn spec_chroma_q16(c: int, mid: int, span: int) -> int {
    spec_sdiv((c - mid) * 255 * 65536, span)
}

/// BT.709 reconstruction from Q16.16 luma and centered chroma:
/// `R = C + 1.5748 E`, `G = C - 0.1873 D - 0.4681 E`, `B = C + 1.8556 D`,
/// each clamped to 0..255.
pub open spec fn spec_bt709_rgb(c: int, d: int, e: int) -> (int, int, int) {
    (
        spec_q16_to_u8(c + spec_sdiv(15748 * e, 10000)),
        spec_q16_to_u8(c - spec_sdiv(1873 * d, 10000) - spec_sdiv(4681 * e, 10000)),
        spec_q16_to_u8(c + spec_sdiv(18556 * d, 10000)),
    )
}

/// The RGB triple an 8-bit BT.709 limited-range (Y, U, V) sample decodes
/// to: luma coded 16..235, chroma centered at 128 with span 224.
pub open spec fn spec_yuv8_rgb(y: int, u: int, v: int) -> (int, int, int) {
    spec_bt709_rgb(
        spec_luma_q16(y, 16, 219),
        spec_chroma_q16(u, 128, 224),
        spec_chroma_q16(v, 128, 224),
    )
}

/// The RGB triple a 10-bit BT.709 limited-range (Y, U, V) sample decodes
/// to: luma coded 64..940, chroma centered at 512 with span 896.
pub open spec fn spec_yuv10_rgb(y: int, u: int, v: int) -> (int, int, int) {
    spec_bt709_rgb(
        spec_luma_q16(y, 64, 876),
        spec_chroma_q16(u, 512, 896),
        spec_chroma_q16(v, 512, 896),
    )
}

fn bt709_rgb(c: i64, d: i64, e: i64) -> (r: (u8, u8, u8))
    requires
        0 <= c <= 0x1_0000_0000,
        -0x1_0000_0000 <= d <= 0x1_0000_0000,
        -0x1_0000_0000 <= e <= 0x1_0000_0000,
    ensures
        (r.0 as int, r.1 as int, r.2 as int) == spec_bt709_rgb(c as int, d as int, e as int),
{
    let red = q16_to_u8(c + sdiv(15748 * e, 10000));
    let green = q16_to_u8(c - sdiv(1873 * d, 10000) - sdiv(4681 * e, 10000));
    let blue = q16_to_u8(c + sdiv(18556 * d, 10000));
    (red, green, blue)
}

/// Convert one 8-bit NV12 sample to RGB (BT.709 limited range).
pub fn yuv8_to_rgb8(y: u8, u: u8, v: u8) -> (r: (u8, u8, u8))
    ensures
        (r.0 as int, r.1 as int, r.2 as int) == spec_yuv8_rgb(y as int, u as int, v as int),
{
    let c: i64 = if y <= 16 {
        0
    } else {
        ((y as i64) - 16) * 255 * 65536 / 219
    };
    let d = sdiv(((u as i64) - 128) * 255 * 65536, 224);
    let e = sdiv(((v as i64) - 128) * 255 * 65536, 224);
    bt709_rgb(c, d, e)
}

/// Convert one 10-bit P010 sample (already shifted down to 10 bits) to RGB
/// (BT.709 limited range).
pub fn yuv10_to_rgb8(y: u16, u: u16, v: u16) -> (r: (u8, u8, u8))
    requires
        y < 1024,
        u < 1024,
        v < 1024,
    ensures
        (r.0 as int, r.1 as int, r.2 as int) == spec_yuv10_rgb(y as int, u as int, v as int),
{
    let c: i64 = if y <= 64 {
        0
    } else {
        ((y as i64) - 64) * 255 * 65536 / 876
    };
    let d = sdiv(((u as i64) - 512) * 255 * 65536, 896);
    let e = sdiv(((v as i64) - 512) * 255 * 65536, 896);
    bt709_rgb(c, d, e)
}

/// Recover the 10 data bits of a P010 sample: values are left-justified in
/// the top 10 bits of each 16-bit word.
pub fn p010_sample_to_10bit(x: u16) -> (r: u16)
    ensures
        r == x >> 6,
        r < 1024,
{
    proof {
        assert(x >> 6 < 1024) by (bit_vector);
    }
    x >> 6
}

/// Scaling numerator and denominator of a truncating division by four
/// changes nothing.
proof fn lemma_div_scale4(a: int, b: int)
    requires
        1 <= b,
        0 <= a,
    ensures
        (4 * a) / (4 * b) == a / b,
{
    vstd::arithmetic::div_mod::lemma_div_denominator(4 * a, 4, b);
    vstd::arithmetic::div_mod::lemma_div_multiples_vanish(a, 4);
}

proof fn lemma_sdiv_scale4(a: int, b: int)
    requires
        1 <= b,
    ensures
        spec_sdiv(4 * a, 4 * b) == spec_sdiv(a, b),
{
    if a >= 0 {
        lemma_div_scale4(a, b);
    } else {
        lemma_div_scale4(-a, b);
        assert(-(4 * a) == 4 * (-a));
    }
}

/// The P010 and NV12 conversions agree in general: a 10-bit sample that
/// is exactly four times an 8-bit sample decodes to the same RGB triple.
/// The coded ranges scale with the samples (64 = 4·16, 876 = 4·219,
/// 512 = 4·128, 896 = 4·224), so the fixed-point terms cancel exactly.
pub proof fn lemma_p010_matches_nv12(y: int, u: int, v: int)
    ensures
        spec_yuv10_rgb(4 * y, 4 * u, 4 * v) == spec_yuv8_rgb(y, u, v),
{
    assert(spec_luma_q16(4 * y, 64, 876) == spec_luma_q16(y, 16, 219)) by {
        if y > 16 {
            assert((4 * y - 64) * 255 * 65536 == 4 * ((y - 16) * 255 * 65536))
                by (nonlinear_arith);
            assert(876 == 4 * 219);
            lemma_div_scale4((y - 16) * 255 * 65536, 219);
            vstd::arithmetic::mul::lemma_mul_nonnegative(y - 16, (255 * 65536) as int);
            assert((y - 16) * 255 * 65536 == (y - 16) * (255 * 65536)) by (nonlinear_arith);
        }
    }
    assert(spec_chroma_q16(4 * u, 512, 896) == spec_chroma_q16(u, 128, 224)) by {
        assert((4 * u - 512) * 255 * 65536 == 4 * ((u - 128) * 255 * 65536))
            by (nonlinear_arith);
        assert(896 == 4 * 224);
        lemma_sdiv_scale4((u - 128) * 255 * 65536, 224);
    }
    assert(spec_chroma_q16(4 * v, 512, 896) == spec_chroma_q16(v, 128, 224)) by {
        assert((4 * v - 512) * 255 * 65536 == 4 * ((v - 128) * 255 * 65536))
            by (nonlinear_arith);
        lemma_sdiv_scale4((v - 128) * 255 * 65536, 224);
    }
}

/// When both chroma samples sit exactly at their midpoint, the BT.709
/// reconstruction is achromatic: all three channels equal the luma.
pub proof fn lemma_neutral_chroma_is_gray(y: int)
    ensures
        spec_yuv8_rgb(y, 128, 128).0 == spec_yuv8_rgb(y, 128, 128).1,
        spec_yuv8_rgb(y, 128, 128).1 == spec_yuv8_rgb(y, 128, 128).2,
        spec_yuv10_rgb(y, 512, 512).0 == spec_yuv10_rgb(y, 512, 512).1,
        spec_yuv10_rgb(y, 512, 512).1 == spec_yuv10_rgb(y, 512, 512).2,
{
}

/// A 16-bit little-endian plane sample as an integer.
pub open spec fn spec_u16_le(lo: u8, hi: u8) -> int {
    lo + 256 * hi
}

/// Chroma texels per row: the luma width halved, rounded up.
pub open spec fn spec_uv_texels(w: int) -> int {
    (w + 1) / 2
}

/// Y plane bytes the fallback reads: one byte per sample for NV12, two
/// for P010.
pub open spec fn spec_fallback_y_len(fmt: crate::media::YuvPixFmt, w: int, h: int) -> int {
    match fmt {
        crate::media::YuvPixFmt::Nv12 => w * h,
        crate::media::YuvPixFmt::P010 => 2 * w * h,
    }
}

/// UV plane bytes the fallback reads: an interleaved U,V texel per 2x2
/// pixel block, two bytes per texel for NV12 and four for P010.
pub open spec fn spec_fallback_uv_len(fmt: crate::media::YuvPixFmt, w: int, h: int) -> int {
    match fmt {
        crate::media::YuvPixFmt::Nv12 => 2 * spec_uv_texels(w) * ((h + 1) / 2),
        crate::media::YuvPixFmt::P010 => 4 * spec_uv_texels(w) * ((h + 1) / 2),
    }
}

/// The RGB triple the CPU fallback produces at pixel (row, col), always
/// the BT.709 limited-range reconstruction: NV12 bytes feed the 8-bit
/// conversion directly; P010 samples are read as 16-bit little-endian
/// words and shifted down to their 10 data bits first.
pub open spec fn spec_rgba_pixel(
    fmt: crate::media::YuvPixFmt,
    yp: Seq<u8>,
    uvp: Seq<u8>,
    w: int,
    row: int,
    col: int,
) -> (int, int, int) {
    match fmt {
        crate::media::YuvPixFmt::Nv12 => {
            let ubase = (row / 2) * (2 * spec_uv_texels(w)) + (col / 2) * 2;
            spec_yuv8_rgb(yp[row * w + col] as int, uvp[ubase] as int, uvp[ubase + 1] as int)
        },
        crate::media::YuvPixFmt::P010 => {
            let ybase = 2 * (row * w + col);
            let ubase = (row / 2) * (4 * spec_uv_texels(w)) + (col / 2) * 4;
            spec_yuv10_rgb(
                spec_u16_le(yp[ybase], yp[ybase + 1]) / 64,
                spec_u16_le(uvp[ubase], uvp[ubase + 1]) / 64,
                spec_u16_le(uvp[ubase + 2], uvp[ubase + 3]) / 64,
            )
        },
    }
}

/// Byte `k` of the RGBA image: pixel `k / 4` in row-major order, channel
/// `k % 4`, with channel 3 the constant alpha 255.
pub open spec fn spec_rgba_plane_byte(
    fmt: crate::media::YuvPixFmt,
    yp: Seq<u8>,
    uvp: Seq<u8>,
    w: int,
    k: int,
) -> int {
    let p = k / 4;
    let px = spec_rgba_pixel(fmt, yp, uvp, w, p / w, p % w);
    if k % 4 == 0 {
        px.0
    } else if k % 4 == 1 {
        px.1
    } else if k % 4 == 2 {
        px.2
    } else {
        255
    }
}

/// What `spec_rgba_plane_byte` says at the four bytes of pixel (row, col):
/// exactly the channels of `spec_rgba_pixel` and alpha 255.
pub proof fn lemma_rgba_plane_bytes_at(
    fmt: crate::media::YuvPixFmt,
    yp: Seq<u8>,
    uvp: Seq<u8>,
    w: int,
    row: int,
    col: int,
)
    requires
        w >= 1,
        0 <= row,
        0 <= col < w,
    ensures
        ({
            let px = spec_rgba_pixel(fmt, yp, uvp, w, row, col);
            let base = 4 * (row * w + col);
            &&& spec_rgba_plane_byte(fmt, yp, uvp, w, base) == px.0
            &&& spec_rgba_plane_byte(fmt, yp, uvp, w, base + 1) == px.1
            &&& spec_rgba_plane_byte(fmt, yp, uvp, w, base + 2) == px.2
            &&& spec_rgba_plane_byte(fmt, yp, uvp, w, base + 3) == 255
        }),
{
    let p = row * w + col;
    vstd::arithmetic::mul::lemma_mul_nonnegative(row, w);
    vstd::arithmetic::div_mod::lemma_fundamental_div_mod_converse(p, w, row, col);
    let base = 4 * p;
    vstd::arithmetic::div_mod::lemma_fundamental_div_mod_converse(base, 4, p, 0);
    vstd::arithmetic::div_mod::lemma_fundamental_div_mod_converse(base + 1, 4, p, 1);
    vstd::arithmetic::div_mod::lemma_fundamental_div_mod_converse(base + 2, 4, p, 2);
    vstd::arithmetic::div_mod::lemma_fundamental_div_mod_converse(base + 3, 4, p, 3);
}

/// Compute one fallback pixel from the planes.
#[verifier::rlimit(60)]
fn fallback_pixel(
    y_plane: &[u8],
    uv_plane: &[u8],
    w: usize,
    h: usize,
    row: usize,
    col: usize,
    format: crate::media::YuvPixFmt,
) -> (r: (u8, u8, u8))
    requires
        1 <= w <= 16384,
        1 <= h <= 16384,
        row < h,
        col < w,
        y_plane@.len() >= spec_fallback_y_len(format, w as int, h as int),
        uv_plane@.len() >= spec_fallback_uv_len(format, w as int, h as int),
    ensures
        (r.0 as int, r.1 as int, r.2 as int) == spec_rgba_pixel(
            format,
            y_plane@,
            uv_plane@,
            w as int,
            row as int,
            col as int,
        ),
{
    let uvt: usize = (w + 1) / 2;
    let uvr: usize = (h + 1) / 2;
    proof {
        // The luma index stays inside the plane.
        assert(row * w + col < w * h) by (nonlinear_arith)
            requires
                0 <= row,
                0 <= col < w,
                row + 1 <= h,
        ;
        assert(w * h <= 16384 * 16384) by (nonlinear_arith)
            requires
                0 <= w <= 16384,
                0 <= h <= 16384,
        ;
        assert(2 * (row * w + col) + 1 < 2 * w as int * h as int) by (nonlinear_arith)
            requires
                0 <= row * w + col,
                row * w + col < w as int * h as int,
        ;
        // The chroma texel stays inside its plane: the pixel's 2x2 block
        // is within the rounded-up texel grid.
        assert(col / 2 + 1 <= uvt && row / 2 + 1 <= uvr);
        assert((row / 2) * (2 * uvt) + 2 * uvt <= uvr * (2 * uvt)) by (nonlinear_arith)
            requires
                row / 2 + 1 <= uvr,
                0 <= 2 * uvt,
        ;
        assert((col / 2) * 2 + 2 <= 2 * uvt) by (nonlinear_arith)
            requires
                col / 2 + 1 <= uvt,
        ;
        assert((row / 2) * (4 * uvt) + 4 * uvt <= uvr * (4 * uvt)) by (nonlinear_arith)
            requires
                row / 2 + 1 <= uvr,
                0 <= 4 * uvt,
        ;
        assert((col / 2) * 4 + 4 <= 4 * uvt) by (nonlinear_arith)
            requires
                col / 2 + 1 <= uvt,
        ;
        assert(uvr * (2 * uvt) == 2 * uvt * uvr && uvr * (4 * uvt) == 4 * uvt * uvr)
            by (nonlinear_arith);
        assert(uvr * (2 * uvt) <= 16384 * 16384 && uvr * (4 * uvt) <= 2 * 16384 * 16384)
            by (nonlinear_arith)
            requires
                0 <= uvr <= 8192,
                0 <= uvt <= 8192,
        ;
        assert(0 <= (row / 2) * (2 * uvt) && 0 <= (row / 2) * (4 * uvt)) by (nonlinear_arith)
            requires
                0 <= row / 2,
                0 <= uvt,
        ;
    }
    match format {
        crate::media::YuvPixFmt::Nv12 => {
            let y = y_plane[row * w + col];
            let ubase = (row / 2) * (2 * uvt) + (col / 2) * 2;
            yuv8_to_rgb8(y, uv_plane[ubase], uv_plane[ubase + 1])
        },
        crate::media::YuvPixFmt::P010 => {
            let ybase = 2 * (row * w + col);
            let ubase = (row / 2) * (4 * uvt) + (col / 2) * 4;
            let y10 = sample_10bit(y_plane[ybase], y_plane[ybase + 1]);
            let u10 = sample_10bit(uv_plane[ubase], uv_plane[ubase + 1]);
            let v10 = sample_10bit(uv_plane[ubase + 2], uv_plane[ubase + 3]);
            yuv10_to_rgb8(y10, u10, v10)
        },
    }
}

/// The 10 data bits of a 16-bit little-endian P010 sample.
fn sample_10bit(lo: u8, hi: u8) -> (r: u16)
    ensures
        r as int == spec_u16_le(lo, hi) / 64,
        r < 1024,
{
    proof {
        vstd::arithmetic::div_mod::lemma_div_is_ordered(lo as int + 256 * hi as int, 65535, 64);
        vstd::arithmetic::div_mod::lemma_div_pos_is_pos(lo as int + 256 * hi as int, 64);
    }
    let word: u32 = (lo as u32) + 256 * (hi as u32);
    (word / 64) as u16
}

/// Convert one row of an NV12 or P010 frame to RGBA bytes. Byte `k` of the
/// result is channel `k % 4` of pixel (row, k / 4).
#[verifier::rlimit(100)]
fn yuv_row_to_rgba(
    y_plane: &[u8],
    uv_plane: &[u8],
    w: usize,
    h: usize,
    row: usize,
    format: crate::media::YuvPixFmt,
) -> (r: Vec<u8>)
    requires
        1 <= w <= 16384,
        1 <= h <= 16384,
        row < h,
        y_plane@.len() >= spec_fallback_y_len(format, w as int, h as int),
        uv_plane@.len() >= spec_fallback_uv_len(format, w as int, h as int),
    ensures
        r@.len() == 4 * w,
        forall|k: int|
            0 <= k < 4 * w ==> #[trigger] r@[k] == spec_rgba_plane_byte(
                format,
                y_plane@,
                uv_plane@,
                w as int,
                4 * (row * w) + k,
            ) as u8,
{
    let mut out: Vec<u8> = Vec::new();
    let mut col: usize = 0;
    while col < w
        invariant
            1 <= w <= 16384,
            1 <= h <= 16384,
            row < h,
            y_plane@.len() >= spec_fallback_y_len(format, w as int, h as int),
            uv_plane@.len() >= spec_fallback_uv_len(format, w as int, h as int),
            col <= w,
            out@.len() == 4 * col,
            forall|k: int|
                0 <= k < 4 * col ==> #[trigger] out@[k] == spec_rgba_plane_byte(
                    format,
                    y_plane@,
                    uv_plane@,
                    w as int,
                    4 * (row * w) + k,
                ) as u8,
        decreases w - col,
    {
        let px = fallback_pixel(y_plane, uv_plane, w, h, row, col, format);
        out.push(px.0);
        out.push(px.1);
        out.push(px.2);
        out.push(255);
        proof {
            let rowi = row as int;
            let coli = col as int;
            let wi = w as int;
            let p = rowi * wi + coli;
            lemma_rgba_plane_bytes_at(format, y_plane@, uv_plane@, wi, rowi, coli);
            assert(4 * (rowi * wi) + 4 * coli == 4 * p);
            assert(out@[4 * coli] == px.0);
            assert(out@[4 * coli + 1] == px.1);
            assert(out@[4 * coli + 2] == px.2);
            assert(out@[4 * coli + 3] == 255);
        }
        col = col + 1;
    }
    out
}

/// Convert whole NV12 or P010 planes to tightly packed RGBA bytes, BT.709
/// limited range. Byte `k` of the result is pinned to
/// `spec_rgba_plane_byte`, so each pixel carries exactly the channels of
/// `spec_rgba_pixel` and alpha 255 (see `lemma_rgba_plane_bytes_at`).
pub fn yuv_to_rgba(y_plane: &[u8], uv_plane: &[u8], width: u32, height: u32, format:
    crate::media::YuvPixFmt) -> (r: Vec<u8>)
    requires
        1 <= width <= 16384,
        1 <= height <= 16384,
        y_plane@.len() >= spec_fallback_y_len(format, width as int, height as int),
        uv_plane@.len() >= spec_fallback_uv_len(format, width as int, height as int),
    ensures
        r@.len() == 4 * width * height,
        forall|k: int|
            0 <= k < 4 * width * height ==> #[trigger] r@[k] == spec_rgba_plane_byte(
                format,
                y_plane@,
                uv_plane@,
                width as int,
                k,
            ) as u8,
{
    let w = width as usize;
    let h = height as usize;
    let mut out: Vec<u8> = Vec::new();
    let mut row: usize = 0;
    proof {
        assert(h * w <= 16384 * 16384) by (nonlinear_arith)
            requires
                0 <= h <= 16384,
                0 <= w <= 16384,
        ;
    }
    while row < h
        invariant
            w == width,
            h == height,
            1 <= w <= 16384,
            1 <= h <= 16384,
            y_plane@.len() >= spec_fallback_y_len(format, w as int, h as int),
            uv_plane@.len() >= spec_fallback_uv_len(format, w as int, h as int),
            h * w <= 16384 * 16384,
            row <= h,
            out@.len() == 4 * (row * w),
            forall|k: int|
                0 <= k < 4 * (row * w) ==> #[trigger] out@[k] == spec_rgba_plane_byte(
                    format,
                    y_plane@,
                    uv_plane@,
                    w as int,
                    k,
                ) as u8,
        decreases h - row,
    {
        let ghost old_out = out@;
        let mut rowbytes = yuv_row_to_rgba(y_plane, uv_plane, w, h, row, format);
        let ghost rowsnap = rowbytes@;
        proof {
            assert((row + 1) * w == row * w + w) by (nonlinear_arith);
            assert((row + 1) * w <= h * w) by (nonlinear_arith)
                requires
                    row + 1 <= h,
                    w >= 0,
            ;
        }
        out.append(&mut rowbytes);
        proof {
            assert(out@ == old_out + rowsnap);
            assert forall|k: int| 0 <= k < 4 * ((row + 1) * w) implies #[trigger] out@[k]
                == spec_rgba_plane_byte(format, y_plane@, uv_plane@, w as int, k) as u8 by {
                if k < old_out.len() {
                    assert(out@[k] == old_out[k]);
                } else {
                    assert(out@[k] == rowsnap[k - old_out.len()]);
                    assert(rowsnap[k - 4 * (row * w)] == spec_rgba_plane_byte(
                        format,
                        y_plane@,
                        uv_plane@,
                        w as int,
                        4 * (row * w) + (k - 4 * (row * w)),
                    ) as u8);
                }
            }
        }
        row = row + 1;
    }
    proof {
        assert(4 * (h * w) == 4 * w * h) by (nonlinear_arith);
        assert(4 * w as int * h as int == 4 * width as int * height as int);
    }
    out
}

/// Byte `k` of one scaled row: channel `k % 4` of source pixel
/// (src_y, (k / 4) * src_w / dst_w).
pub open spec fn spec_scaled_row_byte(
    src: Seq<u8>,
    sw: int,
    dw: int,
    src_y: int,
    k: int,
) -> u8 {
    src[4 * (src_y * sw + (k / 4) * sw / dw) + k % 4]
}

/// Byte `k` of the scaled image: destination pixel `k / 4` in row-major
/// order copies source pixel (x * src_w / dst_w, y * src_h / dst_h).
pub open spec fn spec_scaled_byte(
    src: Seq<u8>,
    sw: int,
    sh: int,
    dw: int,
    dh: int,
    k: int,
) -> u8 {
    let p = k / 4;
    src[4 * ((p / dw * sh / dh) * sw + (p % dw) * sw / dw) + k % 4]
}

/// Copy one scaled row with nearest-neighbor sampling.
#[verifier::rlimit(100)]
fn scale_row_nearest(src: &[u8], sw: usize, sh: usize, dw: usize, src_y: usize) -> (r: Vec<u8>)
    requires
        1 <= sw <= 16384,
        1 <= sh <= 16384,
        1 <= dw <= 16384,
        src_y < sh,
        src@.len() >= 4 * sw * sh,
    ensures
        r@.len() == 4 * dw,
        forall|k: int|
            0 <= k < 4 * dw ==> #[trigger] r@[k] == spec_scaled_row_byte(
                src@,
                sw as int,
                dw as int,
                src_y as int,
                k,
            ),
{
    let mut out: Vec<u8> = Vec::new();
    let mut x: usize = 0;
    proof {
        assert(src_y * sw + sw <= sh * sw) by (nonlinear_arith)
            requires
                src_y + 1 <= sh,
                sw >= 0,
        ;
        assert(0 <= src_y * sw) by (nonlinear_arith)
            requires
                0 <= src_y,
                0 <= sw,
        ;
        assert(4 * (sh * sw) == 4 * sw * sh) by (nonlinear_arith);
        assert(sh * sw <= 16384 * 16384) by (nonlinear_arith)
            requires
                0 <= sh <= 16384,
                0 <= sw <= 16384,
        ;
    }
    while x < dw
        invariant
            1 <= sw <= 16384,
            1 <= dw <= 16384,
            sh * sw <= 16384 * 16384,
            src@.len() >= 4 * sw * sh,
            src_y * sw + sw <= sh * sw,
            0 <= src_y * sw,
            4 * (sh * sw) == 4 * sw * sh,
            x <= dw,
            out@.len() == 4 * x,
            forall|k: int|
                0 <= k < 4 * x ==> #[trigger] out@[k] == spec_scaled_row_byte(
                    src@,
                    sw as int,
                    dw as int,
                    src_y as int,
                    k,
                ),
        decreases dw - x,
    {
        proof {
            assert(0 <= x * sw <= 16384 * 16384) by (nonlinear_arith)
                requires
                    0 <= x <= 16384,
                    0 <= sw <= 16384,
            ;
        }
        let src_x = x * sw / dw;
        proof {
            assert(x * sw < dw * sw) by (nonlinear_arith)
                requires
                    0 <= x < dw,
                    sw >= 1,
            ;
            vstd::arithmetic::div_mod::lemma_multiply_divide_lt(x as int * sw as int, dw as int,
                sw as int);
        }
        let base = 4 * (src_y * sw + src_x);
        out.push(src[base]);
        out.push(src[base + 1]);
        out.push(src[base + 2]);
        out.push(src[base + 3]);
        proof {
            let xi = x as int;
            vstd::arithmetic::div_mod::lemma_fundamental_div_mod_converse(4 * xi, 4, xi, 0);
            vstd::arithmetic::div_mod::lemma_fundamental_div_mod_converse(4 * xi + 1, 4, xi, 1);
            vstd::arithmetic::div_mod::lemma_fundamental_div_mod_converse(4 * xi + 2, 4, xi, 2);
            vstd::arithmetic::div_mod::lemma_fundamental_div_mod_converse(4 * xi + 3, 4, xi, 3);
            assert(out@[4 * xi] == src@[base as int]);
            assert(out@[4 * xi + 1] == src@[base as int + 1]);
            assert(out@[4 * xi + 2] == src@[base as int + 2]);
            assert(out@[4 * xi + 3] == src@[base as int + 3]);
        }
        x = x + 1;
    }
    out
}

/// Nearest-neighbor RGBA scaling: destination pixel (x, y) copies source
/// pixel (x * src_w / dst_w, y * src_h / dst_h); byte `k` of the result is
/// pinned to `spec_scaled_byte`.
pub fn scale_rgba_nearest(src: &[u8], src_w: u32, src_h: u32, dst_w: u32, dst_h: u32) -> (r: Vec<
    u8,
>)
    requires
        1 <= src_w <= 16384,
        1 <= src_h <= 16384,
        1 <= dst_w <= 16384,
        1 <= dst_h <= 16384,
        src@.len() >= 4 * src_w * src_h,
    ensures
        r@.len() == 4 * dst_w * dst_h,
        forall|k: int|
            0 <= k < 4 * dst_w * dst_h ==> #[trigger] r@[k] == spec_scaled_byte(
                src@,
                src_w as int,
                src_h as int,
                dst_w as int,
                dst_h as int,
                k,
            ),
{
    let sw = src_w as usize;
    let sh = src_h as usize;
    let dw = dst_w as usize;
    let dh = dst_h as usize;
    let mut out: Vec<u8> = Vec::new();
    let mut y: usize = 0;
    proof {
        assert(dh * dw <= 16384 * 16384) by (nonlinear_arith)
            requires
                0 <= dh <= 16384,
                0 <= dw <= 16384,
        ;
    }
    while y < dh
        invariant
            sw == src_w,
            sh == src_h,
            dw == dst_w,
            dh == dst_h,
            1 <= sw <= 16384,
            1 <= sh <= 16384,
            1 <= dw <= 16384,
            1 <= dh <= 16384,
            src@.len() >= 4 * sw * sh,
            dh * dw <= 16384 * 16384,
            y <= dh,
            out@.len() == 4 * (y * dw),
            forall|k: int|
                0 <= k < 4 * (y * dw) ==> #[trigger] out@[k] == spec_scaled_byte(
                    src@,
                    sw as int,
                    sh as int,
                    dw as int,
                    dh as int,
                    k,
                ),
        decreases dh - y,
    {
        proof {
            assert(0 <= y * sh <= 16384 * 16384) by (nonlinear_arith)
                requires
                    0 <= y <= 16384,
                    0 <= sh <= 16384,
            ;
        }
        let src_y = y * sh / dh;
        proof {
            assert(y * sh < dh * sh) by (nonlinear_arith)
                requires
                    0 <= y < dh,
                    sh >= 1,
            ;
            vstd::arithmetic::div_mod::lemma_multiply_divide_lt(y as int * sh as int, dh as int,
                sh as int);
            assert((y + 1) * dw == y * dw + dw) by (nonlinear_arith);
            assert((y + 1) * dw <= dh * dw) by (nonlinear_arith)
                requires
                    y + 1 <= dh,
                    dw >= 0,
            ;
        }
        let ghost old_out = out@;
        let mut rowbytes = scale_row_nearest(src, sw, sh, dw, src_y);
        let ghost rowsnap = rowbytes@;
        out.append(&mut rowbytes);
        proof {
            let ywi = y as int * dw as int;
            assert(out@ == old_out + rowsnap);
            assert forall|k: int| 0 <= k < 4 * ((y + 1) * dw) implies #[trigger] out@[k]
                == spec_scaled_byte(src@, sw as int, sh as int, dw as int, dh as int, k) by {
                if k < old_out.len() {
                    assert(out@[k] == old_out[k]);
                } else {
                    let j = k - 4 * ywi;
                    assert(out@[k] == rowsnap[j]);
                    assert(rowsnap[j] == spec_scaled_row_byte(src@, sw as int, dw as int,
                        src_y as int, j));
                    // Relate byte k of the image to byte j of row y.
                    let p = k / 4;
                    vstd::arithmetic::div_mod::lemma_fundamental_div_mod_converse(
                        k,
                        4,
                        ywi + j / 4,
                        j % 4,
                    );
                    vstd::arithmetic::div_mod::lemma_fundamental_div_mod_converse(
                        ywi + j / 4,
                        dw as int,
                        y as int,
                        j / 4,
                    );
                    assert(p == ywi + j / 4 && k % 4 == j % 4);
                    assert(p / dw as int == y as int && p % dw as int == j / 4);
                }
            }
        }
        y = y + 1;
    }
    proof {
        assert(4 * (dh as int * dw as int) == 4 * dw as int * dh as int) by (nonlinear_arith);
    }
    out
}

/// Exact rational parameters of the limited-range conversion uniform
/// block: `(y_bias, y_scale, uv_bias, uv_scale)`, each as `num / den`.
pub struct ConvParams {
    pub y_bias_num: u32,
    pub y_bias_den: u32,
    pub y_scale_num: u32,
    pub y_scale_den: u32,
    pub uv_bias_num: u32,
    pub uv_bias_den: u32,
    pub uv_scale_num: u32,
    pub uv_scale_den: u32,
}

/// The shader uniform values for each pixel format: for 8-bit NV12,
/// `y_bias = 16/255`, `y_scale = 255/219`, `uv_bias = 128/255`,
/// `uv_scale = 255/224`; for 10-bit P010, `64/1023`, `1023/876`,
/// `512/1023`, `1023/896`.
pub fn conv_params(fmt: crate::media::YuvPixFmt) -> (r: ConvParams)
    ensures
        fmt == crate::media::YuvPixFmt::Nv12 ==> {
            &&& r.y_bias_num == 16 && r.y_bias_den == 255
            &&& r.y_scale_num == 255 && r.y_scale_den == 219
            &&& r.uv_bias_num == 128 && r.uv_bias_den == 255
            &&& r.uv_scale_num == 255 && r.uv_scale_den == 224
        },
        fmt == crate::media::YuvPixFmt::P010 ==> {
            &&& r.y_bias_num == 64 && r.y_bias_den == 1023
            &&& r.y_scale_num == 1023 && r.y_scale_den == 876
            &&& r.uv_bias_num == 512 && r.uv_bias_den == 1023
            &&& r.uv_scale_num == 1023 && r.uv_scale_den == 896
        },
{
    match fmt {
        crate::media::YuvPixFmt::Nv12 => ConvParams {
            y_bias_num: 16,
            y_bias_den: 255,
            y_scale_num: 255,
            y_scale_den: 219,
            uv_bias_num: 128,
            uv_bias_den: 255,
            uv_scale_num: 255,
            uv_scale_den: 224,
        },
        crate::media::YuvPixFmt::P010 => ConvParams {
            y_bias_num: 64,
            y_bias_den: 1023,
            y_scale_num: 1023,
            y_scale_den: 876,
            uv_bias_num: 512,
            uv_bias_den: 1023,
            uv_scale_num: 1023,
            uv_scale_den: 896,
        },
    }
}

/// The fragment-shader modes of the preview pipeline.
#[derive(Clone, Copy, Debug, PartialEq, Eq, Structural)]
pub enum PreviewShaderMode {
    Solid,
    ShowY,
    UvDebug,
    Nv12,
}

impl Default for PreviewShaderMode {
    fn default() -> (r: Self)
        ensures
            r == PreviewShaderMode::Solid,
    {
        PreviewShaderMode::Solid
    }
}

/// The mode value the shader uniform carries: solid debug green, luma
/// grayscale, chroma mapped to red/green, and the production conversion.
pub fn shader_mode_index(mode: PreviewShaderMode) -> (r: u32)
    ensures
        mode == PreviewShaderMode::Solid ==> r == 0,
        mode == PreviewShaderMode::ShowY ==> r == 1,
        mode == PreviewShaderMode::UvDebug ==> r == 2,
        mode == PreviewShaderMode::Nv12 ==> r == 3,
{
    match mode {
        PreviewShaderMode::Solid => 0,
        PreviewShaderMode::ShowY => 1,
        PreviewShaderMode::UvDebug => 2,
        PreviewShaderMode::Nv12 => 3,
    }
}


} // verus!
