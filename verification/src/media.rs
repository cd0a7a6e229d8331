//! Decoded-media data model: pixel formats, frames, decoder configuration.

use vstd::prelude::*;

verus! {

/// YUV pixel layouts the engine understands: 8-bit NV12 and 10-bit P010
/// (16-bit little-endian samples, data left-justified in the top 10 bits).
#[derive(Clone, Copy, Debug, PartialEq, Eq, Hash, Structural)]
pub enum YuvPixFmt {
    Nv12,
    P010,
}

/// A decoded video frame: a full-resolution Y plane and a half-resolution
/// interleaved UV plane, with the media timestamp in microseconds.
#[derive(Clone, Debug)]
pub struct VideoFrame {
    pub format: YuvPixFmt,
    pub y_plane: Vec<u8>,
    pub uv_plane: Vec<u8>,
    pub width: u32,
    pub height: u32,
    pub timestamp_us: i64,
}

/// Static properties of a video source.
#[derive(Clone, Debug)]
pub struct VideoProperties {
    pub width: u32,
    pub height: u32,
    pub duration_us: i64,
    pub fps: crate::time::Fps,
    pub format: YuvPixFmt,
}

/// Decoder configuration.
#[derive(Clone, Debug)]
pub struct DecoderConfig {
    /// Enable hardware acceleration.
    pub hardware_acceleration: bool,
    /// Preferred pixel format.
    pub preferred_format: Option<YuvPixFmt>,
    /// Enable zero-copy mode (direct GPU surface import).
    pub zero_copy: bool,
}

impl Default for DecoderConfig {
    fn default() -> (r: Self)
        ensures
            r.hardware_acceleration,
            r.preferred_format is None,
            !r.zero_copy,
    {
        DecoderConfig { hardware_acceleration: true, preferred_format: None, zero_copy: false }
    }
}

/// Whether a platform decoder backend is linked into this build. This
/// library ships none: decoding is handed to the surrounding application,
/// which feeds decoded frames back in as plain values.
pub fn is_native_decoding_available() -> (r: bool)
    ensures
        !r,
{
    false
}

/// A decoded still image: tightly packed RGBA bytes.
#[derive(Clone, Debug)]
pub struct ColorImage {
    pub width: u32,
    pub height: u32,
    pub rgba: Vec<u8>,
}

impl ColorImage {
    /// Exactly four bytes per pixel.
    pub open spec fn wf(self) -> bool {
        self.rgba@.len() == 4 * self.width * self.height
    }
}

/// What decoding a byte stream as a still image yields: the RGBA pixels
/// and dimensions, or nothing for input no decoder accepts. Decoding is a
/// function of the bytes alone, so the result carries a name rather than
/// a page of format rules.
pub uninterp spec fn spec_decoded_image(bytes: Seq<u8>) -> Option<(Seq<u8>, u32, u32)>;

/// Relies on `image::load_from_memory` and `DynamicImage::to_rgba8`: the
/// decode is deterministic in the input bytes, a converted image holds
/// exactly four bytes per pixel of its reported dimensions, and malformed
/// input is refused.
#[verifier::external_body]
fn decode_image_bytes(bytes: &[u8]) -> (r: Option<(Vec<u8>, u32, u32)>)
    ensures
        (r is Some <==> spec_decoded_image(bytes@) is Some),
        r matches Some((rgba, w, h)) ==> spec_decoded_image(bytes@) == Some((rgba@, w, h))
            && rgba@.len() == 4 * w * h,
{
    match image::load_from_memory(bytes) {
        Ok(img) => {
            let rgba = img.to_rgba8();
            let (w, h) = rgba.dimensions();
            Some((rgba.into_raw(), w, h))
        },
        Err(_) => None,
    }
}

/// Relies on `image::RgbaImage::from_raw` and `image::imageops::resize`
/// (Lanczos3 filter): `from_raw` accepts an exactly sized buffer, and the
/// result has exactly the requested dimensions at four bytes per pixel.
/// The bounds on the requested size keep the output allocation within
/// what a vector can hold, so the call cannot panic.
#[verifier::external_body]
fn resize_rgba_lanczos(rgba: &Vec<u8>, w: u32, h: u32, nw: u32, nh: u32) -> (r: Option<Vec<u8>>)
    requires
        rgba@.len() == 4 * w * h,
        1 <= nw <= 16384,
        1 <= nh <= 16384,
    ensures
        r is Some,
        r matches Some(v) ==> v@.len() == 4 * nw * nh,
{
    let img = match image::RgbaImage::from_raw(w, h, rgba.clone()) {
        Some(img) => img,
        None => {
            return None;
        },
    };
    let resized = image::imageops::resize(&img, nw, nh, image::imageops::FilterType::Lanczos3);
    Some(resized.into_raw())
}

/// The largest size with the source's aspect ratio that fits inside the
/// requested bounds, never collapsing a side to zero.
pub open spec fn spec_fit_dimensions(w: int, h: int, max_w: int, max_h: int) -> (int, int) {
    if max_w * h <= max_h * w {
        let nh = max_w * h / w;
        (max_w, if nh >= 1 { nh } else { 1 })
    } else {
        let nw = max_h * w / h;
        (if nw >= 1 { nw } else { 1 }, max_h)
    }
}

pub fn fit_dimensions(w: u32, h: u32, max_w: u32, max_h: u32) -> (r: (u32, u32))
    requires
        1 <= w,
        1 <= h,
        1 <= max_w <= 16384,
        1 <= max_h <= 16384,
    ensures
        ({
            let (nw, nh) = r;
            &&& (nw as int, nh as int) == spec_fit_dimensions(w as int, h as int, max_w as int,
                max_h as int)
            &&& 1 <= nw <= max_w
            &&& 1 <= nh <= max_h
        }),
{
    proof {
        assert(max_w as int * h as int <= 16384 * 0xffff_ffff) by (nonlinear_arith)
            requires
                0 <= max_w as int <= 16384,
                0 <= h as int <= 0xffff_ffff,
        ;
        assert(max_h as int * w as int <= 16384 * 0xffff_ffff) by (nonlinear_arith)
            requires
                0 <= max_h as int <= 16384,
                0 <= w as int <= 0xffff_ffff,
        ;
    }
    let a: u64 = (max_w as u64) * (h as u64);
    let b: u64 = (max_h as u64) * (w as u64);
    if a <= b {
        let nh_raw: u64 = a / (w as u64);
        proof {
            vstd::arithmetic::div_mod::lemma_multiply_divide_le(a as int, w as int,
                max_h as int);
            assert(a as int <= w as int * max_h as int) by (nonlinear_arith)
                requires
                    a as int == max_w as int * h as int,
                    b as int == max_h as int * w as int,
                    a as int <= b as int,
            ;
        }
        let nh: u32 = if nh_raw >= 1 {
            nh_raw as u32
        } else {
            1
        };
        (max_w, nh)
    } else {
        let nw_raw: u64 = b / (h as u64);
        proof {
            assert((b as int) < h as int * max_w as int) by (nonlinear_arith)
                requires
                    b as int == max_h as int * w as int,
                    a as int == max_w as int * h as int,
                    (b as int) < a as int,
            ;
            vstd::arithmetic::div_mod::lemma_multiply_divide_lt(b as int, h as int,
                max_w as int);
        }
        let nw: u32 = if nw_raw >= 1 {
            nw_raw as u32
        } else {
            1
        };
        (nw, max_h)
    }
}

/// Decode a still image and scale it, aspect preserved, to fit inside the
/// requested bounds. Succeeds exactly when the bytes decode to an image
/// with positive dimensions; the result carries four bytes per pixel at
/// the fitted size.
pub fn decode_image_scaled(bytes: &[u8], max_w: u32, max_h: u32) -> (r: Option<ColorImage>)
    requires
        1 <= max_w <= 16384,
        1 <= max_h <= 16384,
    ensures
        (r is Some <==> (spec_decoded_image(bytes@) matches Some((d, w, h)) && w >= 1 && h
            >= 1)),
        r matches Some(img) ==> ({
            let (d, w, h) = spec_decoded_image(bytes@)->0;
            &&& img.wf()
            &&& (img.width as int, img.height as int) == spec_fit_dimensions(
                w as int,
                h as int,
                max_w as int,
                max_h as int,
            )
            &&& 1 <= img.width <= max_w
            &&& 1 <= img.height <= max_h
        }),
{
    let (rgba, w, h) = match decode_image_bytes(bytes) {
        Some(d) => d,
        None => {
            return None;
        },
    };
    if w < 1 || h < 1 {
        return None;
    }
    let (nw, nh) = fit_dimensions(w, h, max_w, max_h);
    let scaled = match resize_rgba_lanczos(&rgba, w, h, nw, nh) {
        Some(s) => s,
        None => {
            proof {
                assert(false);
            }
            return None;
        },
    };
    Some(ColorImage { width: nw, height: nh, rgba: scaled })
}

/// Whether `buf[i..]` starts the JPEG start-of-image marker.
pub open spec fn spec_soi_at(buf: Seq<u8>, i: int) -> bool {
    0 <= i && i + 1 < buf.len() && buf[i] == 0xff && buf[i + 1] == 0xd8
}

/// Whether `buf[i..]` starts the JPEG end-of-image marker.
pub open spec fn spec_eoi_at(buf: Seq<u8>, i: int) -> bool {
    0 <= i && i + 1 < buf.len() && buf[i] == 0xff && buf[i + 1] == 0xd9
}

/// Find one complete JPEG picture inside a byte stream: the first
/// start-of-image marker, and the first end-of-image marker at or after it.
/// Returns the half-open byte range of the picture.
pub fn find_jpeg_frame(buf: &[u8]) -> (r: Option<(usize, usize)>)
    requires
        buf.len() < usize::MAX,
    ensures
        r matches Some((s, e)) ==> {
            &&& s + 2 <= e <= buf@.len()
            &&& spec_soi_at(buf@, s as int)
            &&& spec_eoi_at(buf@, e - 2)
            &&& forall|j: int| 0 <= j < s ==> !spec_soi_at(buf@, j)
            &&& forall|j: int| s <= j < e - 2 ==> !spec_eoi_at(buf@, j)
        },
        r is None ==> {
            ||| forall|j: int| !spec_soi_at(buf@, j)
            ||| exists|s: int|
                {
                    &&& #[trigger] spec_soi_at(buf@, s)
                    &&& (forall|j: int| 0 <= j < s ==> !spec_soi_at(buf@, j))
                    &&& (forall|j: int| s <= j ==> !spec_eoi_at(buf@, j))
                }
        },
{
    let n = buf.len();
    if n < 2 {
        return None;
    }
    let mut start: Option<usize> = None;
    let mut i: usize = 0;
    while i + 1 < n
        invariant
            n == buf@.len(),
            n < usize::MAX,
            n >= 2,
            i <= n,
            start matches Some(s) ==> {
                &&& s as int + 1 < n
                &&& spec_soi_at(buf@, s as int)
                &&& s <= i
                &&& forall|j: int| 0 <= j < s ==> !spec_soi_at(buf@, j)
                &&& forall|j: int| s <= j < i ==> !spec_eoi_at(buf@, j)
            },
            start is None ==> forall|j: int| 0 <= j < i ==> !spec_soi_at(buf@, j),
        decreases n - i,
    {
        if start.is_none() && buf[i] == 0xff && buf[i + 1] == 0xd8 {
            start = Some(i);
        }
        if let Some(s) = start {
            if buf[i] == 0xff && buf[i + 1] == 0xd9 {
                return Some((s, i + 2));
            }
        }
        i = i + 1;
    }
    proof {
        assert(forall|j: int| j + 1 >= n ==> !spec_eoi_at(buf@, j));
        assert(forall|j: int| j + 1 >= n ==> !spec_soi_at(buf@, j));
    }
    None
}

} // verus!
