//! Asset bookkeeping helpers: the catalog row, path classification, hex
//! color parsing, and the common-ancestor rule used when importing files.

use vstd::prelude::*;
use vstd::string::StringSliceAdditionalSpecFns;

verus! {

/// One row of the asset catalog, as the preview consumes it.
#[derive(Clone, Debug)]
pub struct AssetRow {
    pub id: String,
    pub kind: String,
    pub src_abs: String,
    pub width: Option<i64>,
    pub height: Option<i64>,
    pub duration_frames: Option<i64>,
    pub fps_num: Option<i64>,
    pub fps_den: Option<i64>,
}

/// ASCII lower-casing of one byte.
pub open spec fn spec_to_lower(b: u8) -> u8 {
    if 65 <= b <= 90 {
        (b + 32) as u8
    } else {
        b
    }
}

fn to_lower(b: u8) -> (r: u8)
    ensures
        r == spec_to_lower(b),
{
    if 65 <= b && b <= 90 {
        b + 32
    } else {
        b
    }
}

/// Whether the byte sequence ends with the given suffix, compared with
/// ASCII case folded away.
pub open spec fn spec_ends_with_ci(s: Seq<u8>, suffix: Seq<u8>) -> bool {
    &&& s.len() >= suffix.len()
    &&& forall|i: int|
        0 <= i < suffix.len() ==> spec_to_lower(s[s.len() - suffix.len() + i]) == spec_to_lower(
            #[trigger] suffix[i],
        )
}

fn ends_with_ci(s: &[u8], suffix: &[u8]) -> (r: bool)
    ensures
        r == spec_ends_with_ci(s@, suffix@),
{
    let n = s.len();
    let m = suffix.len();
    if n < m {
        return false;
    }
    let mut i: usize = 0;
    while i < m
        invariant
            n == s@.len(),
            m == suffix@.len(),
            m <= n,
            i <= m,
            forall|j: int|
                0 <= j < i ==> spec_to_lower(s@[n - m + j]) == spec_to_lower(
                    #[trigger] suffix@[j],
                ),
        decreases m - i,
    {
        if to_lower(s[n - m + i]) != to_lower(suffix[i]) {
            return false;
        }
        i = i + 1;
    }
    true
}

/// Whether a source path names a still image the preview should treat as
/// one: a `.png`, `.jpg` or `.jpeg` ending, any letter case (the suffixes
/// are spelled as their ASCII byte values).
pub open spec fn spec_is_image_path(bytes: Seq<u8>) -> bool {
    ||| spec_ends_with_ci(bytes, seq![46u8, 112u8, 110u8, 103u8])
    ||| spec_ends_with_ci(bytes, seq![46u8, 106u8, 112u8, 103u8])
    ||| spec_ends_with_ci(bytes, seq![46u8, 106u8, 112u8, 101u8, 103u8])
}

pub fn is_image_path(path: &str) -> (r: bool)
    ensures
        r == spec_is_image_path(path.spec_bytes()),
{
    let bytes = path.as_bytes();
    let png: Vec<u8> = vec![46u8, 112u8, 110u8, 103u8];
    let jpg: Vec<u8> = vec![46u8, 106u8, 112u8, 103u8];
    let jpeg: Vec<u8> = vec![46u8, 106u8, 112u8, 101u8, 103u8];
    proof {
        assert(png@ =~= seq![46u8, 112u8, 110u8, 103u8]);
        assert(jpg@ =~= seq![46u8, 106u8, 112u8, 103u8]);
        assert(jpeg@ =~= seq![46u8, 106u8, 112u8, 101u8, 103u8]);
    }
    ends_with_ci(bytes, png.as_slice()) || ends_with_ci(bytes, jpg.as_slice()) || ends_with_ci(
        bytes,
        jpeg.as_slice(),
    )
}

/// Value of an ASCII hex digit, if the byte is one.
pub open spec fn spec_hex_digit(b: u8) -> Option<u8> {
    if 48 <= b <= 57 {
        Some((b - 48) as u8)
    } else if 97 <= b <= 102 {
        Some((b - 87) as u8)
    } else if 65 <= b <= 70 {
        Some((b - 55) as u8)
    } else {
        None
    }
}

fn hex_digit(b: u8) -> (r: Option<u8>)
    ensures
        r == spec_hex_digit(b),
        r matches Some(v) ==> v < 16,
{
    if 48 <= b && b <= 57 {
        Some(b - 48)
    } else if 97 <= b && b <= 102 {
        Some(b - 87)
    } else if 65 <= b && b <= 70 {
        Some(b - 55)
    } else {
        None
    }
}

/// The channel value of two hex digits, when both bytes are hex digits.
pub open spec fn spec_hex_pair(hi: u8, lo: u8) -> Option<u8> {
    match (spec_hex_digit(hi), spec_hex_digit(lo)) {
        (Some(h), Some(l)) => Some((h * 16 + l) as u8),
        _ => None,
    }
}

/// A byte run with every leading `#` removed.
pub open spec fn spec_strip_hash(b: Seq<u8>) -> Seq<u8>
    decreases b.len(),
{
    if b.len() > 0 && b[0] == 35 {
        spec_strip_hash(b.skip(1))
    } else {
        b
    }
}

/// Parse an `rrggbb` color into its red, green and blue bytes: any run of
/// leading `#` marks is stripped, and the hex digits may use either case.
pub fn parse_hex_color(color: &str) -> (r: Option<(u8, u8, u8)>)
    ensures
        ({
            let t = spec_strip_hash(color.spec_bytes());
            if t.len() == 6 {
                match (
                    spec_hex_pair(t[0], t[1]),
                    spec_hex_pair(t[2], t[3]),
                    spec_hex_pair(t[4], t[5]),
                ) {
                    (Some(red), Some(green), Some(blue)) => r == Some((red, green, blue)),
                    _ => r is None,
                }
            } else {
                r is None
            }
        }),
{
    let bytes = path_bytes_helper(color);
    let n = bytes.len();
    let mut start: usize = 0;
    proof {
        assert(bytes@.skip(0int) =~= bytes@);
    }
    while start < n && bytes[start] == 35
        invariant
            n == bytes@.len(),
            bytes@ == color.spec_bytes(),
            start <= n,
            spec_strip_hash(color.spec_bytes()) == spec_strip_hash(bytes@.skip(start as int)),
        decreases n - start,
    {
        proof {
            assert(bytes@.skip(start as int).skip(1) =~= bytes@.skip(start + 1));
        }
        start = start + 1;
    }
    proof {
        assert(spec_strip_hash(bytes@.skip(start as int)) == bytes@.skip(start as int));
        assert(forall|i: int|
            0 <= i < n - start ==> bytes@.skip(start as int)[i] == bytes@[start + i]);
    }
    if n - start != 6 {
        return None;
    }
    let h0 = hex_digit(bytes[start]);
    let h1 = hex_digit(bytes[start + 1]);
    let h2 = hex_digit(bytes[start + 2]);
    let h3 = hex_digit(bytes[start + 3]);
    let h4 = hex_digit(bytes[start + 4]);
    let h5 = hex_digit(bytes[start + 5]);
    match (h0, h1, h2, h3, h4, h5) {
        (Some(a), Some(b), Some(c), Some(d), Some(e), Some(f)) => Some(
            (a * 16 + b, c * 16 + d, e * 16 + f),
        ),
        _ => None,
    }
}

fn path_bytes_helper(s: &str) -> (r: &[u8])
    ensures
        r@ == s.spec_bytes(),
{
    s.as_bytes()
}

/// The longest common prefix of a set of paths, each given as its list of
/// components; the import dialog anchors relative paths at it.
pub fn nearest_common_ancestor(paths: &Vec<Vec<String>>) -> (r: Option<Vec<String>>)
    ensures
        (r is Some <==> paths@.len() > 0),
        r matches Some(p) ==> {
            &&& forall|i: int|
                0 <= i < paths@.len() ==> p@.len() <= (#[trigger] paths@[i])@.len()
            &&& forall|i: int, k: int|
                #![trigger paths@[i]@[k]]
                0 <= i < paths@.len() && 0 <= k < p@.len() ==> (paths@[i]@[k])@ == (p@[k])@
            &&& (p@.len() < paths@[0]@.len() ==> exists|i: int|
                0 <= i < paths@.len() && ((#[trigger] paths@[i])@.len() == p@.len() || (
                paths@[i]@[p@.len() as int])@ != (paths@[0]@[p@.len() as int])@))
        },
{
    if paths.len() == 0 {
        return None;
    }
    let first = &paths[0];
    let mut keep: usize = first.len();
    let mut i: usize = 1;
    while i < paths.len()
        invariant
            paths@.len() > 0,
            first == &paths@[0],
            keep <= first@.len(),
            i <= paths@.len(),
            forall|j: int| 0 <= j < i ==> keep <= (#[trigger] paths@[j])@.len(),
            forall|j: int, k: int|
                #![trigger paths@[j]@[k]]
                0 <= j < i && 0 <= k < keep ==> (paths@[j]@[k])@ == (first@[k])@,
            keep < first@.len() ==> exists|j: int|
                0 <= j < paths@.len() && ((#[trigger] paths@[j])@.len() == keep || (
                paths@[j]@[keep as int])@ != (first@[keep as int])@),
        decreases paths@.len() - i,
    {
        let other = &paths[i];
        let mut m: usize = 0;
        let lim = if other.len() < keep {
            other.len()
        } else {
            keep
        };
        while m < lim
            invariant
                paths@.len() > 0,
                i < paths@.len(),
                first == &paths@[0],
                other == &paths@[i as int],
                keep <= first@.len(),
                lim <= keep,
                lim <= other@.len(),
                lim == if other@.len() < keep {
                    other@.len() as int
                } else {
                    keep as int
                },
                m <= lim,
                forall|k: int| 0 <= k < m ==> ((other@[k])@ == (first@[k])@),
            ensures
                m <= lim,
                forall|k: int| 0 <= k < m ==> ((other@[k])@ == (first@[k])@),
                m < lim ==> (other@[m as int])@ != (first@[m as int])@,
            decreases lim - m,
        {
            if !(other[m] == first[m]) {
                break;
            }
            m = m + 1;
        }
        if m < keep {
            keep = m;
            proof {
                if m < other@.len() {
                    assert((paths@[i as int]@[keep as int])@ != (first@[keep as int])@);
                } else {
                    assert(paths@[i as int]@.len() == keep);
                }
            }
        }
        i = i + 1;
    }
    let mut out: Vec<String> = Vec::new();
    let mut k: usize = 0;
    while k < keep
        invariant
            keep <= first@.len(),
            first == &paths@[0],
            paths@.len() > 0,
            k <= keep,
            out@.len() == k,
            forall|j: int| 0 <= j < k ==> ((#[trigger] out@[j])@ == (first@[j])@),
        decreases keep - k,
    {
        out.push(first[k].clone());
        k = k + 1;
    }
    proof {
        assert forall|i2: int, k2: int|
            #![trigger paths@[i2]@[k2]]
            0 <= i2 < paths@.len() && 0 <= k2 < out@.len() implies (paths@[i2]@[k2])@
            == (out@[k2])@ by {
            assert(((paths@[i2])@[k2])@ == (first@[k2])@);
        }
    }
    Some(out)
}

/// Where the extension of a path's file name begins: the last `.` that
/// comes after the last `/`, if there is one.
pub open spec fn spec_dot_index(cs: Seq<char>) -> Option<int>
    decreases cs.len(),
{
    if cs.len() == 0 {
        None
    } else if cs.last() == '.' {
        Some(cs.len() - 1)
    } else if cs.last() == '/' {
        None
    } else {
        spec_dot_index(cs.drop_last())
    }
}

/// Rewrite a path's extension: everything from the file name's last `.`
/// on is replaced by `.` and the new extension; a name without one gets
/// the extension appended.
pub fn adjust_extension(path: &str, ext: &str) -> (r: String)
    ensures
        r@ == (match spec_dot_index(path@) {
            Some(i) => path@.subrange(0, i),
            None => path@,
        }) + seq!['.'] + ext@,
{
    let n = path.unicode_len();
    let mut idx: usize = n;
    let mut found: Option<usize> = None;
    proof {
        assert(path@.take(n as int) =~= path@);
    }
    while idx > 0
        invariant
            n == path@.len(),
            idx <= n,
            match found {
                Some(d) => spec_dot_index(path@) == Some(d as int) && d < n && idx == 0,
                None => spec_dot_index(path@) == spec_dot_index(path@.take(idx as int)),
            },
        decreases idx,
    {
        let c = path.get_char(idx - 1);
        proof {
            assert(path@.take(idx as int).last() == path@[idx - 1]);
            assert(path@.take(idx as int).drop_last() =~= path@.take(idx - 1));
        }
        if c == '.' {
            proof {
                assert(path@.take(idx as int).len() == idx);
                assert(spec_dot_index(path@.take(idx as int)) == Some(idx - 1));
            }
            found = Some(idx - 1);
            idx = 0;
        } else if c == '/' {
            idx = 0;
            proof {
                assert(path@.take(0int) =~= Seq::<char>::empty());
            }
        } else {
            idx = idx - 1;
        }
    }
    proof {
        match found {
            None => {
                assert(path@.take(0int) =~= Seq::<char>::empty());
            },
            Some(_) => {},
        }
    }
    let stem: &str = match found {
        Some(d) => path.substring_char(0, d),
        None => path,
    };
    let mut out = stem.to_owned();
    out.append(".");
    out.append(ext);
    proof {
        reveal_strlit(".");
        assert("."@ =~= seq!['.']);
        match found {
            Some(d) => {
                assert(stem@ == path@.subrange(0, d as int));
            },
            None => {},
        }
    }
    out
}

} // verus!
