//! Encoding still frames into a dynamic HEIC package: the order in which frames become
//! container images, the keys the metadata gives each image, and the even-sized RGB planes
//! handed to the HEVC encoder.

use vstd::prelude::*;

use std::collections::HashMap;

use crate::apple::{
    apple_keys_from_still_set, export_index, exportable, first_unexportable, incompatible_key_message, kind_flavor,
};
use crate::dynamic::{DynamicStillKey, DynamicStillSet};
use crate::heic::HeicEncodeError;
use crate::xmp::{AppleMetadataFlavor, MetadataError};

verus! {

/// One RGBA frame paired with its Apple image index and domain key.
#[derive(Clone, Debug)]
pub struct EncodeFrame {
    /// Requested image index; frames are encoded in ascending index order.
    pub index: u32,
    /// Domain key written into Apple metadata.
    pub key: DynamicStillKey,
    /// Pixels to encode (RGB planes; alpha discarded).
    pub image: RgbaPixels,
}

/// Row-major RGBA pixels, four bytes per pixel.
#[derive(Clone, Debug)]
pub struct RgbaPixels {
    /// Width in pixels.
    pub width: u32,
    /// Height in pixels.
    pub height: u32,
    /// `width * height * 4` bytes.
    pub data: Vec<u8>,
}

/// Frame `a` is encoded before frame `b`: a smaller index first, and among equal indices
/// the frame that came first.
pub open spec fn encodes_before(frames: Seq<EncodeFrame>, a: int, b: int) -> bool {
    frames[a].index < frames[b].index || (frames[a].index == frames[b].index && a < b)
}

/// `order` lists the positions of `frames` in encode order: every position once, by
/// ascending image index, equal indices keeping their input order.
pub open spec fn is_encode_order(frames: Seq<EncodeFrame>, order: Seq<usize>) -> bool {
    &&& order.len() == frames.len()
    &&& forall|k: int| 0 <= k < order.len() ==> #[trigger] order[k] < frames.len()
    &&& forall|a: int, b: int|
        0 <= a < b < order.len() ==> encodes_before(frames, #[trigger] order[a] as int, #[trigger] order[b] as int)
}

/// Positions of `frames` in encode order: a stable sort by image index.
pub fn encode_order(frames: &[EncodeFrame]) -> (r: Vec<usize>)
    ensures
        is_encode_order(frames@, r@),
{
    let mut order: Vec<usize> = Vec::new();
    let mut i: usize = 0;
    while i < frames.len()
        invariant
            i <= frames@.len(),
            order@.len() == i,
            forall|k: int| 0 <= k < i ==> #[trigger] order@[k] < i,
            forall|a: int, b: int|
                0 <= a < b < i ==> encodes_before(frames@, #[trigger] order@[a] as int, #[trigger] order@[b] as int),
        decreases frames@.len() - i,
    {
        let index = frames[i].index;
        let mut pos: usize = 0;
        while pos < order.len() && frames[order[pos]].index <= index
            invariant
                i < frames@.len(),
                index == frames@[i as int].index,
                pos <= order@.len(),
                order@.len() == i,
                forall|k: int| 0 <= k < i ==> #[trigger] order@[k] < i,
                forall|k: int| 0 <= k < pos ==> frames@[#[trigger] order@[k] as int].index <= index,
            decreases order@.len() - pos,
        {
            pos = pos + 1;
        }
        let ghost before = order@;
        proof {
            assert forall|k: int| pos <= k < i implies frames@[#[trigger] before[k] as int].index > index by {
                if pos < k {
                    assert(encodes_before(frames@, before[pos as int] as int, before[k] as int));
                }
            }
        }
        order.insert(pos, i);
        proof {
            assert forall|k: int| 0 <= k < i + 1 implies #[trigger] order@[k] < i + 1 by {
                if k < pos {
                    assert(order@[k] == before[k]);
                } else if k > pos {
                    assert(order@[k] == before[k - 1]);
                }
            }
            assert forall|a: int, b: int| 0 <= a < b < i + 1 implies encodes_before(
                frames@,
                #[trigger] order@[a] as int,
                #[trigger] order@[b] as int,
            ) by {
                if b < pos {
                    assert(order@[a] == before[a] && order@[b] == before[b]);
                } else if b == pos {
                    assert(order@[a] == before[a]);
                    assert(frames@[before[a] as int].index <= index);
                } else if a < pos {
                    assert(order@[a] == before[a] && order@[b] == before[b - 1]);
                } else if a == pos {
                    assert(order@[b] == before[b - 1]);
                    assert(frames@[before[b - 1] as int].index > index);
                } else {
                    assert(order@[a] == before[a - 1] && order@[b] == before[b - 1]);
                }
            }
        }
        i = i + 1;
    }
    order
}

/// Keys by container image ordinal: the image at ordinal `k` carries the key of the `k`-th
/// frame in encode order.
pub open spec fn ordinal_keys(frames: Seq<EncodeFrame>, order: Seq<usize>) -> Map<u32, DynamicStillKey> {
    Map::new(|k: u32| (k as int) < order.len(), |k: u32| frames[order[k as int] as int].key)
}

/// Image ordinal of the `k`-th encoded frame; ordinals beyond `u32` saturate.
pub open spec fn ordinal(k: int) -> u32 {
    if k <= u32::MAX {
        k as u32
    } else {
        u32::MAX
    }
}

/// Metadata keys of the first `n` frames in encode order, by image ordinal; a later frame
/// replaces an earlier one under the same ordinal.
pub open spec fn encoded_keys(frames: Seq<EncodeFrame>, order: Seq<usize>, n: nat) -> Map<u32, DynamicStillKey>
    decreases n,
{
    if n == 0 {
        Map::empty()
    } else {
        encoded_keys(frames, order, (n - 1) as nat).insert(ordinal(n - 1), frames[order[n - 1] as int].key)
    }
}

proof fn lemma_encoded_keys_contiguous(frames: Seq<EncodeFrame>, order: Seq<usize>, n: nat)
    requires
        n <= order.len(),
        n <= u32::MAX + 1,
    ensures
        encoded_keys(frames, order, n) =~= Map::new(
            |j: u32| (j as int) < n,
            |j: u32| frames[order[j as int] as int].key,
        ),
    decreases n,
{
    if n > 0 {
        lemma_encoded_keys_contiguous(frames, order, (n - 1) as nat);
    }
}

/// How frames become container images: their encode order, and the metadata keys by image
/// ordinal. The decoder enumerates images as `0..n`, so metadata speaks of ordinals, not of
/// the requested indices.
#[derive(Clone, Debug)]
pub struct EncodePlan {
    /// Frame positions in encode order.
    pub order: Vec<usize>,
    /// Metadata keys by container image ordinal.
    pub keys_by_index: HashMap<u32, DynamicStillKey>,
}

/// Plans a dynamic HEIC encode; no frames is an error.
pub fn plan_heic_encode(frames: &[EncodeFrame]) -> (r: Result<EncodePlan, HeicEncodeError>)
    ensures
        frames@.len() == 0 ==> (r matches Err(HeicEncodeError::NoFrames)),
        frames@.len() > 0 ==> (r matches Ok(plan) && {
            &&& is_encode_order(frames@, plan.order@)
            &&& plan.keys_by_index@ == encoded_keys(frames@, plan.order@, frames@.len())
            &&& frames@.len() <= u32::MAX + 1 ==> plan.keys_by_index@ == ordinal_keys(frames@, plan.order@)
        }),
{
    if frames.len() == 0 {
        return Err(HeicEncodeError::NoFrames);
    }
    let order = encode_order(frames);
    let mut keys_by_index: HashMap<u32, DynamicStillKey> = HashMap::new();
    let mut k: usize = 0;
    while k < order.len()
        invariant
            is_encode_order(frames@, order@),
            k <= order@.len(),
            keys_by_index@ == encoded_keys(frames@, order@, k as nat),
        decreases order@.len() - k,
    {
        let key = frames[order[k]].key;
        let image_ordinal: u32 = if k <= 4294967295usize {
            k as u32
        } else {
            4294967295u32
        };
        keys_by_index.insert(image_ordinal, key);
        k = k + 1;
    }
    proof {
        if frames@.len() <= u32::MAX + 1 {
            lemma_encoded_keys_contiguous(frames@, order@, order@.len());
            assert(keys_by_index@ =~= ordinal_keys(frames@, order@));
        }
    }
    Ok(EncodePlan { order, keys_by_index })
}

/// A length padded up to an even number, as some HEVC encoders require.
pub open spec fn even_padded(n: u32) -> int {
    n + n % 2
}

/// The source pixel that padded-plane position `k` (row-major, `padded_width` per row) shows:
/// positions beyond the source's right or bottom edge repeat the last column or row.
pub open spec fn padded_source_pixel(width: int, height: int, padded_width: int, k: int) -> int {
    let x = k % padded_width;
    let y = k / padded_width;
    let sx = if x < width {
        x
    } else {
        width - 1
    };
    let sy = if y < height {
        y
    } else {
        height - 1
    };
    sy * width + sx
}

/// Separate red, green and blue planes, row-major without padding between rows.
#[derive(Clone, Debug)]
pub struct RgbPlanes {
    /// Plane width in pixels.
    pub width: u32,
    /// Plane height in pixels.
    pub height: u32,
    /// Red samples.
    pub red: Vec<u8>,
    /// Green samples.
    pub green: Vec<u8>,
    /// Blue samples.
    pub blue: Vec<u8>,
}

proof fn lemma_padded_area(w: int, h: int, pw: int, ph: int)
    requires
        w >= 1,
        h >= 1,
        w <= pw <= w + 1,
        h <= ph <= h + 1,
    ensures
        pw * ph <= 4 * (w * h),
        pw >= 1 && ph >= 1,
{
    assert(pw * ph <= (2 * w) * (2 * h)) by (nonlinear_arith)
        requires
            1 <= pw <= 2 * w,
            1 <= ph <= 2 * h,
    ;
    assert((2 * w) * (2 * h) == 4 * (w * h)) by (nonlinear_arith);
}

proof fn lemma_pixel_in_bounds(w: int, h: int, sx: int, sy: int)
    requires
        0 <= sx < w,
        0 <= sy < h,
    ensures
        0 <= sy * w + sx < w * h,
{
    assert(sy * w + sx < w * h) by (nonlinear_arith)
        requires
            0 <= sx < w,
            0 <= sy < h,
    ;
    assert(0 <= sy * w) by (nonlinear_arith)
        requires
            0 <= sy,
            0 <= w,
    ;
}

/// Splits RGBA pixels into RGB planes with both dimensions padded to even lengths by
/// repeating the last column and row; alpha is dropped. An empty image is an error.
pub fn even_rgb_planes(source: &RgbaPixels) -> (r: Result<RgbPlanes, HeicEncodeError>)
    requires
        source.data@.len() == source.width * source.height * 4,
        even_padded(source.width) <= u32::MAX,
        even_padded(source.height) <= u32::MAX,
    ensures
        source.width == 0 || source.height == 0 ==> (r matches Err(HeicEncodeError::EmptyImage)),
        source.width > 0 && source.height > 0 ==> (r matches Ok(planes) && {
            let w = source.width as int;
            let h = source.height as int;
            let pw = planes.width as int;
            let n = planes.width * planes.height;
            &&& pw == even_padded(source.width)
            &&& planes.height == even_padded(source.height)
            &&& planes.red@.len() == n && planes.green@.len() == n && planes.blue@.len() == n
            &&& forall|k: int| 0 <= k < n ==> {
                let p = padded_source_pixel(w, h, pw, k);
                &&& #[trigger] planes.red@[k] == source.data@[4 * p]
                &&& planes.green@[k] == source.data@[4 * p + 1]
                &&& planes.blue@[k] == source.data@[4 * p + 2]
            }
        }),
{
    let width = source.width;
    let height = source.height;
    if width == 0 || height == 0 {
        return Err(HeicEncodeError::EmptyImage);
    }
    let padded_width: u32 = width + width % 2;
    let padded_height: u32 = height + height % 2;
    let bytes = source.data.len();
    proof {
        lemma_padded_area(width as int, height as int, padded_width as int, padded_height as int);
        assert(4 * (width * height) == width * height * 4) by (nonlinear_arith);
    }
    let pw = padded_width as usize;
    let total: usize = pw * padded_height as usize;
    let w = width as usize;
    let h = height as usize;
    let mut red: Vec<u8> = Vec::new();
    let mut green: Vec<u8> = Vec::new();
    let mut blue: Vec<u8> = Vec::new();
    let mut k: usize = 0;
    while k < total
        invariant
            source.data@.len() == w * h * 4,
            bytes == source.data@.len(),
            w == width && h == height && pw == padded_width,
            1 <= w && 1 <= h && 1 <= pw,
            total == padded_width * padded_height,
            k <= total,
            red@.len() == k && green@.len() == k && blue@.len() == k,
            forall|j: int| 0 <= j < k ==> {
                let p = padded_source_pixel(w as int, h as int, pw as int, j);
                &&& #[trigger] red@[j] == source.data@[4 * p]
                &&& green@[j] == source.data@[4 * p + 1]
                &&& blue@[j] == source.data@[4 * p + 2]
            },
        decreases total - k,
    {
        let x = k % pw;
        let y = k / pw;
        let sx = if x < w {
            x
        } else {
            w - 1
        };
        let sy = if y < h {
            y
        } else {
            h - 1
        };
        proof {
            lemma_pixel_in_bounds(w as int, h as int, sx as int, sy as int);
        }
        let pixel = sy * w + sx;
        let offset = 4 * pixel;
        red.push(source.data[offset]);
        green.push(source.data[offset + 1]);
        blue.push(source.data[offset + 2]);
        k = k + 1;
    }
    Ok(RgbPlanes { width: padded_width, height: padded_height, red, green, blue })
}

/// The frame that still-set frame `i` becomes: its export index, its key, and image `i`.
pub open spec fn still_encode_frame(set: DynamicStillSet, images: Seq<RgbaPixels>, i: int) -> EncodeFrame {
    EncodeFrame { index: export_index(set.frames@[i], i), key: set.frames@[i].key, image: images[i] }
}

/// Pairs a still set's frames with their images (in frame order) for encoding, under the
/// flavor the set's schedule kind exports as. The image count must match the frame count,
/// and every key must be exportable under that flavor.
pub fn still_set_encode_frames(set: &DynamicStillSet, images: Vec<RgbaPixels>) -> (r: Result<
    (AppleMetadataFlavor, Vec<EncodeFrame>),
    HeicEncodeError,
>)
    ensures
        images@.len() != set.frames@.len() ==> (r matches Err(HeicEncodeError::FrameCountMismatch { frames, images: n })
            && frames == set.frames@.len() && n == images@.len()),
        images@.len() == set.frames@.len() ==> {
            let frames = set.frames@;
            let flavor = kind_flavor(set.schedule_kind);
            &&& frames.len() == 0 ==> (r matches Err(HeicEncodeError::Metadata(MetadataError::EmptySchedule)))
            &&& forall|i: int| #[trigger] first_unexportable(frames, flavor, i) ==> (r matches Err(
                HeicEncodeError::Metadata(MetadataError::Plist(msg)),
            ) && msg@ == incompatible_key_message(frames, flavor, i))
            &&& (forall|i: int| 0 <= i < frames.len() ==> exportable(flavor, #[trigger] frames[i].key)) && frames.len()
                > 0 ==> (r matches Ok((f, encoded)) && f == flavor && encoded@.len() == frames.len() && forall|i: int|
                0 <= i < frames.len() ==> #[trigger] encoded@[i] == still_encode_frame(*set, images@, i))
        },
{
    if images.len() != set.frames.len() {
        return Err(HeicEncodeError::FrameCountMismatch { frames: set.frames.len(), images: images.len() });
    }
    let flavor = match apple_keys_from_still_set(set) {
        Ok((flavor, _)) => flavor,
        Err(e) => return Err(HeicEncodeError::Metadata(e)),
    };
    let ghost all_images = images@;
    let mut remaining = images;
    let mut encoded: Vec<EncodeFrame> = Vec::new();
    let mut order: usize = 0;
    while order < set.frames.len()
        invariant
            all_images.len() == set.frames@.len(),
            order <= set.frames@.len(),
            remaining@ == all_images.subrange(order as int, all_images.len() as int),
            encoded@.len() == order,
            forall|i: int| 0 <= i < order ==> #[trigger] encoded@[i] == still_encode_frame(*set, all_images, i),
        decreases set.frames@.len() - order,
    {
        let frame = set.frames[order];
        let index: u32 = match frame.source_index {
            Some(i) => i,
            None => if order <= 4294967295usize {
                order as u32
            } else {
                4294967295u32
            },
        };
        let image = remaining.remove(0);
        encoded.push(EncodeFrame { index, key: frame.key, image });
        proof {
            assert(remaining@ =~= all_images.subrange(order + 1, all_images.len() as int));
        }
        order = order + 1;
    }
    Ok((flavor, encoded))
}

} // verus!
