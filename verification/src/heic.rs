//! Dynamic HEIC packages: which container images carry keyed frames, and the still-set
//! template built from an import. Pixel data stays with the image decoder.

use vstd::prelude::*;

use std::collections::HashMap;

use crate::dynamic::{
    key_label, pad2, pad2_text, reports, still_set_problem, DynamicScheduleKind, DynamicStillError, DynamicStillFrame,
    DynamicStillKey, DynamicStillSet,
};
use crate::ids::{hyphenated, AssetId, ProfileId};
use crate::xmp::{AppleMetadataFlavor, MetadataError};

verus! {

/// HEIC import failures.
#[derive(Debug)]
pub enum HeicImportError {
    /// Filesystem failure.
    Io(std::io::Error),
    /// XMP packet missing from the container.
    MissingXmp,
    /// Apple metadata parse failure.
    Metadata(MetadataError),
    /// libheif failure.
    Heif(String),
    /// Container had no top-level images.
    NoImages,
    /// Decoded image lacked interleaved RGBA pixels.
    MissingPixels,
    /// Metadata produced no keyed frames.
    EmptySchedule,
    /// Caller supplied the wrong number of asset ids.
    AssetCountMismatch { frames: usize, assets: usize },
    /// Domain validation failure after import.
    DynamicStill(DynamicStillError),
}

/// HEIC encode failures.
#[derive(Debug)]
pub enum HeicEncodeError {
    /// No frames were supplied.
    NoFrames,
    /// Frame / image count mismatch.
    FrameCountMismatch { frames: usize, images: usize },
    /// Empty pixel buffer.
    EmptyImage,
    /// libheif plane allocation missing.
    MissingPlanes,
    /// Output path is not valid UTF-8.
    InvalidPath(String),
    /// Metadata build failure.
    Metadata(MetadataError),
    /// Filesystem failure.
    Io(std::io::Error),
    /// libheif failure.
    Heif(String),
}

/// One keyed frame of an imported dynamic HEIC: its image index and domain key.
#[derive(Clone, Copy, Debug, PartialEq, Eq, Structural)]
pub struct ImportedDynamicFrame {
    /// Image index inside the HEIC.
    pub index: u32,
    /// Domain key derived from Apple metadata.
    pub key: DynamicStillKey,
}

/// Fully imported dynamic desktop package (frames in image-index order).
#[derive(Clone, Debug)]
pub struct ImportedDynamicDesktop {
    /// Source file path.
    pub source_path: String,
    /// Metadata flavor.
    pub flavor: AppleMetadataFlavor,
    /// Schedule kind for the resulting still set.
    pub schedule_kind: DynamicScheduleKind,
    /// Keyed frames.
    pub frames: Vec<ImportedDynamicFrame>,
}

/// The keyed images among the first `n` container images, in image order; unkeyed images
/// (appearance sets key only two) are skipped.
pub open spec fn keyed_images(keys: Map<u32, DynamicStillKey>, n: nat) -> Seq<ImportedDynamicFrame>
    decreases n,
{
    if n == 0 {
        Seq::empty()
    } else {
        let rest = keyed_images(keys, (n - 1) as nat);
        let index = (n - 1) as u32;
        if keys.contains_key(index) {
            rest.push(ImportedDynamicFrame { index, key: keys[index] })
        } else {
            rest
        }
    }
}

/// Which of a container's `image_count` top-level images carry keyed frames, in image order.
pub fn keyed_frame_plan(keys_by_index: &HashMap<u32, DynamicStillKey>, image_count: u32) -> (r: Result<
    Vec<ImportedDynamicFrame>,
    HeicImportError,
>)
    ensures
        image_count == 0 ==> r matches Err(HeicImportError::NoImages),
        image_count > 0 && keyed_images(keys_by_index@, image_count as nat).len() == 0 ==> r matches Err(
            HeicImportError::EmptySchedule,
        ),
        image_count > 0 && keyed_images(keys_by_index@, image_count as nat).len() > 0 ==> (r matches Ok(frames)
            && frames@ == keyed_images(keys_by_index@, image_count as nat)),
{
    if image_count == 0 {
        return Err(HeicImportError::NoImages);
    }
    let mut frames: Vec<ImportedDynamicFrame> = Vec::new();
    let mut index: u32 = 0;
    while index < image_count
        invariant
            index <= image_count,
            frames@ == keyed_images(keys_by_index@, index as nat),
        decreases image_count - index,
    {
        match keys_by_index.get(&index) {
            Some(key) => {
                frames.push(ImportedDynamicFrame { index, key: *key });
            },
            None => {},
        }
        index = index + 1;
    }
    if frames.len() == 0 {
        return Err(HeicImportError::EmptySchedule);
    }
    Ok(frames)
}

/// The still-set frame built from an imported frame and its library asset.
pub open spec fn template_frame(frame: ImportedDynamicFrame, asset_id: AssetId) -> DynamicStillFrame {
    DynamicStillFrame { source_index: Some(frame.index), key: frame.key, asset_id }
}

impl ImportedDynamicDesktop {
    /// Builds a still set from the import, one asset per frame (the first is the fallback),
    /// with cross-fade requested and the package path recorded; the set must validate.
    pub fn into_still_set_template(&self, name: &str, profile_id: ProfileId, asset_ids: &[AssetId]) -> (r: Result<
        DynamicStillSet,
        HeicImportError,
    >)
        ensures
            asset_ids@.len() != self.frames@.len() || asset_ids@.len() == 0 ==> (r matches Err(
                HeicImportError::AssetCountMismatch { frames, assets },
            ) && frames == self.frames@.len() && assets == asset_ids@.len()),
            asset_ids@.len() == self.frames@.len() && asset_ids@.len() > 0 ==> match r {
                Ok(set) => {
                    &&& set.name@ == name@
                    &&& set.profile_id == profile_id
                    &&& set.fallback_asset_id == asset_ids@[0]
                    &&& set.schedule_kind == self.schedule_kind
                    &&& set.request_cross_fade
                    &&& set.source_package_path matches Some(p) && p@ == self.source_path@
                    &&& set.frames@.len() == self.frames@.len()
                    &&& forall|i: int| 0 <= i < self.frames@.len() ==> #[trigger] set.frames@[i] == template_frame(
                        self.frames@[i],
                        asset_ids@[i],
                    )
                    &&& still_set_problem(set) is None
                },
                Err(HeicImportError::DynamicStill(e)) => exists|set: DynamicStillSet| {
                    &&& set.name@ == name@
                    &&& set.frames@.len() == self.frames@.len()
                    &&& (forall|i: int| 0 <= i < self.frames@.len() ==> #[trigger] set.frames@[i] == template_frame(
                        self.frames@[i],
                        asset_ids@[i],
                    ))
                    &&& set.latitude_microdeg is None && set.longitude_microdeg is None
                    &&& set.schema_version == crate::dynamic::DYNAMIC_STILL_SET_SCHEMA_VERSION
                    &&& reports(still_set_problem(set), Err::<(), DynamicStillError>(e))
                },
                Err(_) => false,
            },
    {
        if asset_ids.len() != self.frames.len() || asset_ids.len() == 0 {
            return Err(HeicImportError::AssetCountMismatch { frames: self.frames.len(), assets: asset_ids.len() });
        }
        let mut set = DynamicStillSet::with_fallback(name, profile_id, asset_ids[0]);
        set.schedule_kind = self.schedule_kind;
        set.source_package_path = Some(self.source_path.clone());
        set.request_cross_fade = true;
        let mut frames: Vec<DynamicStillFrame> = Vec::new();
        let mut i: usize = 0;
        while i < self.frames.len()
            invariant
                i <= self.frames@.len(),
                asset_ids@.len() == self.frames@.len(),
                frames@.len() == i,
                forall|j: int| 0 <= j < i ==> #[trigger] frames@[j] == template_frame(self.frames@[j], asset_ids@[j]),
            decreases self.frames@.len() - i,
        {
            let frame = self.frames[i];
            frames.push(DynamicStillFrame { source_index: Some(frame.index), key: frame.key, asset_id: asset_ids[i] });
            i = i + 1;
        }
        set.frames = frames;
        match set.validate() {
            Ok(()) => Ok(set),
            Err(e) => Err(HeicImportError::DynamicStill(e)),
        }
    }
}


/// File name of a persisted frame: `{asset}-frame-{index:02}.png`.
pub open spec fn frame_file_name_text(asset_id: AssetId, index: u32) -> Seq<char> {
    hyphenated(asset_id.0) + "-frame-"@ + pad2(index as nat) + ".png"@
}

/// File name under which a decoded frame is persisted as a library asset.
pub fn frame_file_name(asset_id: AssetId, index: u32) -> (r: String)
    ensures
        r@ == frame_file_name_text(asset_id, index),
{
    let mut s = asset_id.to_hyphenated_string();
    s.append("-frame-");
    s.append(pad2_text(index as u64).as_str());
    s.append(".png");
    s
}

/// Title of a persisted frame's library asset: `{name} · {key label}`.
pub fn frame_title(name: &str, key: DynamicStillKey) -> (r: String)
    ensures
        r@ == name@ + " · "@ + key_label(key),
{
    let mut s = String::from_str(name);
    s.append(" · ");
    s.append(key.label().as_str());
    s
}

} // verus!
