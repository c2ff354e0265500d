//! Plasma built-in day/night wallpaper packages (`org.kde.image` + KNightTime).
//!
//! A package is a folder with `contents/images` and `contents/images_dark` plus
//! `metadata.json`; the desktop switches at sunrise/sunset. Only two appearance frames
//! are carried.

use vstd::prelude::*;

use crate::dynamic::{AppearanceMode, DynamicStillKey, DynamicStillSet};
use crate::text::{chars_of, decimal, decimal_text, push_char};

verus! {

/// One completed Plasma day/night wallpaper package on disk.
#[derive(Clone, Debug, PartialEq, Eq)]
pub struct PlasmaDayNightPackage {
    /// Package root directory (install under `~/.local/share/wallpapers`).
    pub path: String,
    /// KPlugin Id written into metadata.
    pub plugin_id: String,
    /// Suggested `Image` config value (path of the light image).
    pub image_path: String,
}

/// Plasma day/night package failures.
#[derive(Debug)]
pub enum PlasmaDayNightError {
    /// Empty pixel buffer.
    EmptyImage,
    /// Light and dark dimensions differ.
    SizeMismatch { light: (u32, u32), dark: (u32, u32) },
    /// Still set is not appearance-keyed.
    NotAppearanceSet,
    /// Missing light or dark frame.
    MissingAppearancePair,
    /// Frame / image count mismatch.
    FrameCountMismatch { frames: usize, images: usize },
    /// PNG write failure.
    Raster(String),
    /// Filesystem failure.
    Io(std::io::Error),
}

/// Both images have pixels and the same size.
pub fn check_day_night_images(light: (u32, u32), dark: (u32, u32)) -> (r: Result<(), PlasmaDayNightError>)
    ensures
        (light.0 == 0 || light.1 == 0 || dark.0 == 0 || dark.1 == 0) ==> r matches Err(PlasmaDayNightError::EmptyImage),
        !(light.0 == 0 || light.1 == 0 || dark.0 == 0 || dark.1 == 0) && light != dark ==> (r matches Err(
            PlasmaDayNightError::SizeMismatch { light: l, dark: d },
        ) && l == light && d == dark),
        !(light.0 == 0 || light.1 == 0 || dark.0 == 0 || dark.1 == 0) && light == dark ==> r is Ok,
{
    if light.0 == 0 || light.1 == 0 || dark.0 == 0 || dark.1 == 0 {
        return Err(PlasmaDayNightError::EmptyImage);
    }
    if light.0 != dark.0 || light.1 != dark.1 {
        return Err(PlasmaDayNightError::SizeMismatch { light, dark });
    }
    Ok(())
}

/// Plasma's image file name for a size: `{width}x{height}.png`.
pub fn plasma_image_file_name(width: u32, height: u32) -> (r: String)
    ensures
        r@ == decimal(width as nat) + "x"@ + decimal(height as nat) + ".png"@,
{
    let mut s = decimal_text(width as u64);
    s.append("x");
    s.append(decimal_text(height as u64).as_str());
    s.append(".png");
    s
}

/// JSON string escaping of one character, as the package writer does it: backslash, quote
/// and newline.
pub open spec fn escape_char(c: char) -> Seq<char> {
    if c == '\\' {
        seq!['\\', '\\']
    } else if c == '"' {
        seq!['\\', '"']
    } else if c == '\n' {
        seq!['\\', 'n']
    } else {
        seq![c]
    }
}

/// JSON string escaping of a text.
pub open spec fn escape_json_text(s: Seq<char>) -> Seq<char>
    decreases s.len(),
{
    if s.len() == 0 {
        Seq::empty()
    } else {
        escape_json_text(s.drop_last()) + escape_char(s.last())
    }
}

/// Escapes backslashes, quotes and newlines for a JSON string value.
pub fn escape_json(value: &str) -> (r: String)
    ensures
        r@ == escape_json_text(value@),
{
    let chars = chars_of(value);
    let mut out = String::new();
    let mut i: usize = 0;
    while i < chars.len()
        invariant
            chars@ == value@,
            i <= chars@.len(),
            out@ == escape_json_text(chars@.subrange(0, i as int)),
        decreases chars@.len() - i,
    {
        let c = chars[i];
        assert(chars@.subrange(0, i + 1).drop_last() =~= chars@.subrange(0, i as int));
        if c == '\\' {
            push_char(&mut out, '\\');
            push_char(&mut out, '\\');
        } else if c == '"' {
            push_char(&mut out, '\\');
            push_char(&mut out, '"');
        } else if c == '\n' {
            push_char(&mut out, '\\');
            push_char(&mut out, 'n');
        } else {
            push_char(&mut out, c);
        }
        assert(out@ =~= escape_json_text(chars@.subrange(0, i + 1)));
        i = i + 1;
    }
    assert(chars@.subrange(0, chars@.len() as int) =~= chars@);
    out
}

/// The package's `metadata.json`.
pub open spec fn plasma_metadata_text(plugin_id: Seq<char>, name: Seq<char>, cross_fade: bool) -> Seq<char> {
    "{\n  \"KPlugin\": {\n    \"Id\": \""@ + escape_json_text(plugin_id) + "\",\n    \"Name\": \""@ + escape_json_text(name)
        + "\",\n    \"License\": \"Unknown\"\n  },\n  \"X-KDE-CrossFade\": "@ + (if cross_fade {
        "true"@
    } else {
        "false"@
    }) + "\n}\n"@
}

/// Builds the package's `metadata.json` text.
pub fn plasma_metadata_json(plugin_id: &str, name: &str, cross_fade: bool) -> (r: String)
    ensures
        r@ == plasma_metadata_text(plugin_id@, name@, cross_fade),
{
    let mut s = String::from_str("{\n  \"KPlugin\": {\n    \"Id\": \"");
    s.append(escape_json(plugin_id).as_str());
    s.append("\",\n    \"Name\": \"");
    s.append(escape_json(name).as_str());
    s.append("\",\n    \"License\": \"Unknown\"\n  },\n  \"X-KDE-CrossFade\": ");
    if cross_fade {
        s.append("true");
    } else {
        s.append("false");
    }
    s.append("\n}\n");
    s
}

/// Frame `i` is the last light (or dark) frame of the set.
pub open spec fn is_last_with(frames: Seq<crate::dynamic::DynamicStillFrame>, mode: AppearanceMode, i: int) -> bool {
    0 <= i < frames.len() && frames[i].key == (DynamicStillKey::Appearance { mode }) && forall|j: int|
        i < j < frames.len() ==> #[trigger] frames[j].key != (DynamicStillKey::Appearance { mode })
}

/// Positions of the light and dark images for an appearance-keyed set with one image per
/// frame (the last light and the last dark frame win).
pub fn appearance_frame_indices(set: &DynamicStillSet, image_count: usize) -> (r: Result<(usize, usize), PlasmaDayNightError>)
    ensures
        image_count != set.frames@.len() ==> (r matches Err(PlasmaDayNightError::FrameCountMismatch { frames, images })
            && frames == set.frames@.len() && images == image_count),
        image_count == set.frames@.len() && (exists|i: int| 0 <= i < set.frames@.len() && !(#[trigger] set.frames@[i].key is Appearance))
            ==> r matches Err(PlasmaDayNightError::NotAppearanceSet),
        image_count == set.frames@.len() && (forall|i: int| 0 <= i < set.frames@.len() ==> #[trigger] set.frames@[i].key is Appearance)
            ==> match r {
            Ok((l, d)) => is_last_with(set.frames@, AppearanceMode::Light, l as int) && is_last_with(
                set.frames@,
                AppearanceMode::Dark,
                d as int,
            ),
            Err(PlasmaDayNightError::MissingAppearancePair) => (forall|i: int| !#[trigger] is_last_with(set.frames@, AppearanceMode::Light, i))
                || (forall|i: int| !#[trigger] is_last_with(set.frames@, AppearanceMode::Dark, i)),
            Err(_) => false,
        },
{
    if image_count != set.frames.len() {
        return Err(PlasmaDayNightError::FrameCountMismatch { frames: set.frames.len(), images: image_count });
    }
    let ghost frames = set.frames@;
    let mut light: Option<usize> = None;
    let mut dark: Option<usize> = None;
    let mut i: usize = 0;
    while i < set.frames.len()
        invariant
            frames == set.frames@,
            image_count == frames.len(),
            i <= frames.len(),
            forall|j: int| 0 <= j < i ==> #[trigger] frames[j].key is Appearance,
            light matches Some(l) ==> l < i && frames[l as int].key == (DynamicStillKey::Appearance { mode: AppearanceMode::Light })
                && forall|j: int| l < j < i ==> #[trigger] frames[j].key != (DynamicStillKey::Appearance { mode: AppearanceMode::Light }),
            light is None ==> forall|j: int| 0 <= j < i ==> #[trigger] frames[j].key != (DynamicStillKey::Appearance { mode: AppearanceMode::Light }),
            dark matches Some(d) ==> d < i && frames[d as int].key == (DynamicStillKey::Appearance { mode: AppearanceMode::Dark })
                && forall|j: int| d < j < i ==> #[trigger] frames[j].key != (DynamicStillKey::Appearance { mode: AppearanceMode::Dark }),
            dark is None ==> forall|j: int| 0 <= j < i ==> #[trigger] frames[j].key != (DynamicStillKey::Appearance { mode: AppearanceMode::Dark }),
        decreases frames.len() - i,
    {
        match set.frames[i].key {
            DynamicStillKey::Appearance { mode: AppearanceMode::Light } => {
                light = Some(i);
            },
            DynamicStillKey::Appearance { mode: AppearanceMode::Dark } => {
                dark = Some(i);
            },
            _ => {
                return Err(PlasmaDayNightError::NotAppearanceSet);
            },
        }
        i = i + 1;
    }
    match (light, dark) {
        (Some(l), Some(d)) => Ok((l, d)),
        _ => {
            proof {
                if light is None {
                    assert forall|k: int| !#[trigger] is_last_with(frames, AppearanceMode::Light, k) by {}
                } else {
                    assert forall|k: int| !#[trigger] is_last_with(frames, AppearanceMode::Dark, k) by {}
                }
            }
            Err(PlasmaDayNightError::MissingAppearancePair)
        },
    }
}

} // verus!
