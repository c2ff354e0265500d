//! Wallpaper profile modes, schema rules and validation order.
//!
//! The profile's zoom, focal point and playback rate are real numbers; their range tests
//! are made where those numbers live, and the outcomes enter the checks here.

use vstd::prelude::*;

use crate::text::{is_blank, trim};

verus! {

/// Current serialized profile schema.
pub const PROFILE_SCHEMA_VERSION: u16 = 4;

/// Default still-backend Apply poll interval for motion slideshows.
pub const DEFAULT_STILL_SLIDESHOW_INTERVAL_MS: u64 = 2_000;

/// Fastest still-backend Apply poll interval Easel will honor.
pub const MIN_STILL_SLIDESHOW_INTERVAL_MS: u64 = 500;

/// Slowest still-backend Apply poll interval accepted in a profile.
pub const MAX_STILL_SLIDESHOW_INTERVAL_MS: u64 = 60_000;

/// How an image is scaled into its composition region.
#[derive(Clone, Copy, Debug, PartialEq, Eq, Structural)]
pub enum FitMode {
    /// Fill the region and crop overflow.
    Cover,
    /// Show the complete image and permit unused space.
    Contain,
    /// Stretch independently on both axes.
    Stretch,
    /// Preserve one source pixel per native output pixel.
    Native,
}

impl Default for FitMode {
    fn default() -> (r: Self)
        ensures
            r == FitMode::Cover,
    {
        FitMode::Cover
    }
}

/// Whether composition uses physical layout space or per-display digital fitting.
#[derive(Clone, Copy, Debug, PartialEq, Eq, Structural)]
pub enum LayoutMode {
    /// Span one image across physical content rectangles with PPI and bezel correction.
    PhysicalSpan,
    /// Fit the source independently into each display's native pixels.
    Digital,
}

impl Default for LayoutMode {
    fn default() -> (r: Self)
        ensures
            r == LayoutMode::PhysicalSpan,
    {
        LayoutMode::PhysicalSpan
    }
}

/// How a finite live asset behaves when its playback reaches the end.
#[derive(Clone, Copy, Debug, PartialEq, Eq, Structural)]
pub enum LoopMode {
    /// Restart at the beginning.
    Loop,
    /// Stop on the final frame.
    Once,
}

impl Default for LoopMode {
    fn default() -> (r: Self)
        ensures
            r == LoopMode::Loop,
    {
        LoopMode::Loop
    }
}

/// Runtime pipeline selected for a profile.
#[derive(Clone, Copy, Debug, PartialEq, Eq, Structural)]
pub enum PresentationMode {
    /// Render and apply one immutable image.
    Static,
    /// Select still frames from time, solar, or schedule rules.
    DynamicStills,
    /// Continuously present an animated image or video on live desktop surfaces.
    LiveMedia,
}

impl Default for PresentationMode {
    fn default() -> (r: Self)
        ensures
            r == PresentationMode::Static,
    {
        PresentationMode::Static
    }
}

/// Invalid profile model.
#[derive(Clone, Copy, Debug, PartialEq, Eq, Structural)]
pub enum ProfileValidationError {
    /// No migration exists for the serialized schema.
    UnsupportedSchema(u16),
    /// Profile names must contain visible characters.
    EmptyName,
    /// Zoom must be finite and at least one.
    InvalidZoom,
    /// Playback rate must be finite and greater than zero.
    InvalidPlaybackRate,
    /// A configured frame-rate ceiling cannot be zero.
    InvalidFrameRateLimit,
    /// Still-slideshow Apply poll interval is out of the supported range.
    InvalidStillSlideshowInterval,
    /// Focal points use normalized zero-to-one coordinates.
    InvalidFocalPoint,
}

/// The first failed profile rule, in the order they are checked: schema, name, zoom,
/// playback rate, frame-rate ceiling, slideshow interval, focal point.
pub open spec fn profile_problem(
    schema_version: u16,
    name: Seq<char>,
    zoom_valid: bool,
    rate_valid: bool,
    maximum_frames_per_second: Option<u16>,
    still_slideshow_interval_ms: u64,
    focal_valid: bool,
) -> Option<ProfileValidationError> {
    if schema_version != PROFILE_SCHEMA_VERSION {
        Some(ProfileValidationError::UnsupportedSchema(schema_version))
    } else if trim(name).len() == 0 {
        Some(ProfileValidationError::EmptyName)
    } else if !zoom_valid {
        Some(ProfileValidationError::InvalidZoom)
    } else if !rate_valid {
        Some(ProfileValidationError::InvalidPlaybackRate)
    } else if maximum_frames_per_second == Some(0u16) {
        Some(ProfileValidationError::InvalidFrameRateLimit)
    } else if !(MIN_STILL_SLIDESHOW_INTERVAL_MS <= still_slideshow_interval_ms <= MAX_STILL_SLIDESHOW_INTERVAL_MS) {
        Some(ProfileValidationError::InvalidStillSlideshowInterval)
    } else if !focal_valid {
        Some(ProfileValidationError::InvalidFocalPoint)
    } else {
        None
    }
}

/// Validates a profile's fields in order. `zoom_valid` says the zoom is finite and at least
/// one, `rate_valid` that the playback rate is finite and above zero, `focal_valid` that both
/// focal coordinates lie in zero through one.
pub fn check_profile(
    schema_version: u16,
    name: &str,
    zoom_valid: bool,
    rate_valid: bool,
    maximum_frames_per_second: Option<u16>,
    still_slideshow_interval_ms: u64,
    focal_valid: bool,
) -> (r: Result<(), ProfileValidationError>)
    ensures
        match profile_problem(
            schema_version,
            name@,
            zoom_valid,
            rate_valid,
            maximum_frames_per_second,
            still_slideshow_interval_ms,
            focal_valid,
        ) {
            None => r == Ok::<(), ProfileValidationError>(()),
            Some(e) => r == Err::<(), ProfileValidationError>(e),
        },
{
    if schema_version != PROFILE_SCHEMA_VERSION {
        return Err(ProfileValidationError::UnsupportedSchema(schema_version));
    }
    if is_blank(name) {
        return Err(ProfileValidationError::EmptyName);
    }
    if !zoom_valid {
        return Err(ProfileValidationError::InvalidZoom);
    }
    if !rate_valid {
        return Err(ProfileValidationError::InvalidPlaybackRate);
    }
    if maximum_frames_per_second == Some(0u16) {
        return Err(ProfileValidationError::InvalidFrameRateLimit);
    }
    if !(MIN_STILL_SLIDESHOW_INTERVAL_MS <= still_slideshow_interval_ms
        && still_slideshow_interval_ms <= MAX_STILL_SLIDESHOW_INTERVAL_MS) {
        return Err(ProfileValidationError::InvalidStillSlideshowInterval);
    }
    if !focal_valid {
        return Err(ProfileValidationError::InvalidFocalPoint);
    }
    Ok(())
}

/// A profile's schema upgrade: schemas 1 through 3 move to the current schema, giving a zero
/// slideshow interval the default; the current schema is kept; other schemas are refused.
/// The value is the slideshow interval the upgraded profile holds.
pub open spec fn migrated_interval(schema_version: u16, still_slideshow_interval_ms: u64) -> Result<
    u64,
    ProfileValidationError,
> {
    if 1 <= schema_version <= 3 {
        Ok(if still_slideshow_interval_ms == 0 { DEFAULT_STILL_SLIDESHOW_INTERVAL_MS } else { still_slideshow_interval_ms })
    } else if schema_version == PROFILE_SCHEMA_VERSION {
        Ok(still_slideshow_interval_ms)
    } else {
        Err(ProfileValidationError::UnsupportedSchema(schema_version))
    }
}

/// Migration is idempotent: a profile that migrated (now at the current schema, holding the
/// returned interval) migrates again to itself.
pub proof fn lemma_migration_idempotent(schema_version: u16, still_slideshow_interval_ms: u64)
    requires
        migrated_interval(schema_version, still_slideshow_interval_ms) is Ok,
    ensures
        ({
            let m = migrated_interval(schema_version, still_slideshow_interval_ms)->Ok_0;
            migrated_interval(PROFILE_SCHEMA_VERSION, m) == Ok::<u64, ProfileValidationError>(m)
        }),
{
}

/// Migration keeps the user's slideshow interval: every supported schema (1 through the
/// current one) migrates, and a non-zero interval comes through unchanged; only a zero
/// interval on an older schema becomes the default.
pub proof fn lemma_migration_keeps_interval(schema_version: u16, still_slideshow_interval_ms: u64)
    ensures
        1 <= schema_version <= PROFILE_SCHEMA_VERSION ==> migrated_interval(schema_version, still_slideshow_interval_ms)
            is Ok,
        1 <= schema_version <= PROFILE_SCHEMA_VERSION && still_slideshow_interval_ms != 0 ==> migrated_interval(
            schema_version,
            still_slideshow_interval_ms,
        ) == Ok::<u64, ProfileValidationError>(still_slideshow_interval_ms),
        1 <= schema_version < PROFILE_SCHEMA_VERSION && still_slideshow_interval_ms == 0 ==> migrated_interval(
            schema_version,
            still_slideshow_interval_ms,
        ) == Ok::<u64, ProfileValidationError>(DEFAULT_STILL_SLIDESHOW_INTERVAL_MS),
        schema_version == 0 || schema_version > PROFILE_SCHEMA_VERSION ==> migrated_interval(
            schema_version,
            still_slideshow_interval_ms,
        ) == Err::<u64, ProfileValidationError>(ProfileValidationError::UnsupportedSchema(schema_version)),
{
}

/// Upgrades a profile's schema: schemas 1 through 3 move to the current schema, giving a
/// zero slideshow interval the default; the current schema is kept. Returns the slideshow
/// interval the upgraded profile holds.
pub fn migrate_profile_schema(schema_version: u16, still_slideshow_interval_ms: u64) -> (r: Result<u64, ProfileValidationError>)
    ensures
        r == migrated_interval(schema_version, still_slideshow_interval_ms),
{
    if 1 <= schema_version && schema_version <= 3 {
        if still_slideshow_interval_ms == 0 {
            Ok(DEFAULT_STILL_SLIDESHOW_INTERVAL_MS)
        } else {
            Ok(still_slideshow_interval_ms)
        }
    } else if schema_version == PROFILE_SCHEMA_VERSION {
        Ok(still_slideshow_interval_ms)
    } else {
        Err(ProfileValidationError::UnsupportedSchema(schema_version))
    }
}

/// Clamps a slideshow interval into the honored range.
pub fn clamp_still_slideshow_interval(ms: u64) -> (r: u64)
    ensures
        r == if ms < MIN_STILL_SLIDESHOW_INTERVAL_MS {
            MIN_STILL_SLIDESHOW_INTERVAL_MS
        } else if ms > MAX_STILL_SLIDESHOW_INTERVAL_MS {
            MAX_STILL_SLIDESHOW_INTERVAL_MS
        } else {
            ms
        },
        MIN_STILL_SLIDESHOW_INTERVAL_MS <= r <= MAX_STILL_SLIDESHOW_INTERVAL_MS,
{
    if ms < MIN_STILL_SLIDESHOW_INTERVAL_MS {
        MIN_STILL_SLIDESHOW_INTERVAL_MS
    } else if ms > MAX_STILL_SLIDESHOW_INTERVAL_MS {
        MAX_STILL_SLIDESHOW_INTERVAL_MS
    } else {
        ms
    }
}

/// Fit mode chosen by a selector index: 1 contain, 2 stretch, 3 native, anything else cover.
pub fn fit_mode_from_index(index: i32) -> (r: FitMode)
    ensures
        r == if index == 1 {
            FitMode::Contain
        } else if index == 2 {
            FitMode::Stretch
        } else if index == 3 {
            FitMode::Native
        } else {
            FitMode::Cover
        },
{
    match index {
        1 => FitMode::Contain,
        2 => FitMode::Stretch,
        3 => FitMode::Native,
        _ => FitMode::Cover,
    }
}

/// Layout mode chosen by a selector index: 1 digital, anything else physical span.
pub fn layout_mode_from_index(index: i32) -> (r: LayoutMode)
    ensures
        r == if index == 1 { LayoutMode::Digital } else { LayoutMode::PhysicalSpan },
{
    match index {
        1 => LayoutMode::Digital,
        _ => LayoutMode::PhysicalSpan,
    }
}

/// Presentation chosen by Compose's media selector: 1 dynamic stills, 2 live media,
/// anything else a static image.
pub open spec fn media_index_presentation(index: i32) -> PresentationMode {
    if index == 1 {
        PresentationMode::DynamicStills
    } else if index == 2 {
        PresentationMode::LiveMedia
    } else {
        PresentationMode::Static
    }
}

/// Why a Compose snapshot cannot be saved as a live-media profile yet.
pub open spec fn live_media_refusal() -> Seq<char> {
    "live media profiles require Stage 6; choose Still image or Dynamic stills"@
}

/// The presentation a Compose snapshot is saved with, from the media selector index; live
/// media is refused.
pub fn compose_presentation(media_mode_index: i32) -> (r: Result<PresentationMode, String>)
    ensures
        media_index_presentation(media_mode_index) == PresentationMode::LiveMedia ==> (r matches Err(msg)
            && msg@ == live_media_refusal()),
        media_index_presentation(media_mode_index) != PresentationMode::LiveMedia ==> r == Ok::<
            PresentationMode,
            String,
        >(media_index_presentation(media_mode_index)),
{
    let presentation = match media_mode_index {
        1 => PresentationMode::DynamicStills,
        2 => PresentationMode::LiveMedia,
        _ => PresentationMode::Static,
    };
    if presentation == PresentationMode::LiveMedia {
        let msg = String::from_str("live media profiles require Stage 6; choose Still image or Dynamic stills");
        return Err(msg);
    }
    Ok(presentation)
}

} // verus!
