//! Decoder-visible media metadata and provider identity.

use vstd::prelude::*;

verus! {

/// Provider-specific identity retained without reinterpretation.
#[derive(Clone, Debug, PartialEq, Eq, Hash)]
pub struct ProviderAssetId {
    /// Stable provider key such as `openverse`.
    pub provider: String,
    /// Provider's opaque asset identifier.
    pub asset_id: String,
}

/// Native media dimensions in pixels.
#[derive(Clone, Copy, Debug, PartialEq, Eq, Structural)]
pub struct MediaDimensions {
    /// Native width reported by the decoder or provider.
    pub width: u32,
    /// Native height reported by the decoder or provider.
    pub height: u32,
}

/// Exact rational frame rate without floating-point serialization drift.
#[derive(Clone, Copy, Debug, PartialEq, Eq, Structural)]
pub struct FrameRate {
    /// Frames in one rate interval.
    pub numerator: u32,
    /// Seconds denominator for the rate interval.
    pub denominator: u32,
}

/// Decoder-visible technical metadata used to choose a presentation pipeline.
#[derive(Clone, Debug, PartialEq, Eq)]
pub enum MediaMetadata {
    /// One still image.
    StillImage {
        /// Decoded pixel dimensions.
        dimensions: MediaDimensions,
    },
    /// An animated image container such as GIF or animated WebP.
    AnimatedImage {
        /// Decoded pixel dimensions.
        dimensions: MediaDimensions,
        /// Total duration when the container reports one.
        duration_ms: Option<u64>,
        /// Decoded frame count when known without a full scan.
        frame_count: Option<u32>,
    },
    /// A video container decoded by the live presentation pipeline.
    Video {
        /// Decoded pixel dimensions.
        dimensions: MediaDimensions,
        /// Total duration when reported by the container.
        duration_ms: Option<u64>,
        /// Nominal frame rate when reported by the container.
        frame_rate: Option<FrameRate>,
        /// Container name used for diagnostics, such as `matroska`.
        container: Option<String>,
        /// Video codec name used for diagnostics, such as `av1`.
        video_codec: Option<String>,
        /// Whether an audio stream exists. Easel never presents audio.
        has_audio: bool,
    },
}

impl MediaMetadata {
    /// Decoded pixel dimensions of any media kind.
    pub open spec fn dims(&self) -> MediaDimensions {
        match self {
            MediaMetadata::StillImage { dimensions } => *dimensions,
            MediaMetadata::AnimatedImage { dimensions, .. } => *dimensions,
            MediaMetadata::Video { dimensions, .. } => *dimensions,
        }
    }

    /// Returns the decoded pixel dimensions for suitability checks.
    pub fn dimensions(&self) -> (r: MediaDimensions)
        ensures
            r == self.dims(),
    {
        match self {
            MediaMetadata::StillImage { dimensions } => *dimensions,
            MediaMetadata::AnimatedImage { dimensions, .. } => *dimensions,
            MediaMetadata::Video { dimensions, .. } => *dimensions,
        }
    }

    /// Returns whether presentation requires a persistent live surface.
    pub fn requires_live_surface(&self) -> (r: bool)
        ensures
            r == !(self is StillImage),
    {
        match self {
            MediaMetadata::StillImage { .. } => false,
            _ => true,
        }
    }
}

} // verus!
