//! Live playback configuration checks shared by every display surface of a session.
//!
//! The clock itself advances a real-valued media position and lives with the host; the
//! samples it hands out and its configuration rules are plain values.

use vstd::prelude::*;

verus! {

/// Sample produced by advancing the shared clock.
#[derive(Clone, Copy, Debug, PartialEq, Eq, Structural)]
pub struct PresentationSample {
    /// Media timeline position after the tick (milliseconds).
    pub media_time_ms: u64,
    /// Whether surfaces should refresh from this sample (FPS ceiling gate).
    pub should_present: bool,
    /// True when `Once` playback has finished.
    pub ended: bool,
}

/// Invalid playback clock configuration.
#[derive(Clone, Copy, Debug, PartialEq, Eq, Structural)]
pub enum PlaybackClockError {
    /// Rate must be finite and greater than zero.
    InvalidRate,
    /// Frame-rate ceiling cannot be zero.
    InvalidFrameRateLimit,
}

/// Checks a clock configuration: the rate first (`rate_valid` says it is finite and above
/// zero), then the frame-rate ceiling.
pub fn check_clock_policy(rate_valid: bool, maximum_frames_per_second: Option<u16>) -> (r: Result<(), PlaybackClockError>)
    ensures
        !rate_valid ==> r == Err::<(), PlaybackClockError>(PlaybackClockError::InvalidRate),
        rate_valid && maximum_frames_per_second == Some(0u16) ==> r == Err::<(), PlaybackClockError>(
            PlaybackClockError::InvalidFrameRateLimit,
        ),
        rate_valid && maximum_frames_per_second != Some(0u16) ==> r == Ok::<(), PlaybackClockError>(()),
{
    if !rate_valid {
        return Err(PlaybackClockError::InvalidRate);
    }
    if maximum_frames_per_second == Some(0u16) {
        return Err(PlaybackClockError::InvalidFrameRateLimit);
    }
    Ok(())
}

} // verus!
