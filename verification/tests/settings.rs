use easel::playback::{check_clock_policy, PlaybackClockError};
use easel::profile::{
    check_profile, clamp_still_slideshow_interval, compose_presentation, fit_mode_from_index, layout_mode_from_index, migrate_profile_schema,
    FitMode, LayoutMode, PresentationMode, ProfileValidationError, DEFAULT_STILL_SLIDESHOW_INTERVAL_MS, MIN_STILL_SLIDESHOW_INTERVAL_MS,
    PROFILE_SCHEMA_VERSION,
};
use easel::slideshow::{advance_frame, slideshow_step, SlideshowCursor, HOLD_FINAL_FRAME_MS};
use easel::profile::LoopMode;
use easel::text::{char_is_whitespace, file_url_from_path, non_empty, non_empty_owned, path_from_file_url, strip_file_url};

fn zoom_ok(zoom: f64) -> bool {
    zoom.is_finite() && zoom >= 1.0
}

fn rate_ok(rate: f64) -> bool {
    rate.is_finite() && rate > 0.0
}

fn focal_ok(x: f64, y: f64) -> bool {
    (0.0..=1.0).contains(&x) && (0.0..=1.0).contains(&y)
}

#[test]
fn default_profile_is_valid() {
    assert_eq!(
        check_profile(PROFILE_SCHEMA_VERSION, "Home", zoom_ok(1.0), rate_ok(1.0), Some(30), 2_000, focal_ok(0.5, 0.5)),
        Ok(())
    );
}

#[test]
fn invalid_focal_point_is_rejected() {
    assert_eq!(
        check_profile(PROFILE_SCHEMA_VERSION, "Home", zoom_ok(1.0), rate_ok(1.0), Some(30), 2_000, focal_ok(1.1, 0.5)),
        Err(ProfileValidationError::InvalidFocalPoint)
    );
}

#[test]
fn zero_live_frame_rate_limit_is_rejected() {
    assert_eq!(
        check_profile(PROFILE_SCHEMA_VERSION, "Home", zoom_ok(1.0), rate_ok(1.0), Some(0), 2_000, focal_ok(0.5, 0.5)),
        Err(ProfileValidationError::InvalidFrameRateLimit)
    );
}

#[test]
fn still_slideshow_interval_out_of_range_is_rejected() {
    assert_eq!(
        check_profile(PROFILE_SCHEMA_VERSION, "Home", zoom_ok(1.0), rate_ok(1.0), Some(30), 50, focal_ok(0.5, 0.5)),
        Err(ProfileValidationError::InvalidStillSlideshowInterval)
    );
}

#[test]
fn schema_v3_migrates_with_default_slideshow_interval() {
    assert_eq!(migrate_profile_schema(3, 0), Ok(DEFAULT_STILL_SLIDESHOW_INTERVAL_MS));
    assert_eq!(migrate_profile_schema(PROFILE_SCHEMA_VERSION, 700), Ok(700));
    assert_eq!(migrate_profile_schema(9, 700), Err(ProfileValidationError::UnsupportedSchema(9)));
}

#[test]
fn still_slideshow_interval_is_clamped_by_effective_helper() {
    assert_eq!(clamp_still_slideshow_interval(50), MIN_STILL_SLIDESHOW_INTERVAL_MS);
    assert_eq!(clamp_still_slideshow_interval(2_000), 2_000);
    assert_eq!(clamp_still_slideshow_interval(120_000), 60_000);
}

#[test]
fn profile_check_order() {
    assert_eq!(
        check_profile(3, " ", false, false, Some(0), 0, false),
        Err(ProfileValidationError::UnsupportedSchema(3))
    );
    assert_eq!(
        check_profile(PROFILE_SCHEMA_VERSION, " ", false, false, Some(0), 0, false),
        Err(ProfileValidationError::EmptyName)
    );
    assert_eq!(
        check_profile(PROFILE_SCHEMA_VERSION, "x", zoom_ok(0.5), false, None, 0, false),
        Err(ProfileValidationError::InvalidZoom)
    );
    assert_eq!(
        check_profile(PROFILE_SCHEMA_VERSION, "x", true, rate_ok(f64::NAN), None, 0, false),
        Err(ProfileValidationError::InvalidPlaybackRate)
    );
}

#[test]
fn selector_indices_map_to_modes() {
    assert_eq!(fit_mode_from_index(1), FitMode::Contain);
    assert_eq!(fit_mode_from_index(3), FitMode::Native);
    assert_eq!(fit_mode_from_index(-4), FitMode::Cover);
    assert_eq!(layout_mode_from_index(1), LayoutMode::Digital);
    assert_eq!(layout_mode_from_index(0), LayoutMode::PhysicalSpan);
}

#[test]
fn invalid_rate_is_rejected() {
    assert_eq!(check_clock_policy(rate_ok(0.0), Some(30)), Err(PlaybackClockError::InvalidRate));
}

#[test]
fn zero_frame_rate_limit_is_rejected() {
    assert_eq!(check_clock_policy(rate_ok(1.0), Some(0)), Err(PlaybackClockError::InvalidFrameRateLimit));
    assert_eq!(check_clock_policy(true, None), Ok(()));
}

#[test]
fn slideshow_loops_and_holds() {
    let delays = [100u64, 200, 300];
    let c = SlideshowCursor { index: 2, remaining_ms: 0 };
    assert_eq!(advance_frame(c, &delays, LoopMode::Loop), SlideshowCursor { index: 0, remaining_ms: 100 });
    assert_eq!(advance_frame(c, &delays, LoopMode::Once), SlideshowCursor { index: 2, remaining_ms: HOLD_FINAL_FRAME_MS });
    let start = SlideshowCursor { index: 0, remaining_ms: 100 };
    assert_eq!(slideshow_step(start, &delays, LoopMode::Loop, 40, false), (SlideshowCursor { index: 0, remaining_ms: 60 }, false));
    assert_eq!(slideshow_step(start, &delays, LoopMode::Loop, 130, false), (SlideshowCursor { index: 1, remaining_ms: 170 }, true));
    assert_eq!(slideshow_step(start, &delays, LoopMode::Loop, 130, true), (start, false));
    assert_eq!(slideshow_step(start, &delays, LoopMode::Loop, 500, false), (SlideshowCursor { index: 1, remaining_ms: 200 }, true));
}

#[test]
fn strip_file_url_decodes_spaces() {
    assert_eq!(strip_file_url("  file:///tmp/my%20wallpapers/a.png "), "/tmp/my wallpapers/a.png");
    assert_eq!(strip_file_url("file://localhost/tmp/x%20y"), "/tmp/x y");
    assert_eq!(strip_file_url(" /plain/path "), "/plain/path");
}

#[test]
fn blank_text_is_absent() {
    assert_eq!(non_empty("  a b  ".to_string()), Some("a b".to_string()));
    assert_eq!(non_empty(" \t".to_string()), None);
    assert_eq!(non_empty_owned(None), None);
    assert_eq!(non_empty_owned(Some(" x".to_string())), Some("x".to_string()));
}

#[test]
fn compose_media_selector_refuses_live_media() {
    assert_eq!(compose_presentation(0), Ok(PresentationMode::Static));
    assert_eq!(compose_presentation(1), Ok(PresentationMode::DynamicStills));
    assert_eq!(compose_presentation(7), Ok(PresentationMode::Static));
    assert_eq!(
        compose_presentation(2),
        Err("live media profiles require Stage 6; choose Still image or Dynamic stills".to_string())
    );
}

#[test]
fn whitespace_matches_std_for_every_char() {
    for code in 0..=0x10FFFFu32 {
        if let Some(c) = char::from_u32(code) {
            assert_eq!(char_is_whitespace(c), c.is_whitespace(), "{code:#x}");
        }
    }
}

#[test]
fn path_from_file_url_percent_decodes() {
    let path = path_from_file_url("file:///tmp/my%20wallpapers/a%2Bb.png");
    assert_eq!(path, "/tmp/my wallpapers/a+b.png");
}

#[test]
fn file_url_from_path_round_trips_spaces() {
    let original = "/tmp/my wallpapers/preview.png";
    let url = file_url_from_path(original);
    assert!(url.starts_with("file:"));
    assert!(url.contains("%20") || url.contains(' '));
    let restored = path_from_file_url(&url);
    assert_eq!(restored, original);
}

#[test]
fn plain_and_blank_text_name_themselves() {
    assert_eq!(path_from_file_url("  /plain/path "), "/plain/path");
    assert_eq!(path_from_file_url("   "), "");
    assert_eq!(path_from_file_url("https://example.com/a.png"), "https://example.com/a.png");
    assert_eq!(file_url_from_path("relative/x.png"), "relative/x.png");
}
