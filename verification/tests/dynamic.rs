use easel::calendar::{
    add_days, civil_ymd_from_days, day_of_year, days_from_civil, instant_at_local, InstantSeconds, LocalTimeOfDay,
    ScheduleError,
};
use easel::dynamic::{
    AppearanceMode, DynamicScheduleKind, DynamicStillError, DynamicStillFrame, DynamicStillKey, DynamicStillSet,
    SolarEvent,
};
use easel::evaluation::{
    active_appearance_frame, active_time_keyed_frame, decide_transition, next_transition_after,
    resolve_time_key_on_day, AppliedDynamicFrame, DynamicEvalContext, FrameSelection, SolarEventTimes,
};
use easel::ids::{AssetId, ProfileId};

fn tod(hour: u8, minute: u8) -> DynamicStillKey {
    DynamicStillKey::TimeOfDay { time: LocalTimeOfDay::new(hour, minute).unwrap() }
}

fn morning_noon_evening(a: AssetId, b: AssetId, c: AssetId) -> DynamicStillSet {
    let mut set = DynamicStillSet::with_fallback("Day", ProfileId::new(), a);
    set.frames = vec![
        DynamicStillFrame { source_index: Some(0), key: tod(6, 0), asset_id: a },
        DynamicStillFrame { source_index: Some(1), key: tod(12, 0), asset_id: b },
        DynamicStillFrame { source_index: Some(2), key: tod(18, 0), asset_id: c },
    ];
    set.validate().unwrap();
    set
}

fn ctx(unix_seconds: i64) -> DynamicEvalContext {
    DynamicEvalContext { now: InstantSeconds { unix_seconds }, utc_offset_minutes: 0, appearance: AppearanceMode::Light }
}

#[test]
fn selects_latest_keyed_frame_at_or_before_now() {
    let a = AssetId::new();
    let b = AssetId::new();
    let c = AssetId::new();
    let set = morning_noon_evening(a, b, c);
    let selection = active_time_keyed_frame(&set, ctx(1_704_119_400), &[]);
    assert_eq!(selection.asset_id, b);
    assert!(!selection.used_fallback);
    assert_eq!(selection.key_label(), "tod:12:00");
    assert_eq!(selection.reason, "active tod:12:00 since 12:00 local");
}

#[test]
fn uses_yesterday_evening_before_first_key() {
    let a = AssetId::new();
    let set = morning_noon_evening(a, a, a);
    let selection = active_time_keyed_frame(&set, ctx(1_704_078_000), &[]);
    assert!(!selection.used_fallback);
    assert_eq!(selection.key_label(), "tod:18:00");
}

#[test]
fn empty_frames_use_fallback() {
    let asset = AssetId::new();
    let set = DynamicStillSet::with_fallback("Empty", ProfileId::new(), asset);
    let selection = active_time_keyed_frame(&set, ctx(1_704_100_000), &[]);
    assert!(selection.used_fallback);
    assert_eq!(selection.asset_id, asset);
    assert_eq!(selection.key_label(), "fallback");
    assert_eq!(selection.reason, "fallback frame (no keyed transition at or before now)");
}

#[test]
fn next_transition_finds_upcoming_key() {
    let a = AssetId::new();
    let set = morning_noon_evening(a, a, a);
    let now = InstantSeconds { unix_seconds: 1_704_119_400 };
    let (instant, frame) = next_transition_after(&set, now, 0, &[]).unwrap();
    assert_eq!(frame.key.label(), "tod:18:00");
    assert!(instant.unix_seconds > now.unix_seconds);
    assert_eq!(instant.unix_seconds, 1_704_132_000);
}

#[test]
fn next_transition_is_none_for_appearance_sets() {
    let a = AssetId::new();
    let mut set = morning_noon_evening(a, a, a);
    set.schedule_kind = DynamicScheduleKind::Appearance;
    assert!(next_transition_after(&set, InstantSeconds { unix_seconds: 0 }, 0, &[]).is_none());
}

#[test]
fn appearance_selects_dark_frame() {
    let light = AssetId::new();
    let dark = AssetId::new();
    let mut set = DynamicStillSet::with_fallback("Apr", ProfileId::new(), light);
    set.schedule_kind = DynamicScheduleKind::Appearance;
    set.frames = vec![
        DynamicStillFrame {
            source_index: Some(0),
            key: DynamicStillKey::Appearance { mode: AppearanceMode::Light },
            asset_id: light,
        },
        DynamicStillFrame {
            source_index: Some(1),
            key: DynamicStillKey::Appearance { mode: AppearanceMode::Dark },
            asset_id: dark,
        },
    ];
    set.validate().unwrap();
    let selection = active_appearance_frame(&set, AppearanceMode::Dark);
    assert_eq!(selection.asset_id, dark);
    assert_eq!(selection.key_label(), "appearance:dark");
    assert_eq!(selection.reason, "appearance Dark");
}

#[test]
fn missing_appearance_mode_falls_back() {
    let light = AssetId::new();
    let set = DynamicStillSet::with_fallback("Apr", ProfileId::new(), light);
    let selection = active_appearance_frame(&set, AppearanceMode::Dark);
    assert!(selection.used_fallback);
    assert_eq!(selection.reason, "fallback frame (appearance mode missing)");
}

#[test]
fn hourly_default_has_twenty_four_frames() {
    let asset = AssetId::new();
    let set = DynamicStillSet::default_hourly("Day", ProfileId::new(), asset).unwrap();
    assert_eq!(set.frames.len(), 24);
    assert_eq!(set.schedule_kind, DynamicScheduleKind::TimeOfDay);
    assert_eq!(set.frames[13].key.label(), "tod:13:00");
    assert_eq!(set.frames[13].source_index, Some(13));
}

#[test]
fn hourly_default_refuses_blank_name() {
    assert_eq!(
        DynamicStillSet::default_hourly(" ", ProfileId::new(), AssetId::new()).unwrap_err(),
        DynamicStillError::EmptyName
    );
}

#[test]
fn migrate_v1_infers_solar_position_kind() {
    let asset = AssetId::new();
    let mut set = DynamicStillSet::with_fallback("Old", ProfileId::new(), asset);
    set.schema_version = 1;
    set.frames = vec![DynamicStillFrame {
        source_index: Some(0),
        key: DynamicStillKey::SolarPosition { altitude_millideg: 10_000, azimuth_millideg: 120_000 },
        asset_id: asset,
    }];
    let migrated = set.migrate().unwrap();
    assert_eq!(migrated.schema_version, 2);
    assert_eq!(migrated.schedule_kind, DynamicScheduleKind::SolarPosition);
}

#[test]
fn migrate_rejects_unknown_schema() {
    let mut set = DynamicStillSet::with_fallback("Old", ProfileId::new(), AssetId::new());
    set.schema_version = 7;
    assert_eq!(set.migrate().unwrap_err(), DynamicStillError::UnsupportedSchema(7));
}

#[test]
fn key_labels_match_formats() {
    assert_eq!(tod(6, 5).label(), "tod:06:05");
    assert_eq!(DynamicStillKey::Solar { event: SolarEvent::Sunrise, offset_minutes: 30 }.label(), "solar:sunrise+30m");
    assert_eq!(DynamicStillKey::Solar { event: SolarEvent::Sunset, offset_minutes: -15 }.label(), "solar:sunset-15m");
    assert_eq!(DynamicStillKey::Solar { event: SolarEvent::Sunset, offset_minutes: 0 }.label(), "solar:sunset+0m");
    assert_eq!(
        DynamicStillKey::SolarPosition { altitude_millideg: -500, azimuth_millideg: 270_900 }.label(),
        "sun:a-0.500:z270.900"
    );
    assert_eq!(
        DynamicStillKey::SolarPosition { altitude_millideg: 53_400, azimuth_millideg: 5 }.label(),
        "sun:a53.400:z0.005"
    );
}

#[test]
fn validate_reports_duplicate_label() {
    let a = AssetId::new();
    let mut set = DynamicStillSet::with_fallback("Day", ProfileId::new(), a);
    set.frames = vec![
        DynamicStillFrame { source_index: Some(0), key: tod(6, 0), asset_id: a },
        DynamicStillFrame { source_index: Some(1), key: tod(6, 0), asset_id: a },
    ];
    assert_eq!(set.validate(), Err(DynamicStillError::DuplicateKey("tod:06:00".to_string())));
}

#[test]
fn validate_reports_bad_keys_and_observer() {
    let a = AssetId::new();
    let mut set = DynamicStillSet::with_fallback("Day", ProfileId::new(), a);
    set.frames = vec![DynamicStillFrame {
        source_index: None,
        key: DynamicStillKey::TimeOfDay { time: LocalTimeOfDay { hour: 24, minute: 0 } },
        asset_id: a,
    }];
    assert_eq!(
        set.validate(),
        Err(DynamicStillError::Schedule(ScheduleError::InvalidTimeOfDay { hour: 24, minute: 0 }))
    );
    set.frames = vec![DynamicStillFrame {
        source_index: None,
        key: DynamicStillKey::SolarPosition { altitude_millideg: 0, azimuth_millideg: 360_000 },
        asset_id: a,
    }];
    assert_eq!(
        set.validate(),
        Err(DynamicStillError::InvalidSolarPosition { altitude_millideg: 0, azimuth_millideg: 360_000 })
    );
    set.frames.clear();
    set.latitude_microdeg = Some(10_000_000);
    assert_eq!(set.validate(), Err(DynamicStillError::IncompleteObserver));
    set.longitude_microdeg = Some(200_000_000);
    assert_eq!(set.validate(), Err(DynamicStillError::InvalidLongitude(200_000_000)));
    set.latitude_microdeg = Some(-91_000_000);
    assert_eq!(set.validate(), Err(DynamicStillError::InvalidLatitude(-91_000_000)));
}

fn selection(asset: AssetId, key: Option<DynamicStillKey>, reason: &str) -> FrameSelection {
    FrameSelection { asset_id: asset, key, reason: reason.to_string(), used_fallback: key.is_none() }
}

#[test]
fn transition_decisions() {
    let a = AssetId::from_u128(1);
    let sel = selection(a, Some(tod(12, 0)), "why");
    let first = decide_transition(None, &sel);
    assert!(first.should_apply);
    assert_eq!(first.reason, "initial dynamic apply (tod:12:00)");
    let same = AppliedDynamicFrame { asset_id: a, key_label: "tod:12:00".to_string(), applied_at: 5 };
    let again = decide_transition(Some(&same), &sel);
    assert!(!again.should_apply);
    assert_eq!(again.reason, "already showing tod:12:00");
    let older = AppliedDynamicFrame { asset_id: a, key_label: "tod:06:00".to_string(), applied_at: 5 };
    let moved = decide_transition(Some(&older), &sel);
    assert!(moved.should_apply);
    assert_eq!(moved.reason, "transition tod:06:00 → tod:12:00 (why)");
}

#[test]
fn recorded_apply_is_not_repeated() {
    let a = AssetId::from_u128(9);
    let sel = selection(a, None, "fallback frame (appearance mode missing)");
    let recorded = AppliedDynamicFrame { asset_id: sel.asset_id, key_label: sel.key_label(), applied_at: 0 };
    assert!(!decide_transition(Some(&recorded), &sel).should_apply);
}

#[test]
fn civil_calendar_round_trips() {
    assert_eq!(days_from_civil(1970, 1, 1), 0);
    assert_eq!(days_from_civil(2000, 3, 1), 11_017);
    assert_eq!(days_from_civil(2024, 1, 1), 19_723);
    assert_eq!(days_from_civil(1969, 12, 31), -1);
    assert_eq!(civil_ymd_from_days(19_723), (2024, 1, 1));
    assert_eq!(civil_ymd_from_days(-1), (1969, 12, 31));
    assert_eq!(civil_ymd_from_days(11_016), (2000, 2, 29));
    for days in [-800_000i64, -1, 0, 59, 60, 365, 10_957, 19_782, 2_932_896] {
        let (y, m, d) = civil_ymd_from_days(days);
        assert_eq!(days_from_civil(y, m, d), days);
    }
    assert_eq!(add_days(2024, 2, 28, 1), (2024, 2, 29));
    assert_eq!(add_days(2023, 12, 31, 1), (2024, 1, 1));
    assert_eq!(add_days(2024, 3, 1, -1), (2024, 2, 29));
    assert_eq!(day_of_year(2024, 12, 31), 366);
    assert_eq!(day_of_year(2023, 3, 1), 60);
}

#[test]
fn local_time_conversions() {
    let local = InstantSeconds { unix_seconds: 1_704_119_400 }.to_local(60);
    assert_eq!((local.year, local.month, local.day, local.time.hour, local.time.minute), (2024, 1, 1, 15, 30));
    let before_epoch = InstantSeconds { unix_seconds: -1 }.to_local(0);
    assert_eq!((before_epoch.year, before_epoch.month, before_epoch.day), (1969, 12, 31));
    assert_eq!((before_epoch.time.hour, before_epoch.time.minute), (23, 59));
    let noon = instant_at_local(2024, 1, 1, LocalTimeOfDay::new(12, 0).unwrap(), 120);
    assert_eq!(noon.unix_seconds, 1_704_103_200);
    assert_eq!(LocalTimeOfDay::new(7, 60), Err(ScheduleError::InvalidTimeOfDay { hour: 7, minute: 60 }));
}

#[test]
fn sunrise_keys_resolve_from_table() {
    let a = AssetId::new();
    let mut set = DynamicStillSet::with_fallback("Sun", ProfileId::new(), a);
    let key = DynamicStillKey::Solar { event: SolarEvent::Sunrise, offset_minutes: 30 };
    set.frames = vec![DynamicStillFrame { source_index: None, key, asset_id: a }];
    let table = [SolarEventTimes { year: 2024, month: 1, day: 1, sunrise_minutes: Some(7 * 60), sunset_minutes: None }];
    let now = InstantSeconds { unix_seconds: 1_704_119_400 };
    assert!(resolve_time_key_on_day(&set, key, now, 0, 0, &table).is_none());
    set.latitude_microdeg = Some(0);
    set.longitude_microdeg = Some(0);
    let at = resolve_time_key_on_day(&set, key, now, 0, 0, &table).unwrap();
    assert_eq!(at.unix_seconds, 1_704_094_200);
    assert!(resolve_time_key_on_day(&set, key, now, 0, 1, &table).is_none());
    let selection = active_time_keyed_frame(&set, ctx(1_704_119_400), &table);
    assert_eq!(selection.reason, "active solar:sunrise+30m since 07:30 local");
}
