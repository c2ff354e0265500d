use easel::collection::{Collection, CollectionError};
use easel::display::{
    logical_extent, match_display_evidence, preview_geometry, strong_identity_match, weak_identity_match,
    DisplayEvidence, DisplayValidationError, LogicalExtent, LogicalRect, NativePixelSize, ScaleFactor,
};
use easel::display_group::{DisplayGroup, DisplayGroupError};
use easel::history::{history_action_key, parse_history_action, HistoryAction};
use easel::hotplug::{resolve_hotplug, MissingOutputPolicy};
use easel::ids::{AssetId, DisplayId};
use easel::rotation::{select_next, skip_current, RotationError, RotationQueue};
use easel::asset::MediaDimensions;
use easel::suitability::{assess_suitability, PixelBudget};

#[test]
fn scale_factor_is_reduced() {
    let factor = ScaleFactor::new(150, 100).expect("valid scale");
    assert_eq!(factor, ScaleFactor::new(3, 2).expect("valid scale"));
    assert_eq!((factor.numerator(), factor.denominator()), (3, 2));
}

#[test]
fn zero_scale_is_rejected() {
    assert_eq!(ScaleFactor::new(0, 1), Err(DisplayValidationError::InvalidScaleFactor));
}

#[test]
fn zero_denominator_scale_is_rejected() {
    assert_eq!(ScaleFactor::new(2, 0), Err(DisplayValidationError::InvalidScaleFactor));
    let f = ScaleFactor::new(12, 8).unwrap();
    assert_eq!((f.numerator(), f.denominator()), (3, 2));
}

#[test]
fn rejects_empty_name() {
    let collection = Collection::new("   ");
    assert_eq!(collection.validate(), Err(CollectionError::EmptyName));
}

#[test]
fn add_asset_is_idempotent() {
    let mut collection = Collection::new("Favorites");
    let id = AssetId::new();
    collection.add_asset(id);
    collection.add_asset(id);
    assert_eq!(collection.asset_ids, vec![id]);
}

#[test]
fn add_then_remove_restores_membership() {
    let mut collection = Collection::new("Favorites");
    let a = AssetId::from_u128(1);
    let b = AssetId::from_u128(2);
    collection.add_asset(a);
    let before = collection.asset_ids.clone();
    collection.add_asset(b);
    collection.remove_asset(b);
    assert_eq!(collection.asset_ids, before);
    assert_eq!(collection.validate(), Ok(()));
}

#[test]
fn rejects_empty_membership() {
    let group = DisplayGroup::new("Desk", Vec::new());
    assert_eq!(group.validate(), Err(DisplayGroupError::EmptyMembership));
}

#[test]
fn rejects_duplicate_members() {
    let id = DisplayId::from_u128(1);
    let group = DisplayGroup::new("Desk", vec![id, id]);
    assert_eq!(group.validate(), Err(DisplayGroupError::DuplicateDisplay(id)));
}

#[test]
fn pause_until_restored_blocks_partial() {
    let group = DisplayGroup::new("Desk", vec![DisplayId::from_u128(1), DisplayId::from_u128(2)]);
    let live = vec![DisplayId::from_u128(1)];
    let resolution = resolve_hotplug(&group, &live, MissingOutputPolicy::PauseUntilRestored);
    assert!(!resolution.may_apply);
    assert_eq!(resolution.missing, vec![DisplayId::from_u128(2)]);
}

#[test]
fn skip_missing_allows_partial() {
    let group = DisplayGroup::new("Desk", vec![DisplayId::from_u128(1), DisplayId::from_u128(2)]);
    let live = vec![DisplayId::from_u128(1)];
    let resolution = resolve_hotplug(&group, &live, MissingOutputPolicy::SkipMissing);
    assert!(resolution.may_apply);
    assert_eq!(resolution.present, vec![DisplayId::from_u128(1)]);
}

#[test]
fn hotplug_members_partition_into_present_and_missing() {
    let ids: Vec<DisplayId> = (1..=4).map(DisplayId::from_u128).collect();
    let group = DisplayGroup::new("Wall", ids.clone());
    let live = vec![ids[3], ids[1]];
    for policy in [
        MissingOutputPolicy::SkipMissing,
        MissingOutputPolicy::PauseUntilRestored,
        MissingOutputPolicy::RequireAny,
    ] {
        let r = resolve_hotplug(&group, &live, policy);
        assert_eq!(r.present, vec![ids[1], ids[3]]);
        assert_eq!(r.missing, vec![ids[0], ids[2]]);
    }
    let all_live = resolve_hotplug(&group, &ids, MissingOutputPolicy::PauseUntilRestored);
    assert!(all_live.may_apply);
    assert!(all_live.missing.is_empty());
}

#[test]
fn avoid_repeat_skips_recent() {
    let a = AssetId::new();
    let b = AssetId::new();
    let c = AssetId::new();
    let mut queue = RotationQueue::from_assets("Desk", vec![a, b, c]);
    queue.policy.avoid_repeat_count = 2;
    queue.cursor = 0;
    let decision = select_next(&queue, &[a, b, c], &[a, b]).expect("select");
    assert_eq!(decision.asset_id, c);
    assert_eq!(decision.next_cursor, 0);
}

#[test]
fn paused_queue_refuses_selection() {
    let mut queue = RotationQueue::from_assets("Desk", vec![AssetId::new()]);
    queue.policy.paused = true;
    assert_eq!(select_next(&queue, &[AssetId::new()], &[]), Err(RotationError::Paused));
}

#[test]
fn skip_advances_cursor() {
    let a = AssetId::new();
    let b = AssetId::new();
    let queue = RotationQueue::from_assets("Desk", vec![a, b]);
    let (next, skipped) = skip_current(&queue, &[a, b]).expect("skip");
    assert_eq!(skipped, a);
    assert_eq!(next, 1);
}

#[test]
fn empty_membership_is_refused() {
    let queue = RotationQueue::from_assets("Desk", vec![]);
    assert_eq!(select_next(&queue, &[], &[]), Err(RotationError::EmptyQueue));
}

#[test]
fn selection_reason_names_asset_and_cursor() {
    let a = AssetId::from_u128(0x11);
    let b = AssetId::from_u128(0x22);
    let mut queue = RotationQueue::from_assets("Desk", vec![a, b]);
    queue.policy.avoid_repeat_count = 1;
    queue.cursor = 1;
    let d = select_next(&queue, &[a, b], &[]).unwrap();
    assert_eq!(d.asset_id, b);
    assert_eq!(d.next_cursor, 0);
    assert_eq!(
        d.reason,
        format!("selected {} at cursor 1 (avoided last 1 applies)", b.to_hyphenated_string())
    );
    let all_recent = select_next(&queue, &[a, b], &[a, b]).unwrap();
    assert!(all_recent.reason.ends_with("(avoid-repeat exhausted; all remaining recently used)")
        || all_recent.asset_id == b);
}

fn native(width: u32, height: u32) -> NativePixelSize {
    NativePixelSize { width, height }
}

#[test]
fn rejects_assets_smaller_than_largest_display() {
    let budget = PixelBudget::from_displays(&[native(3840, 2160)]);
    let assessment = assess_suitability(MediaDimensions { width: 1920, height: 1080 }, budget);
    assert!(!assessment.meets_minimum);
    assert!(assessment.score < 50);
}

#[test]
fn rewards_span_capable_assets() {
    let budget = PixelBudget::from_displays(&[native(1920, 1080), native(1920, 1080)]);
    let assessment = assess_suitability(MediaDimensions { width: 3840, height: 1080 }, budget);
    assert!(assessment.meets_minimum);
    assert!(assessment.score >= 80);
}

#[test]
fn suitability_score_stays_within_bounds() {
    let budget = PixelBudget::from_displays(&[native(1920, 1080)]);
    for (w, h) in [(0, 0), (1, 1), (1920, 1080), (7680, 4320), (100000, 10)] {
        let a = assess_suitability(MediaDimensions { width: w, height: h }, budget);
        assert!(a.score <= 100);
    }
}

fn evidence(connector: &str, serial: Option<&str>, width: u32) -> DisplayEvidence {
    DisplayEvidence {
        connector_name: Some(connector.to_string()),
        manufacturer: serial.map(|_| "ACME".to_string()),
        model: serial.map(|_| "Panel".to_string()),
        serial: serial.map(str::to_string),
        native_pixels: native(width, 1080),
    }
}

#[test]
fn strong_match_preserves_id_when_connector_changes() {
    let previous = vec![evidence("DP-1", Some("SN-1"), 1920)];
    let observed = vec![evidence("HDMI-A-1", Some("SN-1"), 1920)];
    assert!(strong_identity_match(&previous[0], &observed[0]));
    assert_eq!(match_display_evidence(&previous, &observed), vec![Some(0)]);
}

#[test]
fn weak_match_preserves_id_without_edid() {
    let previous = vec![evidence("eDP-1", None, 2560)];
    let observed = vec![evidence("eDP-1", None, 2560)];
    assert!(!strong_identity_match(&previous[0], &observed[0]));
    assert!(weak_identity_match(&previous[0], &observed[0]));
    assert_eq!(match_display_evidence(&previous, &observed), vec![Some(0)]);
}

#[test]
fn unmatched_observation_gets_new_id() {
    let previous = vec![evidence("DP-1", Some("SN-OLD"), 1920)];
    let observed = vec![evidence("DP-2", Some("SN-NEW"), 3840)];
    assert_eq!(match_display_evidence(&previous, &observed), vec![None]);
}

#[test]
fn empty_previous_assigns_fresh_ids() {
    let observed = vec![evidence("DP-1", Some("SN-1"), 1920)];
    assert_eq!(match_display_evidence(&[], &observed), vec![None]);
}

#[test]
fn each_previous_display_is_claimed_once() {
    let previous = vec![evidence("DP-1", Some("SN-1"), 1920)];
    let observed = vec![evidence("DP-1", Some("SN-1"), 1920), evidence("DP-1", Some("SN-1"), 1920)];
    assert_eq!(match_display_evidence(&previous, &observed), vec![Some(0), None]);
}

#[test]
fn history_keys_roundtrip() {
    for action in [
        HistoryAction::Discovered,
        HistoryAction::Previewed,
        HistoryAction::Applied,
        HistoryAction::Favorited,
        HistoryAction::Collected,
    ] {
        assert_eq!(parse_history_action(history_action_key(action)), Ok(action));
    }
    assert!(parse_history_action("bogus").is_err());
}

#[test]
fn preview_geometry_shrinks_toward_zero_and_keeps_one_pixel() {
    let (native, logical) = preview_geometry(
        NativePixelSize { width: 3840, height: 2160 },
        LogicalRect { x: -1919, y: 15, width: 4, height: 1920 },
    );
    assert_eq!(native, NativePixelSize { width: 480, height: 270 });
    assert_eq!(logical, LogicalRect { x: -239, y: 1, width: 1, height: 240 });
}

#[test]
fn logical_extent_spans_all_rectangles() {
    let rects = [
        LogicalRect { x: -1920, y: 0, width: 1920, height: 1080 },
        LogicalRect { x: 0, y: -200, width: 2560, height: 1440 },
    ];
    assert_eq!(logical_extent(&rects), LogicalExtent { min_x: -1920, min_y: -200, max_x: 2560, max_y: 1240 });
}

#[test]
fn logical_extent_of_nothing_is_the_unit_box() {
    assert_eq!(logical_extent(&[]), LogicalExtent { min_x: 0, min_y: 0, max_x: 1, max_y: 1 });
}

#[test]
fn logical_extent_ignores_an_oversized_width() {
    let rects = [LogicalRect { x: 5, y: 5, width: u32::MAX, height: 10 }];
    assert_eq!(logical_extent(&rects), LogicalExtent { min_x: 5, min_y: 5, max_x: 5, max_y: 15 });
}
