use base64::Engine;
use easel::apple::{apple_keys_from_still_set, appearance_metadata, h24_metadata, solar_metadata, H24Sample, SolarSample};
use easel::bundle::{bundle_file_name, plan_per_display_bundles, BundlePlanError, NativeDynamicFormat};
use easel::calendar::LocalTimeOfDay;
use easel::dynamic::{AppearanceMode, DynamicScheduleKind, DynamicStillFrame, DynamicStillKey, DynamicStillSet};
use easel::encode::{encode_order, even_rgb_planes, plan_heic_encode, still_set_encode_frames, EncodeFrame, RgbaPixels};
use easel::heic::{keyed_frame_plan, HeicEncodeError, HeicImportError, ImportedDynamicDesktop, ImportedDynamicFrame};
use easel::ids::{AssetId, DisplayId, ProfileId};
use easel::plasma::{appearance_frame_indices, check_day_night_images, escape_json, plasma_image_file_name, plasma_metadata_json, PlasmaDayNightError};
use easel::xmp::{
    decode_apple_desktop_payload, locate_apple_desktop_payload, scrape_xmp_packet, AppleMetadataFlavor, MetadataError,
};
use std::collections::HashMap;

fn solar_base64() -> String {
    let mut root = plist::Dictionary::new();
    let mut first = plist::Dictionary::new();
    first.insert("i".to_string(), plist::Value::Integer(0.into()));
    first.insert("a".to_string(), plist::Value::Real(-0.34));
    first.insert("z".to_string(), plist::Value::Real(270.9));
    let mut second = plist::Dictionary::new();
    second.insert("i".to_string(), plist::Value::Integer(1.into()));
    second.insert("a".to_string(), plist::Value::Real(53.4));
    second.insert("z".to_string(), plist::Value::Real(182.2));
    root.insert(
        "si".to_string(),
        plist::Value::Array(vec![plist::Value::Dictionary(first), plist::Value::Dictionary(second)]),
    );
    let mut bytes = Vec::new();
    plist::Value::Dictionary(root).to_writer_binary(&mut bytes).unwrap();
    base64::engine::general_purpose::STANDARD.encode(bytes)
}

#[test]
fn parses_solar_plist_into_position_keys() {
    let meta = solar_metadata(&[
        SolarSample { index: 0, altitude_millideg: -340, azimuth_millideg: 270_900 },
        SolarSample { index: 1, altitude_millideg: 53_400, azimuth_millideg: 182_200 },
    ])
    .unwrap();
    assert_eq!(meta.flavor, AppleMetadataFlavor::Solar);
    assert_eq!(meta.schedule_kind, DynamicScheduleKind::SolarPosition);
    assert_eq!(meta.keys_by_index.len(), 2);
    assert!(matches!(
        meta.keys_by_index.get(&1).unwrap(),
        DynamicStillKey::SolarPosition { altitude_millideg, .. } if (*altitude_millideg - 53_400).abs() < 10
    ));
}

#[test]
fn solar_azimuth_is_folded_and_empty_refused() {
    let meta = solar_metadata(&[SolarSample { index: 3, altitude_millideg: 1, azimuth_millideg: -90_000 }]).unwrap();
    assert_eq!(
        meta.keys_by_index.get(&3),
        Some(&DynamicStillKey::SolarPosition { altitude_millideg: 1, azimuth_millideg: 270_000 })
    );
    assert!(matches!(solar_metadata(&[]), Err(MetadataError::EmptySchedule)));
}

#[test]
fn parses_appearance_plist() {
    let meta = appearance_metadata(0, 1);
    assert_eq!(meta.keys_by_index.get(&0), Some(&DynamicStillKey::Appearance { mode: AppearanceMode::Light }));
    assert_eq!(meta.keys_by_index.get(&1), Some(&DynamicStillKey::Appearance { mode: AppearanceMode::Dark }));
}

#[test]
fn h24_samples_map_to_times() {
    let meta = h24_metadata(&[
        H24Sample { index: 0, hour: Some(6), minute: Some(30), day_minutes: None },
        H24Sample { index: 1, hour: None, minute: None, day_minutes: Some(18 * 60 + 5) },
    ])
    .unwrap();
    assert_eq!(meta.flavor, AppleMetadataFlavor::H24);
    assert_eq!(
        meta.keys_by_index.get(&1),
        Some(&DynamicStillKey::TimeOfDay { time: LocalTimeOfDay { hour: 18, minute: 5 } })
    );
    match h24_metadata(&[H24Sample { index: 4, hour: None, minute: Some(1), day_minutes: None }]) {
        Err(MetadataError::Plist(message)) => assert_eq!(message, "h24 item 4 missing time fields"),
        other => panic!("unexpected {other:?}"),
    }
    match h24_metadata(&[H24Sample { index: 4, hour: Some(25), minute: Some(1), day_minutes: None }]) {
        Err(MetadataError::Plist(message)) => assert_eq!(message, "invalid time of day 25:01"),
        other => panic!("unexpected {other:?}"),
    }
    assert!(matches!(h24_metadata(&[]), Err(MetadataError::EmptySchedule)));
}

#[test]
fn scrapes_and_parses_xmp_attribute() {
    let encoded = solar_base64();
    let xmp = format!(
        r#"<?xpacket begin="" id="W5M0MpCehiHzreSzNTczkc9d"?><x:xmpmeta xmlns:x="adobe:ns:meta/"><rdf:RDF xmlns:rdf="http://www.w3.org/1999/02/22-rdf-syntax-ns#"><rdf:Description xmlns:apple_desktop="http://ns.apple.com/namespace/1.0/" apple_desktop:solar="{encoded}"/></rdf:RDF></x:xmpmeta><?xpacket end="w"?>"#
    );
    let mut file = b"\x00\x00ftypheic junk".to_vec();
    file.extend_from_slice(xmp.as_bytes());
    file.extend_from_slice(b"trailing");
    let scraped = scrape_xmp_packet(&file).unwrap();
    assert_eq!(scraped, xmp);
    let (flavor, payload) = locate_apple_desktop_payload(&scraped).unwrap();
    assert_eq!(flavor, AppleMetadataFlavor::Solar);
    assert_eq!(payload, encoded);
    let bytes = decode_apple_desktop_payload(&payload).unwrap();
    let value = plist::Value::from_reader(std::io::Cursor::new(bytes)).unwrap();
    let items = value.as_dictionary().unwrap().get("si").unwrap().as_array().unwrap();
    assert_eq!(items.len(), 2);
}

#[test]
fn xmp_element_form_and_missing_tag() {
    let xmp = "<x:xmpmeta><apple_desktop:h24>  QUJD  </apple_desktop:h24></x:xmpmeta>";
    let (flavor, payload) = locate_apple_desktop_payload(xmp).unwrap();
    assert_eq!(flavor, AppleMetadataFlavor::H24);
    assert_eq!(payload, "QUJD");
    assert_eq!(decode_apple_desktop_payload(&payload).unwrap(), b"ABC".to_vec());
    assert!(matches!(locate_apple_desktop_payload("<x:xmpmeta/>"), Err(MetadataError::NoAppleDesktopTag)));
    assert!(matches!(decode_apple_desktop_payload("%%%"), Err(MetadataError::Base64(_))));
    assert_eq!(scrape_xmp_packet(b"no packet here"), None);
}

fn appearance_set() -> DynamicStillSet {
    let light = AssetId::from_u128(1);
    let dark = AssetId::from_u128(2);
    let mut set = DynamicStillSet::with_fallback("Apr", ProfileId::new(), light);
    set.schedule_kind = DynamicScheduleKind::Appearance;
    set.frames = vec![
        DynamicStillFrame { source_index: Some(0), key: DynamicStillKey::Appearance { mode: AppearanceMode::Light }, asset_id: light },
        DynamicStillFrame { source_index: Some(1), key: DynamicStillKey::Appearance { mode: AppearanceMode::Dark }, asset_id: dark },
    ];
    set
}

#[test]
fn extracts_appearance_pair() {
    let set = appearance_set();
    assert_eq!(appearance_frame_indices(&set, 2).unwrap(), (0, 1));
    assert!(matches!(
        appearance_frame_indices(&set, 3),
        Err(PlasmaDayNightError::FrameCountMismatch { frames: 2, images: 3 })
    ));
    let hourly = DynamicStillSet::default_hourly("Day", ProfileId::new(), AssetId::new()).unwrap();
    assert!(matches!(appearance_frame_indices(&hourly, 24), Err(PlasmaDayNightError::NotAppearanceSet)));
}

#[test]
fn writes_package_layout() {
    assert!(check_day_night_images((32, 24), (32, 24)).is_ok());
    assert!(matches!(check_day_night_images((0, 24), (32, 24)), Err(PlasmaDayNightError::EmptyImage)));
    assert!(matches!(
        check_day_night_images((32, 24), (32, 25)),
        Err(PlasmaDayNightError::SizeMismatch { light: (32, 24), dark: (32, 25) })
    ));
    assert_eq!(plasma_image_file_name(32, 24), "32x24.png");
    let meta = plasma_metadata_json("easel.lake", "Lake", true);
    assert!(meta.contains("\"Id\": \"easel.lake\""));
    assert!(meta.contains("\"X-KDE-CrossFade\": true"));
    assert_eq!(
        meta,
        "{\n  \"KPlugin\": {\n    \"Id\": \"easel.lake\",\n    \"Name\": \"Lake\",\n    \"License\": \"Unknown\"\n  },\n  \"X-KDE-CrossFade\": true\n}\n"
    );
}

#[test]
fn json_escaping() {
    assert_eq!(escape_json("a\"b\\c\nd"), "a\\\"b\\\\c\\nd");
    assert_eq!(escape_json("plain"), "plain");
}

#[test]
fn plans_one_target_per_display() {
    let asset = AssetId::new();
    let set = DynamicStillSet::default_hourly("Day", ProfileId::new(), asset).unwrap();
    let displays = vec![DisplayId::from_u128(1), DisplayId::from_u128(2)];
    let plan = plan_per_display_bundles(&set, &displays, NativeDynamicFormat::AppleHeic).unwrap();
    assert_eq!(plan.frame_count, 24);
    assert_eq!(plan.targets.len(), displays.len());
    assert!(plan.targets.iter().all(|target| target.format == NativeDynamicFormat::AppleHeic));
    assert_eq!(
        plan.targets[1].file_stem,
        format!("{}-{}", set.id.to_hyphenated_string(), displays[1].to_hyphenated_string())
    );
    assert_eq!(plan_per_display_bundles(&set, &[], NativeDynamicFormat::PlasmaHeic).unwrap_err(), BundlePlanError::NoDisplays);
    let empty = DynamicStillSet::with_fallback("E", ProfileId::new(), asset);
    assert_eq!(
        plan_per_display_bundles(&empty, &displays, NativeDynamicFormat::PlasmaHeic).unwrap_err(),
        BundlePlanError::NoFrames
    );
}

#[test]
fn bundle_names_drop_hyphens() {
    assert_eq!(bundle_file_name("ab-cd-ef", 3), "v3_abcdef.heic");
}

#[test]
fn export_keys_follow_set_kind() {
    let set = appearance_set();
    let (flavor, keys) = apple_keys_from_still_set(&set).unwrap();
    assert_eq!(flavor, AppleMetadataFlavor::Appearance);
    assert_eq!(keys.len(), 2);
    let mut mixed = appearance_set();
    mixed.schedule_kind = DynamicScheduleKind::TimeOfDay;
    match apple_keys_from_still_set(&mixed) {
        Err(MetadataError::Plist(message)) => {
            assert_eq!(message, "frame 0 key appearance:light is incompatible with H24 export")
        },
        other => panic!("unexpected {other:?}"),
    }
    let empty = DynamicStillSet::with_fallback("E", ProfileId::new(), AssetId::new());
    assert!(matches!(apple_keys_from_still_set(&empty), Err(MetadataError::EmptySchedule)));
}

#[test]
fn heic_frame_plan_skips_unkeyed_images() {
    let mut keys = HashMap::new();
    keys.insert(2u32, DynamicStillKey::Appearance { mode: AppearanceMode::Dark });
    keys.insert(0u32, DynamicStillKey::Appearance { mode: AppearanceMode::Light });
    let frames = keyed_frame_plan(&keys, 3).unwrap();
    assert_eq!(frames.iter().map(|f| f.index).collect::<Vec<_>>(), vec![0, 2]);
    assert!(matches!(keyed_frame_plan(&keys, 0), Err(HeicImportError::NoImages)));
    assert!(matches!(keyed_frame_plan(&HashMap::new(), 2), Err(HeicImportError::EmptySchedule)));
}

#[test]
fn import_template_builds_valid_set() {
    let imported = ImportedDynamicDesktop {
        source_path: "/tmp/day.heic".to_string(),
        flavor: AppleMetadataFlavor::Appearance,
        schedule_kind: DynamicScheduleKind::Appearance,
        frames: vec![
            ImportedDynamicFrame { index: 0, key: DynamicStillKey::Appearance { mode: AppearanceMode::Light } },
            ImportedDynamicFrame { index: 1, key: DynamicStillKey::Appearance { mode: AppearanceMode::Dark } },
        ],
    };
    let assets = [AssetId::from_u128(5), AssetId::from_u128(6)];
    let set = imported.into_still_set_template("Imported", ProfileId::new(), &assets).unwrap();
    assert_eq!(set.fallback_asset_id, assets[0]);
    assert_eq!(set.source_package_path.as_deref(), Some("/tmp/day.heic"));
    assert!(set.request_cross_fade);
    assert_eq!(set.frames[1].asset_id, assets[1]);
    assert!(matches!(
        imported.into_still_set_template("Imported", ProfileId::new(), &assets[..1]),
        Err(HeicImportError::AssetCountMismatch { frames: 2, assets: 1 })
    ));
}

#[test]
fn export_items_are_sorted_by_index() {
    let mut keys = HashMap::new();
    keys.insert(7u32, DynamicStillKey::TimeOfDay { time: LocalTimeOfDay { hour: 18, minute: 0 } });
    keys.insert(2u32, DynamicStillKey::TimeOfDay { time: LocalTimeOfDay { hour: 6, minute: 30 } });
    keys.insert(4u32, DynamicStillKey::TimeOfDay { time: LocalTimeOfDay { hour: 12, minute: 0 } });
    assert_eq!(easel::apple::sorted_indices(&keys), vec![2, 4, 7]);
    let items = easel::apple::h24_export_items(&keys).unwrap();
    assert_eq!(items.iter().map(|(i, _)| *i).collect::<Vec<_>>(), vec![2, 4, 7]);
    assert_eq!(items[0].1, LocalTimeOfDay { hour: 6, minute: 30 });
    match easel::apple::solar_export_items(&keys) {
        Err(MetadataError::Plist(message)) => assert_eq!(message, "solar export missing SolarPosition for index 2"),
        other => panic!("unexpected {other:?}"),
    }
    keys.insert(1u32, DynamicStillKey::Appearance { mode: AppearanceMode::Light });
    match easel::apple::h24_export_items(&keys) {
        Err(MetadataError::Plist(message)) => assert_eq!(message, "h24 export missing TimeOfDay for index 1"),
        other => panic!("unexpected {other:?}"),
    }
}

#[test]
fn appearance_export_needs_both_modes() {
    let mut keys = HashMap::new();
    keys.insert(0u32, DynamicStillKey::Appearance { mode: AppearanceMode::Light });
    match easel::apple::appearance_export_indices(&keys) {
        Err(MetadataError::Plist(message)) => {
            assert_eq!(message, "appearance export requires both light and dark indices")
        },
        other => panic!("unexpected {other:?}"),
    }
    keys.insert(3u32, DynamicStillKey::Appearance { mode: AppearanceMode::Dark });
    assert_eq!(easel::apple::appearance_export_indices(&keys).unwrap(), (0, 3));
    keys.insert(5u32, DynamicStillKey::TimeOfDay { time: LocalTimeOfDay { hour: 1, minute: 2 } });
    match easel::apple::appearance_export_indices(&keys) {
        Err(MetadataError::Plist(message)) => assert_eq!(message, "appearance export got non-appearance key at 5"),
        other => panic!("unexpected {other:?}"),
    }
}

#[test]
fn built_xmp_packet_is_found_again() {
    let packet = easel::apple::apple_xmp_packet(AppleMetadataFlavor::Appearance, "QUJD");
    assert!(packet.contains("apple_desktop:apr=\"QUJD\""));
    let scraped = scrape_xmp_packet(packet.as_bytes()).unwrap();
    assert_eq!(scraped, packet);
    let (flavor, payload) = locate_apple_desktop_payload(&scraped).unwrap();
    assert_eq!(flavor, AppleMetadataFlavor::Appearance);
    assert_eq!(payload, "QUJD");
}

fn solid(width: u32, height: u32, rgba: [u8; 4]) -> RgbaPixels {
    let mut data = Vec::new();
    for _ in 0..(width * height) {
        data.extend_from_slice(&rgba);
    }
    RgbaPixels { width, height, data }
}

fn time_key(hour: u8, minute: u8) -> DynamicStillKey {
    DynamicStillKey::TimeOfDay { time: LocalTimeOfDay::new(hour, minute).unwrap() }
}

#[test]
fn remaps_sparse_frame_indices_to_encode_order() {
    let frames = vec![
        EncodeFrame { index: 10, key: time_key(18, 0), image: solid(32, 24, [20, 20, 40, 255]) },
        EncodeFrame { index: 3, key: time_key(6, 0), image: solid(32, 24, [200, 80, 40, 255]) },
    ];
    let plan = plan_heic_encode(&frames).expect("plan");
    assert_eq!(plan.order, vec![1, 0]);
    assert_eq!(plan.keys_by_index.len(), 2);
    assert_eq!(plan.keys_by_index.get(&0), Some(&frames[1].key));
    assert_eq!(plan.keys_by_index.get(&1), Some(&frames[0].key));
}

#[test]
fn encode_order_is_stable_among_equal_indices() {
    let frames = vec![
        EncodeFrame { index: 2, key: time_key(1, 0), image: solid(1, 1, [0, 0, 0, 255]) },
        EncodeFrame { index: 1, key: time_key(2, 0), image: solid(1, 1, [0, 0, 0, 255]) },
        EncodeFrame { index: 2, key: time_key(3, 0), image: solid(1, 1, [0, 0, 0, 255]) },
        EncodeFrame { index: 0, key: time_key(4, 0), image: solid(1, 1, [0, 0, 0, 255]) },
    ];
    assert_eq!(encode_order(&frames), vec![3, 1, 0, 2]);
}

#[test]
fn planning_no_frames_is_refused() {
    assert!(matches!(plan_heic_encode(&[]), Err(HeicEncodeError::NoFrames)));
}

#[test]
fn still_set_encode_frames_pairs_images_with_export_indices() {
    let asset = AssetId::new();
    let mut set = DynamicStillSet::with_fallback("Day", ProfileId::new(), asset);
    set.schedule_kind = DynamicScheduleKind::TimeOfDay;
    set.frames = vec![
        DynamicStillFrame { source_index: Some(7), key: time_key(6, 0), asset_id: asset },
        DynamicStillFrame { source_index: None, key: time_key(18, 0), asset_id: asset },
    ];
    let images = vec![solid(2, 2, [1, 2, 3, 255]), solid(4, 4, [9, 8, 7, 255])];
    let (flavor, frames) = still_set_encode_frames(&set, images).expect("frames");
    assert_eq!(flavor, AppleMetadataFlavor::H24);
    assert_eq!(frames.len(), 2);
    assert_eq!((frames[0].index, frames[0].key), (7, time_key(6, 0)));
    assert_eq!((frames[1].index, frames[1].key), (1, time_key(18, 0)));
    assert_eq!(frames[1].image.width, 4);
    assert_eq!(frames[0].image.data[0..3], [1, 2, 3]);
}

#[test]
fn still_set_encode_frames_rejects_a_count_mismatch() {
    let asset = AssetId::new();
    let set = DynamicStillSet::default_hourly("Hourly", ProfileId::new(), asset).unwrap();
    match still_set_encode_frames(&set, vec![solid(1, 1, [0, 0, 0, 255])]) {
        Err(HeicEncodeError::FrameCountMismatch { frames, images }) => assert_eq!((frames, images), (24, 1)),
        other => panic!("unexpected {other:?}"),
    }
}

#[test]
fn still_set_encode_frames_without_frames_is_an_empty_schedule() {
    let set = DynamicStillSet::with_fallback("Empty", ProfileId::new(), AssetId::new());
    assert!(matches!(
        still_set_encode_frames(&set, Vec::new()),
        Err(HeicEncodeError::Metadata(MetadataError::EmptySchedule))
    ));
}

#[test]
fn even_planes_repeat_the_last_column_and_row() {
    let source = RgbaPixels {
        width: 3,
        height: 1,
        data: vec![10, 11, 12, 255, 20, 21, 22, 255, 30, 31, 32, 255],
    };
    let planes = even_rgb_planes(&source).expect("planes");
    assert_eq!((planes.width, planes.height), (4, 2));
    assert_eq!(planes.red, vec![10, 20, 30, 30, 10, 20, 30, 30]);
    assert_eq!(planes.green, vec![11, 21, 31, 31, 11, 21, 31, 31]);
    assert_eq!(planes.blue, vec![12, 22, 32, 32, 12, 22, 32, 32]);
}

#[test]
fn even_planes_of_an_empty_image_are_refused() {
    let source = RgbaPixels { width: 0, height: 5, data: Vec::new() };
    assert!(matches!(even_rgb_planes(&source), Err(HeicEncodeError::EmptyImage)));
}

#[test]
fn packet_between_other_bytes_is_recovered_exactly() {
    let packet = "<?xpacket begin=\"\u{feff}\" id=\"W5M0MpCehiHzreSzNTczkc9d\"?><x:xmpmeta xmlns:x=\"adobe:ns:meta/\"/><?xpacket end=\"w\"?>";
    let mut bytes = vec![0u8, 1, 2, b'<', b'?', b'x'];
    bytes.extend_from_slice(packet.as_bytes());
    bytes.extend_from_slice(b"> trailing <?xpacket end=\"r\"?>");
    assert_eq!(scrape_xmp_packet(&bytes), Some(packet.to_string()));
}
