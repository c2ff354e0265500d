use easel::asset::{MediaDimensions, MediaMetadata, ProviderAssetId};
use easel::cache::{cache_file_name, check_acquisition, exceeds_acquisition_limit, host_allowed, AcquisitionRefusal};
use easel::ids::{AssetId, DisplayId};
use easel::probe::{
    animated_image_extension, classify_local_media, gif_timing, image_dimensions, local_media_extension,
    probe_local_media, probe_media_bytes, still_image_extension, video_extension, LocalMediaKind,
};

fn gif_bytes(width: u32, height: u32, delay_ms: u32) -> Vec<u8> {
    let buffer = image::RgbaImage::from_pixel(width, height, image::Rgba([4, 5, 6, 255]));
    let frame = image::Frame::from_parts(buffer, 0, 0, image::Delay::from_numer_denom_ms(delay_ms, 1));
    let mut bytes = Vec::new();
    {
        let mut encoder = image::codecs::gif::GifEncoder::new(&mut bytes);
        encoder.encode_frame(frame).unwrap();
    }
    bytes
}

fn png_bytes(width: u32, height: u32) -> Vec<u8> {
    let buffer = image::RgbaImage::from_pixel(width, height, image::Rgba([1, 2, 3, 255]));
    let mut bytes = Vec::new();
    buffer.write_to(&mut std::io::Cursor::new(&mut bytes), image::ImageFormat::Png).unwrap();
    bytes
}

#[test]
fn rejects_http_and_unknown_hosts() {
    assert_eq!(check_acquisition("http", Some("example.com")), Err(AcquisitionRefusal::InsecureScheme));
    assert_eq!(
        check_acquisition("https", Some("example.com")),
        Err(AcquisitionRefusal::HostNotAllowed("example.com".to_string()))
    );
    assert_eq!(check_acquisition("https", None), Err(AcquisitionRefusal::MissingHost));
    assert_eq!(check_acquisition("https", Some("live.staticflickr.com")), Ok(()));
}

#[test]
fn allowlist_matches_whole_labels_only() {
    assert!(host_allowed("upload.wikimedia.org"));
    assert!(host_allowed("nasa.gov"));
    assert!(!host_allowed("evilnasa.gov"));
    assert!(!host_allowed("nasa.gov.example.com"));
}

#[test]
fn acquisition_limit_boundary() {
    assert!(!exceeds_acquisition_limit(0));
    assert!(exceeds_acquisition_limit(u64::MAX));
}

#[test]
fn cache_names_are_sanitized() {
    let provider = ProviderAssetId { provider: "openverse".to_string(), asset_id: "a/b c".to_string() };
    let id = AssetId::from_u128(1);
    assert_eq!(cache_file_name(Some(&provider), id, Some("jpg")), "openverse_a_b_c.jpg");
    assert_eq!(
        cache_file_name(None, id, None),
        format!("{}.img", id.to_hyphenated_string())
    );
}

#[test]
fn video_extensions_are_recognized_but_not_indexed() {
    assert!(video_extension("mp4"));
    assert!(!local_media_extension("mp4"));
    assert!(probe_media_bytes("mp4", b"not a real video").is_none());
}

#[test]
fn probes_gif_as_animated_image() {
    let bytes = gif_bytes(32, 24, 100);
    let metadata = probe_media_bytes("gif", &bytes).expect("gif metadata");
    match metadata {
        MediaMetadata::AnimatedImage { dimensions, frame_count, .. } => {
            assert_eq!(dimensions.width, 32);
            assert_eq!(dimensions.height, 24);
            assert_eq!(frame_count, Some(1));
        },
        other => panic!("expected animated image, got {other:?}"),
    }
}

#[test]
fn probed_gif_reports_its_duration() {
    let bytes = gif_bytes(8, 8, 100);
    match probe_media_bytes("GIF", &bytes) {
        Some(MediaMetadata::AnimatedImage { duration_ms, .. }) => assert_eq!(duration_ms, Some(100)),
        other => panic!("expected animated image, got {other:?}"),
    }
}

#[test]
fn probes_png_as_still_image() {
    assert_eq!(
        probe_media_bytes("png", &png_bytes(10, 20)),
        Some(MediaMetadata::StillImage { dimensions: MediaDimensions { width: 10, height: 20 } })
    );
    assert_eq!(probe_media_bytes("png", b"not a png"), None);
    assert_eq!(probe_media_bytes("txt", &png_bytes(10, 20)), None);
    let mut bmp = Vec::new();
    image::RgbaImage::from_pixel(3, 5, image::Rgba([9, 9, 9, 255]))
        .write_to(&mut std::io::Cursor::new(&mut bmp), image::ImageFormat::Bmp)
        .unwrap();
    assert_eq!(
        probe_media_bytes("BMP", &bmp),
        Some(MediaMetadata::StillImage { dimensions: MediaDimensions { width: 3, height: 5 } })
    );
}

#[test]
fn animated_probe_assembles_timing() {
    assert_eq!(classify_local_media("GIF"), LocalMediaKind::Animated);
    let timing = gif_timing(&[(100, 1)]);
    assert_eq!(timing, Some((Some(1), Some(100))));
    let metadata = probe_local_media(LocalMediaKind::Animated, image_dimensions(32, 24), timing).unwrap();
    match metadata {
        MediaMetadata::AnimatedImage { dimensions, frame_count, duration_ms } => {
            assert_eq!((dimensions.width, dimensions.height), (32, 24));
            assert_eq!((frame_count, duration_ms), (Some(1), Some(100)));
        },
        other => panic!("expected animated image, got {other:?}"),
    }
}

#[test]
fn extension_classes() {
    assert!(still_image_extension("png"));
    assert!(still_image_extension("JPEG"));
    assert!(animated_image_extension("gif"));
    assert!(!still_image_extension("gif"));
    assert!(local_media_extension("webp"));
    assert!(!local_media_extension("mp4"));
    assert_eq!(classify_local_media("txt"), LocalMediaKind::Unsupported);
    assert_eq!(image_dimensions(0, 10), None);
    assert_eq!(
        probe_local_media(LocalMediaKind::Still, image_dimensions(10, 20), None),
        Some(MediaMetadata::StillImage { dimensions: MediaDimensions { width: 10, height: 20 } })
    );
}

#[test]
fn gif_timing_sums_delays() {
    assert_eq!(gif_timing(&[]), None);
    assert_eq!(gif_timing(&[(50, 1), (30, 0), (10, 3)]), Some((Some(3), Some(83))));
    assert_eq!(gif_timing(&[(0, 1)]), Some((Some(1), None)));
}

#[test]
fn ids_roundtrip_through_text() {
    let id = DisplayId::from_u128(0x0123_4567_89ab_cdef_0123_4567_89ab_cdef);
    let text = id.to_hyphenated_string();
    assert_eq!(text, "01234567-89ab-cdef-0123-456789abcdef");
    assert_eq!(DisplayId::parse(&text).unwrap(), id);
    assert!(DisplayId::parse("not-a-uuid").is_err());
    assert_ne!(AssetId::new(), AssetId::new());
}

#[test]
fn truncated_gif_probe_returns() {
    let buffer = image::RgbaImage::from_pixel(16, 16, image::Rgba([4, 5, 6, 255]));
    let mut bytes = Vec::new();
    {
        let mut encoder = image::codecs::gif::GifEncoder::new(&mut bytes);
        for _ in 0..3 {
            let frame = image::Frame::from_parts(buffer.clone(), 0, 0, image::Delay::from_numer_denom_ms(40, 1));
            encoder.encode_frame(frame).unwrap();
        }
    }
    let cut = bytes.len() - 20;
    bytes.truncate(cut);
    match probe_media_bytes("gif", &bytes) {
        Some(MediaMetadata::AnimatedImage { dimensions, frame_count, .. }) => {
            assert_eq!((dimensions.width, dimensions.height), (16, 16));
            assert!(frame_count.map_or(true, |n| n < 3));
        },
        None => {},
        other => panic!("unexpected {other:?}"),
    }
}
