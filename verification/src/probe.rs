//! Local media classification by extension, probe assembly, and folder-watch decisions.

use vstd::prelude::*;

use crate::asset::{MediaDimensions, MediaMetadata};
use crate::text::{chars_eq, chars_of, lower, lower_chars};

verus! {

#[verifier::external_type_specification]
#[verifier::external_body]
pub struct ExIoError(std::io::Error);

/// Still-image extensions indexed by Easel (lower case).
pub open spec fn still_extensions() -> Seq<Seq<char>> {
    seq!["jpg"@, "jpeg"@, "png"@, "webp"@, "bmp"@, "tif"@, "tiff"@]
}

/// Animated-image extensions indexed as live-surface media (lower case).
pub open spec fn animated_extensions() -> Seq<Seq<char>> {
    seq!["gif"@]
}

/// Video container extensions recognized but not yet indexed (lower case).
pub open spec fn video_extensions() -> Seq<Seq<char>> {
    seq!["mp4"@, "webm"@, "mkv"@, "mov"@, "m4v"@]
}

fn in_list(list: &Vec<Vec<char>>, item: &Vec<char>, Ghost(spec_list): Ghost<Seq<Seq<char>>>) -> (r: bool)
    requires
        list@.len() == spec_list.len(),
        forall|k: int| 0 <= k < list@.len() ==> (#[trigger] list@[k])@ == spec_list[k],
    ensures
        r == spec_list.contains(item@),
{
    let mut i: usize = 0;
    while i < list.len()
        invariant
            i <= list@.len(),
            list@.len() == spec_list.len(),
            forall|k: int| 0 <= k < list@.len() ==> (#[trigger] list@[k])@ == spec_list[k],
            forall|k: int| 0 <= k < i ==> spec_list[k] != item@,
        decreases list@.len() - i,
    {
        if chars_eq(list[i].as_slice(), item.as_slice()) {
            assert(spec_list[i as int] == item@);
            return true;
        }
        i = i + 1;
    }
    proof {
        if spec_list.contains(item@) {
            let k = choose|k: int| 0 <= k < spec_list.len() && spec_list[k] == item@;
            assert(spec_list[k] != item@);
        }
    }
    false
}

/// Returns whether `extension` (any letter case) is a still-image type indexed by Easel.
pub fn still_image_extension(extension: &str) -> (r: bool)
    ensures
        r == still_extensions().contains(lower(extension@)),
{
    let mut list: Vec<Vec<char>> = Vec::new();
    list.push(chars_of("jpg"));
    list.push(chars_of("jpeg"));
    list.push(chars_of("png"));
    list.push(chars_of("webp"));
    list.push(chars_of("bmp"));
    list.push(chars_of("tif"));
    list.push(chars_of("tiff"));
    let lowered = lower_chars(&chars_of(extension));
    in_list(&list, &lowered, Ghost(still_extensions()))
}

/// Returns whether `extension` (any letter case) is an animated image container.
pub fn animated_image_extension(extension: &str) -> (r: bool)
    ensures
        r == animated_extensions().contains(lower(extension@)),
{
    let mut list: Vec<Vec<char>> = Vec::new();
    list.push(chars_of("gif"));
    let lowered = lower_chars(&chars_of(extension));
    in_list(&list, &lowered, Ghost(animated_extensions()))
}

/// Returns whether `extension` (any letter case) is a known video container.
///
/// Video files are recognized but not indexed yet.
pub fn video_extension(extension: &str) -> (r: bool)
    ensures
        r == video_extensions().contains(lower(extension@)),
{
    let mut list: Vec<Vec<char>> = Vec::new();
    list.push(chars_of("mp4"));
    list.push(chars_of("webm"));
    list.push(chars_of("mkv"));
    list.push(chars_of("mov"));
    list.push(chars_of("m4v"));
    let lowered = lower_chars(&chars_of(extension));
    in_list(&list, &lowered, Ghost(video_extensions()))
}

/// Returns whether `extension` is a local media type Easel indexes today.
pub fn local_media_extension(extension: &str) -> (r: bool)
    ensures
        r == (still_extensions().contains(lower(extension@)) || animated_extensions().contains(
            lower(extension@),
        )),
{
    still_image_extension(extension) || animated_image_extension(extension)
}

/// How a local file is probed, by extension.
#[derive(Clone, Copy, Debug, PartialEq, Eq, Structural)]
pub enum LocalMediaKind {
    /// Animated image container (probed for frame timing).
    Animated,
    /// Still image.
    Still,
    /// Not indexed.
    Unsupported,
}

/// Which probe a file extension calls for; animated containers win over stills.
pub open spec fn media_kind(extension: Seq<char>) -> LocalMediaKind {
    if animated_extensions().contains(lower(extension)) {
        LocalMediaKind::Animated
    } else if still_extensions().contains(lower(extension)) {
        LocalMediaKind::Still
    } else {
        LocalMediaKind::Unsupported
    }
}

/// Which probe a file extension calls for; animated containers win over stills.
pub fn classify_local_media(extension: &str) -> (r: LocalMediaKind)
    ensures
        r == media_kind(extension@),
{
    if animated_image_extension(extension) {
        LocalMediaKind::Animated
    } else if still_image_extension(extension) {
        LocalMediaKind::Still
    } else {
        LocalMediaKind::Unsupported
    }
}

/// Decoded dimensions, rejecting empty images.
pub open spec fn nonempty_dimensions(width: u32, height: u32) -> Option<MediaDimensions> {
    if width == 0 || height == 0 {
        None
    } else {
        Some(MediaDimensions { width, height })
    }
}

/// Decoded dimensions, rejecting empty images.
pub fn image_dimensions(width: u32, height: u32) -> (r: Option<MediaDimensions>)
    ensures
        r == nonempty_dimensions(width, height),
{
    if width == 0 || height == 0 {
        return None;
    }
    Some(MediaDimensions { width, height })
}

/// Frames of a GIF that timing inspects at most.
pub const MAX_GIF_FRAMES: usize = 256;

/// Whole milliseconds of one frame delay given as a rational `numer / denom` (zero
/// denominators count as one).
pub open spec fn delay_ms(delay: (u32, u32)) -> int {
    delay.0 as int / (if delay.1 == 0 { 1int } else { delay.1 as int })
}

/// Sum of the frame delays, each step saturating at `u64::MAX`.
pub open spec fn total_delay(delays: Seq<(u32, u32)>) -> int
    decreases delays.len(),
{
    if delays.len() == 0 {
        0
    } else {
        let t = total_delay(delays.drop_last()) + delay_ms(delays.last());
        if t > u64::MAX { u64::MAX as int } else { t }
    }
}

/// Frame count and total duration of an animated image from its frame delays (at most
/// the first 256 frames count); no frames means no timing.
pub open spec fn frame_timing(delays: Seq<(u32, u32)>) -> Option<(Option<u32>, Option<u64>)> {
    let n = if delays.len() < 256 {
        delays.len() as int
    } else {
        256int
    };
    let total = total_delay(delays.subrange(0, n));
    if n == 0 {
        None
    } else {
        Some((Some(n as u32), if total > 0 { Some(total as u64) } else { None::<u64> }))
    }
}

/// Frame count and total duration of an animated image from its frame delays (at most
/// the first 256 frames count); no frames means no timing.
pub fn gif_timing(delays: &[(u32, u32)]) -> (r: Option<(Option<u32>, Option<u64>)>)
    ensures
        r == frame_timing(delays@),
{
    let n: usize = if delays.len() < MAX_GIF_FRAMES { delays.len() } else { MAX_GIF_FRAMES };
    let mut frame_count: u32 = 0;
    let mut duration_ms: u64 = 0;
    let mut i: usize = 0;
    while i < n
        invariant
            n <= delays@.len(),
            n <= 256,
            i <= n,
            frame_count == i,
            duration_ms == total_delay(delays@.subrange(0, i as int)),
        decreases n - i,
    {
        let (numer, denom) = delays[i];
        let ghost prefix = delays@.subrange(0, i + 1);
        assert(prefix.drop_last() =~= delays@.subrange(0, i as int));
        let d: u64 = if denom == 0 { 1 } else { denom as u64 };
        duration_ms = duration_ms.saturating_add((numer as u64) / d);
        frame_count = frame_count + 1;
        i = i + 1;
    }
    if frame_count == 0 {
        return None;
    }
    Some((Some(frame_count), if duration_ms > 0 { Some(duration_ms) } else { None }))
}

/// Probe results assembled into media metadata: still images need dimensions; animated
/// images also carry timing when the container yielded any.
pub open spec fn assembled_metadata(
    kind: LocalMediaKind,
    dimensions: Option<MediaDimensions>,
    timing: Option<(Option<u32>, Option<u64>)>,
) -> Option<MediaMetadata> {
    match (kind, dimensions) {
        (LocalMediaKind::Still, Some(d)) => Some(MediaMetadata::StillImage { dimensions: d }),
        (LocalMediaKind::Animated, Some(d)) => Some(
            MediaMetadata::AnimatedImage {
                dimensions: d,
                duration_ms: match timing {
                    Some(t) => t.1,
                    None => None,
                },
                frame_count: match timing {
                    Some(t) => t.0,
                    None => None,
                },
            },
        ),
        _ => None,
    }
}

/// Assembles probe results into media metadata: still images need dimensions; animated
/// images also carry timing when the container yielded any.
pub fn probe_local_media(
    kind: LocalMediaKind,
    dimensions: Option<MediaDimensions>,
    timing: Option<(Option<u32>, Option<u64>)>,
) -> (r: Option<MediaMetadata>)
    ensures
        r == assembled_metadata(kind, dimensions, timing),
{
    match (kind, dimensions) {
        (LocalMediaKind::Still, Some(d)) => Some(MediaMetadata::StillImage { dimensions: d }),
        (LocalMediaKind::Animated, Some(d)) => {
            let (frame_count, duration_ms) = match timing {
                Some(t) => t,
                None => (None, None),
            };
            Some(MediaMetadata::AnimatedImage { dimensions: d, duration_ms, frame_count })
        },
        _ => None,
    }
}

/// What `image::ImageReader`, set to the format that `image::ImageFormat::from_extension`
/// names for a file extension, reads as the (width, height) of encoded bytes.
pub uninterp spec fn header_dimensions(extension: Seq<char>, bytes: Seq<u8>) -> Option<(u32, u32)>;

/// What `image`'s GIF decoder yields for encoded bytes: the delays, as (numerator,
/// denominator) milliseconds, of the frames that decode before the first decoding error (all
/// frames when none fails), in order; `None` when the decoder cannot start.
pub uninterp spec fn gif_decoded_delays(bytes: Seq<u8>) -> Option<Seq<(u32, u32)>>;

/// `image::ImageReader::with_format(.., ImageFormat::from_extension(extension))` followed by
/// `into_dimensions`: the dimensions of the encoded image, or `None` when the extension names
/// no format or the header cannot be read.
#[verifier::external_body]
fn read_header_dimensions(extension: &str, bytes: &[u8]) -> (r: Option<(u32, u32)>)
    ensures
        r == header_dimensions(extension@, bytes@),
{
    let format = image::ImageFormat::from_extension(extension)?;
    image::ImageReader::with_format(std::io::Cursor::new(bytes), format).into_dimensions().ok()
}

/// `image::codecs::gif::GifDecoder::new` and its `into_frames`: `None` when the decoder
/// cannot start; otherwise the `delay().numer_denom_ms()` of the frames that decode, in order,
/// stopping at the first decoding error or once `limit` frames have decoded.
#[verifier::external_body]
fn read_gif_decoded_delays(bytes: &[u8], limit: usize) -> (r: Option<Vec<(u32, u32)>>)
    ensures
        match r {
            Some(delays) => gif_decoded_delays(bytes@) matches Some(all) && delays@ == all.take(
                if all.len() < limit { all.len() as int } else { limit as int },
            ),
            None => gif_decoded_delays(bytes@) is None,
        },
{
    let decoder = image::codecs::gif::GifDecoder::new(std::io::Cursor::new(bytes)).ok()?;
    let frames = image::AnimationDecoder::into_frames(decoder);
    Some(frames.map_while(|frame| frame.ok()).take(limit).map(|frame| frame.delay().numer_denom_ms()).collect())
}

/// Only the first 256 delays count towards timing, so keeping just those changes nothing.
proof fn lemma_timing_of_prefix(delays: Seq<(u32, u32)>)
    ensures
        frame_timing(delays.take(if delays.len() < 256 { delays.len() as int } else { 256int })) == frame_timing(
            delays,
        ),
{
    let n = if delays.len() < 256 { delays.len() as int } else { 256int };
    let kept = delays.take(n);
    assert(kept.subrange(0, n) =~= delays.subrange(0, n));
}

/// Timing of an animated image from its encoded bytes: over the frames that decode before the
/// first decoding error, at most the first 256; nothing when the decoder cannot start.
pub open spec fn bytes_timing(bytes: Seq<u8>) -> Option<(Option<u32>, Option<u64>)> {
    match gif_decoded_delays(bytes) {
        Some(delays) => frame_timing(delays),
        None => None,
    }
}

/// Dimensions read from encoded bytes, rejecting empty images.
pub open spec fn bytes_dimensions(extension: Seq<char>, bytes: Seq<u8>) -> Option<MediaDimensions> {
    match header_dimensions(extension, bytes) {
        Some((w, h)) => nonempty_dimensions(w, h),
        None => None,
    }
}

/// Probes decoder-visible metadata of a local media file from its extension and contents.
/// Files of other types are not probed; still images need readable, non-empty dimensions;
/// animated images also report frame count and duration when their frames decode.
pub fn probe_media_bytes(extension: &str, bytes: &[u8]) -> (r: Option<MediaMetadata>)
    ensures
        r == (match media_kind(extension@) {
            LocalMediaKind::Unsupported => None,
            LocalMediaKind::Still => assembled_metadata(
                LocalMediaKind::Still,
                bytes_dimensions(extension@, bytes@),
                None,
            ),
            LocalMediaKind::Animated => match bytes_dimensions(extension@, bytes@) {
                None => None,
                Some(d) => assembled_metadata(LocalMediaKind::Animated, Some(d), bytes_timing(bytes@)),
            },
        }),
{
    let kind = classify_local_media(extension);
    if kind == LocalMediaKind::Unsupported {
        return None;
    }
    let dimensions = match read_header_dimensions(extension, bytes) {
        Some((width, height)) => image_dimensions(width, height),
        None => None,
    };
    if dimensions.is_none() {
        return None;
    }
    if kind == LocalMediaKind::Still {
        return probe_local_media(kind, dimensions, None);
    }
    let timing = match read_gif_decoded_delays(bytes, MAX_GIF_FRAMES) {
        Some(delays) => {
            proof {
                lemma_timing_of_prefix(gif_decoded_delays(bytes@)->0);
            }
            gif_timing(delays.as_slice())
        },
        None => None,
    };
    probe_local_media(kind, dimensions, timing)
}

/// Media probe or poster extraction failure.
#[derive(Debug)]
pub enum ProbeError {
    /// The file type is not a supported local media container.
    Unsupported,
    /// Poster rendering failed.
    Poster(String),
    /// Filesystem error.
    Io(std::io::Error),
}

/// A registered library folder root.
#[derive(Clone, Debug, PartialEq, Eq)]
pub struct IndexedFolder {
    /// Absolute folder path.
    pub path: String,
    /// Whether subdirectories are scanned.
    pub recursive: bool,
}

/// Result of indexing one path.
#[derive(Clone, Copy, Debug, PartialEq, Eq, Structural)]
pub enum IndexOutcome {
    /// A new library row was inserted.
    Created,
    /// An existing row was refreshed (dimensions / timestamps).
    Updated,
    /// The file could not be probed and was left unchanged.
    Skipped,
}

/// Outcome of indexing one file: skipped without metadata, refreshed when the path is
/// already in the library, else created.
pub fn index_outcome(probed: bool, already_indexed: bool) -> (r: IndexOutcome)
    ensures
        !probed ==> r == IndexOutcome::Skipped,
        probed && already_indexed ==> r == IndexOutcome::Updated,
        probed && !already_indexed ==> r == IndexOutcome::Created,
{
    if !probed {
        IndexOutcome::Skipped
    } else if already_indexed {
        IndexOutcome::Updated
    } else {
        IndexOutcome::Created
    }
}

/// Number of files a scan counts: those created or refreshed.
pub fn count_indexed(outcomes: &[IndexOutcome]) -> (r: usize)
    ensures
        r == outcomes@.filter(|o: IndexOutcome| o != IndexOutcome::Skipped).len(),
{
    let mut count: usize = 0;
    let mut i: usize = 0;
    while i < outcomes.len()
        invariant
            i <= outcomes@.len(),
            count == outcomes@.subrange(0, i as int).filter(|o: IndexOutcome| o != IndexOutcome::Skipped).len(),
            count <= i,
        decreases outcomes@.len() - i,
    {
        let ghost prefix = outcomes@.subrange(0, i + 1);
        assert(prefix.drop_last() =~= outcomes@.subrange(0, i as int));
        proof {
            reveal(Seq::filter);
        }
        match outcomes[i] {
            IndexOutcome::Created | IndexOutcome::Updated => count = count + 1,
            IndexOutcome::Skipped => {},
        }
        i = i + 1;
    }
    assert(outcomes@.subrange(0, outcomes@.len() as int) =~= outcomes@);
    count
}

/// Normalized folder watch notifications.
#[derive(Clone, Debug, PartialEq, Eq)]
pub enum FolderWatchEvent {
    /// A media path was created or modified.
    Upsert(String),
    /// A media path was removed.
    Remove(String),
}

/// Filesystem change kinds a watcher reports.
#[derive(Clone, Copy, Debug, PartialEq, Eq, Structural)]
pub enum WatchChange {
    /// Unspecified change.
    Any,
    /// File accessed.
    Access,
    /// File created.
    Create,
    /// File modified.
    Modify,
    /// File removed.
    Remove,
    /// Other notification.
    Other,
}

/// Turns one changed path into a watch event: only indexed media types count; removals
/// become `Remove`, creations and modifications (and unspecified changes) become `Upsert`.
pub fn watch_event_for(path: String, extension: &str, change: WatchChange) -> (r: Option<FolderWatchEvent>)
    ensures
        !(still_extensions().contains(lower(extension@)) || animated_extensions().contains(lower(extension@))) ==> r is None,
        (still_extensions().contains(lower(extension@)) || animated_extensions().contains(lower(extension@))) ==> r == match change {
            WatchChange::Remove => Some(FolderWatchEvent::Remove(path)),
            WatchChange::Create | WatchChange::Modify | WatchChange::Any => Some(FolderWatchEvent::Upsert(path)),
            _ => None,
        },
{
    if !local_media_extension(extension) {
        return None;
    }
    match change {
        WatchChange::Remove => Some(FolderWatchEvent::Remove(path)),
        WatchChange::Create | WatchChange::Modify | WatchChange::Any => Some(FolderWatchEvent::Upsert(path)),
        WatchChange::Access | WatchChange::Other => None,
    }
}

} // verus!
