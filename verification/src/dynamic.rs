//! Dynamic still sets keyed by time, solar position, or appearance.
//!
//! The portable domain mirrors Apple Dynamic Desktop HEIC metadata (`solar`, `apr`, `h24`)
//! so importers and native bundle exporters share one model. Solar sample angles are held
//! in thousandths of a degree and observer coordinates in millionths of a degree.

use vstd::prelude::*;

use crate::calendar::{LocalTimeOfDay, ScheduleError};
use crate::ids::{AssetId, DynamicStillSetId, ProfileId};
use crate::text::{decimal, decimal_text, digit_char, is_blank, push_char, trim};

verus! {

/// Current serialized dynamic-still-set schema.
pub const DYNAMIC_STILL_SET_SCHEMA_VERSION: u16 = 2;

/// Which evaluation rule a still set uses (matches Apple HEIC metadata flavors).
#[derive(Clone, Copy, Debug, PartialEq, Eq, Structural)]
pub enum DynamicScheduleKind {
    /// Wall-clock samples (`apple_desktop:h24` / authored time of day / sunrise-sunset).
    TimeOfDay,
    /// Nearest sun altitude/azimuth sample (`apple_desktop:solar`).
    SolarPosition,
    /// Light/dark appearance (`apple_desktop:apr`).
    Appearance,
}

impl Default for DynamicScheduleKind {
    fn default() -> (r: Self)
        ensures
            r == DynamicScheduleKind::TimeOfDay,
    {
        DynamicScheduleKind::TimeOfDay
    }
}

/// Light or dark appearance selection for appearance-keyed sets.
#[derive(Clone, Copy, Debug, PartialEq, Eq, Structural)]
pub enum AppearanceMode {
    /// Light / day appearance.
    Light,
    /// Dark / night appearance.
    Dark,
}

impl Default for AppearanceMode {
    fn default() -> (r: Self)
        ensures
            r == AppearanceMode::Light,
    {
        AppearanceMode::Light
    }
}

/// Sunrise or sunset.
#[derive(Clone, Copy, Debug, PartialEq, Eq, Structural)]
pub enum SolarEvent {
    /// Approximate sunrise.
    Sunrise,
    /// Approximate sunset.
    Sunset,
}

/// When a still frame becomes active.
#[derive(Clone, Copy, Debug, PartialEq, Eq, Structural)]
pub enum DynamicStillKey {
    /// Local wall-clock time.
    TimeOfDay { time: LocalTimeOfDay },
    /// Approximate sunrise or sunset plus an offset in minutes (may be negative).
    Solar { event: SolarEvent, offset_minutes: i32 },
    /// Sample keyed to sun altitude (negative below the horizon) and azimuth, in
    /// thousandths of a degree.
    SolarPosition { altitude_millideg: i32, azimuth_millideg: i32 },
    /// Appearance-mode frame (Apple `apr` metadata).
    Appearance { mode: AppearanceMode },
}

/// `{:02}` of a natural number: at least two digits.
pub open spec fn pad2(n: nat) -> Seq<char> {
    if n < 100 {
        seq![digit_char(n / 10), digit_char(n % 10)]
    } else {
        decimal(n)
    }
}

/// Three digits of a number below one thousand.
pub open spec fn pad3(n: nat) -> Seq<char> {
    seq![digit_char(n / 100), digit_char((n / 10) % 10), digit_char(n % 10)]
}

/// `{:+}` of an integer: always signed.
pub open spec fn signed_decimal(v: int) -> Seq<char> {
    if v >= 0 {
        "+"@ + decimal(v as nat)
    } else {
        "-"@ + decimal((-v) as nat)
    }
}

/// A value held in thousandths, written with three decimals (`{:.3}` of `v / 1000`).
pub open spec fn fixed3(v: int) -> Seq<char> {
    let a: nat = if v < 0 { (-v) as nat } else { v as nat };
    (if v < 0 { "-"@ } else { ""@ }) + decimal(a / 1000) + "."@ + pad3(a % 1000)
}

/// Stable label of a key, used in history and UI.
pub open spec fn key_label(key: DynamicStillKey) -> Seq<char> {
    match key {
        DynamicStillKey::TimeOfDay { time } => "tod:"@ + pad2(time.hour as nat) + ":"@ + pad2(time.minute as nat),
        DynamicStillKey::Solar { event, offset_minutes } => "solar:"@ + (match event {
            SolarEvent::Sunrise => "sunrise"@,
            SolarEvent::Sunset => "sunset"@,
        }) + signed_decimal(offset_minutes as int) + "m"@,
        DynamicStillKey::SolarPosition { altitude_millideg, azimuth_millideg } => "sun:a"@ + fixed3(
            altitude_millideg as int,
        ) + ":z"@ + fixed3(azimuth_millideg as int),
        DynamicStillKey::Appearance { mode } => match mode {
            AppearanceMode::Light => "appearance:light"@,
            AppearanceMode::Dark => "appearance:dark"@,
        },
    }
}

fn append_digit(s: &mut String, d: u64)
    requires
        d < 10,
    ensures
        final(s)@ == old(s)@.push(digit_char(d as nat)),
{
    let c: char = (48u8 + d as u8) as char;
    push_char(s, c);
}

/// `{:02}` of a natural number.
pub fn pad2_text(n: u64) -> (r: String)
    ensures
        r@ == pad2(n as nat),
{
    if n < 100 {
        let mut s = String::new();
        append_digit(&mut s, n / 10);
        append_digit(&mut s, n % 10);
        assert(s@ =~= pad2(n as nat));
        s
    } else {
        decimal_text(n)
    }
}

fn signed_text(v: i32) -> (r: String)
    ensures
        r@ == signed_decimal(v as int),
{
    if v >= 0 {
        let mut s = String::from_str("+");
        s.append(decimal_text(v as u64).as_str());
        s
    } else {
        let mut s = String::from_str("-");
        let a: u64 = (0i64 - v as i64) as u64;
        s.append(decimal_text(a).as_str());
        s
    }
}

fn fixed3_text(v: i32) -> (r: String)
    ensures
        r@ == fixed3(v as int),
{
    let a: u64 = if v < 0 { (0i64 - v as i64) as u64 } else { v as u64 };
    let mut s = if v < 0 { String::from_str("-") } else { String::from_str("") };
    s.append(decimal_text(a / 1000).as_str());
    s.append(".");
    let frac = a % 1000;
    append_digit(&mut s, frac / 100);
    append_digit(&mut s, (frac / 10) % 10);
    append_digit(&mut s, frac % 10);
    assert(s@ =~= fixed3(v as int));
    s
}

impl DynamicStillKey {
    /// Stable label used in history and UI.
    pub fn label(self) -> (r: String)
        ensures
            r@ == key_label(self),
    {
        match self {
            DynamicStillKey::TimeOfDay { time } => {
                let mut s = String::from_str("tod:");
                s.append(pad2_text(time.hour as u64).as_str());
                s.append(":");
                s.append(pad2_text(time.minute as u64).as_str());
                s
            },
            DynamicStillKey::Solar { event, offset_minutes } => {
                let mut s = String::from_str("solar:");
                match event {
                    SolarEvent::Sunrise => s.append("sunrise"),
                    SolarEvent::Sunset => s.append("sunset"),
                }
                s.append(signed_text(offset_minutes).as_str());
                s.append("m");
                s
            },
            DynamicStillKey::SolarPosition { altitude_millideg, azimuth_millideg } => {
                let mut s = String::from_str("sun:a");
                s.append(fixed3_text(altitude_millideg).as_str());
                s.append(":z");
                s.append(fixed3_text(azimuth_millideg).as_str());
                s
            },
            DynamicStillKey::Appearance { mode } => match mode {
                AppearanceMode::Light => String::from_str("appearance:light"),
                AppearanceMode::Dark => String::from_str("appearance:dark"),
            },
        }
    }
}

/// Two time-of-day keys with hours and minutes below one hundred share a label only when
/// they name the same time.
pub proof fn lemma_time_label_injective(a: LocalTimeOfDay, b: LocalTimeOfDay)
    requires
        a.hour < 100 && a.minute < 100,
        b.hour < 100 && b.minute < 100,
        key_label(DynamicStillKey::TimeOfDay { time: a }) == key_label(DynamicStillKey::TimeOfDay { time: b }),
    ensures
        a == b,
{
    reveal_strlit("tod:");
    reveal_strlit(":");
    let la = key_label(DynamicStillKey::TimeOfDay { time: a });
    let lb = key_label(DynamicStillKey::TimeOfDay { time: b });
    assert(la[4] == lb[4] && la[5] == lb[5] && la[7] == lb[7] && la[8] == lb[8]);
    assert(a.hour / 10 == b.hour / 10 && a.hour % 10 == b.hour % 10);
    assert(a.minute / 10 == b.minute / 10 && a.minute % 10 == b.minute % 10);
}

/// One keyed frame inside a dynamic still set.
#[derive(Clone, Copy, Debug, PartialEq, Eq, Structural)]
pub struct DynamicStillFrame {
    /// Optional HEIC image index for round-trip with Apple / Plasma packages.
    pub source_index: Option<u32>,
    /// When this frame becomes active.
    pub key: DynamicStillKey,
    /// Still asset shown while this frame is active.
    pub asset_id: AssetId,
}

/// Ordered time/solar/appearance still set with a required fallback frame.
#[derive(Clone, Debug)]
pub struct DynamicStillSet {
    /// Serialized schema version.
    pub schema_version: u16,
    /// Stable identity.
    pub id: DynamicStillSetId,
    /// User-visible name.
    pub name: String,
    /// Profile that owns this still set (for diagnostics).
    pub profile_id: ProfileId,
    /// Evaluation rule for this set.
    pub schedule_kind: DynamicScheduleKind,
    /// Keyed frames; evaluation uses the active `schedule_kind`.
    pub frames: Vec<DynamicStillFrame>,
    /// Asset used when no keyed frame can be resolved.
    pub fallback_asset_id: AssetId,
    /// Observer latitude in millionths of a degree (−90..=90°); `None` until set.
    pub latitude_microdeg: Option<i64>,
    /// Observer longitude in millionths of a degree (−180..=180°); `None` until set.
    pub longitude_microdeg: Option<i64>,
    /// Request a cross-fade when the active backend supports it without a live host.
    pub request_cross_fade: bool,
    /// Optional path to the original dynamic HEIC / Plasma package for re-export.
    pub source_package_path: Option<String>,
}

/// Invalid dynamic still set or evaluation input.
#[derive(Clone, Debug, PartialEq, Eq)]
pub enum DynamicStillError {
    /// No migration exists for the serialized schema.
    UnsupportedSchema(u16),
    /// Names must contain visible characters.
    EmptyName,
    /// Latitude must lie within ±90° (millionths of a degree).
    InvalidLatitude(i64),
    /// Longitude must lie within ±180° (millionths of a degree).
    InvalidLongitude(i64),
    /// Latitude and longitude must both be set or both omitted.
    IncompleteObserver,
    /// Solar position sample is out of range (thousandths of a degree).
    InvalidSolarPosition { altitude_millideg: i32, azimuth_millideg: i32 },
    /// Two frames share the same key label.
    DuplicateKey(String),
    /// Embedded time-of-day key is invalid.
    Schedule(ScheduleError),
}

/// What is wrong with one key on its own, if anything.
pub open spec fn key_fault(key: DynamicStillKey) -> Option<DynamicStillError> {
    match key {
        DynamicStillKey::TimeOfDay { time } => if time.is_valid() {
            None
        } else {
            Some(DynamicStillError::Schedule(ScheduleError::InvalidTimeOfDay { hour: time.hour, minute: time.minute }))
        },
        DynamicStillKey::SolarPosition { altitude_millideg, azimuth_millideg } => if -90_000 <= altitude_millideg
            <= 90_000 && 0 <= azimuth_millideg < 360_000 {
            None
        } else {
            Some(DynamicStillError::InvalidSolarPosition { altitude_millideg, azimuth_millideg })
        },
        _ => None,
    }
}

/// Frame `i` repeats the label of an earlier frame.
pub open spec fn has_earlier_label(frames: Seq<DynamicStillFrame>, i: int) -> bool {
    exists|j: int| 0 <= j < i && #[trigger] key_label(frames[j].key) == key_label(frames[i].key)
}

/// First problem among the first `n` frames, in order: `Ok(e)` names an invalid key and
/// its error, `Err(label)` a repeated label.
pub open spec fn frames_problem(frames: Seq<DynamicStillFrame>, n: nat) -> Option<Result<DynamicStillError, Seq<char>>>
    decreases n,
{
    if n == 0 {
        None
    } else {
        match frames_problem(frames, (n - 1) as nat) {
            Some(p) => Some(p),
            None => match key_fault(frames[n - 1].key) {
                Some(e) => Some(Ok(e)),
                None => if has_earlier_label(frames, n - 1) {
                    Some(Err(key_label(frames[n - 1].key)))
                } else {
                    None
                },
            },
        }
    }
}

/// Once a prefix of the frames has a problem, every longer prefix reports that problem.
proof fn lemma_frames_problem_sticky(frames: Seq<DynamicStillFrame>, i: nat, n: nat)
    requires
        i <= n,
        frames_problem(frames, i) is Some,
    ensures
        frames_problem(frames, n) == frames_problem(frames, i),
    decreases n - i,
{
    if i < n {
        lemma_frames_problem_sticky(frames, i, (n - 1) as nat);
    }
}

/// Frames whose keys are valid, distinct wall-clock times have no problem.
proof fn lemma_distinct_times_no_problem(frames: Seq<DynamicStillFrame>, n: nat)
    requires
        n <= frames.len(),
        forall|i: int| 0 <= i < frames.len() ==> (#[trigger] frames[i].key matches DynamicStillKey::TimeOfDay { time }
            && time.is_valid()),
        forall|i: int, j: int|
            0 <= j < i < frames.len() ==> #[trigger] frames[i].key != #[trigger] frames[j].key,
    ensures
        frames_problem(frames, n) is None,
    decreases n,
{
    if n > 0 {
        lemma_distinct_times_no_problem(frames, (n - 1) as nat);
        let i = n - 1;
        if has_earlier_label(frames, i) {
            let j = choose|j: int| 0 <= j < i && #[trigger] key_label(frames[j].key) == key_label(frames[i].key);
            assert(frames[i].key matches DynamicStillKey::TimeOfDay { time } && time.is_valid());
            assert(frames[j].key matches DynamicStillKey::TimeOfDay { time } && time.is_valid());
            lemma_time_label_injective(frames[j].key->time, frames[i].key->time);
        }
    }
}

/// The keyed frame for a whole hour.
pub open spec fn hour_frame(hour: nat, index: nat, asset_id: AssetId) -> DynamicStillFrame {
    DynamicStillFrame {
        source_index: Some(index as u32),
        key: DynamicStillKey::TimeOfDay { time: LocalTimeOfDay { hour: hour as u8, minute: 0 } },
        asset_id,
    }
}

/// Latitude within ±90° in millionths of a degree.
pub open spec fn latitude_ok(v: i64) -> bool {
    -90_000_000 <= v <= 90_000_000
}

/// Longitude within ±180° in millionths of a degree.
pub open spec fn longitude_ok(v: i64) -> bool {
    -180_000_000 <= v <= 180_000_000
}

/// First problem `validate` reports, if any (`Err(label)` for a repeated label).
pub open spec fn still_set_problem(set: DynamicStillSet) -> Option<Result<DynamicStillError, Seq<char>>> {
    if set.schema_version != DYNAMIC_STILL_SET_SCHEMA_VERSION {
        Some(Ok(DynamicStillError::UnsupportedSchema(set.schema_version)))
    } else if trim(set.name@).len() == 0 {
        Some(Ok(DynamicStillError::EmptyName))
    } else if set.latitude_microdeg matches Some(v) && !latitude_ok(v) {
        Some(Ok(DynamicStillError::InvalidLatitude(set.latitude_microdeg->0)))
    } else if set.longitude_microdeg matches Some(v) && !longitude_ok(v) {
        Some(Ok(DynamicStillError::InvalidLongitude(set.longitude_microdeg->0)))
    } else if set.latitude_microdeg.is_some() != set.longitude_microdeg.is_some() {
        Some(Ok(DynamicStillError::IncompleteObserver))
    } else {
        frames_problem(set.frames@, set.frames@.len())
    }
}

/// `validate`'s result agrees with the problem found by `still_set_problem`.
pub open spec fn reports(problem: Option<Result<DynamicStillError, Seq<char>>>, r: Result<(), DynamicStillError>) -> bool {
    match problem {
        None => r is Ok,
        Some(Ok(e)) => r == Err::<(), DynamicStillError>(e),
        Some(Err(label)) => r matches Err(DynamicStillError::DuplicateKey(s)) && s@ == label,
    }
}

/// The kind a schema-1 set is given: solar position when any frame holds a solar sample,
/// else appearance when any frame holds an appearance key, else time of day.
pub open spec fn inferred_kind(frames: Seq<DynamicStillFrame>) -> DynamicScheduleKind {
    if exists|i: int| 0 <= i < frames.len() && #[trigger] frames[i].key is SolarPosition {
        DynamicScheduleKind::SolarPosition
    } else if exists|i: int| 0 <= i < frames.len() && #[trigger] frames[i].key is Appearance {
        DynamicScheduleKind::Appearance
    } else {
        DynamicScheduleKind::TimeOfDay
    }
}

fn text_in(seen: &Vec<String>, label: &String) -> (r: bool)
    ensures
        r == exists|j: int| 0 <= j < seen@.len() && #[trigger] seen@[j]@ == label@,
{
    let mut j: usize = 0;
    while j < seen.len()
        invariant
            j <= seen@.len(),
            forall|k: int| 0 <= k < j ==> #[trigger] seen@[k]@ != label@,
        decreases seen@.len() - j,
    {
        if crate::text::str_eq(seen[j].as_str(), label.as_str()) {
            return true;
        }
        j = j + 1;
    }
    false
}

impl DynamicStillSet {
    /// Creates a still set with a single fallback and no keyed frames.
    pub fn with_fallback(name: &str, profile_id: ProfileId, fallback_asset_id: AssetId) -> (r: Self)
        ensures
            r.schema_version == DYNAMIC_STILL_SET_SCHEMA_VERSION,
            r.name@ == name@,
            r.profile_id == profile_id,
            r.schedule_kind == DynamicScheduleKind::TimeOfDay,
            r.frames@.len() == 0,
            r.fallback_asset_id == fallback_asset_id,
            r.latitude_microdeg is None,
            r.longitude_microdeg is None,
            !r.request_cross_fade,
            r.source_package_path is None,
    {
        DynamicStillSet {
            schema_version: DYNAMIC_STILL_SET_SCHEMA_VERSION,
            id: DynamicStillSetId::new(),
            name: String::from_str(name),
            profile_id,
            schedule_kind: DynamicScheduleKind::TimeOfDay,
            frames: Vec::new(),
            fallback_asset_id,
            latitude_microdeg: None,
            longitude_microdeg: None,
            request_cross_fade: false,
            source_package_path: None,
        }
    }

    /// Configured observer coordinates when both latitude and longitude are set.
    pub fn observer_location(&self) -> (r: Option<(i64, i64)>)
        ensures
            r == match (self.latitude_microdeg, self.longitude_microdeg) {
                (Some(a), Some(b)) => Some((a, b)),
                _ => None,
            },
    {
        match (self.latitude_microdeg, self.longitude_microdeg) {
            (Some(a), Some(b)) => Some((a, b)),
            _ => None,
        }
    }

    /// Validates schema and frame invariants.
    #[verifier::loop_isolation(false)]
    pub fn validate(&self) -> (r: Result<(), DynamicStillError>)
        ensures
            reports(still_set_problem(*self), r),
    {
        if self.schema_version != DYNAMIC_STILL_SET_SCHEMA_VERSION {
            return Err(DynamicStillError::UnsupportedSchema(self.schema_version));
        }
        if is_blank(self.name.as_str()) {
            return Err(DynamicStillError::EmptyName);
        }
        if let Some(v) = self.latitude_microdeg {
            if !(-90_000_000 <= v && v <= 90_000_000) {
                return Err(DynamicStillError::InvalidLatitude(v));
            }
        }
        if let Some(v) = self.longitude_microdeg {
            if !(-180_000_000 <= v && v <= 180_000_000) {
                return Err(DynamicStillError::InvalidLongitude(v));
            }
        }
        if self.latitude_microdeg.is_some() != self.longitude_microdeg.is_some() {
            return Err(DynamicStillError::IncompleteObserver);
        }
        let ghost frames = self.frames@;
        let mut seen: Vec<String> = Vec::new();
        let mut i: usize = 0;
        while i < self.frames.len()
            invariant
                frames == self.frames@,
                i <= frames.len(),
                seen@.len() == i,
                forall|j: int| 0 <= j < i ==> #[trigger] seen@[j]@ == key_label(frames[j].key),
                frames_problem(frames, i as nat) is None,
            decreases frames.len() - i,
        {
            let frame = self.frames[i];
            match frame.key {
                DynamicStillKey::TimeOfDay { time } => {
                    if let Err(e) = LocalTimeOfDay::new(time.hour, time.minute) {
                        proof {
                            lemma_frames_problem_sticky(frames, (i + 1) as nat, frames.len());
                        }
                        return Err(DynamicStillError::Schedule(e));
                    }
                },
                DynamicStillKey::SolarPosition { altitude_millideg, azimuth_millideg } => {
                    if !(-90_000 <= altitude_millideg && altitude_millideg <= 90_000) {
                        proof {
                            lemma_frames_problem_sticky(frames, (i + 1) as nat, frames.len());
                        }
                        return Err(DynamicStillError::InvalidSolarPosition { altitude_millideg, azimuth_millideg });
                    }
                    if !(0 <= azimuth_millideg && azimuth_millideg < 360_000) {
                        proof {
                            lemma_frames_problem_sticky(frames, (i + 1) as nat, frames.len());
                        }
                        return Err(DynamicStillError::InvalidSolarPosition { altitude_millideg, azimuth_millideg });
                    }
                },
                _ => {},
            }
            let label = frame.key.label();
            if text_in(&seen, &label) {
                proof {
                    let j = choose|j: int| 0 <= j < seen@.len() && #[trigger] seen@[j]@ == label@;
                    assert(key_label(frames[j].key) == key_label(frames[i as int].key));
                    assert(has_earlier_label(frames, i as int));
                    lemma_frames_problem_sticky(frames, (i + 1) as nat, frames.len());
                }
                return Err(DynamicStillError::DuplicateKey(label));
            }
            proof {
                if has_earlier_label(frames, i as int) {
                    let j = choose|j: int| 0 <= j < i && #[trigger] key_label(frames[j].key) == key_label(frames[i as int].key);
                    assert(seen@[j]@ == label@);
                }
            }
            seen.push(label);
            i = i + 1;
        }
        Ok(())
    }

    /// Builds a dense hourly time-of-day set from one asset: one frame per hour, each with
    /// its hour as source index.
    pub fn default_hourly(name: &str, profile_id: ProfileId, asset_id: AssetId) -> (r: Result<Self, DynamicStillError>)
        ensures
            trim(name@).len() == 0 ==> r == Err::<Self, DynamicStillError>(DynamicStillError::EmptyName),
            trim(name@).len() > 0 ==> (r matches Ok(set) && {
                &&& set.schema_version == DYNAMIC_STILL_SET_SCHEMA_VERSION
                &&& set.name@ == name@
                &&& set.profile_id == profile_id
                &&& set.schedule_kind == DynamicScheduleKind::TimeOfDay
                &&& set.fallback_asset_id == asset_id
                &&& set.latitude_microdeg is None && set.longitude_microdeg is None
                &&& !set.request_cross_fade && set.source_package_path is None
                &&& set.frames@.len() == 24
                &&& forall|h: int| 0 <= h < 24 ==> #[trigger] set.frames@[h] == hour_frame(h as nat, h as nat, asset_id)
            }),
    {
        let mut set = Self::with_fallback(name, profile_id, asset_id);
        let mut hour: u8 = 0;
        while hour < 24
            invariant
                hour <= 24,
                set.frames@.len() == hour,
                forall|h: int| 0 <= h < hour ==> #[trigger] set.frames@[h] == hour_frame(h as nat, h as nat, asset_id),
                set.schema_version == DYNAMIC_STILL_SET_SCHEMA_VERSION,
                set.name@ == name@,
                set.profile_id == profile_id,
                set.schedule_kind == DynamicScheduleKind::TimeOfDay,
                set.fallback_asset_id == asset_id,
                set.latitude_microdeg is None && set.longitude_microdeg is None,
                !set.request_cross_fade && set.source_package_path is None,
            decreases 24 - hour,
        {
            let time = match LocalTimeOfDay::new(hour, 0) {
                Ok(t) => t,
                Err(e) => return Err(DynamicStillError::Schedule(e)),
            };
            set.frames.push(DynamicStillFrame {
                source_index: Some(hour as u32),
                key: DynamicStillKey::TimeOfDay { time },
                asset_id,
            });
            hour = hour + 1;
        }
        proof {
            let frames = set.frames@;
            assert forall|i: int, j: int| 0 <= j < i < frames.len() implies #[trigger] frames[i].key != #[trigger] frames[j].key by {
                assert(frames[i] == hour_frame(i as nat, i as nat, asset_id));
                assert(frames[j] == hour_frame(j as nat, j as nat, asset_id));
            }
            assert forall|i: int| 0 <= i < frames.len() implies (#[trigger] frames[i].key matches DynamicStillKey::TimeOfDay { time }
                && time.is_valid()) by {
                assert(frames[i] == hour_frame(i as nat, i as nat, asset_id));
            }
            lemma_distinct_times_no_problem(frames, frames.len());
        }
        match set.validate() {
            Ok(()) => Ok(set),
            Err(e) => Err(e),
        }
    }

    /// Legacy three-slot helper retained for older Compose saves: frames at 06:00, 12:00 and
    /// 18:00 with source indices 0, 1 and 2.
    pub fn default_time_of_day(name: &str, profile_id: ProfileId, asset_id: AssetId) -> (r: Result<Self, DynamicStillError>)
        ensures
            trim(name@).len() == 0 ==> r == Err::<Self, DynamicStillError>(DynamicStillError::EmptyName),
            trim(name@).len() > 0 ==> (r matches Ok(set) && {
                &&& set.schema_version == DYNAMIC_STILL_SET_SCHEMA_VERSION
                &&& set.name@ == name@
                &&& set.profile_id == profile_id
                &&& set.schedule_kind == DynamicScheduleKind::TimeOfDay
                &&& set.fallback_asset_id == asset_id
                &&& set.latitude_microdeg is None && set.longitude_microdeg is None
                &&& !set.request_cross_fade && set.source_package_path is None
                &&& set.frames@ == seq![hour_frame(6, 0, asset_id), hour_frame(12, 1, asset_id), hour_frame(18, 2, asset_id)]
            }),
    {
        let mut set = Self::with_fallback(name, profile_id, asset_id);
        let morning = match LocalTimeOfDay::new(6, 0) {
            Ok(t) => t,
            Err(e) => return Err(DynamicStillError::Schedule(e)),
        };
        let noon = match LocalTimeOfDay::new(12, 0) {
            Ok(t) => t,
            Err(e) => return Err(DynamicStillError::Schedule(e)),
        };
        let evening = match LocalTimeOfDay::new(18, 0) {
            Ok(t) => t,
            Err(e) => return Err(DynamicStillError::Schedule(e)),
        };
        set.frames = vec![
            DynamicStillFrame { source_index: Some(0), key: DynamicStillKey::TimeOfDay { time: morning }, asset_id },
            DynamicStillFrame { source_index: Some(1), key: DynamicStillKey::TimeOfDay { time: noon }, asset_id },
            DynamicStillFrame { source_index: Some(2), key: DynamicStillKey::TimeOfDay { time: evening }, asset_id },
        ];
        proof {
            let frames = set.frames@;
            assert(frames =~= seq![hour_frame(6, 0, asset_id), hour_frame(12, 1, asset_id), hour_frame(18, 2, asset_id)]);
            lemma_distinct_times_no_problem(frames, frames.len());
        }
        match set.validate() {
            Ok(()) => Ok(set),
            Err(e) => Err(e),
        }
    }

    /// Upgrades older on-disk still sets to the current schema.
    pub fn migrate(self) -> (r: Result<Self, DynamicStillError>)
        ensures
            self.schema_version == 1 ==> r == Ok::<Self, DynamicStillError>(
                DynamicStillSet {
                    schema_version: DYNAMIC_STILL_SET_SCHEMA_VERSION,
                    schedule_kind: inferred_kind(self.frames@),
                    ..self
                },
            ),
            self.schema_version == DYNAMIC_STILL_SET_SCHEMA_VERSION ==> r == Ok::<Self, DynamicStillError>(self),
            self.schema_version != 1 && self.schema_version != DYNAMIC_STILL_SET_SCHEMA_VERSION ==> r
                == Err::<Self, DynamicStillError>(DynamicStillError::UnsupportedSchema(self.schema_version)),
    {
        let mut set = self;
        if set.schema_version == 1 {
            set.schema_version = DYNAMIC_STILL_SET_SCHEMA_VERSION;
            let mut any_solar = false;
            let mut any_appearance = false;
            let mut i: usize = 0;
            while i < set.frames.len()
                invariant
                    set.frames@ == self.frames@,
                    i <= set.frames@.len(),
                    any_solar == exists|k: int| 0 <= k < i && #[trigger] set.frames@[k].key is SolarPosition,
                    any_appearance == exists|k: int| 0 <= k < i && #[trigger] set.frames@[k].key is Appearance,
                decreases set.frames@.len() - i,
            {
                match set.frames[i].key {
                    DynamicStillKey::SolarPosition { .. } => {
                        any_solar = true;
                    },
                    DynamicStillKey::Appearance { .. } => {
                        any_appearance = true;
                    },
                    _ => {},
                }
                i = i + 1;
            }
            set.schedule_kind = if any_solar {
                DynamicScheduleKind::SolarPosition
            } else if any_appearance {
                DynamicScheduleKind::Appearance
            } else {
                DynamicScheduleKind::TimeOfDay
            };
            Ok(set)
        } else if set.schema_version == DYNAMIC_STILL_SET_SCHEMA_VERSION {
            Ok(set)
        } else {
            Err(DynamicStillError::UnsupportedSchema(set.schema_version))
        }
    }
}

} // verus!
