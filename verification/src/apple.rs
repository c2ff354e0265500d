//! Apple dynamic desktop schedules (`solar`, `apr`, `h24`) mapped to and from keyed frames.
//!
//! Binary plist values are decoded into plain samples first: solar angles in thousandths of
//! a degree, and `h24` day fractions as whole minutes past midnight.

use vstd::prelude::*;

use std::collections::HashMap;

use vstd::std_specs::iter::IteratorSpec;

use crate::calendar::{LocalTimeOfDay, ScheduleError};
use crate::dynamic::{
    key_label, pad2, pad2_text, AppearanceMode, DynamicScheduleKind, DynamicStillFrame, DynamicStillKey,
    DynamicStillSet,
};
use crate::text::{decimal, decimal_text};
use crate::xmp::{AppleMetadataFlavor, MetadataError};

verus! {

/// Parsed Apple dynamic desktop metadata mapped toward Easel keys.
#[derive(Clone, Debug)]
pub struct AppleDesktopMetadata {
    /// Schedule flavor.
    pub flavor: AppleMetadataFlavor,
    /// Corresponding Easel schedule kind.
    pub schedule_kind: DynamicScheduleKind,
    /// Image index → key for each sample.
    pub keys_by_index: HashMap<u32, DynamicStillKey>,
}

/// One `si` sample of a solar schedule: image index, sun altitude and azimuth (thousandths
/// of a degree, azimuth as stored, before normalization).
#[derive(Clone, Copy, Debug, PartialEq, Eq, Structural)]
pub struct SolarSample {
    /// Image index.
    pub index: u32,
    /// Altitude.
    pub altitude_millideg: i32,
    /// Azimuth as stored.
    pub azimuth_millideg: i32,
}

/// One `ti` sample of an `h24` schedule: image index, and either an explicit hour and minute
/// or the sample's day fraction as whole minutes past midnight.
#[derive(Clone, Copy, Debug, PartialEq, Eq, Structural)]
pub struct H24Sample {
    /// Image index.
    pub index: u32,
    /// Explicit hour.
    pub hour: Option<u8>,
    /// Explicit minute.
    pub minute: Option<u8>,
    /// Day fraction (clamped below one) in whole minutes past midnight.
    pub day_minutes: Option<u32>,
}

/// Azimuth folded into 0..360°.
pub open spec fn normalized_azimuth(z: int) -> int {
    z % 360_000
}

/// The key a solar sample stands for.
pub open spec fn solar_sample_key(s: SolarSample) -> DynamicStillKey {
    DynamicStillKey::SolarPosition {
        altitude_millideg: s.altitude_millideg,
        azimuth_millideg: normalized_azimuth(s.azimuth_millideg as int) as i32,
    }
}

/// Keys of the samples by image index; a later sample replaces an earlier one at its index.
pub open spec fn solar_keys(samples: Seq<SolarSample>) -> Map<u32, DynamicStillKey>
    decreases samples.len(),
{
    if samples.len() == 0 {
        Map::empty()
    } else {
        solar_keys(samples.drop_last()).insert(samples.last().index, solar_sample_key(samples.last()))
    }
}

/// Maps solar samples to solar-position keys; an empty schedule is refused.
pub fn solar_metadata(samples: &[SolarSample]) -> (r: Result<AppleDesktopMetadata, MetadataError>)
    ensures
        samples@.len() == 0 ==> r == Err::<AppleDesktopMetadata, MetadataError>(MetadataError::EmptySchedule),
        samples@.len() > 0 ==> (r matches Ok(m) && m.flavor == AppleMetadataFlavor::Solar && m.schedule_kind
            == DynamicScheduleKind::SolarPosition && m.keys_by_index@ == solar_keys(samples@)),
{
    if samples.len() == 0 {
        return Err(MetadataError::EmptySchedule);
    }
    let mut keys_by_index: HashMap<u32, DynamicStillKey> = HashMap::new();
    let mut i: usize = 0;
    while i < samples.len()
        invariant
            i <= samples@.len(),
            keys_by_index@ == solar_keys(samples@.subrange(0, i as int)),
        decreases samples@.len() - i,
    {
        let s = samples[i];
        let z: i64 = s.azimuth_millideg as i64;
        let folded: i64 = ((z % 360_000) + 360_000) % 360_000;
        proof {
            assert(folded == normalized_azimuth(s.azimuth_millideg as int)) by (nonlinear_arith)
                requires
                    folded == ((z % 360_000) + 360_000) % 360_000,
                    z == s.azimuth_millideg,
                    -2147483648 <= z <= 2147483647,
            ;
        }
        let key = DynamicStillKey::SolarPosition { altitude_millideg: s.altitude_millideg, azimuth_millideg: folded as i32 };
        keys_by_index.insert(s.index, key);
        assert(samples@.subrange(0, i + 1).drop_last() =~= samples@.subrange(0, i as int));
        i = i + 1;
    }
    assert(samples@.subrange(0, samples@.len() as int) =~= samples@);
    Ok(AppleDesktopMetadata {
        flavor: AppleMetadataFlavor::Solar,
        schedule_kind: DynamicScheduleKind::SolarPosition,
        keys_by_index,
    })
}

/// Maps the light and dark image indices to appearance keys (dark wins when both name the
/// same image).
pub fn appearance_metadata(light_index: u32, dark_index: u32) -> (r: AppleDesktopMetadata)
    ensures
        r.flavor == AppleMetadataFlavor::Appearance,
        r.schedule_kind == DynamicScheduleKind::Appearance,
        r.keys_by_index@ == Map::<u32, DynamicStillKey>::empty().insert(
            light_index,
            DynamicStillKey::Appearance { mode: AppearanceMode::Light },
        ).insert(dark_index, DynamicStillKey::Appearance { mode: AppearanceMode::Dark }),
{
    let mut keys_by_index: HashMap<u32, DynamicStillKey> = HashMap::new();
    keys_by_index.insert(light_index, DynamicStillKey::Appearance { mode: AppearanceMode::Light });
    keys_by_index.insert(dark_index, DynamicStillKey::Appearance { mode: AppearanceMode::Dark });
    AppleDesktopMetadata { flavor: AppleMetadataFlavor::Appearance, schedule_kind: DynamicScheduleKind::Appearance, keys_by_index }
}

/// Text of a time-of-day error.
pub open spec fn schedule_error_text(e: ScheduleError) -> Seq<char> {
    match e {
        ScheduleError::InvalidTimeOfDay { hour, minute } => "invalid time of day "@ + pad2(hour as nat) + ":"@ + pad2(
            minute as nat,
        ),
    }
}

/// Human-readable text of a time-of-day error.
pub fn schedule_error_message(e: ScheduleError) -> (r: String)
    ensures
        r@ == schedule_error_text(e),
{
    match e {
        ScheduleError::InvalidTimeOfDay { hour, minute } => {
            let mut s = String::from_str("invalid time of day ");
            s.append(pad2_text(hour as u64).as_str());
            s.append(":");
            s.append(pad2_text(minute as u64).as_str());
            s
        },
    }
}

/// The hour and minute an `h24` sample names: explicit fields when both are present, else
/// the day minutes; `None` when it names neither.
pub open spec fn h24_sample_time(s: H24Sample) -> Option<(int, int)> {
    if s.hour is Some && s.minute is Some {
        Some((s.hour->0 as int, s.minute->0 as int))
    } else if s.day_minutes is Some {
        Some(((s.day_minutes->0 / 60) as int, (s.day_minutes->0 % 60) as int))
    } else {
        None
    }
}

/// What is wrong with one `h24` sample: a time that is not a wall-clock time (its error
/// text), or no time at all.
pub open spec fn h24_sample_fault(s: H24Sample) -> Option<Seq<char>> {
    match h24_sample_time(s) {
        None => Some("h24 item "@ + decimal(s.index as nat) + " missing time fields"@),
        Some((h, m)) => if h < 24 && m < 60 {
            None
        } else {
            Some(
                schedule_error_text(
                    ScheduleError::InvalidTimeOfDay {
                        hour: if s.hour is Some && s.minute is Some { s.hour->0 } else { h as u8 },
                        minute: if s.hour is Some && s.minute is Some { s.minute->0 } else { m as u8 },
                    },
                ),
            )
        },
    }
}

/// The key of a sound `h24` sample.
pub open spec fn h24_sample_key(s: H24Sample) -> DynamicStillKey {
    let t = h24_sample_time(s)->0;
    DynamicStillKey::TimeOfDay { time: LocalTimeOfDay { hour: t.0 as u8, minute: t.1 as u8 } }
}

/// Keys of the sound samples by image index; a later sample replaces an earlier one.
pub open spec fn h24_keys(samples: Seq<H24Sample>) -> Map<u32, DynamicStillKey>
    decreases samples.len(),
{
    if samples.len() == 0 {
        Map::empty()
    } else {
        h24_keys(samples.drop_last()).insert(samples.last().index, h24_sample_key(samples.last()))
    }
}

/// Index of the first faulty sample, if any.
pub open spec fn first_h24_fault(samples: Seq<H24Sample>, i: int) -> bool {
    0 <= i < samples.len() && h24_sample_fault(samples[i]) is Some && forall|j: int|
        0 <= j < i ==> #[trigger] h24_sample_fault(samples[j]) is None
}

fn two_digit_time(hour: u8, minute: u8) -> (r: Result<LocalTimeOfDay, MetadataError>)
    ensures
        hour < 24 && minute < 60 ==> r == Ok::<LocalTimeOfDay, MetadataError>(LocalTimeOfDay { hour, minute }),
        !(hour < 24 && minute < 60) ==> (r matches Err(MetadataError::Plist(msg)) && msg@ == schedule_error_text(
            ScheduleError::InvalidTimeOfDay { hour, minute },
        )),
{
    match LocalTimeOfDay::new(hour, minute) {
        Ok(t) => Ok(t),
        Err(e) => Err(MetadataError::Plist(schedule_error_message(e))),
    }
}

/// Maps `h24` samples to time-of-day keys. An empty schedule is refused; otherwise the first
/// sample without a usable time decides the error.
pub fn h24_metadata(samples: &[H24Sample]) -> (r: Result<AppleDesktopMetadata, MetadataError>)
    ensures
        samples@.len() == 0 ==> r == Err::<AppleDesktopMetadata, MetadataError>(MetadataError::EmptySchedule),
        samples@.len() > 0 && (forall|i: int| 0 <= i < samples@.len() ==> #[trigger] h24_sample_fault(samples@[i]) is None)
            ==> (r matches Ok(m) && m.flavor == AppleMetadataFlavor::H24 && m.schedule_kind == DynamicScheduleKind::TimeOfDay
            && m.keys_by_index@ == h24_keys(samples@)),
        forall|i: int| #[trigger] first_h24_fault(samples@, i) ==> (r matches Err(MetadataError::Plist(msg)) && msg@
            == h24_sample_fault(samples@[i])->0),
{
    if samples.len() == 0 {
        return Err(MetadataError::EmptySchedule);
    }
    let mut keys_by_index: HashMap<u32, DynamicStillKey> = HashMap::new();
    let mut i: usize = 0;
    while i < samples.len()
        invariant
            i <= samples@.len(),
            forall|j: int| 0 <= j < i ==> #[trigger] h24_sample_fault(samples@[j]) is None,
            keys_by_index@ == h24_keys(samples@.subrange(0, i as int)),
        decreases samples@.len() - i,
    {
        let s = samples[i];
        let time = if s.hour.is_some() && s.minute.is_some() {
            match two_digit_time(s.hour.unwrap(), s.minute.unwrap()) {
                Ok(t) => t,
                Err(e) => {
                    assert(first_h24_fault(samples@, i as int));
                    proof {
                        assert forall|k: int| #[trigger] first_h24_fault(samples@, k) implies k == i by {
                            if k < i {
                                assert(h24_sample_fault(samples@[k]) is None);
                            } else if k > i {
                                assert(h24_sample_fault(samples@[i as int]) is Some);
                            }
                        }
                    }
                    return Err(e);
                },
            }
        } else if let Some(minutes) = s.day_minutes {
            let hour = minutes / 60;
            let minute = minutes % 60;
            if hour >= 24 {
                let e = MetadataError::Plist(schedule_error_message(ScheduleError::InvalidTimeOfDay { hour: hour as u8, minute: minute as u8 }));
                proof {
                    assert(first_h24_fault(samples@, i as int));
                    assert forall|k: int| #[trigger] first_h24_fault(samples@, k) implies k == i by {
                        if k < i {
                            assert(h24_sample_fault(samples@[k]) is None);
                        } else if k > i {
                            assert(h24_sample_fault(samples@[i as int]) is Some);
                        }
                    }
                }
                return Err(e);
            }
            LocalTimeOfDay { hour: hour as u8, minute: minute as u8 }
        } else {
            let mut msg = String::from_str("h24 item ");
            msg.append(decimal_text(s.index as u64).as_str());
            msg.append(" missing time fields");
            proof {
                assert(first_h24_fault(samples@, i as int));
                assert forall|k: int| #[trigger] first_h24_fault(samples@, k) implies k == i by {
                    if k < i {
                        assert(h24_sample_fault(samples@[k]) is None);
                    } else if k > i {
                        assert(h24_sample_fault(samples@[i as int]) is Some);
                    }
                }
            }
            return Err(MetadataError::Plist(msg));
        };
        keys_by_index.insert(s.index, DynamicStillKey::TimeOfDay { time });
        assert(samples@.subrange(0, i + 1).drop_last() =~= samples@.subrange(0, i as int));
        i = i + 1;
    }
    assert(samples@.subrange(0, samples@.len() as int) =~= samples@);
    Ok(AppleDesktopMetadata { flavor: AppleMetadataFlavor::H24, schedule_kind: DynamicScheduleKind::TimeOfDay, keys_by_index })
}


/// Apple flavor that exports a schedule kind.
pub open spec fn kind_flavor(kind: DynamicScheduleKind) -> AppleMetadataFlavor {
    match kind {
        DynamicScheduleKind::SolarPosition => AppleMetadataFlavor::Solar,
        DynamicScheduleKind::Appearance => AppleMetadataFlavor::Appearance,
        DynamicScheduleKind::TimeOfDay => AppleMetadataFlavor::H24,
    }
}

/// A key can be written under a flavor.
pub open spec fn exportable(flavor: AppleMetadataFlavor, key: DynamicStillKey) -> bool {
    match flavor {
        AppleMetadataFlavor::Solar => key is SolarPosition,
        AppleMetadataFlavor::Appearance => key is Appearance,
        AppleMetadataFlavor::H24 => key is TimeOfDay,
    }
}

/// Image index a frame is exported under: its source index, else its position.
pub open spec fn export_index(frame: DynamicStillFrame, order: int) -> u32 {
    match frame.source_index {
        Some(i) => i,
        None => if order <= u32::MAX { order as u32 } else { u32::MAX },
    }
}

/// Keys of the first `n` frames by export index; a later frame replaces an earlier one.
pub open spec fn export_keys(frames: Seq<DynamicStillFrame>, n: nat) -> Map<u32, DynamicStillKey>
    decreases n,
{
    if n == 0 {
        Map::empty()
    } else {
        export_keys(frames, (n - 1) as nat).insert(export_index(frames[n - 1], n - 1), frames[n - 1].key)
    }
}

/// `{:?}` of a flavor.
pub open spec fn flavor_name(flavor: AppleMetadataFlavor) -> Seq<char> {
    match flavor {
        AppleMetadataFlavor::Solar => "Solar"@,
        AppleMetadataFlavor::Appearance => "Appearance"@,
        AppleMetadataFlavor::H24 => "H24"@,
    }
}

/// Frame `i` is the first frame whose key its set's flavor cannot carry.
pub open spec fn first_unexportable(frames: Seq<DynamicStillFrame>, flavor: AppleMetadataFlavor, i: int) -> bool {
    0 <= i < frames.len() && !exportable(flavor, frames[i].key) && forall|j: int|
        0 <= j < i ==> exportable(flavor, #[trigger] frames[j].key)
}

/// Why frame `i` cannot be exported under `flavor`.
pub open spec fn incompatible_key_message(frames: Seq<DynamicStillFrame>, flavor: AppleMetadataFlavor, i: int) -> Seq<
    char,
> {
    "frame "@ + decimal(export_index(frames[i], i) as nat) + " key "@ + key_label(frames[i].key)
        + " is incompatible with "@ + flavor_name(flavor) + " export"@
}

/// Infers the Apple flavor and keyed indices from a still set for export. A frame whose key
/// the flavor cannot carry is refused, as is a set without frames.
pub fn apple_keys_from_still_set(set: &DynamicStillSet) -> (r: Result<(AppleMetadataFlavor, HashMap<u32, DynamicStillKey>), MetadataError>)
    ensures
        ({
            let frames = set.frames@;
            let flavor = kind_flavor(set.schedule_kind);
            &&& (forall|i: int| 0 <= i < frames.len() ==> exportable(flavor, #[trigger] frames[i].key)) && frames.len() > 0
                ==> (r matches Ok((f, m)) && f == flavor && m@ == export_keys(frames, frames.len()))
            &&& frames.len() == 0 ==> r == Err::<(AppleMetadataFlavor, HashMap<u32, DynamicStillKey>), MetadataError>(
                MetadataError::EmptySchedule,
            )
            &&& forall|i: int| #[trigger] first_unexportable(frames, flavor, i) ==> (r matches Err(MetadataError::Plist(msg))
                && msg@ == incompatible_key_message(frames, flavor, i))
        }),
{
    let flavor = match set.schedule_kind {
        DynamicScheduleKind::SolarPosition => AppleMetadataFlavor::Solar,
        DynamicScheduleKind::Appearance => AppleMetadataFlavor::Appearance,
        DynamicScheduleKind::TimeOfDay => AppleMetadataFlavor::H24,
    };
    let ghost frames = set.frames@;
    let mut keys_by_index: HashMap<u32, DynamicStillKey> = HashMap::new();
    let mut order: usize = 0;
    while order < set.frames.len()
        invariant
            frames == set.frames@,
            flavor == kind_flavor(set.schedule_kind),
            order <= frames.len(),
            forall|j: int| 0 <= j < order ==> exportable(flavor, #[trigger] frames[j].key),
            keys_by_index@ == export_keys(frames, order as nat),
            order > 0 ==> keys_by_index@.len() > 0,
        decreases frames.len() - order,
    {
        let frame = set.frames[order];
        let index: u32 = match frame.source_index {
            Some(i) => i,
            None => if order <= 4294967295usize { order as u32 } else { 4294967295u32 },
        };
        let fits = match flavor {
            AppleMetadataFlavor::Solar => matches!(frame.key, DynamicStillKey::SolarPosition { .. }),
            AppleMetadataFlavor::Appearance => matches!(frame.key, DynamicStillKey::Appearance { .. }),
            AppleMetadataFlavor::H24 => matches!(frame.key, DynamicStillKey::TimeOfDay { .. }),
        };
        if !fits {
            let mut msg = String::from_str("frame ");
            msg.append(decimal_text(index as u64).as_str());
            msg.append(" key ");
            msg.append(frame.key.label().as_str());
            msg.append(" is incompatible with ");
            match flavor {
                AppleMetadataFlavor::Solar => msg.append("Solar"),
                AppleMetadataFlavor::Appearance => msg.append("Appearance"),
                AppleMetadataFlavor::H24 => msg.append("H24"),
            }
            msg.append(" export");
            proof {
                assert(first_unexportable(frames, flavor, order as int));
                assert forall|k: int| #[trigger] first_unexportable(frames, flavor, k) implies k == order by {
                    if k < order {
                        assert(exportable(flavor, frames[k].key));
                    } else if k > order {
                        assert(!exportable(flavor, frames[order as int].key));
                    }
                }
            }
            return Err(MetadataError::Plist(msg));
        }
        keys_by_index.insert(index, frame.key);
        order = order + 1;
    }
    if keys_by_index.len() == 0 {
        return Err(MetadataError::EmptySchedule);
    }
    Ok((flavor, keys_by_index))
}


fn collect_indices(keys: &HashMap<u32, DynamicStillKey>) -> (r: Vec<u32>)
    ensures
        r@.to_set() == keys@.dom(),
        r@.no_duplicates(),
{
    let mut out: Vec<u32> = Vec::new();
    let ghost all = keys.keys().remaining();
    for k in it: keys.keys()
        invariant
            it.seq() == all,
            out@.len() == it.index(),
            forall|j: int| 0 <= j < it.index() ==> out@[j] == *all[j],
    {
        out.push(*k);
    }
    assert(out@ =~= all.unref());
    out
}


/// Strictly increasing.
pub open spec fn strictly_increasing(s: Seq<u32>) -> bool {
    forall|i: int, j: int| 0 <= i < j < s.len() ==> s[i] < s[j]
}

fn sort_distinct(values: &Vec<u32>) -> (r: Vec<u32>)
    requires
        values@.no_duplicates(),
    ensures
        strictly_increasing(r@),
        forall|v: u32| r@.contains(v) <==> values@.contains(v),
{
    let mut out: Vec<u32> = Vec::new();
    let mut i: usize = 0;
    while i < values.len()
        invariant
            i <= values@.len(),
            values@.no_duplicates(),
            strictly_increasing(out@),
            forall|v: u32| out@.contains(v) <==> values@.subrange(0, i as int).contains(v),
        decreases values@.len() - i,
    {
        let x = values[i];
        proof {
            if out@.contains(x) {
                let k = choose|k: int| 0 <= k < i && values@.subrange(0, i as int)[k] == x;
                assert(values@[k] == values@[i as int]);
            }
        }
        let mut p: usize = 0;
        while p < out.len() && out[p] < x
            invariant
                p <= out@.len(),
                forall|k: int| 0 <= k < p ==> out@[k] < x,
            decreases out@.len() - p,
        {
            p = p + 1;
        }
        let ghost before = out@;
        out.insert(p, x);
        proof {
            assert(!before.contains(x));
            assert forall|a: int, c: int| 0 <= a < c < out@.len() implies out@[a] < out@[c] by {
                if p < before.len() {
                    assert(before[p as int] >= x);
                    assert(before[p as int] != x);
                }
            }
            let prefix = values@.subrange(0, i as int);
            let longer = values@.subrange(0, i + 1);
            assert(longer =~= prefix.push(x));
            assert(out@[p as int] == x);
            assert forall|v: u32| out@.contains(v) implies longer.contains(v) by {
                let k = choose|k: int| 0 <= k < out@.len() && out@[k] == v;
                if k == p {
                    assert(longer[i as int] == v);
                } else {
                    if k < p {
                        assert(before[k] == v);
                    } else {
                        assert(before[k - 1] == v);
                    }
                    assert(before.contains(v));
                    let q = choose|q: int| 0 <= q < prefix.len() && prefix[q] == v;
                    assert(longer[q] == v);
                }
            }
            assert forall|v: u32| longer.contains(v) implies out@.contains(v) by {
                let q = choose|q: int| 0 <= q < longer.len() && longer[q] == v;
                if q == i {
                    assert(out@[p as int] == v);
                } else {
                    assert(prefix[q] == v);
                    assert(prefix.contains(v));
                    assert(before.contains(v));
                    let k = choose|k: int| 0 <= k < before.len() && before[k] == v;
                    if k < p {
                        assert(out@[k] == v);
                    } else {
                        assert(out@[k + 1] == v);
                    }
                }
            }
        }
        i = i + 1;
    }
    assert(values@.subrange(0, values@.len() as int) =~= values@);
    out
}

/// The image indices of a keyed map in increasing order.
pub fn sorted_indices(keys_by_index: &HashMap<u32, DynamicStillKey>) -> (r: Vec<u32>)
    ensures
        strictly_increasing(r@),
        forall|v: u32| r@.contains(v) <==> keys_by_index@.contains_key(v),
{
    let all = collect_indices(keys_by_index);
    let sorted = sort_distinct(&all);
    proof {
        assert forall|v: u32| sorted@.contains(v) <==> keys_by_index@.contains_key(v) by {
            assert(all@.to_set().contains(v) == all@.contains(v));
        }
    }
    sorted
}


/// `i` is the smallest index whose key does not satisfy the flavor's key shape.
pub open spec fn first_foreign_index(m: Map<u32, DynamicStillKey>, flavor: AppleMetadataFlavor, i: u32) -> bool {
    m.contains_key(i) && !exportable(flavor, m[i]) && forall|j: u32|
        j < i && #[trigger] m.contains_key(j) ==> exportable(flavor, m[j])
}

/// The keys of a map, sorted by index, checked against a flavor's key shape: the keys in
/// increasing index order, or the smallest index whose key has another shape.
fn ordered_keys(keys_by_index: &HashMap<u32, DynamicStillKey>, flavor: AppleMetadataFlavor) -> (r: Result<
    Vec<(u32, DynamicStillKey)>,
    u32,
>)
    ensures
        match r {
            Ok(items) => {
                &&& strictly_increasing(items@.map_values(|p: (u32, DynamicStillKey)| p.0))
                &&& forall|v: u32| #[trigger] keys_by_index@.contains_key(v) <==> exists|k: int|
                    0 <= k < items@.len() && items@[k].0 == v
                &&& forall|k: int| 0 <= k < items@.len() ==> keys_by_index@[(#[trigger] items@[k]).0] == items@[k].1
                    && exportable(flavor, items@[k].1)
            },
            Err(i) => first_foreign_index(keys_by_index@, flavor, i),
        },
{
    let indices = sorted_indices(keys_by_index);
    let mut items: Vec<(u32, DynamicStillKey)> = Vec::new();
    let mut k: usize = 0;
    while k < indices.len()
        invariant
            k <= indices@.len(),
            strictly_increasing(indices@),
            forall|v: u32| indices@.contains(v) <==> keys_by_index@.contains_key(v),
            items@.len() == k,
            forall|j: int| 0 <= j < k ==> (#[trigger] items@[j]).0 == indices@[j],
            forall|j: int| 0 <= j < k ==> keys_by_index@.contains_key((#[trigger] items@[j]).0) && keys_by_index@[items@[j].0] == items@[j].1 && exportable(flavor, items@[j].1),
        decreases indices@.len() - k,
    {
        let index = indices[k];
        assert(indices@.contains(index));
        let key = match keys_by_index.get(&index) {
            Some(key) => *key,
            None => {
                assert(false);
                return Err(index);
            },
        };
        let fits = match flavor {
            AppleMetadataFlavor::Solar => matches!(key, DynamicStillKey::SolarPosition { .. }),
            AppleMetadataFlavor::Appearance => matches!(key, DynamicStillKey::Appearance { .. }),
            AppleMetadataFlavor::H24 => matches!(key, DynamicStillKey::TimeOfDay { .. }),
        };
        if !fits {
            proof {
                assert forall|j: u32| j < index && #[trigger] keys_by_index@.contains_key(j) implies exportable(
                    flavor,
                    keys_by_index@[j],
                ) by {
                    assert(indices@.contains(j));
                    let q = choose|q: int| 0 <= q < indices@.len() && indices@[q] == j;
                    if q >= k {
                        assert(indices@[k as int] <= indices@[q]);
                    }
                    assert(items@[q].0 == j);
                }
            }
            return Err(index);
        }
        items.push((index, key));
        k = k + 1;
    }
    proof {
        let firsts = items@.map_values(|p: (u32, DynamicStillKey)| p.0);
        assert(firsts =~= indices@);
        assert forall|v: u32| #[trigger] keys_by_index@.contains_key(v) implies exists|k: int|
            0 <= k < items@.len() && items@[k].0 == v by {
            assert(indices@.contains(v));
            let q = choose|q: int| 0 <= q < indices@.len() && indices@[q] == v;
            assert(items@[q].0 == v);
        }
        assert forall|v: u32| (exists|k: int| 0 <= k < items@.len() && items@[k].0 == v) implies #[trigger] keys_by_index@.contains_key(v) by {
            let k = choose|k: int| 0 <= k < items@.len() && items@[k].0 == v;
            assert(items@[k].0 == indices@[k]);
            assert(indices@.contains(v));
        }
    }
    Ok(items)
}

/// Items of a solar export: image indices in increasing order with their sun positions.
pub fn solar_export_items(keys_by_index: &HashMap<u32, DynamicStillKey>) -> (r: Result<Vec<SolarSample>, MetadataError>)
    ensures
        match r {
            Ok(items) => {
                &&& strictly_increasing(items@.map_values(|s: SolarSample| s.index))
                &&& forall|v: u32| #[trigger] keys_by_index@.contains_key(v) <==> exists|k: int|
                    0 <= k < items@.len() && items@[k].index == v
                &&& forall|k: int| 0 <= k < items@.len() ==> #[trigger] keys_by_index@[items@[k].index]
                    == (DynamicStillKey::SolarPosition {
                    altitude_millideg: items@[k].altitude_millideg,
                    azimuth_millideg: items@[k].azimuth_millideg,
                })
            },
            Err(MetadataError::Plist(msg)) => exists|i: u32| #[trigger] first_foreign_index(keys_by_index@, AppleMetadataFlavor::Solar, i)
                && msg@ == "solar export missing SolarPosition for index "@ + decimal(i as nat),
            Err(_) => false,
        },
{
    match ordered_keys(keys_by_index, AppleMetadataFlavor::Solar) {
        Err(index) => {
            let mut msg = String::from_str("solar export missing SolarPosition for index ");
            msg.append(decimal_text(index as u64).as_str());
            Err(MetadataError::Plist(msg))
        },
        Ok(pairs) => {
            let mut items: Vec<SolarSample> = Vec::new();
            let mut k: usize = 0;
            while k < pairs.len()
                invariant
                    k <= pairs@.len(),
                    items@.len() == k,
                    forall|j: int| 0 <= j < pairs@.len() ==> exportable(AppleMetadataFlavor::Solar, #[trigger] pairs@[j].1),
                    forall|j: int| 0 <= j < k ==> (#[trigger] items@[j]).index == pairs@[j].0 && pairs@[j].1
                        == (DynamicStillKey::SolarPosition {
                        altitude_millideg: items@[j].altitude_millideg,
                        azimuth_millideg: items@[j].azimuth_millideg,
                    }),
                decreases pairs@.len() - k,
            {
                let (index, key) = pairs[k];
                assert(exportable(AppleMetadataFlavor::Solar, pairs@[k as int].1));
                match key {
                    DynamicStillKey::SolarPosition { altitude_millideg, azimuth_millideg } => {
                        items.push(SolarSample { index, altitude_millideg, azimuth_millideg });
                    },
                    _ => {
                        assert(false);
                    },
                }
                k = k + 1;
            }
            proof {
                assert(items@.map_values(|s: SolarSample| s.index) =~= pairs@.map_values(|p: (u32, DynamicStillKey)| p.0));
                assert forall|v: u32| #[trigger] keys_by_index@.contains_key(v) implies exists|k: int|
                    0 <= k < items@.len() && items@[k].index == v by {
                    let q = choose|q: int| 0 <= q < pairs@.len() && pairs@[q].0 == v;
                    assert(items@[q].index == v);
                }
            }
            Ok(items)
        },
    }
}

/// Items of an `h24` export: image indices in increasing order with their wall-clock times.
pub fn h24_export_items(keys_by_index: &HashMap<u32, DynamicStillKey>) -> (r: Result<Vec<(u32, LocalTimeOfDay)>, MetadataError>)
    ensures
        match r {
            Ok(items) => {
                &&& strictly_increasing(items@.map_values(|p: (u32, LocalTimeOfDay)| p.0))
                &&& forall|v: u32| #[trigger] keys_by_index@.contains_key(v) <==> exists|k: int|
                    0 <= k < items@.len() && items@[k].0 == v
                &&& forall|k: int| 0 <= k < items@.len() ==> #[trigger] keys_by_index@[items@[k].0]
                    == (DynamicStillKey::TimeOfDay { time: items@[k].1 })
            },
            Err(MetadataError::Plist(msg)) => exists|i: u32| #[trigger] first_foreign_index(keys_by_index@, AppleMetadataFlavor::H24, i)
                && msg@ == "h24 export missing TimeOfDay for index "@ + decimal(i as nat),
            Err(_) => false,
        },
{
    match ordered_keys(keys_by_index, AppleMetadataFlavor::H24) {
        Err(index) => {
            let mut msg = String::from_str("h24 export missing TimeOfDay for index ");
            msg.append(decimal_text(index as u64).as_str());
            Err(MetadataError::Plist(msg))
        },
        Ok(pairs) => {
            let mut items: Vec<(u32, LocalTimeOfDay)> = Vec::new();
            let mut k: usize = 0;
            while k < pairs.len()
                invariant
                    k <= pairs@.len(),
                    items@.len() == k,
                    forall|j: int| 0 <= j < pairs@.len() ==> exportable(AppleMetadataFlavor::H24, #[trigger] pairs@[j].1),
                    forall|j: int| 0 <= j < k ==> (#[trigger] items@[j]).0 == pairs@[j].0 && pairs@[j].1
                        == (DynamicStillKey::TimeOfDay { time: items@[j].1 }),
                decreases pairs@.len() - k,
            {
                let (index, key) = pairs[k];
                assert(exportable(AppleMetadataFlavor::H24, pairs@[k as int].1));
                match key {
                    DynamicStillKey::TimeOfDay { time } => {
                        items.push((index, time));
                    },
                    _ => {
                        assert(false);
                    },
                }
                k = k + 1;
            }
            proof {
                assert(items@.map_values(|p: (u32, LocalTimeOfDay)| p.0) =~= pairs@.map_values(
                    |p: (u32, DynamicStillKey)| p.0,
                ));
                assert forall|v: u32| #[trigger] keys_by_index@.contains_key(v) implies exists|k: int|
                    0 <= k < items@.len() && items@[k].0 == v by {
                    let q = choose|q: int| 0 <= q < pairs@.len() && pairs@[q].0 == v;
                    assert(items@[q].0 == v);
                }
            }
            Ok(items)
        },
    }
}

/// The index holding appearance `mode`, the largest such when several do.
pub open spec fn last_index_with(m: Map<u32, DynamicStillKey>, mode: AppearanceMode, i: u32) -> bool {
    m.contains_key(i) && m[i] == (DynamicStillKey::Appearance { mode }) && forall|j: u32|
        j > i && #[trigger] m.contains_key(j) ==> m[j] != (DynamicStillKey::Appearance { mode })
}

/// Light and dark image indices for an appearance export, taking the largest index when a
/// mode appears more than once.
pub fn appearance_export_indices(keys_by_index: &HashMap<u32, DynamicStillKey>) -> (r: Result<(u32, u32), MetadataError>)
    ensures
        match r {
            Ok((l, d)) => last_index_with(keys_by_index@, AppearanceMode::Light, l) && last_index_with(
                keys_by_index@,
                AppearanceMode::Dark,
                d,
            ) && forall|v: u32| #[trigger] keys_by_index@.contains_key(v) ==> keys_by_index@[v] is Appearance,
            Err(MetadataError::Plist(msg)) => (exists|i: u32| #[trigger] first_foreign_index(keys_by_index@, AppleMetadataFlavor::Appearance, i)
                && msg@ == "appearance export got non-appearance key at "@ + decimal(i as nat)) || ((forall|v: u32|
                #[trigger] keys_by_index@.contains_key(v) ==> keys_by_index@[v] is Appearance) && ((forall|i: u32|
                !#[trigger] last_index_with(keys_by_index@, AppearanceMode::Light, i)) || (forall|i: u32|
                !#[trigger] last_index_with(keys_by_index@, AppearanceMode::Dark, i))) && msg@
                == "appearance export requires both light and dark indices"@),
            Err(_) => false,
        },
{
    let pairs = match ordered_keys(keys_by_index, AppleMetadataFlavor::Appearance) {
        Err(index) => {
            let mut msg = String::from_str("appearance export got non-appearance key at ");
            msg.append(decimal_text(index as u64).as_str());
            return Err(MetadataError::Plist(msg));
        },
        Ok(pairs) => pairs,
    };
    let ghost m = keys_by_index@;
    proof {
        assert forall|v: u32| #[trigger] m.contains_key(v) implies m[v] is Appearance by {
            let q = choose|q: int| 0 <= q < pairs@.len() && pairs@[q].0 == v;
            assert(exportable(AppleMetadataFlavor::Appearance, pairs@[q].1));
        }
    }
    let mut light: Option<u32> = None;
    let mut dark: Option<u32> = None;
    let mut k: usize = 0;
    while k < pairs.len()
        invariant
            k <= pairs@.len(),
            strictly_increasing(pairs@.map_values(|p: (u32, DynamicStillKey)| p.0)),
            forall|v: u32| #[trigger] m.contains_key(v) <==> exists|q: int| 0 <= q < pairs@.len() && pairs@[q].0 == v,
            forall|q: int| 0 <= q < pairs@.len() ==> #[trigger] m[pairs@[q].0] == pairs@[q].1,
            light matches Some(l) ==> exists|q: int| 0 <= q < k && pairs@[q].0 == l && pairs@[q].1 == (DynamicStillKey::Appearance { mode: AppearanceMode::Light })
                && forall|q2: int| q < q2 < k ==> (#[trigger] pairs@[q2]).1 != (DynamicStillKey::Appearance { mode: AppearanceMode::Light }),
            light is None ==> forall|q: int| 0 <= q < k ==> (#[trigger] pairs@[q]).1 != (DynamicStillKey::Appearance { mode: AppearanceMode::Light }),
            dark matches Some(d) ==> exists|q: int| 0 <= q < k && pairs@[q].0 == d && pairs@[q].1 == (DynamicStillKey::Appearance { mode: AppearanceMode::Dark })
                && forall|q2: int| q < q2 < k ==> (#[trigger] pairs@[q2]).1 != (DynamicStillKey::Appearance { mode: AppearanceMode::Dark }),
            dark is None ==> forall|q: int| 0 <= q < k ==> (#[trigger] pairs@[q]).1 != (DynamicStillKey::Appearance { mode: AppearanceMode::Dark }),
        decreases pairs@.len() - k,
    {
        let (index, key) = pairs[k];
        match key {
            DynamicStillKey::Appearance { mode: AppearanceMode::Light } => {
                light = Some(index);
            },
            DynamicStillKey::Appearance { mode: AppearanceMode::Dark } => {
                dark = Some(index);
            },
            _ => {},
        }
        k = k + 1;
    }
    let ghost firsts = pairs@.map_values(|p: (u32, DynamicStillKey)| p.0);
    match (light, dark) {
        (Some(l), Some(d)) => {
            proof {
                assert forall|mode: AppearanceMode, x: u32| (mode == AppearanceMode::Light && x == l) || (mode == AppearanceMode::Dark && x == d)
                    implies last_index_with(m, mode, x) by {
                    let q = choose|q: int| 0 <= q < pairs@.len() && pairs@[q].0 == x && pairs@[q].1 == (DynamicStillKey::Appearance { mode })
                        && forall|q2: int| q < q2 < pairs@.len() ==> (#[trigger] pairs@[q2]).1 != (DynamicStillKey::Appearance { mode });
                    assert forall|j: u32| j > x && #[trigger] m.contains_key(j) implies m[j] != (DynamicStillKey::Appearance { mode }) by {
                        let q2 = choose|q2: int| 0 <= q2 < pairs@.len() && pairs@[q2].0 == j;
                        if q2 <= q {
                            assert(firsts[q2] <= firsts[q]);
                        }
                    }
                }
            }
            Ok((l, d))
        },
        _ => {
            proof {
                if light is None {
                    assert forall|i: u32| !#[trigger] last_index_with(m, AppearanceMode::Light, i) by {
                        if m.contains_key(i) {
                            let q = choose|q: int| 0 <= q < pairs@.len() && pairs@[q].0 == i;
                        }
                    }
                } else {
                    assert forall|i: u32| !#[trigger] last_index_with(m, AppearanceMode::Dark, i) by {
                        if m.contains_key(i) {
                            let q = choose|q: int| 0 <= q < pairs@.len() && pairs@[q].0 == i;
                        }
                    }
                }
            }
            Err(MetadataError::Plist(String::from_str("appearance export requires both light and dark indices")))
        },
    }
}

/// The XMP attribute name of a flavor (`solar`, `apr`, `h24`).
pub open spec fn flavor_attribute(flavor: AppleMetadataFlavor) -> Seq<char> {
    match flavor {
        AppleMetadataFlavor::Solar => "solar"@,
        AppleMetadataFlavor::Appearance => "apr"@,
        AppleMetadataFlavor::H24 => "h24"@,
    }
}

/// The minimal XMP packet carrying one `apple_desktop:{solar,apr,h24}` attribute.
pub open spec fn apple_xmp_text(flavor: AppleMetadataFlavor, encoded: Seq<char>) -> Seq<char> {
    "<?xpacket begin=\"\" id=\"W5M0MpCehiHzreSzNTczkc9d\"?><x:xmpmeta xmlns:x=\"adobe:ns:meta/\"><rdf:RDF xmlns:rdf=\"http://www.w3.org/1999/02/22-rdf-syntax-ns#\"><rdf:Description rdf:about=\"\" xmlns:apple_desktop=\"http://ns.apple.com/namespace/1.0/\" apple_desktop:"@
        + flavor_attribute(flavor) + "=\""@ + encoded + "\"/></rdf:RDF></x:xmpmeta><?xpacket end=\"w\"?>"@
}

/// Builds the minimal XMP packet for a base64 schedule payload.
pub fn apple_xmp_packet(flavor: AppleMetadataFlavor, encoded: &str) -> (r: String)
    ensures
        r@ == apple_xmp_text(flavor, encoded@),
{
    let mut s = String::from_str(
        "<?xpacket begin=\"\" id=\"W5M0MpCehiHzreSzNTczkc9d\"?><x:xmpmeta xmlns:x=\"adobe:ns:meta/\"><rdf:RDF xmlns:rdf=\"http://www.w3.org/1999/02/22-rdf-syntax-ns#\"><rdf:Description rdf:about=\"\" xmlns:apple_desktop=\"http://ns.apple.com/namespace/1.0/\" apple_desktop:",
    );
    match flavor {
        AppleMetadataFlavor::Solar => s.append("solar"),
        AppleMetadataFlavor::Appearance => s.append("apr"),
        AppleMetadataFlavor::H24 => s.append("h24"),
    }
    s.append("=\"");
    s.append(encoded);
    s.append("\"/></rdf:RDF></x:xmpmeta><?xpacket end=\"w\"?>");
    s
}

} // verus!
