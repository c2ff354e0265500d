//! Which frame of a dynamic still set should be showing, when the next keyed transition is
//! due, and whether a newly evaluated frame should replace the desktop wallpaper.

use vstd::prelude::*;

use crate::calendar::{
    add_days, civil_date, civil_seconds, epoch_day, instant_at_local, instant_in_range, is_valid_date,
    lemma_civil_date, local_seconds, InstantSeconds, LocalTimeOfDay,
};
use crate::dynamic::{
    key_label, pad2, AppearanceMode, DynamicScheduleKind, DynamicStillFrame, DynamicStillKey, DynamicStillSet,
    SolarEvent,
};
use crate::ids::AssetId;

verus! {

/// Local minutes past midnight of sunrise and sunset on one date, when the sun rises or sets
/// at all, as the solar model computed them for the set's observer.
#[derive(Clone, Copy, Debug, PartialEq, Eq, Structural)]
pub struct SolarEventTimes {
    /// Year of the date.
    pub year: i32,
    /// Month of the date.
    pub month: u8,
    /// Day of month.
    pub day: u8,
    /// Sunrise, minutes past local midnight.
    pub sunrise_minutes: Option<i32>,
    /// Sunset, minutes past local midnight.
    pub sunset_minutes: Option<i32>,
}

/// Minutes of `event` on the date, from the first table entry for that date.
pub open spec fn solar_minutes(table: Seq<SolarEventTimes>, y: int, m: int, d: int, event: SolarEvent) -> Option<i32>
    decreases table.len(),
{
    if table.len() == 0 {
        None
    } else if table[0].year == y && table[0].month == m && table[0].day == d {
        match event {
            SolarEvent::Sunrise => table[0].sunrise_minutes,
            SolarEvent::Sunset => table[0].sunset_minutes,
        }
    } else {
        solar_minutes(table.drop_first(), y, m, d, event)
    }
}

/// Local day number (days since 1970-01-01 on the local clock) at `now`.
pub open spec fn local_day(now: int, utc_offset_minutes: int) -> int {
    local_seconds(now, utc_offset_minutes) / 86400
}

/// The instant, in Unix seconds, at which `key` fires on the local day `day_offset` days
/// after the day of `now`; `None` for keys that are not clock-driven or cannot be placed.
pub open spec fn resolved_instant(
    set: DynamicStillSet,
    key: DynamicStillKey,
    now: int,
    utc_offset_minutes: int,
    day_offset: int,
    table: Seq<SolarEventTimes>,
) -> Option<int> {
    let day = local_day(now, utc_offset_minutes) + day_offset;
    let date = civil_date(day);
    match key {
        DynamicStillKey::TimeOfDay { time } => Some(
            civil_seconds(date.0, date.1, date.2, time.hour as int, time.minute as int) - 60 * utc_offset_minutes,
        ),
        DynamicStillKey::Solar { event, offset_minutes } => {
            if set.latitude_microdeg is None || set.longitude_microdeg is None {
                None
            } else {
                match solar_minutes(table, date.0, date.1, date.2, event) {
                    None => None,
                    Some(minutes) => {
                        let total = minutes + offset_minutes;
                        let wrapped = civil_date(day + total / 1440);
                        let within = total % 1440;
                        Some(
                            civil_seconds(wrapped.0, wrapped.1, wrapped.2, within / 60, within % 60) - 60
                                * utc_offset_minutes,
                        )
                    },
                }
            }
        },
        _ => None,
    }
}

fn solar_minutes_of(table: &[SolarEventTimes], year: i32, month: u8, day: u8, event: SolarEvent) -> (r: Option<i32>)
    ensures
        r == solar_minutes(table@, year as int, month as int, day as int, event),
{
    let mut i: usize = 0;
    assert(table@.subrange(0, table@.len() as int) =~= table@);
    while i < table.len()
        invariant
            i <= table@.len(),
            solar_minutes(table@, year as int, month as int, day as int, event) == solar_minutes(
                table@.subrange(i as int, table@.len() as int),
                year as int,
                month as int,
                day as int,
                event,
            ),
        decreases table@.len() - i,
    {
        let entry = table[i];
        assert(table@.subrange(i as int, table@.len() as int).drop_first() =~= table@.subrange(
            i + 1,
            table@.len() as int,
        ));
        if entry.year == year && entry.month == month && entry.day == day {
            return match event {
                SolarEvent::Sunrise => entry.sunrise_minutes,
                SolarEvent::Sunset => entry.sunset_minutes,
            };
        }
        i = i + 1;
    }
    None
}

/// The instant at which `key` fires on the local day `day_offset` days after the day of `now`,
/// for time-of-day keys and for sunrise/sunset keys when the observer location is set and the
/// table holds that date's event.
pub fn resolve_time_key_on_day(
    set: &DynamicStillSet,
    key: DynamicStillKey,
    now: InstantSeconds,
    utc_offset_minutes: i32,
    day_offset: i32,
    solar: &[SolarEventTimes],
) -> (r: Option<InstantSeconds>)
    requires
        instant_in_range(now.unix_seconds as int),
        -2 <= day_offset <= 2,
    ensures
        r matches Some(i) ==> resolved_instant(*set, key, now.unix_seconds as int, utc_offset_minutes as int, day_offset as int, solar@)
            == Some(i.unix_seconds as int),
        r is None ==> resolved_instant(*set, key, now.unix_seconds as int, utc_offset_minutes as int, day_offset as int, solar@)
            is None,
        r matches Some(i) ==> -55_000_000_000_000_000 <= i.unix_seconds <= 55_000_000_000_000_000,
{
    let local = now.to_local(utc_offset_minutes);
    proof {
        lemma_civil_date(local.year as int, local.month as int, local.day as int);
    }
    let (year, month, day) = add_days(local.year, local.month, local.day, day_offset);
    proof {
        lemma_civil_date(year as int, month as int, day as int);
    }
    match key {
        DynamicStillKey::TimeOfDay { time } => Some(instant_at_local(year, month, day, time, utc_offset_minutes)),
        DynamicStillKey::Solar { event, offset_minutes } => {
            if set.latitude_microdeg.is_none() || set.longitude_microdeg.is_none() {
                return None;
            }
            let minutes = match solar_minutes_of(solar, year, month, day, event) {
                Some(m) => m,
                None => return None,
            };
            let total: i64 = minutes as i64 + offset_minutes as i64;
            let shifted: u64 = (total + 1440 * 4_000_000) as u64;
            let wrapped_day: i64 = (shifted / 1440) as i64 - 4_000_000;
            let within: u64 = shifted % 1440;
            let hour: u8 = (within / 60) as u8;
            let minute: u8 = (within % 60) as u8;
            let (y, m, d) = add_days(year, month, day, wrapped_day as i32);
            proof {
                lemma_civil_date(y as int, m as int, d as int);
            }
            Some(instant_at_local(y, m, d, LocalTimeOfDay { hour, minute }, utc_offset_minutes))
        },
        _ => None,
    }
}


/// Result of evaluating which frame should be showing.
#[derive(Clone, Debug)]
pub struct FrameSelection {
    /// Asset to render and apply.
    pub asset_id: AssetId,
    /// Key that won, when a keyed frame is active.
    pub key: Option<DynamicStillKey>,
    /// Explainable selection reason.
    pub reason: String,
    /// True when the fallback asset was chosen.
    pub used_fallback: bool,
}

/// Fingerprint of a selection: the key's label, or `fallback`.
pub open spec fn selection_label(key: Option<DynamicStillKey>) -> Seq<char> {
    match key {
        Some(k) => key_label(k),
        None => "fallback"@,
    }
}

impl FrameSelection {
    /// Stable fingerprint for last-applied comparisons.
    pub fn key_label(&self) -> (r: String)
        ensures
            r@ == selection_label(self.key),
    {
        match self.key {
            Some(k) => k.label(),
            None => String::from_str("fallback"),
        }
    }
}

/// Previously applied dynamic-still frame for catch-up decisions.
#[derive(Clone, Debug)]
pub struct AppliedDynamicFrame {
    /// Asset that was applied.
    pub asset_id: AssetId,
    /// Key label (`fallback` or the key's label).
    pub key_label: String,
    /// Unix seconds when the apply completed.
    pub applied_at: i64,
}

/// Whether a newly evaluated selection should replace the desktop wallpaper.
#[derive(Clone, Debug)]
pub struct TransitionDecision {
    /// Apply when true.
    pub should_apply: bool,
    /// Explainable reason.
    pub reason: String,
}

/// Injected context for appearance and solar evaluation.
#[derive(Clone, Copy, Debug, PartialEq, Eq, Structural)]
pub struct DynamicEvalContext {
    /// Current instant.
    pub now: InstantSeconds,
    /// Fixed local offset east of UTC in minutes.
    pub utc_offset_minutes: i32,
    /// Current light/dark preference for appearance-keyed sets.
    pub appearance: AppearanceMode,
}

/// A selection differs from the last applied frame unless both its label and asset match.
pub open spec fn transition_applies(last: Option<(AssetId, Seq<char>)>, asset: AssetId, label: Seq<char>) -> bool {
    match last {
        None => true,
        Some((a, l)) => !(l == label && a == asset),
    }
}

/// Re-evaluating right after applying a selection never applies it again.
pub proof fn lemma_transition_idempotent(asset: AssetId, label: Seq<char>)
    ensures
        !transition_applies(Some((asset, label)), asset, label),
{
}

/// A selection is skipped only when it shows the very asset under the very key label that
/// was last applied: a different asset, or a different label, is always applied.
pub proof fn lemma_transition_skips_only_same_frame(
    last_asset: AssetId,
    last_label: Seq<char>,
    asset: AssetId,
    label: Seq<char>,
)
    ensures
        transition_applies(Some((last_asset, last_label)), asset, label) <==> (last_asset != asset || last_label
            != label),
        transition_applies(None, asset, label),
{
}

/// Decides whether to apply `selection` given the last successful dynamic apply.
pub fn decide_transition(last: Option<&AppliedDynamicFrame>, selection: &FrameSelection) -> (r: TransitionDecision)
    ensures
        r.should_apply == transition_applies(
            match last {
                Some(p) => Some((p.asset_id, p.key_label@)),
                None => None,
            },
            selection.asset_id,
            selection_label(selection.key),
        ),
        last is None ==> r.reason@ == "initial dynamic apply ("@ + selection_label(selection.key) + ")"@,
        last matches Some(p) ==> r.reason@ == if r.should_apply {
            "transition "@ + p.key_label@ + " → "@ + selection_label(selection.key) + " ("@ + selection.reason@ + ")"@
        } else {
            "already showing "@ + selection_label(selection.key)
        },
{
    let label = selection.key_label();
    match last {
        None => {
            let mut reason = String::from_str("initial dynamic apply (");
            reason.append(label.as_str());
            reason.append(")");
            TransitionDecision { should_apply: true, reason }
        },
        Some(previous) => {
            let same_key = crate::text::str_eq(previous.key_label.as_str(), label.as_str());
            let same_asset = previous.asset_id == selection.asset_id;
            if same_key && same_asset {
                let mut reason = String::from_str("already showing ");
                reason.append(label.as_str());
                TransitionDecision { should_apply: false, reason }
            } else {
                let mut reason = String::from_str("transition ");
                reason.append(previous.key_label.as_str());
                reason.append(" → ");
                reason.append(label.as_str());
                reason.append(" (");
                reason.append(selection.reason.as_str());
                reason.append(")");
                TransitionDecision { should_apply: true, reason }
            }
        },
    }
}

fn fallback_selection(set: &DynamicStillSet, reason: &str) -> (r: FrameSelection)
    ensures
        r.asset_id == set.fallback_asset_id,
        r.key is None,
        r.reason@ == reason@,
        r.used_fallback,
{
    FrameSelection { asset_id: set.fallback_asset_id, key: None, reason: String::from_str(reason), used_fallback: true }
}

/// `{:?}` of an appearance mode.
pub open spec fn appearance_name(mode: AppearanceMode) -> Seq<char> {
    match mode {
        AppearanceMode::Light => "Light"@,
        AppearanceMode::Dark => "Dark"@,
    }
}

/// Frame `i` is the first frame keyed to appearance `mode`.
pub open spec fn is_first_appearance(frames: Seq<DynamicStillFrame>, mode: AppearanceMode, i: int) -> bool {
    0 <= i < frames.len() && frames[i].key == (DynamicStillKey::Appearance { mode }) && forall|j: int|
        0 <= j < i ==> #[trigger] frames[j].key != (DynamicStillKey::Appearance { mode })
}

/// The first frame keyed to `mode`, or the fallback when no frame is.
pub fn active_appearance_frame(set: &DynamicStillSet, mode: AppearanceMode) -> (r: FrameSelection)
    ensures
        (exists|i: int| #[trigger] is_first_appearance(set.frames@, mode, i) && r.asset_id == set.frames@[i].asset_id
            && r.key == Some(set.frames@[i].key)) && !r.used_fallback && r.reason@ == "appearance "@ + appearance_name(mode)
            || (forall|i: int| 0 <= i < set.frames@.len() ==> #[trigger] set.frames@[i].key != (DynamicStillKey::Appearance { mode }))
            && r.asset_id == set.fallback_asset_id && r.key is None && r.used_fallback && r.reason@
            == "fallback frame (appearance mode missing)"@,
{
    let mut i: usize = 0;
    while i < set.frames.len()
        invariant
            i <= set.frames@.len(),
            forall|j: int| 0 <= j < i ==> #[trigger] set.frames@[j].key != (DynamicStillKey::Appearance { mode }),
        decreases set.frames@.len() - i,
    {
        let frame = set.frames[i];
        if frame.key == (DynamicStillKey::Appearance { mode }) {
            assert(is_first_appearance(set.frames@, mode, i as int));
            let mut reason = String::from_str("appearance ");
            match mode {
                AppearanceMode::Light => reason.append("Light"),
                AppearanceMode::Dark => reason.append("Dark"),
            }
            return FrameSelection { asset_id: frame.asset_id, key: Some(frame.key), reason, used_fallback: false };
        }
        i = i + 1;
    }
    fallback_selection(set, "fallback frame (appearance mode missing)")
}

/// Instant at which frame `i` fires on local day offset `d`.
pub open spec fn frame_instant(set: DynamicStillSet, now: int, off: int, table: Seq<SolarEventTimes>, d: int, i: int) -> Option<int> {
    resolved_instant(set, set.frames@[i].key, now, off, d, table)
}

/// Candidate `(d1, i1)` comes no later than `(d2, i2)` in evaluation order (days, then frames).
pub open spec fn lex_le(d1: int, i1: int, d2: int, i2: int) -> bool {
    d1 < d2 || (d1 == d2 && i1 <= i2)
}

/// Frame `i` fired at `t`, no later than `now`, on local day offset `d`.
pub open spec fn fired_by(set: DynamicStillSet, now: int, off: int, table: Seq<SolarEventTimes>, d: int, i: int, t: int) -> bool {
    0 <= i < set.frames@.len() && frame_instant(set, now, off, table, d, i) == Some(t) && t <= now
}

/// Frame `i` on day offset `d` (yesterday or today) fired at `t`, the latest firing at or
/// before `now`; among firings at the same instant, the last in evaluation order wins.
pub open spec fn is_active_choice(set: DynamicStillSet, now: int, off: int, table: Seq<SolarEventTimes>, d: int, i: int, t: int) -> bool {
    &&& -1 <= d <= 0
    &&& fired_by(set, now, off, table, d, i, t)
    &&& forall|d2: int, i2: int, t2: int|
        -1 <= d2 <= 0 && #[trigger] fired_by(set, now, off, table, d2, i2, t2) ==> t2 < t || (t2 == t && lex_le(d2, i2, d, i))
}

/// Local hour at `t` on a clock `off` minutes east of UTC.
pub open spec fn local_hour(t: int, off: int) -> int {
    (local_seconds(t, off) % 86400) / 3600
}

/// Local minute at `t` on a clock `off` minutes east of UTC.
pub open spec fn local_minute(t: int, off: int) -> int {
    (local_seconds(t, off) % 86400) % 3600 / 60
}

/// The explanation of an active time-keyed frame that fired at `t`.
pub open spec fn active_reason(key: DynamicStillKey, t: int, off: int) -> Seq<char> {
    "active "@ + key_label(key) + " since "@ + pad2(local_hour(t, off) as nat) + ":"@ + pad2(local_minute(t, off) as nat)
        + " local"@
}

/// At most one candidate is the active choice.
pub proof fn lemma_active_choice_unique(
    set: DynamicStillSet,
    now: int,
    off: int,
    table: Seq<SolarEventTimes>,
    d1: int,
    i1: int,
    t1: int,
    d2: int,
    i2: int,
    t2: int,
)
    requires
        is_active_choice(set, now, off, table, d1, i1, t1),
        is_active_choice(set, now, off, table, d2, i2, t2),
    ensures
        d1 == d2 && i1 == i2 && t1 == t2,
{
    assert(fired_by(set, now, off, table, d2, i2, t2));
    assert(fired_by(set, now, off, table, d1, i1, t1));
}

/// The time-keyed frame that fired last at or before `now` over yesterday and today, or the
/// fallback when none did.
pub fn active_time_keyed_frame(set: &DynamicStillSet, ctx: DynamicEvalContext, solar: &[SolarEventTimes]) -> (r: FrameSelection)
    requires
        instant_in_range(ctx.now.unix_seconds as int),
    ensures
        ({
            let now = ctx.now.unix_seconds as int;
            let off = ctx.utc_offset_minutes as int;
            ||| (exists|d: int, i: int, t: int| #[trigger] is_active_choice(*set, now, off, solar@, d, i, t)
                && r.asset_id == set.frames@[i].asset_id && r.key == Some(set.frames@[i].key) && !r.used_fallback
                && r.reason@ == active_reason(set.frames@[i].key, t, off))
            ||| (forall|d: int, i: int, t: int| -1 <= d <= 0 ==> !#[trigger] fired_by(*set, now, off, solar@, d, i, t))
                && r.asset_id == set.fallback_asset_id && r.key is None && r.used_fallback
                && r.reason@ == "fallback frame (no keyed transition at or before now)"@
        }),
{
    let ghost now = ctx.now.unix_seconds as int;
    let ghost off = ctx.utc_offset_minutes as int;
    let n = set.frames.len();
    let mut best: Option<(InstantSeconds, usize)> = None;
    let ghost mut best_d: int = 0;
    let mut d: i32 = -1;
    while d <= 0
        invariant
            -1 <= d <= 1,
            n == set.frames@.len(),
            instant_in_range(ctx.now.unix_seconds as int),
            now == ctx.now.unix_seconds as int,
            off == ctx.utc_offset_minutes as int,
            best is None ==> forall|d2: int, i2: int, t2: int|
                -1 <= d2 < d ==> !#[trigger] fired_by(*set, now, off, solar@, d2, i2, t2),
            best matches Some((bt, bi)) ==> {
                &&& -1 <= best_d < d
                &&& fired_by(*set, now, off, solar@, best_d, bi as int, bt.unix_seconds as int)
                &&& -55_000_000_000_000_000 <= bt.unix_seconds <= 55_000_000_000_000_000
                &&& forall|d2: int, i2: int, t2: int|
                    -1 <= d2 < d && #[trigger] fired_by(*set, now, off, solar@, d2, i2, t2) ==> t2 < bt.unix_seconds
                        || (t2 == bt.unix_seconds && lex_le(d2, i2, best_d, bi as int))
            },
        decreases 1 - d,
    {
        let mut i: usize = 0;
        while i < n
            invariant
                -1 <= d <= 0,
                i <= n,
                n == set.frames@.len(),
                instant_in_range(ctx.now.unix_seconds as int),
                now == ctx.now.unix_seconds as int,
                off == ctx.utc_offset_minutes as int,
                best is None ==> forall|d2: int, i2: int, t2: int|
                    -1 <= d2 && lex_le(d2, i2, d as int, i as int - 1) ==> !#[trigger] fired_by(*set, now, off, solar@, d2, i2, t2),
                best matches Some((bt, bi)) ==> {
                    &&& -1 <= best_d <= d
                    &&& lex_le(best_d, bi as int, d as int, i as int - 1)
                    &&& fired_by(*set, now, off, solar@, best_d, bi as int, bt.unix_seconds as int)
                    &&& -55_000_000_000_000_000 <= bt.unix_seconds <= 55_000_000_000_000_000
                    &&& forall|d2: int, i2: int, t2: int|
                        -1 <= d2 && lex_le(d2, i2, d as int, i as int - 1) && #[trigger] fired_by(*set, now, off, solar@, d2, i2, t2)
                            ==> t2 < bt.unix_seconds || (t2 == bt.unix_seconds && lex_le(d2, i2, best_d, bi as int))
                },
            decreases n - i,
        {
            let key = set.frames[i].key;
            let resolved = resolve_time_key_on_day(set, key, ctx.now, ctx.utc_offset_minutes, d, solar);
            if let Some(instant) = resolved {
                let better = match best {
                    None => true,
                    Some((current, _)) => instant.unix_seconds >= current.unix_seconds,
                };
                if instant.unix_seconds <= ctx.now.unix_seconds && better {
                    best = Some((instant, i));
                    proof {
                        best_d = d as int;
                    }
                }
            }
            i = i + 1;
        }
        d = d + 1;
    }
    match best {
        Some((instant, index)) => {
            proof {
                assert(is_active_choice(*set, now, off, solar@, best_d, index as int, instant.unix_seconds as int));
            }
            let frame = set.frames[index];
            let local = instant.to_local(ctx.utc_offset_minutes);
            let mut reason = String::from_str("active ");
            reason.append(frame.key.label().as_str());
            reason.append(" since ");
            reason.append(pad2_of(local.time.hour).as_str());
            reason.append(":");
            reason.append(pad2_of(local.time.minute).as_str());
            reason.append(" local");
            FrameSelection { asset_id: frame.asset_id, key: Some(frame.key), reason, used_fallback: false }
        },
        None => fallback_selection(set, "fallback frame (no keyed transition at or before now)"),
    }
}

/// Frame `i` fires at `t`, strictly after `now`, on local day offset `d`.
pub open spec fn fires_after(set: DynamicStillSet, now: int, off: int, table: Seq<SolarEventTimes>, d: int, i: int, t: int) -> bool {
    0 <= i < set.frames@.len() && frame_instant(set, now, off, table, d, i) == Some(t) && t > now
}

/// Frame `i` on day offset `d` (today through the day after tomorrow) fires at `t`, the
/// earliest firing strictly after `now`; among firings at the same instant, the first in
/// evaluation order wins.
pub open spec fn is_next_choice(set: DynamicStillSet, now: int, off: int, table: Seq<SolarEventTimes>, d: int, i: int, t: int) -> bool {
    &&& 0 <= d <= 2
    &&& fires_after(set, now, off, table, d, i, t)
    &&& forall|d2: int, i2: int, t2: int|
        0 <= d2 <= 2 && #[trigger] fires_after(set, now, off, table, d2, i2, t2) ==> t2 > t || (t2 == t && lex_le(d, i, d2, i2))
}

/// At most one candidate is the next transition.
pub proof fn lemma_next_choice_unique(
    set: DynamicStillSet,
    now: int,
    off: int,
    table: Seq<SolarEventTimes>,
    d1: int,
    i1: int,
    t1: int,
    d2: int,
    i2: int,
    t2: int,
)
    requires
        is_next_choice(set, now, off, table, d1, i1, t1),
        is_next_choice(set, now, off, table, d2, i2, t2),
    ensures
        d1 == d2 && i1 == i2 && t1 == t2,
{
    assert(fires_after(set, now, off, table, d2, i2, t2));
    assert(fires_after(set, now, off, table, d1, i1, t1));
}

/// The next keyed transition strictly after `now`, when one exists. Solar-position sets do
/// not expose a cheap closed-form next fire and appearance sets never transition from the
/// clock: both give `None`.
pub fn next_transition_after(
    set: &DynamicStillSet,
    now: InstantSeconds,
    utc_offset_minutes: i32,
    solar: &[SolarEventTimes],
) -> (r: Option<(InstantSeconds, DynamicStillFrame)>)
    requires
        instant_in_range(now.unix_seconds as int),
    ensures
        set.schedule_kind != DynamicScheduleKind::TimeOfDay ==> r is None,
        set.schedule_kind == DynamicScheduleKind::TimeOfDay ==> ({
            let t0 = now.unix_seconds as int;
            let off = utc_offset_minutes as int;
            ||| (r is Some && exists|d: int, i: int|
                #[trigger] is_next_choice(*set, t0, off, solar@, d, i, (r->0).0.unix_seconds as int) && (r->0).1 == set.frames@[i])
            ||| (r is None && forall|d: int, i: int, t: int| 0 <= d <= 2 ==> !#[trigger] fires_after(*set, t0, off, solar@, d, i, t))
        }),
{
    match set.schedule_kind {
        DynamicScheduleKind::Appearance => return None,
        DynamicScheduleKind::SolarPosition => return None,
        DynamicScheduleKind::TimeOfDay => {},
    }
    let ghost t0 = now.unix_seconds as int;
    let ghost off = utc_offset_minutes as int;
    let n = set.frames.len();
    let mut best: Option<(InstantSeconds, usize)> = None;
    let ghost mut best_d: int = 0;
    let mut d: i32 = 0;
    while d <= 2
        invariant
            0 <= d <= 3,
            n == set.frames@.len(),
            instant_in_range(now.unix_seconds as int),
            t0 == now.unix_seconds as int,
            off == utc_offset_minutes as int,
            best is None ==> forall|d2: int, i2: int, t2: int|
                0 <= d2 < d ==> !#[trigger] fires_after(*set, t0, off, solar@, d2, i2, t2),
            best matches Some((bt, bi)) ==> {
                &&& 0 <= best_d < d
                &&& fires_after(*set, t0, off, solar@, best_d, bi as int, bt.unix_seconds as int)
                &&& forall|d2: int, i2: int, t2: int|
                    0 <= d2 < d && #[trigger] fires_after(*set, t0, off, solar@, d2, i2, t2) ==> t2 > bt.unix_seconds
                        || (t2 == bt.unix_seconds && lex_le(best_d, bi as int, d2, i2))
            },
        decreases 3 - d,
    {
        let mut i: usize = 0;
        while i < n
            invariant
                0 <= d <= 2,
                i <= n,
                n == set.frames@.len(),
                instant_in_range(now.unix_seconds as int),
                t0 == now.unix_seconds as int,
                off == utc_offset_minutes as int,
                best is None ==> forall|d2: int, i2: int, t2: int|
                    0 <= d2 && lex_le(d2, i2, d as int, i as int - 1) ==> !#[trigger] fires_after(*set, t0, off, solar@, d2, i2, t2),
                best matches Some((bt, bi)) ==> {
                    &&& 0 <= best_d <= d
                    &&& lex_le(best_d, bi as int, d as int, i as int - 1)
                    &&& fires_after(*set, t0, off, solar@, best_d, bi as int, bt.unix_seconds as int)
                    &&& forall|d2: int, i2: int, t2: int|
                        0 <= d2 && lex_le(d2, i2, d as int, i as int - 1) && #[trigger] fires_after(*set, t0, off, solar@, d2, i2, t2)
                            ==> t2 > bt.unix_seconds || (t2 == bt.unix_seconds && lex_le(best_d, bi as int, d2, i2))
                },
            decreases n - i,
        {
            let key = set.frames[i].key;
            let resolved = resolve_time_key_on_day(set, key, now, utc_offset_minutes, d, solar);
            if let Some(instant) = resolved {
                let better = match best {
                    None => true,
                    Some((current, _)) => instant.unix_seconds < current.unix_seconds,
                };
                if instant.unix_seconds > now.unix_seconds && better {
                    best = Some((instant, i));
                    proof {
                        best_d = d as int;
                    }
                }
            }
            i = i + 1;
        }
        d = d + 1;
    }
    match best {
        Some((instant, index)) => {
            proof {
                assert(is_next_choice(*set, t0, off, solar@, best_d, index as int, instant.unix_seconds as int));
            }
            let frame = set.frames[index];
            assert(frame == set.frames@[index as int]);
            let result = Some((instant, frame));
            assert((result->0).0 == instant);
            assert(is_next_choice(*set, t0, off, solar@, best_d, index as int, (result->0).0.unix_seconds as int));
            assert((result->0).1 == set.frames@[index as int]);
            result
        },
        None => None,
    }
}

fn pad2_of(n: u8) -> (r: String)
    ensures
        r@ == pad2(n as nat),
{
    crate::dynamic::pad2_text(n as u64)
}

} // verus!
