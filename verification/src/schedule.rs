//! Wallpaper automation schedules: local time windows, weekday masks, and triggers.

use vstd::prelude::*;

use crate::ids::{is_v4, ScheduleId};
use crate::text::{trim, trimmed_chars};

verus! {

/// Current serialized schedule schema.
pub const SCHEDULE_SCHEMA_VERSION: u16 = 1;

/// Minutes in one civil day.
pub const MINUTES_PER_DAY: u16 = 1440;

/// Minutes past local midnight (0..=1439).
#[derive(Clone, Copy, Debug, PartialEq, Eq, PartialOrd, Ord, Structural)]
pub struct MinutesOfDay(u16);

impl View for MinutesOfDay {
    type V = u16;

    closed spec fn view(&self) -> u16 {
        self.0
    }
}

/// A time of day is its view: equal views mean equal values.
pub proof fn lemma_minutes_view_injective(a: MinutesOfDay, b: MinutesOfDay)
    requires
        a@ == b@,
    ensures
        a == b,
{
}

impl MinutesOfDay {
    #[verifier::type_invariant]
    spec fn in_day(self) -> bool {
        self.0 < MINUTES_PER_DAY
    }

    /// Creates a validated local time-of-day.
    pub fn new(minutes: u16) -> (r: Result<Self, ScheduleValidationError>)
        ensures
            minutes < 1440 ==> (r matches Ok(m) && m@ == minutes),
            minutes >= 1440 ==> r == Err::<Self, _>(ScheduleValidationError::InvalidMinutesOfDay(minutes)),
    {
        if minutes >= MINUTES_PER_DAY {
            return Err(ScheduleValidationError::InvalidMinutesOfDay(minutes));
        }
        Ok(MinutesOfDay(minutes))
    }

    /// Returns minutes past local midnight.
    pub fn as_u16(self) -> (r: u16)
        ensures
            r == self@,
            r < 1440,
    {
        proof {
            use_type_invariant(&self);
        }
        self.0
    }

    /// Hours component (0..=23).
    pub fn hour(self) -> (r: u16)
        ensures
            r == self@ / 60,
            r < 24,
    {
        proof {
            use_type_invariant(&self);
        }
        self.0 / 60
    }

    /// Minutes component (0..=59).
    pub fn minute(self) -> (r: u16)
        ensures
            r == self@ % 60,
            r < 60,
    {
        self.0 % 60
    }
}

/// Whether `value` lies in the inclusive window from `start` to `end`, wrapping past midnight
/// when `end` is before `start`.
pub open spec fn window_contains(start: u16, end: u16, value: u16) -> bool {
    if start <= end {
        start <= value && value <= end
    } else {
        value >= start || value <= end
    }
}

/// Inclusive local time window within one civil day.
#[derive(Clone, Copy, Debug, PartialEq, Eq, Structural)]
pub struct TimeWindow {
    /// Inclusive start.
    pub start: MinutesOfDay,
    /// Inclusive end; may be less than start for overnight windows.
    pub end: MinutesOfDay,
}

impl TimeWindow {
    /// Creates a time window from two validated endpoints.
    pub fn new(start: MinutesOfDay, end: MinutesOfDay) -> (r: Self)
        ensures
            r.start == start,
            r.end == end,
    {
        TimeWindow { start, end }
    }

    /// Returns whether `minutes` falls inside this window.
    pub fn contains(self, minutes: MinutesOfDay) -> (r: bool)
        ensures
            r == window_contains(self.start@, self.end@, minutes@),
    {
        let start = self.start.as_u16();
        let end = self.end.as_u16();
        let value = minutes.as_u16();
        if start <= end {
            start <= value && value <= end
        } else {
            value >= start || value <= end
        }
    }
}

/// An overnight window holds exactly the minutes that the daytime gap between its end and
/// its start leaves out.
pub proof fn lemma_overnight_window_complement(start: u16, end: u16, value: u16)
    requires
        end < start,
    ensures
        window_contains(start, end, value) <==> !(end < value && value < start),
{
}

/// Seven-bit mask of days of the week (Monday = bit 0 … Sunday = bit 6).
pub open spec fn weekday_bit_set(bits: u8, weekday: u8) -> bool {
    1 <= weekday <= 7 && (bits >> ((weekday - 1) as u8)) & 1u8 == 1u8
}

/// Bit flags for days of the week (Monday = bit 0 … Sunday = bit 6).
#[derive(Clone, Copy, Debug, PartialEq, Eq, Structural)]
pub struct WeekdayMask(u8);

impl View for WeekdayMask {
    type V = u8;

    closed spec fn view(&self) -> u8 {
        self.0
    }
}

/// A weekday mask is its view: equal views mean equal values.
pub proof fn lemma_weekday_mask_view_injective(a: WeekdayMask, b: WeekdayMask)
    requires
        a@ == b@,
    ensures
        a == b,
{
}

impl WeekdayMask {
    #[verifier::type_invariant]
    spec fn seven_bits(self) -> bool {
        self.0 < 128
    }

    /// Every day of the week.
    pub fn all() -> (r: Self)
        ensures
            r@ == 0x7fu8,
    {
        WeekdayMask(0x7f)
    }

    /// Creates a mask from the low seven bits.
    pub fn new(bits: u8) -> (r: Self)
        ensures
            r@ == bits & 0x7fu8,
    {
        let masked = bits & 0x7f;
        assert(bits & 0x7fu8 < 128) by (bit_vector);
        WeekdayMask(masked)
    }

    /// Returns whether the ISO weekday (1 = Monday … 7 = Sunday) is enabled.
    pub fn contains_iso_weekday(self, weekday: u8) -> (r: bool)
        ensures
            r == weekday_bit_set(self@, weekday),
    {
        if weekday < 1 || weekday > 7 {
            return false;
        }
        let bit = weekday - 1;
        let bits = self.0;
        let r = (bits & (1u8 << bit)) != 0;
        assert(bit < 8 ==> (((bits & (1u8 << bit)) != 0u8) == ((bits >> bit) & 1u8 == 1u8)))
            by (bit_vector);
        r
    }

    /// Raw bit mask.
    pub fn bits(self) -> (r: u8)
        ensures
            r == self@,
            r < 128,
    {
        proof {
            use_type_invariant(&self);
        }
        self.0
    }
}

/// Masking is idempotent: rebuilding a mask from its own bits changes nothing.
pub proof fn lemma_weekday_mask_idempotent(bits: u8)
    ensures
        (bits & 0x7fu8) & 0x7fu8 == bits & 0x7fu8,
        forall|d: u8| 1 <= d <= 7 ==> (weekday_bit_set(bits & 0x7fu8, d) <==> weekday_bit_set(bits, d)),
{
    assert((bits & 0x7fu8) & 0x7fu8 == bits & 0x7fu8) by (bit_vector);
    assert forall|d: u8| 1 <= d <= 7 implies (weekday_bit_set(bits & 0x7fu8, d) <==> weekday_bit_set(bits, d)) by {
        assert(1 <= d <= 7 ==> ((((bits & 0x7fu8) >> ((d - 1) as u8)) & 1u8) == ((bits >> ((d - 1) as u8)) & 1u8))) by (bit_vector);
    }
}

/// One calendar-like rule: selected weekdays plus a local time window.
#[derive(Clone, Copy, Debug, PartialEq, Eq, Structural)]
pub struct CalendarRule {
    /// Days when this rule is active.
    pub weekdays: WeekdayMask,
    /// Local time window on those days.
    pub window: TimeWindow,
}

/// Geographic coordinates used for solar schedules, in millionths of a degree.
#[derive(Clone, Copy, Debug, PartialEq, Eq, Structural)]
pub struct GeoLocation {
    /// Latitude in microdegrees (−90° ..= 90°).
    pub latitude_microdeg: i64,
    /// Longitude in microdegrees (−180° ..= 180°).
    pub longitude_microdeg: i64,
}

/// Microdegrees in one degree.
pub const MICRODEG_PER_DEG: i64 = 1_000_000;

impl GeoLocation {
    /// Validates coordinates inside geographic bounds.
    pub fn validate(self) -> (r: Result<(), ScheduleValidationError>)
        ensures
            r == (if !(-90_000_000 <= self.latitude_microdeg <= 90_000_000) {
                Err(ScheduleValidationError::InvalidLatitude)
            } else if !(-180_000_000 <= self.longitude_microdeg <= 180_000_000) {
                Err(ScheduleValidationError::InvalidLongitude)
            } else {
                Ok(())
            }),
    {
        if self.latitude_microdeg < -90 * MICRODEG_PER_DEG || self.latitude_microdeg > 90 * MICRODEG_PER_DEG {
            return Err(ScheduleValidationError::InvalidLatitude);
        }
        if self.longitude_microdeg < -180 * MICRODEG_PER_DEG || self.longitude_microdeg > 180 * MICRODEG_PER_DEG {
            return Err(ScheduleValidationError::InvalidLongitude);
        }
        Ok(())
    }
}

/// How a schedule decides when to rotate.
#[derive(Clone, Debug, PartialEq, Eq)]
pub enum ScheduleKind {
    /// Rotate every N seconds while enabled and not paused.
    Interval {
        /// Seconds between rotations; must be at least one.
        seconds: u64,
    },
    /// Rotate while the local clock is inside any listed window.
    TimeOfDay {
        /// Local windows when rotation is allowed / triggered.
        windows: Vec<TimeWindow>,
    },
    /// Rotate at sunrise and sunset for a fixed location.
    SunriseSunset {
        /// Observer location.
        location: GeoLocation,
        /// Minutes to shift sunrise (negative = earlier).
        sunrise_offset_minutes: i32,
        /// Minutes to shift sunset (negative = earlier).
        sunset_offset_minutes: i32,
    },
    /// Calendar-like weekday + window rules.
    Calendar {
        /// Independent weekday windows.
        rules: Vec<CalendarRule>,
    },
}

/// Versioned automation schedule bound to a profile and rotation queue.
#[derive(Clone, Debug)]
pub struct Schedule {
    /// Serialized schema version.
    pub schema_version: u16,
    /// Stable identity.
    pub id: ScheduleId,
    /// User-visible name.
    pub name: String,
    /// Whether the scheduler may fire this schedule.
    pub enabled: bool,
    /// Fixed UTC offset for local civil time (minutes east of UTC).
    pub utc_offset_minutes: i32,
    /// Trigger policy.
    pub kind: ScheduleKind,
}

/// The first invariant a schedule breaks, checked in a fixed order.
pub open spec fn schedule_check(s: Schedule) -> Result<(), ScheduleValidationError> {
    if s.schema_version != SCHEDULE_SCHEMA_VERSION {
        Err(ScheduleValidationError::UnsupportedSchema(s.schema_version))
    } else if trim(s.name@).len() == 0 {
        Err(ScheduleValidationError::EmptyName)
    } else if !(-840 <= s.utc_offset_minutes <= 840) {
        Err(ScheduleValidationError::InvalidUtcOffset)
    } else {
        match s.kind {
            ScheduleKind::Interval { seconds } => if seconds == 0 {
                Err(ScheduleValidationError::ZeroInterval)
            } else {
                Ok(())
            },
            ScheduleKind::TimeOfDay { windows } => if windows@.len() == 0 {
                Err(ScheduleValidationError::EmptyWindows)
            } else {
                Ok(())
            },
            ScheduleKind::SunriseSunset { location, .. } => if !(-90_000_000
                <= location.latitude_microdeg <= 90_000_000) {
                Err(ScheduleValidationError::InvalidLatitude)
            } else if !(-180_000_000 <= location.longitude_microdeg <= 180_000_000) {
                Err(ScheduleValidationError::InvalidLongitude)
            } else {
                Ok(())
            },
            ScheduleKind::Calendar { rules } => if rules@.len() == 0 {
                Err(ScheduleValidationError::EmptyCalendarRules)
            } else if exists|i: int| 0 <= i < rules@.len() && (#[trigger] rules@[i]).weekdays@ == 0 {
                Err(ScheduleValidationError::EmptyWeekdayMask)
            } else {
                Ok(())
            },
        }
    }
}

impl Schedule {
    /// Creates an enabled interval schedule with a fresh identity.
    pub fn interval(name: &str, seconds: u64) -> (r: Self)
        ensures
            r.schema_version == SCHEDULE_SCHEMA_VERSION,
            is_v4(r.id.0),
            r.name@ == name@,
            r.enabled,
            r.utc_offset_minutes == 0,
            r.kind == (ScheduleKind::Interval { seconds }),
    {
        Schedule {
            schema_version: SCHEDULE_SCHEMA_VERSION,
            id: ScheduleId::new(),
            name: name.to_owned(),
            enabled: true,
            utc_offset_minutes: 0,
            kind: ScheduleKind::Interval { seconds },
        }
    }

    /// Validates schema, name, offset, and kind-specific invariants.
    #[verifier::loop_isolation(false)]
    pub fn validate(&self) -> (r: Result<(), ScheduleValidationError>)
        ensures
            r == schedule_check(*self),
    {
        if self.schema_version != SCHEDULE_SCHEMA_VERSION {
            return Err(ScheduleValidationError::UnsupportedSchema(self.schema_version));
        }
        let trimmed = trimmed_chars(self.name.as_str());
        if trimmed.len() == 0 {
            return Err(ScheduleValidationError::EmptyName);
        }
        if self.utc_offset_minutes < -840 || self.utc_offset_minutes > 840 {
            return Err(ScheduleValidationError::InvalidUtcOffset);
        }
        match &self.kind {
            ScheduleKind::Interval { seconds } => {
                if *seconds == 0 {
                    return Err(ScheduleValidationError::ZeroInterval);
                }
            },
            ScheduleKind::TimeOfDay { windows } => {
                if windows.len() == 0 {
                    return Err(ScheduleValidationError::EmptyWindows);
                }
            },
            ScheduleKind::SunriseSunset { location, .. } => {
                return location.validate();
            },
            ScheduleKind::Calendar { rules } => {
                if rules.len() == 0 {
                    return Err(ScheduleValidationError::EmptyCalendarRules);
                }
                let mut i: usize = 0;
                while i < rules.len()
                    invariant
                        i <= rules@.len(),
                        forall|k: int| 0 <= k < i ==> (#[trigger] rules@[k]).weekdays@ != 0,
                    decreases rules@.len() - i,
                {
                    if rules[i].weekdays.bits() == 0 {
                        assert(rules@[i as int].weekdays@ == 0);
                        return Err(ScheduleValidationError::EmptyWeekdayMask);
                    }
                    i = i + 1;
                }
            },
        }
        Ok(())
    }
}

/// Invalid schedule model.
#[derive(Clone, Copy, Debug, PartialEq, Eq, Structural)]
pub enum ScheduleValidationError {
    /// Schema version is not supported by this build.
    UnsupportedSchema(u16),
    /// Schedule names must contain visible characters.
    EmptyName,
    /// UTC offsets must stay within ±14 hours.
    InvalidUtcOffset,
    /// Interval schedules require a positive period.
    ZeroInterval,
    /// Time-of-day schedules need at least one window.
    EmptyWindows,
    /// Calendar schedules need at least one rule.
    EmptyCalendarRules,
    /// A calendar rule must select at least one weekday.
    EmptyWeekdayMask,
    /// Minutes-of-day must be less than 1440.
    InvalidMinutesOfDay(u16),
    /// Latitude must be within ±90°.
    InvalidLatitude,
    /// Longitude must be within ±180°.
    InvalidLongitude,
}

} // verus!
