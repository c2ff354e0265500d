//! Proleptic Gregorian calendar arithmetic on day numbers counted from 1970-01-01.

use vstd::prelude::*;

verus! {

/// Gregorian leap-year rule.
pub open spec fn is_leap_year(y: int) -> bool {
    y % 4 == 0 && (y % 100 != 0 || y % 400 == 0)
}

/// One when `y` is a leap year, else zero.
pub open spec fn leap_day(y: int) -> int {
    if is_leap_year(y) { 1 } else { 0 }
}

/// Number of days in month `m` (1-based) of year `y`.
pub open spec fn month_length(y: int, m: int) -> int {
    if m == 2 {
        28 + leap_day(y)
    } else if m == 4 || m == 6 || m == 9 || m == 11 {
        30
    } else {
        31
    }
}

/// A real calendar date: month 1..=12 and a day that exists in that month.
pub open spec fn is_valid_date(y: int, m: int, d: int) -> bool {
    1 <= m <= 12 && 1 <= d <= month_length(y, m)
}

/// Days in the months of year `y` before month `m`.
pub open spec fn days_before_month(y: int, m: int) -> int {
    if m <= 1 {
        0
    } else if m == 2 {
        31
    } else {
        59 + leap_day(y) + march_month_start(m - 3)
    }
}

/// Days from March 1 to the first day of the `k`-th month after March (March is month 0).
pub open spec fn march_month_start(k: int) -> int {
    if k <= 0 {
        0
    } else if k == 1 {
        31
    } else if k == 2 {
        61
    } else if k == 3 {
        92
    } else if k == 4 {
        122
    } else if k == 5 {
        153
    } else if k == 6 {
        184
    } else if k == 7 {
        214
    } else if k == 8 {
        245
    } else if k == 9 {
        275
    } else if k == 10 {
        306
    } else if k == 11 {
        337
    } else {
        367
    }
}

/// Leap years among the years before `y` (counted consistently for every integer year).
pub open spec fn leap_years_before(y: int) -> int {
    (y - 1) / 4 - (y - 1) / 100 + (y - 1) / 400
}

/// Days from 1970-01-01 to January 1 of year `y` (negative before 1970).
pub open spec fn days_before_year(y: int) -> int {
    365 * (y - 1970) + leap_years_before(y) - leap_years_before(1970)
}

/// Day number of a date: days since 1970-01-01.
pub open spec fn epoch_day(y: int, m: int, d: int) -> int {
    days_before_year(y) + days_before_month(y, m) + d - 1
}

/// Moving from `y - 1` to `y` raises the floor quotient by one exactly when `d` divides `y`.
proof fn lemma_floor_step(y: int, d: int)
    requires
        d > 0,
    ensures
        y / d - (y - 1) / d == if y % d == 0 { 1int } else { 0int },
{
    let q = (y - 1) / d;
    let r = (y - 1) % d;
    vstd::arithmetic::div_mod::lemma_fundamental_div_mod(y - 1, d);
    assert((q + 1) * d == q * d + d) by (nonlinear_arith);
    assert(q * d == d * q) by (nonlinear_arith);
    if r + 1 == d {
        vstd::arithmetic::div_mod::lemma_fundamental_div_mod_converse(y, d, q + 1, 0);
    } else {
        vstd::arithmetic::div_mod::lemma_fundamental_div_mod_converse(y, d, q, r + 1);
    }
}

/// Each year adds its own length to the day count: 366 days in leap years, 365 otherwise.
pub proof fn lemma_year_length(y: int)
    ensures
        days_before_year(y + 1) == days_before_year(y) + 365 + leap_day(y),
        days_before_year(1970) == 0,
{
    lemma_floor_step(y, 4);
    lemma_floor_step(y, 100);
    lemma_floor_step(y, 400);
}

/// Each month adds its own length within a year.
pub proof fn lemma_month_length(y: int, m: int)
    requires
        1 <= m <= 11,
    ensures
        days_before_month(y, m + 1) == days_before_month(y, m) + month_length(y, m),
        days_before_month(y, 12) + month_length(y, 12) == 365 + leap_day(y),
{
}

/// The month-start table matches the closed form `(153 * k + 2) / 5`.
proof fn lemma_march_month_start_formula(k: int)
    requires
        0 <= k <= 11,
    ensures
        march_month_start(k) == (153 * k + 2) / 5,
{
    if k == 0 {
    } else if k == 1 {
    } else if k == 2 {
    } else if k == 3 {
    } else if k == 4 {
    } else if k == 5 {
    } else if k == 6 {
    } else if k == 7 {
    } else if k == 8 {
    } else if k == 9 {
    } else if k == 10 {
    } else {
    }
}

/// The month found by `(5 * doy + 2) / 153` starts at or before `doy`, and the next one
/// starts after it.
proof fn lemma_march_month_start_next(k: int)
    requires
        0 <= k <= 11,
    ensures
        march_month_start(k + 1) == (153 * (k + 1) + 2) / 5,
{
    if k == 0 {
    } else if k == 1 {
    } else if k == 2 {
    } else if k == 3 {
    } else if k == 4 {
    } else if k == 5 {
    } else if k == 6 {
    } else if k == 7 {
    } else if k == 8 {
    } else if k == 9 {
    } else if k == 10 {
    } else {
    }
}

/// Days from 0000-03-01 to March 1 of year `y`, the count the era formula builds.
pub open spec fn march_year_start(y: int) -> int {
    365 * y + y / 4 - y / 100 + y / 400
}

/// Day number of the date `d` of the `mp`-th month after March of year `y`.
pub open spec fn march_day_number(y: int, mp: int, d: int) -> int {
    march_year_start(y) + march_month_start(mp) + d - 1 - 719468
}

#[verifier::spinoff_prover]
#[verifier::rlimit(40)]
proof fn lemma_march_form(y: int, m: int, d: int)
    requires
        1 <= m <= 12,
    ensures
        epoch_day(y, m, d) == if m <= 2 {
            march_day_number(y - 1, m + 9, d)
        } else {
            march_day_number(y, m - 3, d)
        },
{
    assert(march_year_start(y) == 365 * y + leap_years_before(y) + leap_day(y)) by {
        lemma_floor_step(y, 4);
        lemma_floor_step(y, 100);
        lemma_floor_step(y, 400);
    }
    assert(march_year_start(y - 1) == 365 * (y - 1) + leap_years_before(y));
    assert(leap_years_before(1970) == 477);
    assert(days_before_year(y) == 365 * (y - 1970) + leap_years_before(y) - 477);
    if m <= 2 {
        assert(march_month_start(m + 9) == if m == 1 { 306int } else { 337int });
        assert(days_before_month(y, m) == if m == 1 { 0int } else { 31int });
    } else {
        assert(days_before_month(y, m) == 59 + leap_day(y) + march_month_start(m - 3));
    }
}

/// Days before year `400 * e + r` split into whole 400-year eras of 146097 days.
proof fn lemma_era_split(e: int, r: int)
    requires
        0 <= r < 400,
    ensures
        march_year_start(400 * e + r) == 146097 * e + 365 * r + r / 4 - r / 100,
{
    let y = 400 * e + r;
    assert(y / 4 == 100 * e + r / 4) by (nonlinear_arith)
        requires y == 400 * e + r, 0 <= r < 400;
    assert(y / 100 == 4 * e + r / 100) by (nonlinear_arith)
        requires y == 400 * e + r, 0 <= r < 400;
    assert(y / 400 == e) by (nonlinear_arith)
        requires y == 400 * e + r, 0 <= r < 400;
}

/// Shift that makes every `i32` year non-negative: a whole number of 400-year eras.
pub const ERA_SHIFT: u64 = 5_368_710;

/// Days since 1970-01-01 of a date given by year, month (1..=12) and day of month.
pub fn days_from_civil(year: i32, month: u8, day: u8) -> (r: i64)
    requires
        1 <= month <= 12,
    ensures
        r == epoch_day(year as int, month as int, day as int),
{
    let y: i64 = if month <= 2 { year as i64 - 1 } else { year as i64 };
    let shifted: u64 = (y + 400 * (ERA_SHIFT as i64)) as u64;
    let era: u64 = shifted / 400;
    let yoe: u64 = shifted % 400;
    let mp: u64 = if month > 2 { (month - 3) as u64 } else { (month + 9) as u64 };
    let doy_from_one: u64 = (153 * mp + 2) / 5 + day as u64;
    let doe_from_one: u64 = yoe * 365 + yoe / 4 - yoe / 100 + doy_from_one;
    proof {
        lemma_march_month_start_formula(mp as int);
        lemma_era_split(era as int - ERA_SHIFT as int, yoe as int);
        lemma_march_form(year as int, month as int, day as int);
        assert(era * 146097 <= 146097 * 10737420) by (nonlinear_arith)
            requires era <= 10737420;
    }
    (era * 146097 + doe_from_one) as i64 - (ERA_SHIFT * 146097) as i64 - 719469
}

/// Start of year `k` of a 400-year era, counted in days from the era's first March 1.
spec fn era_year_start(k: int) -> int {
    365 * k + k / 4 - k / 100
}

/// Years of an era follow one another: year `k` of era `e` is the March-based year
/// `400 * e + k`, whose length carries the leap day of the following January.
#[verifier::spinoff_prover]
#[verifier::rlimit(40)]
proof fn lemma_era_year_bounds(e: int, k: int)
    requires
        0 <= k < 400,
    ensures
        era_year_start(k) >= 365 * k,
        era_year_start(k) <= 365 * k + 97,
        march_year_start(400 * e + k + 1) - march_year_start(400 * e + k) == 365 + leap_day(400 * e + k + 1),
        k + 1 < 400 ==> era_year_start(k + 1) == era_year_start(k) + 365 + leap_day(400 * e + k + 1),
        k + 1 == 400 ==> 146097 == era_year_start(k) + 365 + leap_day(400 * e + k + 1),
{
    let y = 400 * e + k + 1;
    lemma_floor_step(y, 4);
    lemma_floor_step(y, 100);
    lemma_floor_step(y, 400);
    lemma_era_split(e, k);
    if k + 1 < 400 {
        lemma_era_split(e, k + 1);
    } else {
        lemma_era_split(e + 1, 0);
    }
}

/// The month holding day `doy` of a March-based year with `leap` extra days in February:
/// the month index `(5 * doy + 2) / 153`, counted from March, and the day inside it.
proof fn lemma_month_of_march_day(doy: int, mp: int, y: int)
    requires
        0 <= doy < 365 + leap_day(y),
        mp == (5 * doy + 2) / 153,
    ensures
        0 <= mp <= 11,
        march_month_start(mp) <= doy,
        1 <= doy - march_month_start(mp) + 1 <= month_length(y, if mp < 10 { mp + 3 } else { mp - 9 }),
{
    assert(0 <= mp <= 11);
    lemma_march_month_start_formula(mp);
    lemma_march_month_start_next(mp);
    assert(153 * mp <= 5 * doy + 2 < 153 * mp + 153);
}

/// The year, month and day found from the position inside an era give back the day number.
#[verifier::spinoff_prover]
#[verifier::rlimit(40)]
proof fn lemma_civil_decode(days: int, era: int, doe: int, yoe: int, doy: int, mp: int, d: int, m: int, y: int)
    requires
        days + 719468 + 146097 * ERA_SHIFT == 146097 * era + doe,
        0 <= doe < 146097,
        0 <= yoe < 400,
        era_year_start(yoe) <= doe,
        doe < era_year_start(yoe) + 365 + leap_day(400 * (era - ERA_SHIFT) + yoe + 1),
        doy == doe - era_year_start(yoe),
        mp == (5 * doy + 2) / 153,
        d == doy - march_month_start(mp) + 1,
        m == if mp < 10 { mp + 3 } else { mp - 9 },
        y == 400 * (era - ERA_SHIFT) + yoe + if m <= 2 { 1int } else { 0int },
    ensures
        is_valid_date(y, m, d),
        epoch_day(y, m, d) == days,
{
    let yp = 400 * (era - ERA_SHIFT) + yoe;
    lemma_month_of_march_day(doy, mp, yp + 1);
    if mp < 10 {
        assert(month_length(yp + 1, m) == month_length(yp, m));
    }
    lemma_era_split(era - ERA_SHIFT, yoe);
    lemma_march_form(y, m, d);
}

/// The date (year, month 1..=12, day of month) whose day number since 1970-01-01 is `days`.
#[verifier::spinoff_prover]
#[verifier::rlimit(40)]
pub fn civil_ymd_from_days(days: i64) -> (r: (i32, u8, u8))
    requires
        -700_000_000_000 <= days <= 700_000_000_000,
    ensures
        is_valid_date(r.0 as int, r.1 as int, r.2 as int),
        epoch_day(r.0 as int, r.1 as int, r.2 as int) == days,
{
    let z: u64 = (days + 719468 + (ERA_SHIFT * 146097) as i64) as u64;
    let era: u64 = z / 146097;
    let doe: u64 = z % 146097;
    let mut yoe: u64 = doe / 365;
    if yoe > 399 {
        yoe = 399;
    }
    proof {
        lemma_era_year_bounds(era as int - ERA_SHIFT as int, yoe as int);
        if yoe > 0 {
            lemma_era_year_bounds(era as int - ERA_SHIFT as int, yoe as int - 1);
        }
    }
    if 365 * yoe + yoe / 4 - yoe / 100 > doe {
        yoe = yoe - 1;
    }
    proof {
        lemma_era_year_bounds(era as int - ERA_SHIFT as int, yoe as int);
    }
    let doy: u64 = doe - (365 * yoe + yoe / 4 - yoe / 100);
    let mp: u64 = (5 * doy + 2) / 153;
    proof {
        lemma_month_of_march_day(doy as int, mp as int, 400 * (era as int - ERA_SHIFT as int) + yoe as int + 1);
        lemma_march_month_start_formula(mp as int);
    }
    let d: u64 = doy - (153 * mp + 2) / 5 + 1;
    let m: u64 = if mp < 10 { mp + 3 } else { mp - 9 };
    let y: i64 = (yoe + era * 400) as i64 - (ERA_SHIFT * 400) as i64 + if m <= 2 { 1i64 } else { 0i64 };
    proof {
        lemma_civil_decode(days as int, era as int, doe as int, yoe as int, doy as int, mp as int, d as int, m as int, y as int);
    }
    (y as i32, m as u8, d as u8)
}


/// `days_before_year` never decreases as the year grows.
proof fn lemma_days_before_year_monotone(a: int, b: int)
    requires
        a <= b,
    ensures
        days_before_year(a) + (b - a) * 365 <= days_before_year(b),
    decreases b - a,
{
    if a < b {
        lemma_days_before_year_monotone(a + 1, b);
        lemma_year_length(a);
    }
}

/// A valid date lies inside its own year's span of day numbers.
proof fn lemma_epoch_day_within_year(y: int, m: int, d: int)
    requires
        is_valid_date(y, m, d),
    ensures
        days_before_year(y) <= epoch_day(y, m, d) < days_before_year(y + 1),
        epoch_day(y, m, d) - days_before_year(y) == days_before_month(y, m) + d - 1,
{
    lemma_year_length(y);
}

/// Distinct valid dates have distinct day numbers: at most one date has a given day number.
pub proof fn lemma_epoch_day_injective(y1: int, m1: int, d1: int, y2: int, m2: int, d2: int)
    requires
        is_valid_date(y1, m1, d1),
        is_valid_date(y2, m2, d2),
        epoch_day(y1, m1, d1) == epoch_day(y2, m2, d2),
    ensures
        y1 == y2 && m1 == m2 && d1 == d2,
{
    lemma_epoch_day_within_year(y1, m1, d1);
    lemma_epoch_day_within_year(y2, m2, d2);
    if y1 < y2 {
        lemma_days_before_year_monotone(y1 + 1, y2);
    } else if y2 < y1 {
        lemma_days_before_year_monotone(y2 + 1, y1);
    }
    assert(y1 == y2);
    if m1 < m2 {
        lemma_days_before_month_monotone(y1, m1, m2);
    } else if m2 < m1 {
        lemma_days_before_month_monotone(y1, m2, m1);
    }
}

/// A later month starts after every day of an earlier month.
proof fn lemma_days_before_month_monotone(y: int, a: int, b: int)
    requires
        1 <= a < b <= 12,
    ensures
        days_before_month(y, a) + month_length(y, a) <= days_before_month(y, b),
    decreases b - a,
{
    lemma_month_length(y, a);
    if a + 1 < b {
        lemma_days_before_month_monotone(y, a + 1, b);
        lemma_month_length(y, a + 1);
    }
}

/// The date whose day number is `days` (the only one, by `lemma_epoch_day_injective`).
pub open spec fn civil_date(days: int) -> (int, int, int) {
    choose|t: (int, int, int)| is_valid_date(t.0, t.1, t.2) && epoch_day(t.0, t.1, t.2) == days
}

/// A valid date is the date of its own day number.
pub proof fn lemma_civil_date(y: int, m: int, d: int)
    requires
        is_valid_date(y, m, d),
    ensures
        civil_date(epoch_day(y, m, d)) == (y, m, d),
{
    let w = (y, m, d);
    assert(is_valid_date(w.0, w.1, w.2) && epoch_day(w.0, w.1, w.2) == epoch_day(y, m, d));
    let t = civil_date(epoch_day(y, m, d));
    lemma_epoch_day_injective(t.0, t.1, t.2, y, m, d);
}

/// Moves a valid date by `delta` days.
pub fn add_days(year: i32, month: u8, day: u8, delta: i32) -> (r: (i32, u8, u8))
    requires
        is_valid_date(year as int, month as int, day as int),
        -650_000_000_000 <= epoch_day(year as int, month as int, day as int) <= 650_000_000_000,
    ensures
        is_valid_date(r.0 as int, r.1 as int, r.2 as int),
        epoch_day(r.0 as int, r.1 as int, r.2 as int) == epoch_day(year as int, month as int, day as int) + delta,
{
    let days = days_from_civil(year, month, day) + delta as i64;
    civil_ymd_from_days(days)
}

/// One-based ordinal of a valid date within its year (1 for January 1).
pub fn day_of_year(year: i32, month: u8, day: u8) -> (r: u16)
    requires
        is_valid_date(year as int, month as int, day as int),
    ensures
        r == days_before_month(year as int, month as int) + day,
        1 <= r <= 366,
{
    let jan1 = days_from_civil(year, 1, 1);
    let today = days_from_civil(year, month, day);
    proof {
        lemma_epoch_day_within_year(year as int, month as int, day as int);
        lemma_year_length(year as int);
    }
    (today - jan1 + 1) as u16
}

/// Time-of-day or date input that does not name a real local time.
#[derive(Clone, Copy, Debug, PartialEq, Eq, Structural)]
pub enum ScheduleError {
    /// Hour must be below 24 and minute below 60.
    InvalidTimeOfDay { hour: u8, minute: u8 },
}

/// Local wall-clock hour and minute.
#[derive(Clone, Copy, Debug, PartialEq, Eq, Structural)]
pub struct LocalTimeOfDay {
    /// Hour, 0..=23.
    pub hour: u8,
    /// Minute, 0..=59.
    pub minute: u8,
}

impl LocalTimeOfDay {
    /// A real wall-clock time.
    pub open spec fn is_valid(self) -> bool {
        self.hour < 24 && self.minute < 60
    }

    /// Creates a validated wall-clock time.
    pub fn new(hour: u8, minute: u8) -> (r: Result<Self, ScheduleError>)
        ensures
            hour < 24 && minute < 60 ==> r == Ok::<Self, ScheduleError>(LocalTimeOfDay { hour, minute }),
            !(hour < 24 && minute < 60) ==> r == Err::<Self, ScheduleError>(ScheduleError::InvalidTimeOfDay { hour, minute }),
    {
        if hour < 24 && minute < 60 {
            Ok(LocalTimeOfDay { hour, minute })
        } else {
            Err(ScheduleError::InvalidTimeOfDay { hour, minute })
        }
    }
}

/// A point in time as seconds since the Unix epoch.
#[derive(Clone, Copy, Debug, PartialEq, Eq, Structural)]
pub struct InstantSeconds {
    /// Seconds since 1970-01-01T00:00:00Z (negative before).
    pub unix_seconds: i64,
}

/// Local calendar date and wall-clock time.
#[derive(Clone, Copy, Debug, PartialEq, Eq, Structural)]
pub struct LocalCivilTime {
    /// Year.
    pub year: i32,
    /// Month, 1..=12.
    pub month: u8,
    /// Day of month.
    pub day: u8,
    /// Hour and minute.
    pub time: LocalTimeOfDay,
}

/// Instants whose local date stays within the supported calendar range.
pub open spec fn instant_in_range(unix_seconds: int) -> bool {
    -50_000_000_000_000_000 <= unix_seconds <= 50_000_000_000_000_000
}

/// Seconds since the epoch of a local wall clock running `utc_offset_minutes` east of UTC.
pub open spec fn local_seconds(unix_seconds: int, utc_offset_minutes: int) -> int {
    unix_seconds + 60 * utc_offset_minutes
}

/// Seconds since the epoch of a local date and time, read as UTC.
pub open spec fn civil_seconds(y: int, m: int, d: int, hour: int, minute: int) -> int {
    86400 * epoch_day(y, m, d) + 3600 * hour + 60 * minute
}

/// Shift, in whole days, that makes every supported local second count non-negative.
pub const DAY_SHIFT: u64 = 1_000_000_000_000;

impl InstantSeconds {
    /// The local calendar date and the hour and minute at this instant, `utc_offset_minutes`
    /// east of UTC.
    pub fn to_local(self, utc_offset_minutes: i32) -> (r: LocalCivilTime)
        requires
            -60_000_000_000_000_000 <= self.unix_seconds <= 60_000_000_000_000_000,
        ensures
            is_valid_date(r.year as int, r.month as int, r.day as int),
            r.time.is_valid(),
            epoch_day(r.year as int, r.month as int, r.day as int)
                == local_seconds(self.unix_seconds as int, utc_offset_minutes as int) / 86400,
            r.time.hour == (local_seconds(self.unix_seconds as int, utc_offset_minutes as int) % 86400) / 3600,
            r.time.minute == (local_seconds(self.unix_seconds as int, utc_offset_minutes as int) % 86400) % 3600 / 60,
            civil_seconds(r.year as int, r.month as int, r.day as int, r.time.hour as int, r.time.minute as int)
                <= local_seconds(self.unix_seconds as int, utc_offset_minutes as int)
                < civil_seconds(r.year as int, r.month as int, r.day as int, r.time.hour as int, r.time.minute as int) + 60,
    {
        let local: i64 = self.unix_seconds + 60 * (utc_offset_minutes as i64);
        let shifted: u64 = (local + (86400 * DAY_SHIFT) as i64) as u64;
        let day_index: u64 = shifted / 86400;
        let second_of_day: u64 = shifted % 86400;
        let days: i64 = day_index as i64 - DAY_SHIFT as i64;
        let (year, month, day) = civil_ymd_from_days(days);
        let hour: u64 = second_of_day / 3600;
        let minute: u64 = (second_of_day % 3600) / 60;
        LocalCivilTime { year, month, day, time: LocalTimeOfDay { hour: hour as u8, minute: minute as u8 } }
    }
}

/// The instant at which the local clock `utc_offset_minutes` east of UTC shows `time` on
/// the given date.
pub fn instant_at_local(year: i32, month: u8, day: u8, time: LocalTimeOfDay, utc_offset_minutes: i32) -> (r: InstantSeconds)
    requires
        is_valid_date(year as int, month as int, day as int),
        -660_000_000_000 <= epoch_day(year as int, month as int, day as int) <= 660_000_000_000,
    ensures
        local_seconds(r.unix_seconds as int, utc_offset_minutes as int)
            == civil_seconds(year as int, month as int, day as int, time.hour as int, time.minute as int),
{
    let days = days_from_civil(year, month, day);
    let unix_seconds: i64 = days * 86400 + (time.hour as i64) * 3600 + (time.minute as i64) * 60
        - 60 * (utc_offset_minutes as i64);
    InstantSeconds { unix_seconds }
}

} // verus!
