use easel::schedule::{MinutesOfDay, Schedule, ScheduleValidationError, TimeWindow, WeekdayMask};

#[test]
fn overnight_window_contains_midnight() {
    let window = TimeWindow::new(MinutesOfDay::new(22 * 60).unwrap(), MinutesOfDay::new(6 * 60).unwrap());
    assert!(window.contains(MinutesOfDay::new(23 * 60).unwrap()));
    assert!(window.contains(MinutesOfDay::new(0).unwrap()));
    assert!(window.contains(MinutesOfDay::new(5 * 60).unwrap()));
    assert!(!window.contains(MinutesOfDay::new(12 * 60).unwrap()));
}

#[test]
fn interval_requires_positive_seconds() {
    let schedule = Schedule::interval("Hourly", 0);
    assert_eq!(schedule.validate(), Err(ScheduleValidationError::ZeroInterval));
}

#[test]
fn weekday_mask_monday() {
    let mask = WeekdayMask::new(0b0000_0001);
    assert!(mask.contains_iso_weekday(1));
    assert!(!mask.contains_iso_weekday(2));
}

#[test]
fn minutes_of_day_rejects_1440() {
    assert_eq!(MinutesOfDay::new(1440), Err(ScheduleValidationError::InvalidMinutesOfDay(1440)));
    let m = MinutesOfDay::new(1439).unwrap();
    assert_eq!((m.hour(), m.minute(), m.as_u16()), (23, 59, 1439));
}

#[test]
fn daytime_window_excludes_outside() {
    let window = TimeWindow::new(MinutesOfDay::new(9 * 60).unwrap(), MinutesOfDay::new(17 * 60).unwrap());
    assert!(window.contains(MinutesOfDay::new(9 * 60).unwrap()));
    assert!(window.contains(MinutesOfDay::new(17 * 60).unwrap()));
    assert!(!window.contains(MinutesOfDay::new(8 * 60).unwrap()));
    assert!(!window.contains(MinutesOfDay::new(18 * 60).unwrap()));
}

#[test]
fn weekday_mask_sunday_and_out_of_range() {
    let mask = WeekdayMask::new(0b0100_0000);
    assert!(mask.contains_iso_weekday(7));
    assert!(!mask.contains_iso_weekday(0));
    assert!(!mask.contains_iso_weekday(8));
    assert_eq!(WeekdayMask::all().bits(), 0b0111_1111);
}

#[test]
fn interval_schedule_validates() {
    assert_eq!(Schedule::interval("Hourly", 3600).validate(), Ok(()));
    assert_eq!(Schedule::interval("   ", 3600).validate(), Err(ScheduleValidationError::EmptyName));
}
