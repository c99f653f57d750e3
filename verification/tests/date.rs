use beatmap_tui::date::{
    DateCursor, Direction, Magnitude, FAST_STEP_DAYS, MAX_JULIAN_DAY, MIN_JULIAN_DAY,
};
use time::{Date, Month, OffsetDateTime};

fn julian(year: i32, month: Month, day: u8) -> i32 {
    Date::from_calendar_date(year, month, day).unwrap().to_julian_day()
}

#[test]
fn calendar_ends_are_those_of_the_time_crate() {
    assert_eq!(MIN_JULIAN_DAY, Date::MIN.to_julian_day());
    assert_eq!(MAX_JULIAN_DAY, Date::MAX.to_julian_day());
    assert_eq!(MIN_JULIAN_DAY, -1_930_999);
    assert_eq!(MAX_JULIAN_DAY, 5_373_484);
    assert_eq!(FAST_STEP_DAYS, 30);
}

#[test]
fn from_julian_day_accepts_the_calendar_only() {
    assert!(DateCursor::from_julian_day(MIN_JULIAN_DAY).is_some());
    assert!(DateCursor::from_julian_day(MAX_JULIAN_DAY).is_some());
    assert!(DateCursor::from_julian_day(MIN_JULIAN_DAY - 1).is_none());
    assert!(DateCursor::from_julian_day(MAX_JULIAN_DAY + 1).is_none());
    assert!(DateCursor::from_julian_day(i32::MAX).is_none());
    assert!(DateCursor::from_julian_day(i32::MIN).is_none());
    assert_eq!(DateCursor::from_julian_day(2_451_545).unwrap().julian_day(), 2_451_545);
}

#[test]
fn one_day_forward_and_backward() {
    let mut date = DateCursor::from_julian_day(julian(2020, Month::December, 31)).unwrap();
    date.step(Direction::Forward, Magnitude::Day);
    assert_eq!(date.julian_day(), julian(2021, Month::January, 1));
    date.step(Direction::Backward, Magnitude::Day);
    date.step(Direction::Backward, Magnitude::Day);
    assert_eq!(date.julian_day(), julian(2020, Month::December, 30));
}

#[test]
fn fast_step_is_thirty_days() {
    let mut date = DateCursor::from_julian_day(julian(2024, Month::February, 15)).unwrap();
    date.step(Direction::Forward, Magnitude::Fast);
    assert_eq!(date.julian_day(), julian(2024, Month::March, 16));
    date.step(Direction::Backward, Magnitude::Fast);
    date.step(Direction::Backward, Magnitude::Fast);
    assert_eq!(date.julian_day(), julian(2024, Month::January, 16));
    assert_eq!(Magnitude::Fast.days(), 30);
    assert_eq!(Magnitude::Day.days(), 1);
}

#[test]
fn steps_stop_at_the_last_date() {
    let mut date = DateCursor::from_julian_day(MAX_JULIAN_DAY - 3).unwrap();
    date.step(Direction::Forward, Magnitude::Fast);
    assert_eq!(date.julian_day(), MAX_JULIAN_DAY);
    date.step(Direction::Forward, Magnitude::Day);
    assert_eq!(date.julian_day(), MAX_JULIAN_DAY);
    date.step(Direction::Backward, Magnitude::Day);
    assert_eq!(date.julian_day(), MAX_JULIAN_DAY - 1);
}

#[test]
fn steps_stop_at_the_first_date() {
    let mut date = DateCursor::from_julian_day(MIN_JULIAN_DAY + 29).unwrap();
    date.step(Direction::Backward, Magnitude::Fast);
    assert_eq!(date.julian_day(), MIN_JULIAN_DAY);
    date.step(Direction::Backward, Magnitude::Day);
    assert_eq!(date.julian_day(), MIN_JULIAN_DAY);
    date.step(Direction::Forward, Magnitude::Fast);
    assert_eq!(date.julian_day(), MIN_JULIAN_DAY + 30);
}

#[test]
fn today_is_the_clock_s_date() {
    let before = OffsetDateTime::now_utc().date().to_julian_day();
    let today = DateCursor::today().julian_day();
    let after = OffsetDateTime::now_utc().date().to_julian_day();
    assert!(before <= today && today <= after);
    assert!(MIN_JULIAN_DAY <= today && today <= MAX_JULIAN_DAY);
}
