use subniri::calendar::{CivilDate, CivilDateTime};
use subniri::clock::{month_title, ClockTexts};
use subniri::config::CivilTime;

#[test]
fn the_clock_shows_time_and_date() {
    let now = CivilDateTime {
        date: CivilDate { year: 2024, month: 3, day: 10 },
        time: CivilTime { hour: 7, minute: 5, second: 9, subsec_nanosecond: 0 },
    };
    let c = ClockTexts::at(now);
    assert_eq!(c.time, "07:05");
    assert_eq!(c.time_secs, "07:05:09");
    assert_eq!(c.date, "Sun March 10");
    let later = CivilDateTime {
        date: CivilDate { year: 2025, month: 1, day: 1 },
        time: CivilTime { hour: 23, minute: 59, second: 59, subsec_nanosecond: 999_999_999 },
    };
    let c = ClockTexts::at(later);
    assert_eq!(c.time_secs, "23:59:59");
    assert_eq!(c.date, "Wed January 01");
}

#[test]
fn the_calendar_is_titled_by_its_month() {
    assert_eq!(month_title(2024, 6), "June");
    assert_eq!(month_title(-44, 3), "March");
}
