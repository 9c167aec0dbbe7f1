use chrono::Datelike;
use subniri::calendar::{
    dto_from_model, model_from_add, new_event_model, AddCalendarEventDto, CalendarEventDto, CalendarMessage, CalendarState, CivilDate,
    CivilDateTime,
};
use subniri::config::CivilTime;

fn date(year: i16, month: i8, day: i8) -> CivilDate {
    CivilDate { year, month, day }
}

fn at(d: CivilDate) -> CivilDateTime {
    CivilDateTime { date: d, time: CivilTime { hour: 9, minute: 0, second: 0, subsec_nanosecond: 0 } }
}

fn event(start: CivilDate, end: CivilDate) -> CalendarEventDto {
    CalendarEventDto {
        id: 7,
        title: "Trip".to_owned(),
        start: at(start),
        end: at(end),
        is_all_day: true,
        description: String::new(),
    }
}

#[test]
fn months_wrap_into_the_next_year() {
    let mut c = CalendarState::new(date(2024, 12, 24));
    c.month_forward();
    assert_eq!((c.selected_month, c.selected_year), (1, 2025));
    c.month_backward();
    assert_eq!((c.selected_month, c.selected_year), (12, 2024));
    c.year_backward();
    assert_eq!(c.selected_year, 2023);
    c.date_selected(date(2020, 2, 29));
    assert_eq!((c.selected_month, c.selected_year), (2, 2020));
    c.closed();
    assert_eq!(c.selected_date, date(2024, 12, 24));
    assert_eq!((c.selected_month, c.selected_year), (12, 2024));
}

#[test]
fn the_year_saturates() {
    let mut c = CalendarState::new(date(2024, 1, 1));
    c.selected_year = i16::MAX;
    c.year_forward();
    assert_eq!(c.selected_year, i16::MAX);
    c.selected_year = i16::MIN;
    c.month_backward();
    assert_eq!((c.selected_month, c.selected_year), (12, i16::MIN));
}

#[test]
fn events_mark_the_days_they_cover() {
    let mut c = CalendarState::new(date(2024, 3, 10));
    c.events_received(vec![event(date(2024, 2, 28), date(2024, 3, 2))]);
    assert!(c.has_event(date(2024, 2, 29)));
    assert!(c.has_event(date(2024, 3, 2)));
    assert!(!c.has_event(date(2024, 3, 3)));
    assert!(!c.has_event(date(2024, 2, 27)));
}

#[test]
fn the_grid_of_a_month() {
    // March 2024 begins on a Friday: four days of February lead, and the month ends on a
    // Sunday, so five weeks suffice.
    let mut c = CalendarState::new(date(2024, 3, 10));
    c.events_received(vec![event(date(2024, 3, 31), date(2024, 4, 2))]);
    let g = c.month_grid();
    assert_eq!(g.leading_days, 4);
    assert_eq!(g.weeks.len(), 5);
    let first = &g.weeks[0];
    assert_eq!(first.week_number, 9);
    assert_eq!(first.days[0].date, date(2024, 2, 26));
    assert!(!first.days[0].in_month);
    assert_eq!(first.days[4].date, date(2024, 3, 1));
    assert!(first.days[4].in_month);
    let second = &g.weeks[1];
    assert!(second.days[6].is_today && second.days[6].is_selected);
    let last = &g.weeks[4];
    assert_eq!(last.days[6].date, date(2024, 3, 31));
    assert!(last.days[6].has_event);
    assert!(!last.days[5].has_event);
    // March 2025 begins on a Saturday: six weeks, reaching into April.
    c.year_forward();
    let g = c.month_grid();
    assert_eq!(g.leading_days, 5);
    assert_eq!(g.weeks.len(), 6);
    assert_eq!(g.weeks[5].days[6].date, date(2025, 4, 6));
    assert!(!g.weeks[5].days[6].in_month);
    assert_eq!(g.weeks[5].week_number, 14);
}

#[test]
fn stored_events_keep_what_was_added() {
    let add = AddCalendarEventDto {
        title: "Dentist".to_owned(),
        start: at(date(2024, 5, 1)),
        end: at(date(2024, 5, 1)),
        is_all_day: false,
        description: String::new(),
    };
    let m = model_from_add(add.clone(), 42);
    assert_eq!(m.description, None);
    assert_eq!(m.reminder_minutes, None);
    let d = dto_from_model(m);
    assert_eq!(d.id, 42);
    assert_eq!(d.title, "Dentist");
    assert_eq!(d.description, "");
    let mut with_text = add;
    with_text.description = "bring card".to_owned();
    let m1 = new_event_model(with_text.clone());
    let m2 = new_event_model(with_text);
    assert_eq!(m1.description.as_deref(), Some("bring card"));
    assert_ne!(m1.id, m2.id);
}

#[test]
fn every_message_keeps_the_month_in_range() {
    let mut c = CalendarState::new(date(2024, 12, 31));
    c.update(CalendarMessage::MonthForward);
    assert_eq!((c.selected_month, c.selected_year), (1, 2025));
    c.update(CalendarMessage::MonthBackward);
    c.update(CalendarMessage::MonthBackward);
    assert_eq!((c.selected_month, c.selected_year), (11, 2024));
    c.update(CalendarMessage::YearForward);
    assert_eq!((c.selected_month, c.selected_year), (11, 2025));
    c.update(CalendarMessage::DateSelected(date(2023, 2, 1)));
    assert_eq!((c.selected_month, c.selected_year), (2, 2023));
    c.update(CalendarMessage::Tick(date(2024, 6, 1)));
    c.update(CalendarMessage::Closed);
    assert_eq!((c.selected_month, c.selected_year), (6, 2024));
    c.update(CalendarMessage::EventsReceived(vec![event(date(2024, 6, 1), date(2024, 6, 2))]));
    assert!(c.has_event(date(2024, 6, 2)));
}

#[test]
fn the_grid_reaches_the_first_and_last_years() {
    let c = CalendarState::new(date(9999, 6, 15));
    let g = c.month_grid();
    assert!(g.weeks.len() == 5 || g.weeks.len() == 6);
    let first_of_month = &g.weeks[0].days[g.leading_days as usize];
    assert_eq!(first_of_month.date, date(9999, 6, 1));
    assert!(first_of_month.in_month);
    let c = CalendarState::new(date(-9999, 2, 3));
    let g = c.month_grid();
    let first_of_month = &g.weeks[0].days[g.leading_days as usize];
    assert_eq!(first_of_month.date, date(-9999, 2, 1));
    if g.leading_days > 0 {
        assert_eq!(g.weeks[0].days[0].date.year, -9999);
        assert_eq!(g.weeks[0].days[0].date.month, 1);
    }
}

fn leap(y: i64) -> bool {
    y % 4 == 0 && (y % 100 != 0 || y % 400 == 0)
}

fn weekday_from_monday(y: i64, m: i64, d: i64) -> i64 {
    let yy = if m <= 2 { y - 1 } else { y };
    let mp = (m + 9) % 12;
    (365 * yy + yy.div_euclid(4) - yy.div_euclid(100) + yy.div_euclid(400) + (153 * mp + 2) / 5 + d + 1).rem_euclid(7)
}

fn weeks_in_year(y: i64) -> i64 {
    let p = |y: i64| (y + y.div_euclid(4) - y.div_euclid(100) + y.div_euclid(400)).rem_euclid(7);
    if p(y) == 4 || p(y - 1) == 3 { 53 } else { 52 }
}

fn iso_week(y: i64, m: i64, d: i64) -> i64 {
    let before = [0, 31, 59, 90, 120, 151, 181, 212, 243, 273, 304, 334][(m - 1) as usize]
        + if m > 2 && leap(y) { 1 } else { 0 };
    let w = (before + d - (weekday_from_monday(y, m, d) + 1) + 10).div_euclid(7);
    if w < 1 {
        weeks_in_year(y - 1)
    } else if w > weeks_in_year(y) {
        1
    } else {
        w
    }
}

#[test]
fn iso_weeks_follow_the_calendar_rule() {
    let check = |y: i64, m: i64, d: i64| {
        let date = chrono::NaiveDate::from_ymd_opt(y as i32, m as u32, d as u32).unwrap();
        assert_eq!(iso_week(y, m, d), date.iso_week().week() as i64, "{y}-{m}-{d}");
        assert_eq!(weekday_from_monday(y, m, d), date.weekday().num_days_from_monday() as i64, "{y}-{m}-{d}");
    };
    for y in -9999..=9999 {
        for d in 1..=10 {
            check(y, 1, d);
        }
        for d in 20..=31 {
            check(y, 12, d);
        }
    }
    for y in 1590..=2410 {
        for m in 1..=12 {
            let dim = [31, if leap(y) { 29 } else { 28 }, 31, 30, 31, 30, 31, 31, 30, 31, 30, 31][(m - 1) as usize];
            for d in 1..=dim {
                check(y, m, d);
            }
        }
    }
}
