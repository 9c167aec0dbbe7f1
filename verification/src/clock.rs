use vstd::prelude::*;

use crate::calendar::{weekday_from_monday, CivilDate, CivilDateTime};
use crate::config::{format_hour_minute, hour_minute_text, two_digits, CivilTime};

verus! {

/// The abbreviated English name of a weekday counted from Monday as 0.
pub open spec fn weekday_abbrev(offset: int) -> Seq<char> {
    if offset == 0 {
        "Mon"@
    } else if offset == 1 {
        "Tue"@
    } else if offset == 2 {
        "Wed"@
    } else if offset == 3 {
        "Thu"@
    } else if offset == 4 {
        "Fri"@
    } else if offset == 5 {
        "Sat"@
    } else {
        "Sun"@
    }
}

/// The English name of a month.
pub open spec fn month_name(m: int) -> Seq<char> {
    if m == 1 {
        "January"@
    } else if m == 2 {
        "February"@
    } else if m == 3 {
        "March"@
    } else if m == 4 {
        "April"@
    } else if m == 5 {
        "May"@
    } else if m == 6 {
        "June"@
    } else if m == 7 {
        "July"@
    } else if m == 8 {
        "August"@
    } else if m == 9 {
        "September"@
    } else if m == 10 {
        "October"@
    } else if m == 11 {
        "November"@
    } else {
        "December"@
    }
}

/// The `HH:MM:SS` notation of a time of day.
pub open spec fn hms_text(t: CivilTime) -> Seq<char> {
    two_digits(t.hour as int) + seq![':'] + two_digits(t.minute as int) + seq![':'] + two_digits(t.second as int)
}

/// The `%a %B %d` notation of a date: weekday, month and zero-padded day, in English.
pub open spec fn date_line_text(d: CivilDate) -> Seq<char> {
    weekday_abbrev(weekday_from_monday(d.year as int, d.month as int, d.day as int)) + " "@ + month_name(d.month as int) + " "@
        + two_digits(d.day as int)
}

/// jiff's `civil::Time::strftime` with `%H:%M:%S`: jiff documents each as zero-padded to
/// two digits, the hour on a 24-hour clock.
#[verifier::external_body]
fn format_hms(t: &CivilTime) -> (s: String)
    requires
        t.wf(),
    ensures
        s@ == hms_text(*t),
{
    match jiff::civil::Time::new(t.hour, t.minute, t.second, t.subsec_nanosecond) {
        Ok(time) => time.strftime("%H:%M:%S").to_string(),
        Err(_) => String::new(),
    }
}

/// jiff's `civil::Date::strftime` with `%a %B %d`: jiff documents `%a` as the
/// abbreviated weekday name (`Sun`), `%B` as the full month name (`June`) and `%d` as the
/// zero-padded day of the month. The weekday is the one jiff gives the date.
#[verifier::external_body]
fn format_date_line(d: CivilDate) -> (s: String)
    requires
        d.wf(),
    ensures
        s@ == date_line_text(d),
{
    match jiff::civil::Date::new(d.year, d.month, d.day) {
        Ok(date) => date.strftime("%a %B %d").to_string(),
        Err(_) => String::new(),
    }
}

/// jiff's `civil::Date::strftime` with `%B`: the full English name of the month.
#[verifier::external_body]
fn format_month_name(d: CivilDate) -> (s: String)
    requires
        d.wf(),
    ensures
        s@ == month_name(d.month as int),
{
    match jiff::civil::Date::new(d.year, d.month, d.day) {
        Ok(date) => date.strftime("%B").to_string(),
        Err(_) => String::new(),
    }
}

/// What the clock module shows: the time with and without seconds, and the date.
#[derive(Debug)]
pub struct ClockTexts {
    pub time: String,
    pub time_secs: String,
    pub date: String,
}

impl ClockTexts {
    /// The texts for a moment: `HH:MM`, `HH:MM:SS` and `Wkd Month DD`.
    pub fn at(now: CivilDateTime) -> (c: Self)
        requires
            now.date.wf(),
            now.time.wf(),
        ensures
            c.time@ == hour_minute_text(now.time),
            c.time_secs@ == hms_text(now.time),
            c.date@ == date_line_text(now.date),
    {
        ClockTexts {
            time: format_hour_minute(&now.time),
            time_secs: format_hms(&now.time),
            date: format_date_line(now.date),
        }
    }
}

/// The title of the calendar: the name of the month shown.
pub fn month_title(year: i16, month: i8) -> (s: String)
    requires
        -9999 <= year <= 9999,
        1 <= month <= 12,
    ensures
        s@ == month_name(month as int),
{
    format_month_name(CivilDate { year, month, day: 1 })
}

} // verus!
