use chrono::Datelike;
use vstd::prelude::*;

use crate::config::CivilTime;

verus! {

// ---------------------------------------------------------------------------
// Dates.
// ---------------------------------------------------------------------------

/// A calendar date.
#[derive(Debug, Clone, Copy, PartialEq, Eq, Structural)]
pub struct CivilDate {
    pub year: i16,
    pub month: i8,
    pub day: i8,
}

/// A leap year of the proleptic Gregorian calendar.
pub open spec fn is_leap_year(y: int) -> bool {
    y % 4 == 0 && (y % 100 != 0 || y % 400 == 0)
}

/// The number of days of a month.
pub open spec fn month_days(y: int, m: int) -> int {
    if m == 2 {
        if is_leap_year(y) { 29 } else { 28 }
    } else if m == 4 || m == 6 || m == 9 || m == 11 {
        30
    } else {
        31
    }
}

impl CivilDate {
    /// A date that jiff can represent: years -9999 to 9999, an existing day.
    pub open spec fn wf(self) -> bool {
        &&& -9999 <= self.year <= 9999
        &&& 1 <= self.month <= 12
        &&& 1 <= self.day <= month_days(self.year as int, self.month as int)
    }
}

/// `a` is not after `b`.
pub open spec fn date_le(a: CivilDate, b: CivilDate) -> bool {
    a.year < b.year || (a.year == b.year && (a.month < b.month || (a.month == b.month && a.day <= b.day)))
}

fn date_not_after(a: CivilDate, b: CivilDate) -> (r: bool)
    ensures
        r == date_le(a, b),
{
    a.year < b.year || (a.year == b.year && (a.month < b.month || (a.month == b.month && a.day <= b.day)))
}

/// jiff's `Date::days_in_month`: 28 to 31 by the month, February having 29 days in leap
/// years of the Gregorian calendar.
#[verifier::external_body]
fn days_in_month(year: i16, month: i8) -> (r: i8)
    requires
        -9999 <= year <= 9999,
        1 <= month <= 12,
    ensures
        r as int == month_days(year as int, month as int),
{
    match jiff::civil::Date::new(year, month, 1) {
        Ok(d) => d.days_in_month(),
        Err(_) => 0,
    }
}

/// The weekday of a date of the proleptic Gregorian calendar, counted from Monday as 0:
/// the days counted from a fixed Monday, with years that begin in March so that a leap
/// day ends the year, modulo 7.
pub open spec fn weekday_from_monday(year: int, month: int, day: int) -> int {
    let y = if month <= 2 { year - 1 } else { year };
    let mp = (month + 9) % 12;
    (365 * y + y / 4 - y / 100 + y / 400 + (153 * mp + 2) / 5 + day + 1) % 7
}

/// jiff's `Date::weekday` with `Weekday::to_monday_zero_offset`: jiff's dates follow the
/// proleptic Gregorian calendar, so this is the date's weekday in it, Monday being 0 and
/// Sunday 6.
#[verifier::external_body]
fn monday_zero_offset(d: CivilDate) -> (r: i8)
    requires
        d.wf(),
    ensures
        r as int == weekday_from_monday(d.year as int, d.month as int, d.day as int),
        0 <= r <= 6,
{
    match jiff::civil::Date::new(d.year, d.month, d.day) {
        Ok(x) => x.weekday().to_monday_zero_offset(),
        Err(_) => 0,
    }
}

/// The days of the year before the first of a month.
pub open spec fn days_before_month(y: int, m: int) -> int {
    let before: int = if m == 1 { 0 } else if m == 2 { 31 } else if m == 3 { 59 } else if m == 4 { 90 } else if m == 5 {
        120
    } else if m == 6 { 151 } else if m == 7 { 181 } else if m == 8 { 212 } else if m == 9 { 243 } else if m == 10 {
        273
    } else if m == 11 { 304 } else { 334 };
    before + if m > 2 && is_leap_year(y) { 1int } else { 0int }
}

/// The weekday of the last day of a year, counted from Sunday as 0.
pub open spec fn year_end_weekday(y: int) -> int {
    (y + y / 4 - y / 100 + y / 400) % 7
}

/// How many ISO weeks a year has: 53 when it ends on a Thursday or the year before ends
/// on a Wednesday, else 52.
pub open spec fn iso_weeks_in_year(y: int) -> int {
    if year_end_weekday(y) == 4 || year_end_weekday(y - 1) == 3 { 53 } else { 52 }
}

/// The ISO 8601 week number of a date: the week, from Monday, that holds the year's first
/// Thursday is week 1; days before it belong to the last week of the year before, and
/// days after the year's last week to week 1 of the next.
pub open spec fn iso_week_spec(y: int, m: int, d: int) -> int {
    let w = (days_before_month(y, m) + d - (weekday_from_monday(y, m, d) + 1) + 10) / 7;
    if w < 1 {
        iso_weeks_in_year(y - 1)
    } else if w > iso_weeks_in_year(y) {
        1
    } else {
        w
    }
}

/// chrono's `NaiveDate::from_ymd_opt` and `iso_week().week()`: the ISO 8601 week number
/// of a valid date of the proleptic Gregorian calendar, which chrono follows.
#[verifier::external_body]
fn iso_week_number(d: CivilDate) -> (r: u32)
    requires
        d.wf(),
    ensures
        r as int == iso_week_spec(d.year as int, d.month as int, d.day as int),
{
    match chrono::NaiveDate::from_ymd_opt(d.year as i32, d.month as u32, d.day as u32) {
        Some(date) => date.iso_week().week(),
        None => 0,
    }
}

// ---------------------------------------------------------------------------
// Events.
// ---------------------------------------------------------------------------

/// A date and a time of day.
#[derive(Debug, Clone, Copy, PartialEq, Eq, Structural)]
pub struct CivilDateTime {
    pub date: CivilDate,
    pub time: CivilTime,
}

/// A calendar event as the daemon hands it out; the id is the UUID's 128 bits.
#[derive(Debug, Clone)]
pub struct CalendarEventDto {
    pub id: u128,
    pub title: String,
    pub start: CivilDateTime,
    pub end: CivilDateTime,
    pub is_all_day: bool,
    pub description: String,
}

/// A calendar event to add.
#[derive(Debug, Clone)]
pub struct AddCalendarEventDto {
    pub title: String,
    pub start: CivilDateTime,
    pub end: CivilDateTime,
    pub is_all_day: bool,
    pub description: String,
}

/// A stored calendar event.
#[derive(Debug, Clone)]
pub struct EventModel {
    pub id: u128,
    pub title: String,
    pub description: Option<String>,
    pub start_time: CivilDateTime,
    pub end_time: CivilDateTime,
    pub is_all_day: bool,
    pub color: Option<String>,
    pub reminder_minutes: Option<i32>,
}

/// The stored form of an event to add, under the given id: an empty description is
/// stored as none; no color and no reminder.
pub fn model_from_add(dto: AddCalendarEventDto, id: u128) -> (m: EventModel)
    ensures
        m.id == id,
        m.title@ == dto.title@,
        m.description == if dto.description@.len() == 0 { None } else { Some(dto.description) },
        m.start_time == dto.start,
        m.end_time == dto.end,
        m.is_all_day == dto.is_all_day,
        m.color is None,
        m.reminder_minutes is None,
{
    let description = if dto.description.as_str().is_empty() { None } else { Some(dto.description) };
    EventModel {
        id,
        title: dto.title,
        description,
        start_time: dto.start,
        end_time: dto.end,
        is_all_day: dto.is_all_day,
        color: None,
        reminder_minutes: None,
    }
}

/// uuid's `Uuid::new_v4`, as its 128 bits: a random id. Nothing is promised of the value.
#[verifier::external_body]
fn random_event_id() -> (id: u128) {
    uuid::Uuid::new_v4().as_u128()
}

/// The stored form of an event to add, under a fresh random id.
pub fn new_event_model(dto: AddCalendarEventDto) -> (m: EventModel)
    ensures
        m.title@ == dto.title@,
        m.description == if dto.description@.len() == 0 { None } else { Some(dto.description) },
        m.start_time == dto.start,
        m.end_time == dto.end,
        m.is_all_day == dto.is_all_day,
        m.color is None,
        m.reminder_minutes is None,
{
    let id = random_event_id();
    model_from_add(dto, id)
}

/// The event as handed out: a missing description becomes empty.
pub fn dto_from_model(m: EventModel) -> (d: CalendarEventDto)
    ensures
        d.id == m.id,
        d.title@ == m.title@,
        d.start == m.start_time,
        d.end == m.end_time,
        d.is_all_day == m.is_all_day,
        d.description@ == match m.description {
            Some(s) => s@,
            None => Seq::empty(),
        },
{
    let description = match m.description {
        Some(s) => s,
        None => String::new(),
    };
    CalendarEventDto {
        id: m.id,
        title: m.title,
        start: m.start_time,
        end: m.end_time,
        is_all_day: m.is_all_day,
        description,
    }
}

/// An added event comes back out as it went in, with its id: storing an empty
/// description as none loses nothing.
pub proof fn lemma_event_round_trip(dto: AddCalendarEventDto, id: u128, m: EventModel, d: CalendarEventDto)
    requires
        m.id == id,
        m.title@ == dto.title@,
        m.description == if dto.description@.len() == 0 { None } else { Some(dto.description) },
        m.start_time == dto.start,
        m.end_time == dto.end,
        m.is_all_day == dto.is_all_day,
        d.id == m.id,
        d.title@ == m.title@,
        d.start == m.start_time,
        d.end == m.end_time,
        d.is_all_day == m.is_all_day,
        d.description@ == match m.description {
            Some(s) => s@,
            None => Seq::empty(),
        },
    ensures
        d.id == id,
        d.title@ == dto.title@,
        d.start == dto.start,
        d.end == dto.end,
        d.is_all_day == dto.is_all_day,
        d.description@ == dto.description@,
{
}

fn copy_event(e: &CalendarEventDto) -> (r: CalendarEventDto)
    ensures
        r == *e,
{
    CalendarEventDto {
        id: e.id,
        title: e.title.clone(),
        start: e.start,
        end: e.end,
        is_all_day: e.is_all_day,
        description: e.description.clone(),
    }
}

/// An event covers the days from its start's date to its end's date, both included.
pub open spec fn event_covers(e: CalendarEventDto, d: CivilDate) -> bool {
    date_le(e.start.date, d) && date_le(d, e.end.date)
}

/// Some event covers the day.
pub open spec fn has_event_spec(events: Seq<CalendarEventDto>, d: CivilDate) -> bool {
    exists|i: int| 0 <= i < events.len() && event_covers(#[trigger] events[i], d)
}

/// An event with dates that jiff can represent.
pub open spec fn event_wf(e: CalendarEventDto) -> bool {
    e.start.date.wf() && e.end.date.wf()
}

// ---------------------------------------------------------------------------
// The calendar popup.
// ---------------------------------------------------------------------------

/// What the calendar popup is told.
pub enum CalendarMessage {
    /// The clock ticked; today is this day.
    Tick(CivilDate),
    /// The popup closed.
    Closed,
    /// A day was picked.
    DateSelected(CivilDate),
    MonthForward,
    MonthBackward,
    YearForward,
    YearBackward,
    /// Events arrived (all of them, or one just added).
    EventsReceived(Vec<CalendarEventDto>),
}

/// A message the popup can take: its dates are valid dates.
pub open spec fn message_wf(m: CalendarMessage) -> bool {
    match m {
        CalendarMessage::Tick(d) => d.wf(),
        CalendarMessage::DateSelected(d) => d.wf(),
        CalendarMessage::EventsReceived(es) => forall|i: int| 0 <= i < es@.len() ==> event_wf(#[trigger] es@[i]),
        _ => true,
    }
}

/// The calendar popup: today, the selected day, the month shown, and the events received.
#[derive(Debug)]
pub struct CalendarState {
    pub current_date: CivilDate,
    pub selected_date: CivilDate,
    pub selected_month: i8,
    pub selected_year: i16,
    pub events: Vec<CalendarEventDto>,
}

impl CalendarState {
    /// Valid dates, a month from 1 to 12, and events with valid dates.
    pub open spec fn wf(&self) -> bool {
        &&& self.current_date.wf()
        &&& self.selected_date.wf()
        &&& 1 <= self.selected_month <= 12
        &&& forall|i: int| 0 <= i < self.events@.len() ==> event_wf(#[trigger] self.events@[i])
    }

    /// The popup on a day: that day selected and its month shown; no events yet.
    pub fn new(today: CivilDate) -> (s: Self)
        requires
            today.wf(),
        ensures
            s.wf(),
            s.current_date == today,
            s.selected_date == today,
            s.selected_month == today.month,
            s.selected_year == today.year,
            s.events@.len() == 0,
    {
        CalendarState {
            current_date: today,
            selected_date: today,
            selected_month: today.month,
            selected_year: today.year,
            events: Vec::new(),
        }
    }

    /// The clock ticked: today is the given day; nothing else changes.
    pub fn tick(&mut self, today: CivilDate)
        requires
            old(self).wf(),
            today.wf(),
        ensures
            final(self).wf(),
            final(self).current_date == today,
            final(self).selected_date == old(self).selected_date,
            final(self).selected_month == old(self).selected_month,
            final(self).selected_year == old(self).selected_year,
            final(self).events@ == old(self).events@,
    {
        self.current_date = today;
    }

    /// The popup closed: the selection goes back to today and its month.
    pub fn closed(&mut self)
        requires
            old(self).wf(),
        ensures
            final(self).wf(),
            final(self).current_date == old(self).current_date,
            final(self).selected_date == old(self).current_date,
            final(self).selected_month == old(self).current_date.month,
            final(self).selected_year == old(self).current_date.year,
            final(self).events@ == old(self).events@,
    {
        self.selected_date = self.current_date;
        self.selected_month = self.current_date.month;
        self.selected_year = self.current_date.year;
    }

    /// A day was picked: it is selected and its month shown.
    pub fn date_selected(&mut self, day: CivilDate)
        requires
            old(self).wf(),
            day.wf(),
        ensures
            final(self).wf(),
            final(self).current_date == old(self).current_date,
            final(self).selected_date == day,
            final(self).selected_month == day.month,
            final(self).selected_year == day.year,
            final(self).events@ == old(self).events@,
    {
        self.selected_date = day;
        self.selected_month = day.month;
        self.selected_year = day.year;
    }

    /// The next month is shown; after December, January of the next year (the year
    /// stops at the largest `i16`).
    pub fn month_forward(&mut self)
        requires
            old(self).wf(),
        ensures
            final(self).wf(),
            (final(self).selected_month as int, final(self).selected_year as int)
                == month_after(old(self).selected_month as int, old(self).selected_year as int),
            final(self).current_date == old(self).current_date,
            final(self).selected_date == old(self).selected_date,
            final(self).events@ == old(self).events@,
    {
        self.selected_month = self.selected_month + 1;
        if self.selected_month > 12 {
            self.selected_month = 1;
            self.selected_year = year_after(self.selected_year);
        }
    }

    /// The previous month is shown; before January, December of the year before (the
    /// year stops at the smallest `i16`).
    pub fn month_backward(&mut self)
        requires
            old(self).wf(),
        ensures
            final(self).wf(),
            (final(self).selected_month as int, final(self).selected_year as int)
                == month_before(old(self).selected_month as int, old(self).selected_year as int),
            final(self).current_date == old(self).current_date,
            final(self).selected_date == old(self).selected_date,
            final(self).events@ == old(self).events@,
    {
        self.selected_month = self.selected_month - 1;
        if self.selected_month < 1 {
            self.selected_month = 12;
            self.selected_year = year_before(self.selected_year);
        }
    }

    /// The next year is shown (up to the largest `i16`).
    pub fn year_forward(&mut self)
        requires
            old(self).wf(),
        ensures
            final(self).wf(),
            final(self).selected_year == if old(self).selected_year < i16::MAX { old(self).selected_year + 1 } else { i16::MAX as int },
            final(self).selected_month == old(self).selected_month,
            final(self).current_date == old(self).current_date,
            final(self).selected_date == old(self).selected_date,
            final(self).events@ == old(self).events@,
    {
        self.selected_year = year_after(self.selected_year);
    }

    /// The previous year is shown (down to the smallest `i16`).
    pub fn year_backward(&mut self)
        requires
            old(self).wf(),
        ensures
            final(self).wf(),
            final(self).selected_year == if old(self).selected_year > i16::MIN { old(self).selected_year - 1 } else { i16::MIN as int },
            final(self).selected_month == old(self).selected_month,
            final(self).current_date == old(self).current_date,
            final(self).selected_date == old(self).selected_date,
            final(self).events@ == old(self).events@,
    {
        self.selected_year = year_before(self.selected_year);
    }

    /// Takes a message: the state stays well formed under every message, so the month
    /// shown stays between 1 and 12; the month steps wrap around the year.
    pub fn update(&mut self, m: CalendarMessage)
        requires
            old(self).wf(),
            message_wf(m),
        ensures
            final(self).wf(),
            1 <= final(self).selected_month <= 12,
            m is MonthForward ==> (final(self).selected_month as int, final(self).selected_year as int)
                == month_after(old(self).selected_month as int, old(self).selected_year as int),
            m is MonthBackward ==> (final(self).selected_month as int, final(self).selected_year as int)
                == month_before(old(self).selected_month as int, old(self).selected_year as int),
            m is Tick || m is EventsReceived || m is YearForward || m is YearBackward
                ==> final(self).selected_month == old(self).selected_month,
            m is Closed ==> final(self).selected_month == old(self).current_date.month,
            m matches CalendarMessage::DateSelected(d) ==> final(self).selected_month == d.month,
    {
        match m {
            CalendarMessage::Tick(d) => self.tick(d),
            CalendarMessage::Closed => self.closed(),
            CalendarMessage::DateSelected(d) => self.date_selected(d),
            CalendarMessage::MonthForward => self.month_forward(),
            CalendarMessage::MonthBackward => self.month_backward(),
            CalendarMessage::YearForward => self.year_forward(),
            CalendarMessage::YearBackward => self.year_backward(),
            CalendarMessage::EventsReceived(es) => self.events_received(es),
        }
    }

    /// Events arrived (for the month shown, or one just added): they are kept besides the
    /// ones known, so that their days show a mark.
    pub fn events_received(&mut self, events: Vec<CalendarEventDto>)
        requires
            old(self).wf(),
            forall|i: int| 0 <= i < events@.len() ==> event_wf(#[trigger] events@[i]),
        ensures
            final(self).wf(),
            final(self).events@ == old(self).events@ + events@,
            final(self).current_date == old(self).current_date,
            final(self).selected_date == old(self).selected_date,
            final(self).selected_month == old(self).selected_month,
            final(self).selected_year == old(self).selected_year,
    {
        let ghost before = self.events@;
        let ghost incoming = events@;
        let mut i: usize = 0;
        while i < events.len()
            invariant
                i <= events@.len(),
                events@ == incoming,
                self.events@ == before + incoming.take(i as int),
                self.current_date == old(self).current_date,
                self.selected_date == old(self).selected_date,
                self.selected_month == old(self).selected_month,
                self.selected_year == old(self).selected_year,
                self.current_date.wf(),
                self.selected_date.wf(),
                1 <= self.selected_month <= 12,
                forall|k: int| 0 <= k < self.events@.len() ==> event_wf(#[trigger] self.events@[k]),
                forall|k: int| 0 <= k < incoming.len() ==> event_wf(#[trigger] incoming[k]),
            decreases incoming.len() - i,
        {
            let e = copy_event(&events[i]);
            self.events.push(e);
            assert(incoming.take(i + 1) =~= incoming.take(i as int).push(incoming[i as int]));
            i = i + 1;
        }
        assert(incoming.take(incoming.len() as int) =~= incoming);
    }

    /// Whether some event received covers the day.
    pub fn has_event(&self, day: CivilDate) -> (r: bool)
        ensures
            r == has_event_spec(self.events@, day),
    {
        let mut i: usize = 0;
        while i < self.events.len()
            invariant
                i <= self.events@.len(),
                forall|k: int| 0 <= k < i ==> !event_covers(#[trigger] self.events@[k], day),
            decreases self.events@.len() - i,
        {
            let e = &self.events[i];
            if date_not_after(e.start.date, day) && date_not_after(day, e.end.date) {
                assert(event_covers(self.events@[i as int], day));
                return true;
            }
            i = i + 1;
        }
        false
    }

    /// The month shown as a grid of weeks from Monday to Sunday, with the days of the
    /// months around it filling the first and last week.
    pub fn month_grid(&self) -> (g: MonthGrid)
        requires
            self.wf(),
            grid_in_range(self.selected_year as int, self.selected_month as int),
        ensures
            g.leading_days as int == weekday_from_monday(self.selected_year as int, self.selected_month as int, 1),
            0 <= g.leading_days <= 6,
            g.weeks@.len() == grid_rows(g.leading_days as int, month_days(self.selected_year as int, self.selected_month as int)),
            forall|w: int| 0 <= w < g.weeks@.len() ==> (#[trigger] g.weeks@[w]).days@ == week_days_spec(*self, g.leading_days as int, w)
                && g.weeks@[w].week_number == week_number_spec(*self, g.leading_days as int, w),
    {
        let year = self.selected_year;
        let month = self.selected_month;
        let first = CivilDate { year, month, day: 1 };
        let leading = monday_zero_offset(first);
        let dim = days_in_month(year, month);
        let (py, pm) = previous_month(year, month);
        let prev_dim = days_in_month(py, pm);
        let rows: u8 = if leading as i32 + dim as i32 > 35 { 6 } else { 5 };
        let mut weeks: Vec<GridWeek> = Vec::new();
        let mut w: u8 = 0;
        while w < rows
            invariant
                w <= rows,
                rows == grid_rows(leading as int, dim as int),
                0 <= leading <= 6,
                dim as int == month_days(year as int, month as int),
                prev_dim as int == month_days(previous_month_spec(year as int, month as int).0, previous_month_spec(year as int, month as int).1),
                (py as int, pm as int) == previous_month_spec(year as int, month as int),
                year == self.selected_year,
                month == self.selected_month,
                self.wf(),
                grid_in_range(year as int, month as int),
                leading as int == weekday_from_monday(year as int, month as int, 1),
                weeks@.len() == w,
                forall|k: int| 0 <= k < w ==> (#[trigger] weeks@[k]).days@ == week_days_spec(*self, leading as int, k)
                    && weeks@[k].week_number == week_number_spec(*self, leading as int, k),
            decreases rows - w,
        {
            let week = self.grid_week(leading, dim, prev_dim, w);
            weeks.push(week);
            w = w + 1;
        }
        MonthGrid { leading_days: leading, weeks }
    }

    fn grid_week(&self, leading: i8, dim: i8, prev_dim: i8, w: u8) -> (week: GridWeek)
        requires
            self.wf(),
            grid_in_range(self.selected_year as int, self.selected_month as int),
            0 <= leading <= 6,
            w < grid_rows(leading as int, dim as int),
            dim as int == month_days(self.selected_year as int, self.selected_month as int),
            prev_dim as int == month_days(previous_month_spec(self.selected_year as int, self.selected_month as int).0,
                previous_month_spec(self.selected_year as int, self.selected_month as int).1),
        ensures
            week.days@ == week_days_spec(*self, leading as int, w as int),
            week.week_number == week_number_spec(*self, leading as int, w as int),
    {
        let year = self.selected_year;
        let month = self.selected_month;
        let begin = grid_date_exec(year, month, dim, prev_dim, 7 * (w as i32) - leading as i32);
        let week_number = iso_week_number(begin);
        let mut days: Vec<GridDay> = Vec::new();
        let mut d: u8 = 0;
        while d < 7
            invariant
                d <= 7,
                days@.len() == d,
                self.wf(),
                grid_in_range(year as int, month as int),
                year == self.selected_year,
                month == self.selected_month,
                0 <= leading <= 6,
                w < grid_rows(leading as int, dim as int),
                dim as int == month_days(year as int, month as int),
                prev_dim as int == month_days(previous_month_spec(year as int, month as int).0, previous_month_spec(year as int, month as int).1),
                forall|k: int| 0 <= k < d ==> #[trigger] days@[k] == day_spec(*self, 7 * w + k - leading),
            decreases 7 - d,
        {
            let offset: i32 = 7 * (w as i32) + d as i32 - leading as i32;
            let date = grid_date_exec(year, month, dim, prev_dim, offset);
            let cell = GridDay {
                date,
                in_month: date.month == month && date.year == year,
                is_today: date == self.current_date,
                is_selected: date == self.selected_date,
                has_event: self.has_event(date),
            };
            days.push(cell);
            d = d + 1;
        }
        assert(days@ =~= week_days_spec(*self, leading as int, w as int));
        GridWeek { week_number, days }
    }
}

/// A day of the grid.
#[derive(Debug, Clone, Copy, PartialEq, Eq, Structural)]
pub struct GridDay {
    pub date: CivilDate,
    /// The day lies in the month shown.
    pub in_month: bool,
    pub is_today: bool,
    pub is_selected: bool,
    /// Some event covers the day.
    pub has_event: bool,
}

/// A week of the grid: its ISO week number and its seven days from Monday.
#[derive(Debug)]
pub struct GridWeek {
    pub week_number: u32,
    pub days: Vec<GridDay>,
}

/// The grid of the month shown: how many days of the month before fill its first week,
/// and its weeks.
#[derive(Debug)]
pub struct MonthGrid {
    pub leading_days: i8,
    pub weeks: Vec<GridWeek>,
}

/// The year after, staying at the largest `i16` (a saturating increment).
fn year_after(y: i16) -> (r: i16)
    ensures
        r == if y < i16::MAX { y + 1 } else { i16::MAX as int },
{
    if y < i16::MAX { y + 1 } else { i16::MAX }
}

/// The year before, staying at the smallest `i16` (a saturating decrement).
fn year_before(y: i16) -> (r: i16)
    ensures
        r == if y > i16::MIN { y - 1 } else { i16::MIN as int },
{
    if y > i16::MIN { y - 1 } else { i16::MIN }
}

/// The month and year shown after stepping forward: the next month; after December,
/// January of the next year, the year stopping at the largest `i16`.
pub open spec fn month_after(m: int, y: int) -> (int, int) {
    if m < 12 { (m + 1, y) } else { (1, if y < i16::MAX { y + 1 } else { i16::MAX as int }) }
}

/// The month and year shown after stepping back: the previous month; before January,
/// December of the year before, the year stopping at the smallest `i16`.
pub open spec fn month_before(m: int, y: int) -> (int, int) {
    if m > 1 { (m - 1, y) } else { (12, if y > i16::MIN { y - 1 } else { i16::MIN as int }) }
}

/// Stepping a month forward and then back shows the month shown before, unless the
/// year stopped at its largest value.
pub proof fn lemma_month_forward_then_back(m: int, y: int)
    requires
        1 <= m <= 12,
        i16::MIN <= y <= i16::MAX,
        !(m == 12 && y == i16::MAX),
    ensures
        month_before(month_after(m, y).0, month_after(m, y).1) == (m, y),
{
}

/// Stepping a month back and then forward shows the month shown before, unless the year
/// stopped at its smallest value.
pub proof fn lemma_month_back_then_forward(m: int, y: int)
    requires
        1 <= m <= 12,
        i16::MIN <= y <= i16::MAX,
        !(m == 1 && y == i16::MIN),
    ensures
        month_after(month_before(m, y).0, month_before(m, y).1) == (m, y),
{
}

/// The month and year shown after `n` steps forward.
pub open spec fn months_after(n: nat, m: int, y: int) -> (int, int)
    decreases n,
{
    if n == 0 {
        (m, y)
    } else {
        let p = months_after((n - 1) as nat, m, y);
        month_after(p.0, p.1)
    }
}

/// Twelve steps forward show the same month of the next year, short of the largest year.
pub proof fn lemma_twelve_months_make_a_year(m: int, y: int)
    requires
        1 <= m <= 12,
        i16::MIN <= y < i16::MAX,
    ensures
        months_after(12, m, y) == (m, y + 1),
{
    reveal_with_fuel(months_after, 13);
}

/// The month before.
pub open spec fn previous_month_spec(y: int, m: int) -> (int, int) {
    if m == 1 { (y - 1, 12) } else { (y, m - 1) }
}

/// The month after.
pub open spec fn next_month_spec(y: int, m: int) -> (int, int) {
    if m == 12 { (y + 1, 1) } else { (y, m + 1) }
}

fn previous_month(y: i16, m: i8) -> (r: (i16, i8))
    requires
        -9999 < y || m != 1,
        -9999 <= y,
        1 <= m <= 12,
    ensures
        (r.0 as int, r.1 as int) == previous_month_spec(y as int, m as int),
{
    if m == 1 { (y - 1, 12) } else { (y, m - 1) }
}

/// A month whose grid stays within the dates that jiff represents (years -9999 to 9999):
/// the grid of January -9999 would begin, and that of December 9999 end, beyond them.
pub open spec fn grid_in_range(y: int, m: int) -> bool {
    &&& -9999 <= y <= 9999
    &&& !(y == -9999 && m == 1)
    &&& !(y == 9999 && m == 12)
}

/// Five weeks, or six when the leading days and the month do not fit in five.
pub open spec fn grid_rows(leading: int, dim: int) -> int {
    if leading + dim > 35 { 6 } else { 5 }
}

/// The date `offset` days after the first of the month (before it when negative), for
/// offsets that stay within the months before and after.
pub open spec fn grid_date(y: int, m: int, offset: int) -> CivilDate {
    let dim = month_days(y, m);
    if offset < 0 {
        let (py, pm) = previous_month_spec(y, m);
        CivilDate { year: py as i16, month: pm as i8, day: (month_days(py, pm) + offset + 1) as i8 }
    } else if offset < dim {
        CivilDate { year: y as i16, month: m as i8, day: (offset + 1) as i8 }
    } else {
        let (ny, nm) = next_month_spec(y, m);
        CivilDate { year: ny as i16, month: nm as i8, day: (offset - dim + 1) as i8 }
    }
}

fn grid_date_exec(y: i16, m: i8, dim: i8, prev_dim: i8, offset: i32) -> (d: CivilDate)
    requires
        grid_in_range(y as int, m as int),
        1 <= m <= 12,
        dim as int == month_days(y as int, m as int),
        prev_dim as int == month_days(previous_month_spec(y as int, m as int).0, previous_month_spec(y as int, m as int).1),
        -6 <= offset < 42,
    ensures
        d == grid_date(y as int, m as int, offset as int),
        d.wf(),
{
    if offset < 0 {
        let (py, pm) = previous_month(y, m);
        CivilDate { year: py, month: pm, day: (prev_dim as i32 + offset + 1) as i8 }
    } else if offset < dim as i32 {
        CivilDate { year: y, month: m, day: (offset + 1) as i8 }
    } else {
        let (ny, nm): (i16, i8) = if m == 12 { (y + 1, 1) } else { (y, m + 1) };
        CivilDate { year: ny, month: nm, day: (offset - dim as i32 + 1) as i8 }
    }
}

/// The grid's day at an offset from the first of the month shown.
pub open spec fn day_spec(s: CalendarState, offset: int) -> GridDay {
    let date = grid_date(s.selected_year as int, s.selected_month as int, offset);
    GridDay {
        date,
        in_month: date.month == s.selected_month && date.year == s.selected_year,
        is_today: date == s.current_date,
        is_selected: date == s.selected_date,
        has_event: has_event_spec(s.events@, date),
    }
}

/// The days of the grid's week `w`, as the grid shows them.
pub open spec fn week_days_spec(s: CalendarState, leading: int, w: int) -> Seq<GridDay> {
    Seq::new(7, |k: int| day_spec(s, 7 * w + k - leading))
}

/// The ISO week number shown for the grid's week `w`: that of its Monday.
pub open spec fn week_number_spec(s: CalendarState, leading: int, w: int) -> u32 {
    let monday = grid_date(s.selected_year as int, s.selected_month as int, 7 * w - leading);
    iso_week_spec(monday.year as int, monday.month as int, monday.day as int) as u32
}

} // verus!
