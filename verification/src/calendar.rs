//! Days of the proleptic Gregorian calendar and instants in UTC.

use vstd::prelude::*;

use crate::text;

verus! {

/// First year that a [`Date`] can hold.
pub const MIN_YEAR: i32 = -262143;

/// Last year that a [`Date`] can hold.
pub const MAX_YEAR: i32 = 262142;

/// Number of the day 1970-01-01, counted as [`Ymd::day_number`] counts.
pub const UNIX_EPOCH_DAY: i64 = 719163;

pub const SECONDS_PER_DAY: i64 = 86400;

pub const NANOS_PER_SECOND: u32 = 1000000000;

/// Whether the year has a 29th of February.
pub open spec fn is_leap(year: int) -> bool {
    year % 4 == 0 && (year % 100 != 0 || year % 400 == 0)
}

pub open spec fn days_in_month(year: int, month: int) -> int {
    if month == 2 {
        if is_leap(year) {
            29
        } else {
            28
        }
    } else if month == 4 || month == 6 || month == 9 || month == 11 {
        30
    } else {
        31
    }
}

/// Days from the start of the year to the start of the month.
pub open spec fn days_before_month(year: int, month: int) -> int
    decreases month,
{
    if month <= 1 {
        0
    } else {
        days_before_month(year, month - 1) + days_in_month(year, month - 1)
    }
}

/// Days from 0001-01-01 to the start of the year; negative before year 1.
pub open spec fn days_before_year(year: int) -> int {
    365 * (year - 1) + (year - 1) / 4 - (year - 1) / 100 + (year - 1) / 400
}

/// What a [`Date`] stands for.
pub struct Ymd {
    pub year: int,
    pub month: int,
    pub day: int,
}

impl Ymd {
    /// The triple names a day, in a year that a [`Date`] can hold.
    pub open spec fn valid(self) -> bool {
        &&& MIN_YEAR <= self.year <= MAX_YEAR
        &&& 1 <= self.month <= 12
        &&& 1 <= self.day <= days_in_month(self.year, self.month)
    }

    /// Position of the day in the calendar; 0001-01-01 is day 1.
    pub open spec fn day_number(self) -> int {
        days_before_year(self.year) + days_before_month(self.year, self.month) + self.day
    }
}

/// The first day that a [`Date`] can hold.
pub open spec fn min_ymd() -> Ymd {
    Ymd { year: MIN_YEAR as int, month: 1, day: 1 }
}

/// The last day that a [`Date`] can hold.
pub open spec fn max_ymd() -> Ymd {
    Ymd { year: MAX_YEAR as int, month: 12, day: 31 }
}

proof fn lemma_days_before_month(year: int, month: int)
    requires
        1 <= month <= 12,
    ensures
        days_before_month(year, month) == if month == 1 {
            0
        } else if month == 2 {
            31
        } else {
            (if month == 3 {
                59
            } else if month == 4 {
                90
            } else if month == 5 {
                120
            } else if month == 6 {
                151
            } else if month == 7 {
                181
            } else if month == 8 {
                212
            } else if month == 9 {
                243
            } else if month == 10 {
                273
            } else if month == 11 {
                304
            } else {
                334int
            }) + (if is_leap(year) {
                1int
            } else {
                0int
            })
        },
{
    reveal_with_fuel(days_before_month, 13);
}

proof fn lemma_step(n: int, d: int)
    by (nonlinear_arith)
    requires
        d == 4 || d == 100 || d == 400,
    ensures
        n / d - (n - 1) / d == if n % d == 0 {
            1int
        } else {
            0int
        },
{
}

proof fn lemma_multiples(n: int)
    by (nonlinear_arith)
    ensures
        n % 100 == 0 ==> n % 4 == 0,
        n % 400 == 0 ==> n % 100 == 0,
{
}

/// A year is 365 days long, a leap year 366.
pub proof fn year_length(year: int)
    ensures
        days_before_year(year + 1) - days_before_year(year) == if is_leap(year) {
            366int
        } else {
            365int
        },
        days_before_month(year, 13) == if is_leap(year) {
            366int
        } else {
            365int
        },
{
    lemma_multiples(year);
    lemma_step(year, 4);
    lemma_step(year, 100);
    lemma_step(year, 400);
    lemma_days_before_month(year, 12);
}

proof fn lemma_later_year(a: int, b: int)
    requires
        a <= b,
    ensures
        days_before_year(a) + 365 * (b - a) <= days_before_year(b) <= days_before_year(a) + 366 * (b
            - a),
    decreases b - a,
{
    if a < b {
        lemma_later_year(a, b - 1);
        year_length(b - 1);
    }
}

/// Days are numbered in the order of year, month and day, and no two share a number.
pub proof fn day_numbers_follow_the_calendar(a: Ymd, b: Ymd)
    requires
        a.valid(),
        b.valid(),
    ensures
        a.day_number() < b.day_number() <==> (a.year < b.year || a.year == b.year && (a.month
            < b.month || a.month == b.month && a.day < b.day)),
        a.day_number() == b.day_number() <==> a == b,
{
    lemma_days_before_month(a.year, a.month);
    lemma_days_before_month(b.year, b.month);
    year_length(a.year);
    year_length(b.year);
    if a.year < b.year {
        lemma_later_year(a.year + 1, b.year);
    } else if b.year < a.year {
        lemma_later_year(b.year + 1, a.year);
    }
}

/// Every day of the year is within the year's first and last.
pub proof fn day_of_year_bounds(a: Ymd)
    requires
        a.valid(),
    ensures
        days_before_year(a.year) < a.day_number() <= days_before_year(a.year + 1),
        min_ymd().day_number() <= a.day_number() <= max_ymd().day_number(),
{
    lemma_days_before_month(a.year, a.month);
    lemma_days_before_month(a.year, 1);
    lemma_days_before_month(a.year, 12);
    year_length(a.year);
    day_numbers_follow_the_calendar(min_ymd(), a);
    day_numbers_follow_the_calendar(a, max_ymd());
}

/// From a day to the same month and day of the next year it is at most 366 days; and so it is from
/// Feb 28 to Feb 29 of the next year or from Feb 29 to Feb 28.
pub proof fn same_day_next_year(a: Ymd, b: Ymd)
    requires
        a.valid(),
        b.valid(),
        b.year == a.year + 1,
        b.month == a.month,
        b.day == a.day || a.month == 2 && (a.day == 28 && b.day == 29 && !is_leap(a.year) || a.day
            == 29 && b.day == 28),
    ensures
        365 <= b.day_number() - a.day_number() <= 366,
{
    lemma_days_before_month(a.year, a.month);
    lemma_days_before_month(b.year, b.month);
    year_length(a.year);
    year_length(b.year);
}

/// How many digits `s` starts with, at most two.
pub open spec fn leading_digits(s: Seq<char>) -> int {
    if s.len() == 0 || !text::is_digit(s[0]) {
        0
    } else if s.len() == 1 || !text::is_digit(s[1]) {
        1
    } else {
        2
    }
}

/// The day of `year` that `s` names: a month and a day of one or two digits each, with a hyphen
/// behind the month; white space may stand before either.
pub open spec fn month_day_in(year: int, s: Seq<char>) -> Option<Ymd> {
    let month = text::trim_start(s);
    let m = leading_digits(month);
    if m == 0 || m == month.len() || month[m] != '-' {
        None
    } else {
        let day = text::trim_start(month.skip(m + 1));
        let d = leading_digits(day);
        let ymd = Ymd { year, month: text::digits_value(month.take(m)), day: text::digits_value(day) };
        if d == 0 || d != day.len() || !ymd.valid() {
            None
        } else {
            Some(ymd)
        }
    }
}

/// `s` starts with a year of four digits and a hyphen.
pub open spec fn starts_with_year(s: Seq<char>) -> bool {
    s.len() >= 5 && text::all_digits(s.take(4)) && s[4] == '-'
}

/// The day that `s` names, a year of four digits and a hyphen before its month and day.
pub open spec fn date_in(s: Seq<char>) -> Option<Ymd> {
    month_day_in(text::digits_value(s.take(4)), s.skip(5))
}

/// English name of the month.
pub open spec fn month_name(month: int) -> Seq<char> {
    if month == 1 {
        "January"@
    } else if month == 2 {
        "February"@
    } else if month == 3 {
        "March"@
    } else if month == 4 {
        "April"@
    } else if month == 5 {
        "May"@
    } else if month == 6 {
        "June"@
    } else if month == 7 {
        "July"@
    } else if month == 8 {
        "August"@
    } else if month == 9 {
        "September"@
    } else if month == 10 {
        "October"@
    } else if month == 11 {
        "November"@
    } else {
        "December"@
    }
}

/// Day and month as people read them: `06 June`.
pub open spec fn day_and_month(date: Ymd) -> Seq<char> {
    text::two_digits(date.day) + seq![' '] + month_name(date.month)
}

/// A day of the calendar.
#[derive(Debug, Clone, Copy, PartialEq, Eq, Hash, Structural)]
pub struct Date {
    year: i32,
    month: u32,
    day: u32,
}

impl View for Date {
    type V = Ymd;

    closed spec fn view(&self) -> Ymd {
        Ymd { year: self.year as int, month: self.month as int, day: self.day as int }
    }
}

impl Date {
    #[verifier::type_invariant]
    pub open spec fn exists_in_calendar(self) -> bool {
        self@.valid()
    }

    /// The day with this year, month and day, if there is one.
    pub fn from_ymd_opt(year: i32, month: u32, day: u32) -> (date: Option<Date>)
        ensures
            match date {
                Some(d) => d@ == (Ymd { year: year as int, month: month as int, day: day as int })
                    && d@.valid(),
                None => !(Ymd { year: year as int, month: month as int, day: day as int }).valid(),
            },
    {
        if ymd_exists(year, month, day) {
            Some(Date { year, month, day })
        } else {
            None
        }
    }

    pub fn year(&self) -> (year: i32)
        ensures
            year == self@.year,
            self@.valid(),
    {
        proof {
            use_type_invariant(self);
        }
        self.year
    }

    pub fn month(&self) -> (month: u32)
        ensures
            month == self@.month,
            self@.valid(),
    {
        proof {
            use_type_invariant(self);
        }
        self.month
    }

    pub fn day(&self) -> (day: u32)
        ensures
            day == self@.day,
            self@.valid(),
    {
        proof {
            use_type_invariant(self);
        }
        self.day
    }

    /// The day `days` days later; `None` if it is past the last day that a `Date` can hold.
    pub fn checked_add_days(self, days: u64) -> (later: Option<Date>)
        ensures
            self@.valid(),
            match later {
                Some(d) => d@.valid() && d@.day_number() == self@.day_number() + days,
                None => self@.day_number() + days > max_ymd().day_number(),
            },
    {
        proof {
            use_type_invariant(&self);
        }
        add_days(self, days)
    }

    /// Days from `earlier` to this day; negative where this day comes first.
    pub fn days_since(self, earlier: Date) -> (days: i64)
        ensures
            days == self@.day_number() - earlier@.day_number(),
    {
        proof {
            use_type_invariant(&self);
            use_type_invariant(&earlier);
        }
        days_between(self, earlier)
    }

    /// Whether this day comes before `other`.
    pub fn is_before(self, other: Date) -> (before: bool)
        ensures
            before == (self@.day_number() < other@.day_number()),
    {
        proof {
            use_type_invariant(&self);
            use_type_invariant(&other);
            day_numbers_follow_the_calendar(self@, other@);
        }
        self.year < other.year || self.year == other.year && (self.month < other.month || self.month
            == other.month && self.day < other.day)
    }

    /// Day and month as people read them.
    pub fn day_and_month(self) -> (text: String)
        ensures
            text@ == day_and_month(self@),
    {
        proof {
            use_type_invariant(&self);
        }
        format_date(self, "%d %B")
    }
}

/// Two dates that stand for the same day are the same.
pub proof fn date_is_its_day(a: Date, b: Date)
    ensures
        a@ == b@ <==> a == b,
{
}

/// Calls `chrono::NaiveDate::from_ymd_opt`, which is believed to give a date exactly for the
/// triples that name a day of the proleptic Gregorian calendar from year -262143 to 262142.
#[verifier::external_body]
fn ymd_exists(year: i32, month: u32, day: u32) -> (found: bool)
    ensures
        found == (Ymd { year: year as int, month: month as int, day: day as int }).valid(),
{
    chrono::NaiveDate::from_ymd_opt(year, month, day).is_some()
}

/// Calls `chrono::NaiveDate::checked_add_days`, which is believed to give the day so many days
/// later, and `None` exactly where that is past the last day that it can represent.
#[verifier::external_body]
fn add_days(date: Date, days: u64) -> (later: Option<Date>)
    requires
        date@.valid(),
    ensures
        match later {
            Some(d) => d@.valid() && d@.day_number() == date@.day_number() + days,
            None => date@.day_number() + days > max_ymd().day_number(),
        },
{
    chrono::NaiveDate::from_ymd_opt(date.year, date.month, date.day).unwrap().checked_add_days(
        chrono::Days::new(days),
    ).map(
        |d|
            Date {
                year: chrono::Datelike::year(&d),
                month: chrono::Datelike::month(&d),
                day: chrono::Datelike::day(&d),
            },
    )
}

/// Calls `chrono::NaiveDate::signed_duration_since` and takes its whole days, which are believed
/// to be the difference of the two days' positions in the calendar.
#[verifier::external_body]
fn days_between(date: Date, earlier: Date) -> (days: i64)
    requires
        date@.valid(),
        earlier@.valid(),
    ensures
        days == date@.day_number() - earlier@.day_number(),
{
    let later = chrono::NaiveDate::from_ymd_opt(date.year, date.month, date.day).unwrap();
    later.signed_duration_since(
        chrono::NaiveDate::from_ymd_opt(earlier.year, earlier.month, earlier.day).unwrap(),
    ).num_days()
}

/// Calls `chrono::NaiveDate::parse_from_str`. Of the format `%Y-%m-%d`, on a text that starts with
/// four digits and a hyphen, it is believed to read a month and a day of one or two digits each,
/// to skip white space before either, and to fail on any other text, on text behind the day and on
/// a day that does not exist.
#[verifier::external_body]
pub(crate) fn parse_from_str(text: &str, format: &str) -> (date: Option<Date>)
    requires
        format@ == "%Y-%m-%d"@,
        starts_with_year(text@),
    ensures
        match date {
            Some(d) => date_in(text@) == Some(d@),
            None => date_in(text@) is None,
        },
{
    chrono::NaiveDate::parse_from_str(text, format).ok().map(
        |d|
            Date {
                year: chrono::Datelike::year(&d),
                month: chrono::Datelike::month(&d),
                day: chrono::Datelike::day(&d),
            },
    )
}

/// Calls `chrono::NaiveDate::format`. Of the format `%d %B` it is believed to write the day in two
/// digits, a space and the English name of the month.
#[verifier::external_body]
fn format_date(date: Date, format: &str) -> (text: String)
    requires
        date@.valid(),
        format@ == "%d %B"@,
    ensures
        text@ == day_and_month(date@),
{
    chrono::NaiveDate::from_ymd_opt(date.year, date.month, date.day).unwrap().format(
        format,
    ).to_string()
}

/// First second that a [`Timestamp`] can hold: the start of the first day that a [`Date`] can.
pub const MIN_TIMESTAMP: i64 = -8334601228800;

/// Last second that a [`Timestamp`] can hold: the end of the last day that a [`Date`] can.
pub const MAX_TIMESTAMP: i64 = 8210266876799;

/// What a [`Timestamp`] stands for: seconds since 1970-01-01 00:00:00 UTC, leap seconds apart, and
/// nanoseconds since the start of that second. In a leap second, which follows the last second of a
/// minute, the nanoseconds go on from those of the second before.
pub struct Instant {
    pub secs: int,
    pub nanos: int,
}

impl Instant {
    pub open spec fn valid(self) -> bool {
        MIN_TIMESTAMP <= self.secs <= MAX_TIMESTAMP && self.within_second()
    }

    /// The nanoseconds are those of the second, or of a leap second behind it.
    pub open spec fn within_second(self) -> bool {
        0 <= self.nanos < NANOS_PER_SECOND || self.in_leap_second()
    }

    /// The instant is in a leap second.
    pub open spec fn in_leap_second(self) -> bool {
        self.secs % 60 == 59 && NANOS_PER_SECOND <= self.nanos < 2 * NANOS_PER_SECOND
    }

    /// Number of the day that the instant falls on in UTC.
    pub open spec fn day_number(self) -> int {
        self.secs / SECONDS_PER_DAY as int + UNIX_EPOCH_DAY
    }

    /// Nanoseconds since 1970-01-01 00:00:00 UTC.
    pub open spec fn total_nanos(self) -> int {
        self.secs * NANOS_PER_SECOND + self.nanos
    }
}

/// An instant in UTC.
#[derive(Debug, Clone, Copy, PartialEq, Eq, Hash, Structural)]
pub struct Timestamp {
    secs: i64,
    nanos: u32,
}

impl View for Timestamp {
    type V = Instant;

    closed spec fn view(&self) -> Instant {
        Instant { secs: self.secs as int, nanos: self.nanos as int }
    }
}

impl Timestamp {
    #[verifier::type_invariant]
    spec fn representable(self) -> bool {
        self@.valid()
    }

    /// The current time.
    pub fn now() -> (now: Timestamp)
        ensures
            now@.valid(),
            now@.nanos < NANOS_PER_SECOND,
    {
        utc_now()
    }

    /// The instant `nanos` nanoseconds after the second `secs`, if a `Timestamp` can hold it.
    pub fn from_timestamp(secs: i64, nanos: u32) -> (timestamp: Option<Timestamp>)
        ensures
            match timestamp {
                Some(t) => t@ == (Instant { secs: secs as int, nanos: nanos as int }) && t@.valid(),
                None => !(Instant { secs: secs as int, nanos: nanos as int }).valid(),
            },
    {
        if secs < MIN_TIMESTAMP || secs > MAX_TIMESTAMP {
            return None;
        }
        // The first second that can be held begins a minute.
        let second: u64 = (secs - MIN_TIMESTAMP) as u64 % 60;
        if nanos < NANOS_PER_SECOND || second == 59 && nanos < 2 * NANOS_PER_SECOND {
            Some(Timestamp { secs, nanos })
        } else {
            None
        }
    }

    pub fn timestamp(&self) -> (secs: i64)
        ensures
            secs == self@.secs,
            self@.valid(),
    {
        proof {
            use_type_invariant(self);
        }
        self.secs
    }

    pub fn subsec_nanos(&self) -> (nanos: u32)
        ensures
            nanos == self@.nanos,
            self@.valid(),
    {
        proof {
            use_type_invariant(self);
        }
        self.nanos
    }

    /// The day that the instant falls on in UTC.
    pub fn date(self) -> (date: Date)
        ensures
            self@.valid(),
            date@.valid(),
            date@.day_number() == self@.day_number(),
    {
        proof {
            use_type_invariant(&self);
        }
        date_naive(self)
    }
}

/// A `Timestamp` can hold the instants of the days that a [`Date`] can hold, and no others.
pub proof fn timestamps_cover_the_calendar(instant: Instant)
    requires
        instant.within_second(),
    ensures
        instant.valid() <==> min_ymd().day_number() <= instant.day_number()
            <= max_ymd().day_number(),
{
    lemma_days_before_month(MIN_YEAR as int, 1);
    lemma_days_before_month(MAX_YEAR as int, 12);
    assert(min_ymd().day_number() == -95746129);
    assert(max_ymd().day_number() == 95745399);
}

/// Calls `chrono::Utc::now`. What it reads off the system's clock is left open, but that it is in
/// no leap second; it panics where that clock is set before 1970.
#[verifier::external_body]
fn utc_now() -> (now: Timestamp)
    ensures
        now@.valid(),
        now@.nanos < NANOS_PER_SECOND,
{
    let now = chrono::Utc::now();
    Timestamp { secs: now.timestamp(), nanos: now.timestamp_subsec_nanos() }
}

/// Calls `chrono::DateTime::date_naive` on the instant in UTC, which is believed to give the day
/// that its second falls on, days being 86400 seconds long.
#[verifier::external_body]
fn date_naive(instant: Timestamp) -> (date: Date)
    requires
        instant@.valid(),
    ensures
        date@.valid(),
        date@.day_number() == instant@.day_number(),
{
    let d = chrono::DateTime::from_timestamp(instant.secs, instant.nanos).unwrap().date_naive();
    Date {
        year: chrono::Datelike::year(&d),
        month: chrono::Datelike::month(&d),
        day: chrono::Datelike::day(&d),
    }
}

/// Calls `chrono::NaiveDate::and_time` with a full hour and takes the timestamp of the result in
/// UTC, which is believed to be the second on which that hour of that day begins.
#[verifier::external_body]
pub(crate) fn second_at(date: Date, hour: u32) -> (secs: i64)
    requires
        date@.valid(),
        hour < 24,
    ensures
        secs == (date@.day_number() - UNIX_EPOCH_DAY) * SECONDS_PER_DAY + hour * 3600,
{
    let day = chrono::NaiveDate::from_ymd_opt(date.year, date.month, date.day).unwrap();
    day.and_time(chrono::NaiveTime::from_hms_opt(hour, 0, 0).unwrap()).and_utc().timestamp()
}

} // verus!
