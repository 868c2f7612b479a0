//! Days, instants and celebrations.

use vstd::prelude::*;

use crate::calendar;
use crate::calendar::{Date, Timestamp, Ymd};
use crate::elements;
use crate::elements::User;
use crate::laws::plain;
use crate::text;

verus! {

/// There is a date exactly for the days of the calendar, and it holds the year, month and day that
/// it was made of.
pub proof fn dates_are_what_they_are_made_of(
    year: i32,
    month: u32,
    day: u32,
    made: Option<Date>,
    y: i32,
    m: u32,
    d: u32,
)
    requires
        call_ensures(Date::from_ymd_opt, (year, month, day), made),
        made matches Some(date) ==> call_ensures(Date::year, (&date,), y) && call_ensures(
            Date::month,
            (&date,),
            m,
        ) && call_ensures(Date::day, (&date,), d),
    ensures
        made is Some <==> -262143 <= year <= 262142 && 1 <= month <= 12 && 1 <= day
            <= plain::length_of_month(year as int, month as int),
        made is Some ==> y == year && m == month && d == day,
{
}

/// The day after a day: the next one of the month, or the first one of the next month or year.
pub proof fn the_next_day(date: Date, next: Date)
    requires
        date@.valid(),
        call_ensures(Date::checked_add_days, (date, 1), Some(next)),
    ensures
        if date@.day < plain::length_of_month(date@.year, date@.month) {
            &&& next@.day == date@.day + 1
            &&& next@.month == date@.month
            &&& next@.year == date@.year
        } else if date@.month < 12 {
            &&& next@.day == 1
            &&& next@.month == date@.month + 1
            &&& next@.year == date@.year
        } else {
            &&& next@.day == 1
            &&& next@.month == 1
            &&& next@.year == date@.year + 1
        },
{
    let a = date@;
    calendar::day_of_year_bounds(next@);
    if a.day < calendar::days_in_month(a.year, a.month) {
        let b = Ymd { day: a.day + 1, ..a };
        calendar::day_numbers_follow_the_calendar(b, next@);
    } else if a.month < 12 {
        let b = Ymd { year: a.year, month: a.month + 1, day: 1 };
        calendar::day_numbers_follow_the_calendar(b, next@);
    } else {
        let b = Ymd { year: a.year + 1, month: 1, day: 1 };
        calendar::year_length(a.year);
        if a.year < calendar::MAX_YEAR {
            calendar::day_numbers_follow_the_calendar(b, next@);
        } else {
            calendar::day_of_year_bounds(a);
        }
    }
}

/// Adding days one lot after the other is adding them at once, and the days between are counted.
pub proof fn days_add_up(
    date: Date,
    first: u64,
    second: u64,
    between: Date,
    last: Date,
    at_once: Option<Date>,
    counted: i64,
    back: i64,
)
    requires
        first + second <= u64::MAX,
        call_ensures(Date::checked_add_days, (date, first), Some(between)),
        call_ensures(Date::checked_add_days, (between, second), Some(last)),
        call_ensures(Date::checked_add_days, (date, (first + second) as u64), at_once),
        call_ensures(Date::days_since, (last, date), counted),
        call_ensures(Date::days_since, (date, last), back),
    ensures
        at_once == Some(last),
        counted == first + second,
        back == -counted,
{
    calendar::day_of_year_bounds(last@);
    calendar::day_numbers_follow_the_calendar(at_once->0@, last@);
    calendar::date_is_its_day(at_once->0, last);
}

/// There is a day so many days later unless it is past 262142-12-31.
pub proof fn days_end(date: Date, days: u64, later: Option<Date>, end: Date, left: i64)
    requires
        call_ensures(Date::checked_add_days, (date, days), later),
        call_ensures(Date::from_ymd_opt, (262142, 12, 31), Some(end)),
        call_ensures(Date::days_since, (end, date), left),
    ensures
        later is Some <==> days <= left,
{
    if later is Some {
        calendar::day_of_year_bounds(later->0@);
    }
}

/// One day comes before another by its year, else by its month, else by its day.
pub proof fn days_are_ordered(a: Date, b: Date, before: bool)
    requires
        a@.valid(),
        b@.valid(),
        call_ensures(Date::is_before, (a, b), before),
    ensures
        before <==> a@.year < b@.year || a@.year == b@.year && (a@.month < b@.month || a@.month
            == b@.month && a@.day < b@.day),
{
    calendar::day_numbers_follow_the_calendar(a@, b@);
}

/// A day is written with two digits and the English name of its month.
pub proof fn days_are_written(date: Date, written: String)
    requires
        date@.valid(),
        call_ensures(Date::day_and_month, (date,), written),
    ensures
        written@ == plain::day_in_words(date@.month, date@.day),
{
    lemma_day_in_words(date@);
}

pub(crate) proof fn lemma_day_in_words(date: Ymd)
    requires
        date.valid(),
    ensures
        calendar::day_and_month(date) == plain::day_in_words(date.month, date.day),
{
    let tens = date.day / 10;
    let ones = date.day % 10;
    assert(text::digit_char(tens) == plain::digit(tens));
    assert(text::digit_char(ones) == plain::digit(ones));
    assert(calendar::month_name(date.month) == plain::name_of_month(date.month));
    assert(calendar::day_and_month(date) =~= plain::day_in_words(date.month, date.day));
}

/// There is a timestamp for every second of the calendar's days with its nanoseconds, and for the
/// nanoseconds of a leap second behind the last second of a minute; it holds what it was made of.
pub proof fn timestamps_are_what_they_are_made_of(
    secs: i64,
    nanos: u32,
    made: Option<Timestamp>,
    s: i64,
    n: u32,
)
    requires
        call_ensures(Timestamp::from_timestamp, (secs, nanos), made),
        made matches Some(time) ==> call_ensures(Timestamp::timestamp, (&time,), s)
            && call_ensures(Timestamp::subsec_nanos, (&time,), n),
    ensures
        made is Some <==> -8334601228800 <= secs <= 8210266876799 && (nanos < 1000000000 || nanos
            < 2000000000 && secs as int % 60 == 59),
        made is Some ==> s == secs && n == nanos,
{
}

/// A timestamp falls on the day that is as many days from 1970-01-01 as its seconds fill.
pub proof fn timestamps_fall_on_their_day(time: Timestamp, date: Date, start: Date, days: i64)
    requires
        call_ensures(Timestamp::date, (time,), date),
        call_ensures(Date::from_ymd_opt, (1970, 1, 1), Some(start)),
        call_ensures(Date::days_since, (date, start), days),
    ensures
        days == time@.secs / 86400,
{
    reveal_with_fuel(calendar::days_before_month, 2);
}

/// A user celebrates on their month and day and on no other, but on Feb 28 for Feb 29 in a year
/// without one.
pub proof fn users_celebrate_on_their_day(user: User, date: Date, celebrates: bool)
    requires
        call_ensures(User::celebrates_on, (&user, date), celebrates),
    ensures
        celebrates <==> plain::is_celebrated(user.birthdate@, date@),
{
}

/// A celebration within so many days is the first from `from` on, and there is none only where no
/// day within them is one.
pub proof fn celebrations_are_the_first(user: User, from: Date, days: u32, next: Option<Date>)
    requires
        call_ensures(User::celebration_within, (&user, from, days), next),
    ensures
        match next {
            Some(date) => plain::comes_up(user.birthdate@, from@, from@.day_number() + days, date@),
            None => forall|date: Ymd|
                date.valid() && plain::is_celebrated(user.birthdate@, date) && from@.day_number()
                    <= #[trigger] date.day_number() ==> from@.day_number() + days
                    < date.day_number(),
        },
{
    lemma_comes_up(user.birthdate@, from@, days as int);
}

pub(crate) proof fn lemma_comes_up(birth: Ymd, from: Ymd, days: int)
    ensures
        forall|date: Ymd|
            elements::next_celebration(birth, from, days) == Some(date) <==> #[trigger] plain::comes_up(
                birth,
                from,
                from.day_number() + days,
                date,
            ),
        elements::next_celebration(birth, from, days) is None <==> forall|date: Ymd|
            date.valid() && plain::is_celebrated(birth, date) && from.day_number()
                <= #[trigger] date.day_number() ==> from.day_number() + days < date.day_number(),
{
    elements::next_celebration_is_the_earliest(birth, from, days);
    assert forall|date: Ymd|
        elements::celebrated_on(birth, date) == plain::is_celebrated(birth, date) by {}
    assert forall|date: Ymd|
        elements::next_celebration(birth, from, days) == Some(date) <==> #[trigger] plain::comes_up(
            birth,
            from,
            from.day_number() + days,
            date,
        ) by {
        assert(elements::is_next_celebration(birth, from, days, date) <==> plain::comes_up(
            birth,
            from,
            from.day_number() + days,
            date,
        ));
    }
    if elements::next_celebration(birth, from, days) is Some {
        let date = elements::next_celebration(birth, from, days)->0;
        assert(elements::is_next_celebration(birth, from, days, date));
        assert(date.valid() && plain::is_celebrated(birth, date));
    }
}

/// The celebrants of a day are the users whose birthday is celebrated on it, in their order.
pub proof fn celebrants_are_found(users: Vec<User>, date: Date, found: Vec<User>)
    requires
        call_ensures(elements::celebrants, (&users, date), found),
    ensures
        found@ == users@.filter(|user: User| plain::is_celebrated(user.birthdate@, date@)),
{
    let celebrates = |user: User| plain::is_celebrated(user.birthdate@, date@);
    let said = |user: User| elements::celebrated_on(user.birthdate@, date@);
    assert(celebrates =~= said);
}

/// Upcoming birthdays are those that come up within the days, each user once and in the order of
/// the days, those on the same day in the order of the users. `at` gives the users' places.
pub proof fn upcoming_are_found(users: Vec<User>, from: Date, days: u32, list: Vec<(Date, User)>) -> (at:
    Seq<int>)
    requires
        call_ensures(elements::upcoming, (&users, from, days), list),
    ensures
        at.len() == list.len(),
        at.no_duplicates(),
        forall|i: int|
            0 <= i < list.len() ==> 0 <= #[trigger] at[i] < users.len() && list[i].1
                == users[at[i]] && plain::comes_up(
                users[at[i]].birthdate@,
                from@,
                from@.day_number() + days,
                list[i].0@,
            ),
        forall|k: int, date: Ymd|
            0 <= k < users.len() && #[trigger] plain::comes_up(
                users[k].birthdate@,
                from@,
                from@.day_number() + days,
                date,
            ) ==> at.contains(k),
        forall|i: int, j: int|
            0 <= i < j < list.len() ==> (#[trigger] list[i]).0@.day_number() < (
            #[trigger] list[j]).0@.day_number() || list[i].0@.day_number()
                == list[j].0@.day_number() && at[i] < at[j],
{
    let at = choose|at: Seq<int>| elements::listed_at(users@, from@, days as int, list@, at);
    assert forall|i: int| 0 <= i < list.len() implies 0 <= #[trigger] at[i] < users.len()
        && list[i].1 == users[at[i]] && plain::comes_up(
        users[at[i]].birthdate@,
        from@,
        from@.day_number() + days,
        list[i].0@,
    ) by {
        lemma_comes_up(users[at[i]].birthdate@, from@, days as int);
    }
    assert forall|k: int, date: Ymd|
        0 <= k < users.len() && #[trigger] plain::comes_up(
            users[k].birthdate@,
            from@,
            from@.day_number() + days,
            date,
        ) implies at.contains(k) by {
        lemma_comes_up(users[k].birthdate@, from@, days as int);
    }
    assert forall|i: int, j: int| 0 <= i < j < list.len() implies at[i] != at[j] by {
        assert(list[i].0@.day_number() <= list[j].0@.day_number());
        if at[i] == at[j] {
            assert(list[i].0@ == list[j].0@);
        }
    }
    at
}

} // verus!
