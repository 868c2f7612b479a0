//! The daily greeting: when it is due and what it says.

use vstd::prelude::*;

use crate::calendar;
use crate::calendar::{Date, Instant, Timestamp, Ymd};
use crate::elements::{RepositoryError, UserRepository, UsernameDirectory};
use crate::service::{BirthdayService, ChatMemberInfo, ChatPort};
use crate::text;

verus! {

/// Hour of the daily greeting, in UTC, unless another one is configured.
pub const DEFAULT_GREETING_HOUR: u32 = 9;

/// The hour that a setting asks for: the default where there is none or where it is no number.
pub open spec fn hour_in(setting: Option<Seq<char>>) -> u32 {
    match setting {
        Some(written) => match text::u32_in(written) {
            Some(hour) => hour,
            None => DEFAULT_GREETING_HOUR,
        },
        None => DEFAULT_GREETING_HOUR,
    }
}

/// The hour that a setting asks for.
pub fn greeting_hour(setting: Option<&str>) -> (hour: u32)
    ensures
        hour == hour_in(
            match setting {
                Some(written) => Some(written@),
                None => None,
            },
        ),
{
    match setting {
        Some(written) => match text::parse_u32(written) {
            Some(hour) => hour,
            None => DEFAULT_GREETING_HOUR,
        },
        None => DEFAULT_GREETING_HOUR,
    }
}

/// The second on which the hour of the day with this number begins, counted from 1970.
pub open spec fn due_second(day_number: int, hour: int) -> int {
    (day_number - calendar::UNIX_EPOCH_DAY) * calendar::SECONDS_PER_DAY + hour * 3600
}

/// A greeting is due: the hour has come, and the last greeting was not today.
pub open spec fn is_due(hour: int, last: Option<Ymd>, now: Instant) -> bool {
    &&& now.secs >= due_second(now.day_number(), hour)
    &&& last matches Some(day) ==> day.day_number() != now.day_number()
}

/// The second until which to wait where no greeting is due: the hour today, or tomorrow if it has
/// come already.
pub open spec fn wait_until(hour: int, now: Instant) -> int {
    if now.secs < due_second(now.day_number(), hour) {
        due_second(now.day_number(), hour)
    } else {
        due_second(now.day_number() + 1, hour)
    }
}

/// How many nanoseconds to wait from `now` to the second `until`. A leap second that is under way
/// counts only where `until` is on the same day, and no wait is negative.
pub open spec fn wait_nanos(now: Instant, until: int) -> int {
    let plain = until * calendar::NANOS_PER_SECOND - now.total_nanos();
    let counted = if now.in_leap_second() && until / calendar::SECONDS_PER_DAY as int
        == now.secs / calendar::SECONDS_PER_DAY as int {
        plain + calendar::NANOS_PER_SECOND
    } else {
        plain
    };
    if counted > 0 {
        counted
    } else {
        0
    }
}

/// What to do next about the daily greeting.
#[derive(Debug, Clone, Copy, PartialEq, Eq, Structural)]
pub enum Step {
    /// Greet those who celebrate today.
    Greet { today: Date },
    /// Wait so many seconds and nanoseconds, then ask again.
    Wait { secs: u64, nanos: u32 },
}

/// When to greet: once a day, from a given hour on.
pub struct GreetingSchedule {
    hour: u32,
    last: Option<Date>,
}

impl GreetingSchedule {
    #[verifier::type_invariant]
    spec fn hour_of_a_day(self) -> bool {
        self.hour < 24
    }

    /// Hour of the greeting in UTC.
    pub closed spec fn hour(self) -> int {
        self.hour as int
    }

    /// Day of the last greeting.
    pub closed spec fn last(self) -> Option<Ymd> {
        match self.last {
            Some(day) => Some(day@),
            None => None,
        }
    }

    /// The schedule for this hour, given the day of the last greeting; `None` if there is no such
    /// hour.
    pub fn new(hour: u32, last: Option<Date>) -> (schedule: Option<Self>)
        ensures
            schedule is Some <==> hour < 24,
            schedule matches Some(made) ==> made.hour() == hour && made.last() == (match last {
                Some(day) => Some(day@),
                None => None,
            }),
    {
        if hour < 24 {
            Some(GreetingSchedule { hour, last })
        } else {
            None
        }
    }

    /// Notes that the greeting of this day is done.
    pub fn greeted(&mut self, day: Date)
        ensures
            final(self).hour() == old(self).hour(),
            final(self).last() == Some(day@),
    {
        proof {
            use_type_invariant(&*self);
        }
        self.last = Some(day);
    }

    /// Notes that a greeting of this day was posted, or was tried and failed. Either way it is not
    /// tried again by this schedule; only one that was posted is to be recorded, so that a failed
    /// one is caught up with after a restart.
    pub fn posted(&mut self, day: Date, done: bool) -> (record: bool)
        ensures
            record == done,
            final(self).hour() == old(self).hour(),
            final(self).last() == Some(day@),
    {
        self.greeted(day);
        done
    }

    /// What to do at the time `now`.
    pub fn next_step(&self, now: Timestamp) -> (step: Step)
        ensures
            match step {
                Step::Greet { today } => {
                    &&& is_due(self.hour(), self.last(), now@)
                    &&& today@.valid()
                    &&& today@.day_number() == now@.day_number()
                },
                Step::Wait { secs, nanos } => {
                    &&& !is_due(self.hour(), self.last(), now@)
                    &&& nanos < calendar::NANOS_PER_SECOND
                    &&& (Instant { secs: secs as int, nanos: nanos as int }).total_nanos()
                        == wait_nanos(now@, wait_until(self.hour(), now@))
                },
            },
    {
        proof {
            use_type_invariant(self);
        }
        let today = now.date();
        let secs: i64 = now.timestamp();
        let nanos: u32 = now.subsec_nanos();
        let due: i64 = calendar::second_at(today, self.hour);
        if secs < due {
            return wait_from(secs, nanos, due, true);
        }
        let greeted = match self.last {
            Some(day) => day.days_since(today) == 0,
            None => false,
        };
        if greeted {
            wait_from(secs, nanos, due + calendar::SECONDS_PER_DAY, false)
        } else {
            Step::Greet { today }
        }
    }
}

/// The wait from an instant to the second `until`, which is on the same day or not.
fn wait_from(secs: i64, nanos: u32, until: i64, same_day: bool) -> (step: Step)
    requires
        (Instant { secs: secs as int, nanos: nanos as int }).valid(),
        secs < until <= calendar::MAX_TIMESTAMP + 2 * calendar::SECONDS_PER_DAY,
        same_day == (until as int / calendar::SECONDS_PER_DAY as int == secs as int
            / calendar::SECONDS_PER_DAY as int),
    ensures
        step matches Step::Wait { secs: s, nanos: n } && n < calendar::NANOS_PER_SECOND && s
            * calendar::NANOS_PER_SECOND + n == wait_nanos(
            Instant { secs: secs as int, nanos: nanos as int },
            until as int,
        ),
{
    let mut whole: u64 = (until - secs) as u64;
    let mut part: u32 = nanos;
    if nanos >= calendar::NANOS_PER_SECOND {
        part = nanos - calendar::NANOS_PER_SECOND;
        if !same_day {
            whole = whole - 1;
        }
    }
    if part == 0 {
        Step::Wait { secs: whole, nanos: 0 }
    } else if whole == 0 {
        Step::Wait { secs: 0, nanos: 0 }
    } else {
        Step::Wait { secs: whole - 1, nanos: calendar::NANOS_PER_SECOND - part }
    }
}

/// Nobody is greeted twice on one day: once the day's greeting is noted, none is due on it.
pub proof fn greets_once_a_day(hour: int, day: Ymd, now: Instant)
    requires
        now.day_number() == day.day_number(),
    ensures
        !is_due(hour, Some(day), now),
{
}

/// A greeting that was missed is caught up with: from its hour to the end of the day it is due
/// whenever the last one was on another day, or there was none.
pub proof fn missed_greeting_is_due(hour: int, last: Option<Ymd>, now: Instant)
    requires
        last matches Some(day) ==> day.day_number() != now.day_number(),
        now.secs >= due_second(now.day_number(), hour),
    ensures
        is_due(hour, last, now),
{
}

/// Before the hour nobody is greeted.
pub proof fn never_greets_early(hour: int, last: Option<Ymd>, now: Instant)
    requires
        now.secs < due_second(now.day_number(), hour),
    ensures
        !is_due(hour, last, now),
{
}

/// A wait ends within a day, on the hour, and a greeting is due then, unless the last one was on
/// that very day already. Outside of leap seconds the wait is just as long as it takes.
pub proof fn wait_ends_on_the_hour(hour: int, last: Option<Ymd>, now: Instant, then: Instant)
    requires
        0 <= hour < 24,
        then == (Instant { secs: wait_until(hour, now), nanos: 0 }),
    ensures
        now.secs < then.secs <= now.secs + calendar::SECONDS_PER_DAY,
        then.secs == due_second(then.day_number(), hour),
        is_due(hour, last, then) <==> (last matches Some(day) ==> day.day_number()
            != then.day_number()),
        0 <= now.nanos < calendar::NANOS_PER_SECOND ==> now.total_nanos() + wait_nanos(
            now,
            then.secs,
        ) == then.total_nanos(),
{
    let day = if now.secs < due_second(now.day_number(), hour) {
        now.day_number()
    } else {
        now.day_number() + 1
    };
    assert(then.secs == (day - calendar::UNIX_EPOCH_DAY) * 86400 + hour * 3600);
    assert(then.secs / 86400 == day - calendar::UNIX_EPOCH_DAY);
}

/// How the greeting calls a member: by username, or by a link with their name.
pub open spec fn mention(member: ChatMemberInfo) -> Seq<char> {
    match member.username {
        Some(username) => "@"@ + username@,
        None => text::user_mention(member.telegram_id, member.full_name@),
    }
}

/// What the greeting says; nothing where nobody celebrates.
pub open spec fn wishes(celebrants: Seq<ChatMemberInfo>) -> Option<Seq<char>> {
    if celebrants.len() == 0 {
        None
    } else {
        Some(
            "🎉 Happy birthday, "@ + text::joined(
                celebrants.map_values(|member: ChatMemberInfo| mention(member)),
                ", "@,
            ) + "! 🎂🎈"@,
        )
    }
}

/// The greeting for those who celebrate, in the HTML of Telegram.
pub fn birthday_wishes(celebrants: &Vec<ChatMemberInfo>) -> (greeting: Option<String>)
    ensures
        match greeting {
            Some(said) => wishes(celebrants@) == Some(said@),
            None => wishes(celebrants@) is None,
        },
{
    if celebrants.len() == 0 {
        return None;
    }
    let ghost all = celebrants@.map_values(|member: ChatMemberInfo| mention(member));
    let mut mentions: Vec<String> = Vec::new();
    let mut i: usize = 0;
    while i < celebrants.len()
        invariant
            i <= celebrants.len(),
            mentions.len() == i,
            all == celebrants@.map_values(|member: ChatMemberInfo| mention(member)),
            forall|k: int| 0 <= k < i ==> (#[trigger] mentions[k])@ == all[k],
        decreases celebrants.len() - i,
    {
        let member = &celebrants[i];
        mentions.push(
            match &member.username {
                Some(username) => "@".to_owned().concat(username.as_str()),
                None => text::html_user_mention(member.telegram_id, member.full_name.as_str()),
            },
        );
        i = i + 1;
    }
    assert(text::views(mentions@) =~= all);
    let mut greeting = "🎉 Happy birthday, ".to_owned();
    greeting.append(text::join(&mentions, ", ").as_str());
    greeting.append("! 🎂🎈");
    Some(greeting)
}

/// The greeting for those in the chat who celebrate today.
pub fn todays_wishes<R: UserRepository + UsernameDirectory, C: ChatPort>(
    service: &BirthdayService<R, C>,
    today: Date,
) -> (greeting: Result<Option<String>, RepositoryError>)
    ensures
        match greeting {
            Ok(said) => exists|celebrants: Vec<ChatMemberInfo>| #[trigger]
                service.lists_celebrants(today, Ok(celebrants)) && wishes(celebrants@) == (
                match said {
                    Some(words) => Some(words@),
                    None => None,
                }),
            Err(error) => service.lists_celebrants(today, Err(error)),
        },
{
    match service.todays_celebrants(today) {
        Ok(celebrants) => {
            assert(service.lists_celebrants(today, Ok(celebrants)));
            Ok(birthday_wishes(&celebrants))
        },
        Err(error) => Err(error),
    }
}

} // verus!
