//! The terms in which the laws are stated.

use vstd::prelude::*;

use crate::calendar::Ymd;
use crate::service::{ChatError, ChatMemberInfo, ChatPort};
use crate::text;

verus! {

/// How many days the month has.
pub open spec fn length_of_month(year: int, month: int) -> int {
    if month == 2 {
        if year % 400 == 0 || year % 4 == 0 && year % 100 != 0 {
            29
        } else {
            28
        }
    } else if month == 4 || month == 6 || month == 9 || month == 11 {
        30
    } else {
        31
    }
}

/// The birthday is celebrated on this day: on its own month and day, and Feb 29 on Feb 28 in a year
/// without a Feb 29.
pub open spec fn is_celebrated(birth: Ymd, date: Ymd) -> bool {
    ||| date.month == birth.month && date.day == birth.day
    ||| birth.month == 2 && birth.day == 29 && date.month == 2 && date.day == 28
        && length_of_month(date.year, 2) == 28
}

/// `date` is the first day from `from` on, not after the day `until`, that the birthday is
/// celebrated on.
pub open spec fn comes_up(birth: Ymd, from: Ymd, until: int, date: Ymd) -> bool {
    &&& date.valid()
    &&& is_celebrated(birth, date)
    &&& from.day_number() <= date.day_number() <= until
    &&& forall|other: Ymd|
        other.valid() && is_celebrated(birth, other) && from.day_number()
            <= #[trigger] other.day_number() ==> date.day_number() <= other.day_number()
}

/// Whenever the chat is asked for this user, it finds them.
pub open spec fn is_found<C: ChatPort>(chat: C, telegram_id: u64) -> bool {
    forall|answer: Result<Option<ChatMemberInfo>, ChatError>| #[trigger]
        call_ensures(C::present_member, (&chat, telegram_id), answer) ==> answer is Ok
            && answer->Ok_0 is Some
}

/// Whenever the chat is asked for this user, it says that they are not there.
pub open spec fn is_gone<C: ChatPort>(chat: C, telegram_id: u64) -> bool {
    forall|answer: Result<Option<ChatMemberInfo>, ChatError>| #[trigger]
        call_ensures(C::present_member, (&chat, telegram_id), answer) ==> answer is Ok
            && answer->Ok_0 is None
}

/// Whenever the chat is asked for this user, it fails.
pub open spec fn lookup_fails<C: ChatPort>(chat: C, telegram_id: u64) -> bool {
    forall|answer: Result<Option<ChatMemberInfo>, ChatError>| #[trigger]
        call_ensures(C::present_member, (&chat, telegram_id), answer) ==> answer is Err
}

/// The chat, asked for this user, found this member.
pub open spec fn was_found_as<C: ChatPort>(
    chat: C,
    telegram_id: u64,
    member: ChatMemberInfo,
) -> bool {
    call_ensures(
        C::present_member,
        (&chat, telegram_id),
        Ok::<Option<ChatMemberInfo>, ChatError>(Some(member)),
    )
}

/// Whenever the chat is asked, it says that this user is an admin.
pub open spec fn is_an_admin<C: ChatPort>(chat: C, telegram_id: u64) -> bool {
    forall|answer: Result<bool, ChatError>| #[trigger]
        call_ensures(C::is_admin, (&chat, telegram_id), answer) ==> answer is Ok && answer->Ok_0
}

/// Whenever the chat is asked, it says that this user is no admin, or fails.
pub open spec fn is_no_admin<C: ChatPort>(chat: C, telegram_id: u64) -> bool {
    forall|answer: Result<bool, ChatError>| #[trigger]
        call_ensures(C::is_admin, (&chat, telegram_id), answer) ==> answer is Err || !answer->Ok_0
}

/// `part` stands in `whole` at the place `i`.
pub open spec fn stands_at(whole: Seq<char>, i: int, part: Seq<char>) -> bool {
    &&& 0 <= i
    &&& i + part.len() <= whole.len()
    &&& whole.subrange(i, i + part.len()) == part
}

/// The parts stand in `whole` at the places `at`, one after the other, each with `separator` before
/// the next, and the last one ends at `end`.
pub open spec fn laid_out(
    whole: Seq<char>,
    parts: Seq<Seq<char>>,
    separator: Seq<char>,
    at: Seq<int>,
    end: int,
) -> bool {
    &&& at.len() == parts.len()
    &&& forall|i: int| 0 <= i < parts.len() ==> stands_at(whole, at[i], #[trigger] parts[i])
    &&& forall|i: int|
        0 <= i < parts.len() - 1 ==> stands_at(
            whole,
            at[i] + (#[trigger] parts[i]).len(),
            separator,
        ) && at[i + 1] == at[i] + parts[i].len() + separator.len()
    &&& parts.len() > 0 ==> at.last() + parts.last().len() == end
}

/// The digit that stands for `n`, for `n` below ten.
pub open spec fn digit(n: int) -> char {
    (n + 48) as char
}

/// The English name of the month.
pub open spec fn name_of_month(month: int) -> Seq<char> {
    if month == 1 {
        "January"@
    } else if month == 2 {
        "February"@
    } else if month == 3 {
        "March"@
    } else if month == 4 {
        "April"@
    } else if month == 5 {
        "May"@
    } else if month == 6 {
        "June"@
    } else if month == 7 {
        "July"@
    } else if month == 8 {
        "August"@
    } else if month == 9 {
        "September"@
    } else if month == 10 {
        "October"@
    } else if month == 11 {
        "November"@
    } else {
        "December"@
    }
}

/// A day as people read it: two digits, a space and the name of the month.
pub open spec fn day_in_words(month: int, day: int) -> Seq<char> {
    seq![digit(day / 10), digit(day % 10), ' '] + name_of_month(month)
}

/// `s` without the plus sign that it may begin with.
pub open spec fn unsigned(s: Seq<char>) -> Seq<char> {
    if s.len() > 0 && s[0] == '+' {
        s.skip(1)
    } else {
        s
    }
}

/// One or more of the digits from 0 to 9.
pub open spec fn is_number(s: Seq<char>) -> bool {
    s.len() > 0 && forall|i: int| 0 <= i < s.len() ==> 48 <= #[trigger] s[i] as u32 <= 57
}

/// The number that digits denote.
pub open spec fn value_of(s: Seq<char>) -> int
    decreases s.len(),
{
    if s.len() == 0 {
        0
    } else {
        value_of(s.drop_last()) * 10 + (s.last() as u32 - 48)
    }
}

/// Neither begins nor ends with white space.
pub open spec fn is_trim(s: Seq<char>) -> bool {
    s.len() > 0 ==> !text::is_white_space(s[0]) && !text::is_white_space(s.last())
}

/// How a greeting calls a member: by username, or else by a link with their name.
pub open spec fn called(member: ChatMemberInfo) -> Seq<char> {
    match member.username {
        Some(username) => seq!['@'] + username@,
        None => "<a href=\"tg://user?id="@ + text::natural(member.telegram_id as nat) + "\">"@
            + text::html_escaped(member.full_name@) + "</a>"@,
    }
}

/// How far away a day is.
pub open spec fn distance_in_words(days: int) -> Seq<char> {
    if days == 0 {
        "today! 🎉"@
    } else if days == 1 {
        "tomorrow"@
    } else {
        "in "@ + text::decimal(days) + " days"@
    }
}

/// The line for someone's birthday on `date`, told on the day `today`.
pub open spec fn line_for(today: Ymd, date: Ymd, name: Seq<char>) -> Seq<char> {
    "🎂 "@ + day_in_words(date.month, date.day) + " — "@ + name + " ("@ + distance_in_words(
        date.day_number() - today.day_number(),
    ) + ")"@
}

/// The days that a lookup reaches: as many as were asked for, but no more than 366.
pub open spec fn reach(days: int) -> int {
    if days <= 366 {
        days
    } else {
        366
    }
}

} // verus!
