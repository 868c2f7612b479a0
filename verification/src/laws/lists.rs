//! Who is listed and who is greeted.

use vstd::prelude::*;

use crate::bot;
use crate::bot::Reply;
use crate::calendar::{Date, Timestamp, Ymd};
use crate::elements;
use crate::elements::{RepositoryError, StoreModel, UserRepository, UsernameDirectory};
use crate::guarantees;
use crate::inmemory::InMemoryUserRepository;
use crate::laws::days;
use crate::laws::plain;
use crate::laws::texts;
use crate::service;
use crate::service::{BirthdayService, ChatError, ChatMemberInfo, ChatPort, UpcomingBirthday};
use crate::text;

verus! {

/// A list of upcoming birthdays holds people with a stored birthday that comes up within the days
/// asked for, and at most 366, each once, with the day it comes up on and as the chat found them;
/// sooner days first. Everybody of whom that is true and whom the chat finds is on it. `ids` gives
/// their Telegram IDs.
pub proof fn upcoming_are_those_within_reach<R: UserRepository + UsernameDirectory, C: ChatPort>(
    service: BirthdayService<R, C>,
    from: Date,
    days: u32,
    list: Vec<UpcomingBirthday>,
    until: int,
) -> (ids: Seq<u64>)
    requires
        call_ensures(BirthdayService::<R, C>::upcoming_birthdays, (&service, from, days), Ok(list)),
        days <= 366 ==> until == from@.day_number() + days,
        days > 366 ==> until == from@.day_number() + 366,
    ensures
        ids.len() == list.len(),
        ids.no_duplicates(),
        forall|i: int|
            0 <= i < list.len() ==> service.repo().users().contains_key(#[trigger] ids[i])
                && plain::comes_up(
                service.repo().users()[ids[i]].birthdate@,
                from@,
                until,
                list[i].date@,
            ) && plain::was_found_as(service.chat(), ids[i], list[i].member),
        forall|id: u64, date: Ymd|
            service.repo().users().contains_key(id) && #[trigger] plain::comes_up(
                service.repo().users()[id].birthdate@,
                from@,
                until,
                date,
            ) && plain::is_found(service.chat(), id) ==> ids.contains(id),
        forall|i: int, j: int|
            0 <= i < j < list.len() ==> (#[trigger] list[i]).date@.day_number() <= (
            #[trigger] list[j]).date@.day_number(),
{
    lemma_upcoming(service, from, days, list, until)
}

pub(crate) proof fn lemma_upcoming<R: UserRepository + UsernameDirectory, C: ChatPort>(
    service: BirthdayService<R, C>,
    from: Date,
    days: u32,
    list: Vec<UpcomingBirthday>,
    until: int,
) -> (ids: Seq<u64>)
    requires
        service.lists_upcoming(from, days, Ok(list)),
        until == from@.day_number() + plain::reach(days as int),
    ensures
        ids.len() == list.len(),
        ids.no_duplicates(),
        forall|i: int|
            0 <= i < list.len() ==> service.repo().users().contains_key(#[trigger] ids[i])
                && plain::comes_up(
                service.repo().users()[ids[i]].birthdate@,
                from@,
                until,
                list[i].date@,
            ) && plain::was_found_as(service.chat(), ids[i], list[i].member),
        forall|id: u64, date: Ymd|
            service.repo().users().contains_key(id) && #[trigger] plain::comes_up(
                service.repo().users()[id].birthdate@,
                from@,
                until,
                date,
            ) && plain::is_found(service.chat(), id) ==> ids.contains(id),
        forall|i: int, j: int|
            0 <= i < j < list.len() ==> (#[trigger] list[i]).date@.day_number() <= (
            #[trigger] list[j]).date@.day_number(),
{
    let (found, answers, at) = guarantees::lemma_where_upcoming_come_from(
        service,
        from,
        days,
        list,
    );
    let users = service.repo().users();
    let ids = Seq::new(list@.len(), |i: int| found@[at[i]].1.telegram_id);
    let horizon = service::horizon(days) as int;
    assert(until == from@.day_number() + horizon);
    assert forall|i: int, j: int| 0 <= i < j < ids.len() implies ids[i] != ids[j] by {
        assert(at[i] < at[j]);
        assert(found@[at[i]].1.telegram_id != found@[at[j]].1.telegram_id);
    }
    assert forall|i: int| 0 <= i < list.len() implies users.contains_key(#[trigger] ids[i])
        && plain::comes_up(
        users[ids[i]].birthdate@,
        from@,
        until,
        list[i].date@,
    ) && plain::was_found_as(service.chat(), ids[i], list[i].member) by {
        let k = at[i];
        let user = found@[k].1;
        assert(users[user.telegram_id] == user);
        assert(list[i].date == found@[k].0);
        days::lemma_comes_up(user.birthdate@, from@, horizon);
        assert(call_ensures(C::present_member, (&service.chat(), user.telegram_id), answers[k]));
    }
    assert forall|id: u64, date: Ymd|
        users.contains_key(id) && #[trigger] plain::comes_up(
            users[id].birthdate@,
            from@,
            until,
            date,
        ) && plain::is_found(service.chat(), id) implies ids.contains(id) by {
        days::lemma_comes_up(users[id].birthdate@, from@, horizon);
        let k = choose|k: int| 0 <= k < found.len() && (#[trigger] found@[k]).1 == users[id];
        assert(call_ensures(C::present_member, (&service.chat(), id), answers[k]));
        assert(at.contains(k));
        let i = choose|i: int| 0 <= i < at.len() && at[i] == k;
        assert(ids[i] == id);
    }
    assert forall|i: int, j: int| 0 <= i < j < list.len() implies (
    #[trigger] list[i]).date@.day_number() <= (#[trigger] list[j]).date@.day_number() by {
        assert(at[i] < at[j]);
        assert(found@[at[i]].0@.day_number() <= found@[at[j]].0@.day_number());
    }
    ids
}

/// With a store in memory a lookup never fails.
pub proof fn lookups_in_memory_succeed<C: ChatPort>(
    service: BirthdayService<InMemoryUserRepository, C>,
    from: Date,
    days: u32,
    upcoming: Result<Vec<UpcomingBirthday>, RepositoryError>,
    celebrants: Result<Vec<ChatMemberInfo>, RepositoryError>,
)
    requires
        call_ensures(
            BirthdayService::<InMemoryUserRepository, C>::upcoming_birthdays,
            (&service, from, days),
            upcoming,
        ),
        call_ensures(
            BirthdayService::<InMemoryUserRepository, C>::todays_celebrants,
            (&service, from),
            celebrants,
        ),
    ensures
        upcoming is Ok,
        celebrants is Ok,
{
}

/// A lookup fails only where the store does, and with its error.
pub proof fn lookups_fail_with_the_store<R: UserRepository + UsernameDirectory, C: ChatPort>(
    service: BirthdayService<R, C>,
    from: Date,
    days: u32,
    upcoming_error: RepositoryError,
    celebrants_error: RepositoryError,
)
    requires
        call_ensures(
            BirthdayService::<R, C>::upcoming_birthdays,
            (&service, from, days),
            Err(upcoming_error),
        ),
        call_ensures(
            BirthdayService::<R, C>::todays_celebrants,
            (&service, from),
            Err(celebrants_error),
        ),
    ensures
        call_ensures(
            R::find_birthdays_within,
            (&service.repo(), from, plain::reach(days as int) as u32),
            Err(upcoming_error),
        ),
        call_ensures(
            R::find_birthdays_for_date,
            (&service.repo(), from),
            Err(celebrants_error),
        ),
{
    assert(service::horizon(days) == plain::reach(days as int) as u32);
}

/// The celebrants of a day are people whose birthday is celebrated on it, each once and as the chat
/// found them, and everybody of whom that is true and whom the chat finds is one. `ids` gives their
/// Telegram IDs.
pub proof fn celebrants_are_those_of_the_day<R: UserRepository + UsernameDirectory, C: ChatPort>(
    service: BirthdayService<R, C>,
    today: Date,
    list: Vec<ChatMemberInfo>,
) -> (ids: Seq<u64>)
    requires
        call_ensures(BirthdayService::<R, C>::todays_celebrants, (&service, today), Ok(list)),
    ensures
        ids.len() == list.len(),
        ids.no_duplicates(),
        forall|i: int|
            0 <= i < list.len() ==> service.repo().users().contains_key(#[trigger] ids[i])
                && plain::is_celebrated(service.repo().users()[ids[i]].birthdate@, today@)
                && plain::was_found_as(service.chat(), ids[i], list[i]),
        forall|id: u64| #[trigger]
            service.repo().users().contains_key(id) && plain::is_celebrated(
                service.repo().users()[id].birthdate@,
                today@,
            ) && plain::is_found(service.chat(), id) ==> ids.contains(id),
{
    lemma_celebrants(service, today, list)
}

/// Where the members that the chat found come from, in their order.
proof fn lemma_members_at(answers: Seq<Result<Option<ChatMemberInfo>, ChatError>>) -> (at: Seq<int>)
    ensures
        at.len() == service::members_present(answers).len(),
        forall|i: int|
            0 <= i < at.len() ==> 0 <= #[trigger] at[i] < answers.len() && answers[at[i]] == Ok::<
                Option<ChatMemberInfo>,
                ChatError,
            >(Some(service::members_present(answers)[i])),
        forall|i: int, j: int| 0 <= i < j < at.len() ==> #[trigger] at[i] < #[trigger] at[j],
        forall|k: int|
            0 <= k < answers.len() && answers[k] is Ok && answers[k]->Ok_0 is Some
                ==> #[trigger] at.contains(k),
    decreases answers.len(),
{
    if answers.len() == 0 {
        Seq::empty()
    } else {
        let last = answers.len() - 1;
        let rest = lemma_members_at(answers.drop_last());
        let at = match service::found_member(answers.last()) {
            Some(_) => rest.push(last),
            None => rest,
        };
        assert forall|k: int|
            0 <= k < answers.len() && answers[k] is Ok && answers[k]->Ok_0
                is Some implies #[trigger] at.contains(k) by {
            if k == last {
                assert(at[at.len() - 1] == k);
            } else {
                assert(answers.drop_last()[k] == answers[k]);
                assert(rest.contains(k));
                let i = choose|i: int| 0 <= i < rest.len() && rest[i] == k;
                assert(at[i] == k);
            }
        }
        assert forall|i: int| 0 <= i < at.len() implies 0 <= #[trigger] at[i] < answers.len()
            && answers[at[i]] == Ok::<Option<ChatMemberInfo>, ChatError>(
            Some(service::members_present(answers)[i]),
        ) by {
            if i < rest.len() {
                assert(at[i] == rest[i]);
                assert(answers.drop_last()[rest[i]] == answers[rest[i]]);
            }
        }
        assert forall|i: int, j: int| 0 <= i < j < at.len() implies #[trigger] at[i]
            < #[trigger] at[j] by {
            assert(at[i] == rest[i]);
            if j < rest.len() {
                assert(at[j] == rest[j]);
            }
        }
        at
    }
}

pub(crate) proof fn lemma_celebrants<R: UserRepository + UsernameDirectory, C: ChatPort>(
    service: BirthdayService<R, C>,
    today: Date,
    list: Vec<ChatMemberInfo>,
) -> (ids: Seq<u64>)
    requires
        service.lists_celebrants(today, Ok(list)),
    ensures
        ids.len() == list.len(),
        ids.no_duplicates(),
        forall|i: int|
            0 <= i < list.len() ==> service.repo().users().contains_key(#[trigger] ids[i])
                && plain::is_celebrated(service.repo().users()[ids[i]].birthdate@, today@)
                && plain::was_found_as(service.chat(), ids[i], list[i]),
        forall|id: u64| #[trigger]
            service.repo().users().contains_key(id) && plain::is_celebrated(
                service.repo().users()[id].birthdate@,
                today@,
            ) && plain::is_found(service.chat(), id) ==> ids.contains(id),
{
    let (found, answers) = guarantees::lemma_where_celebrants_come_from(service, today, list);
    let at = lemma_members_at(answers);
    let users = service.repo().users();
    let ids = Seq::new(list@.len(), |i: int| found@[at[i]].telegram_id);
    assert forall|i: int, j: int| 0 <= i < j < ids.len() implies ids[i] != ids[j] by {
        assert(at[i] < at[j]);
        assert(found@[at[i]].telegram_id != found@[at[j]].telegram_id);
    }
    assert forall|i: int| 0 <= i < list.len() implies users.contains_key(#[trigger] ids[i])
        && plain::is_celebrated(users[ids[i]].birthdate@, today@) && plain::was_found_as(
        service.chat(),
        ids[i],
        list[i],
    ) by {
        let k = at[i];
        let user = found@[k];
        assert(users[user.telegram_id] == user);
        assert(call_ensures(C::present_member, (&service.chat(), user.telegram_id), answers[k]));
    }
    assert forall|id: u64| #[trigger]
        users.contains_key(id) && plain::is_celebrated(users[id].birthdate@, today@)
            && plain::is_found(service.chat(), id) implies ids.contains(id) by {
        assert(elements::celebrated_on(users[id].birthdate@, today@));
        assert(found@.contains(users[id]));
        let k = choose|k: int| 0 <= k < found.len() && found@[k] == users[id];
        assert(call_ensures(C::present_member, (&service.chat(), id), answers[k]));
        assert(at.contains(k));
        let i = choose|i: int| 0 <= i < at.len() && at[i] == k;
        assert(ids[i] == id);
    }
    ids
}

/// Someone who is next: their Telegram ID, the day their birthday comes up on, and what the chat
/// found when asked for them.
pub struct Next {
    pub id: u64,
    pub date: Ymd,
    pub member: ChatMemberInfo,
}

/// These are the people, in the order of their days and each once, whose birthday comes up by the
/// day `until` and whom the chat found; everybody whom the chat always finds is among them.
pub open spec fn are_next<R: UserRepository + UsernameDirectory, C: ChatPort>(
    service: BirthdayService<R, C>,
    today: Ymd,
    until: int,
    people: Seq<Next>,
) -> bool {
    &&& forall|i: int|
        0 <= i < people.len() ==> service.repo().users().contains_key((#[trigger] people[i]).id)
            && plain::comes_up(
            service.repo().users()[people[i].id].birthdate@,
            today,
            until,
            people[i].date,
        ) && plain::was_found_as(service.chat(), people[i].id, people[i].member)
    &&& forall|i: int, j: int|
        0 <= i < j < people.len() ==> (#[trigger] people[i]).id != (#[trigger] people[j]).id
            && people[i].date.day_number() <= people[j].date.day_number()
    &&& forall|id: u64, date: Ymd|
        service.repo().users().contains_key(id) && #[trigger] plain::comes_up(
            service.repo().users()[id].birthdate@,
            today,
            until,
            date,
        ) && plain::is_found(service.chat(), id) ==> exists|i: int|
            0 <= i < people.len() && (#[trigger] people[i]).id == id && people[i].date == date
}

/// The words tell of these people: that there is nobody in so many days, or a heading and then one
/// line for each, in their order. `at` gives the places.
pub open spec fn tell_of(
    words: Seq<char>,
    today: Ymd,
    days: u32,
    people: Seq<Next>,
    at: Seq<int>,
) -> bool {
    if people.len() == 0 {
        words == "No birthdays in the next "@ + text::natural(days as nat) + " days."@
    } else {
        let heading = "Birthdays in the next "@ + text::natural(days as nat) + " days:\n"@;
        &&& plain::stands_at(words, 0, heading)
        &&& at[0] == heading.len()
        &&& plain::laid_out(
            words,
            people.map_values(
                |next: Next| plain::line_for(today, next.date, next.member.full_name@),
            ),
            "\n"@,
            at,
            words.len() as int,
        )
    }
}

/// The words answer a lookup on the day `today` for so many days, up to the day `until`: they tell
/// of everybody who is next.
pub open spec fn tells_who_is_next<R: UserRepository + UsernameDirectory, C: ChatPort>(
    service: BirthdayService<R, C>,
    today: Ymd,
    until: int,
    days: u32,
    words: Seq<char>,
) -> bool {
    exists|people: Seq<Next>, at: Seq<int>|
        are_next(service, today, until, people) && #[trigger] tell_of(
            words,
            today,
            days,
            people,
            at,
        )
}

/// A lookup is answered with a line for everybody who is next, or by saying that something went
/// wrong where the store failed.
pub proof fn lookups_tell_who_is_next<R: UserRepository + UsernameDirectory, C: ChatPort>(
    service: BirthdayService<R, C>,
    today: Date,
    days: u32,
    reply: Reply,
)
    requires
        call_ensures(bot::upcoming_reply::<R, C>, (&service, today, days), reply),
    ensures
        reply matches Reply::Text(words) && (tells_who_is_next(
            service,
            today@,
            today@.day_number() + (if days <= 366 {
                days as int
            } else {
                366
            }),
            days,
            words@,
        )
            || words@ == "Something went wrong looking up birthdays."@ && exists|
            error: RepositoryError,
        | #[trigger]
            call_ensures(
                R::find_birthdays_within,
                (&service.repo(), today, plain::reach(days as int) as u32),
                Err(error),
            )),
{
    lemma_soon_command(service, today, days, reply);
}

proof fn lemma_soon_command<R: UserRepository + UsernameDirectory, C: ChatPort>(
    service: BirthdayService<R, C>,
    today: Date,
    days: u32,
    reply: Reply,
)
    requires
        bot::soon_command(service, today, days, reply),
    ensures
        reply matches Reply::Text(words) && (tells_who_is_next(
            service,
            today@,
            today@.day_number() + (if days <= 366 {
                days as int
            } else {
                366
            }),
            days,
            words@,
        )
            || words@ == "Something went wrong looking up birthdays."@ && exists|
            error: RepositoryError,
        | #[trigger]
            call_ensures(
                R::find_birthdays_within,
                (&service.repo(), today, plain::reach(days as int) as u32),
                Err(error),
            )),
{
    let result = choose|result: Result<Vec<UpcomingBirthday>, RepositoryError>| #[trigger]
        service.lists_upcoming(today, days, result) && bot::says(
            reply,
            match result {
                Ok(list) => bot::soon_words(today@, days, list@),
                Err(_) => "Something went wrong looking up birthdays."@,
            },
        );
    assert(service::horizon(days) == plain::reach(days as int) as u32);
    match result {
        Ok(list) => {
            let words = bot::soon_words(today@, days, list@);
            let until = today@.day_number() + plain::reach(days as int);
            let ids = lemma_upcoming(service, today, days, list, until);
            let users = service.repo().users();
            assert forall|i: int| 0 <= i < list.len() implies (#[trigger] list[i]).date@.valid() by {
                assert(users.contains_key(ids[i]));
            }
            let at = texts::lemma_soon_words(today@, days, list@);
            let people = Seq::new(
                list@.len(),
                |i: int| Next { id: ids[i], date: list[i].date@, member: list[i].member },
            );
            assert forall|i: int|
                0 <= i < people.len() implies users.contains_key((#[trigger] people[i]).id)
                && plain::comes_up(
                users[people[i].id].birthdate@,
                today@,
                until,
                people[i].date,
            ) && plain::was_found_as(service.chat(), people[i].id, people[i].member) by {
                assert(users.contains_key(ids[i]));
            }
            assert forall|id: u64, date: Ymd|
                users.contains_key(id) && #[trigger] plain::comes_up(
                    users[id].birthdate@,
                    today@,
                    until,
                    date,
                ) && plain::is_found(service.chat(), id) implies exists|i: int|
                0 <= i < people.len() && (#[trigger] people[i]).id == id && people[i].date
                    == date by {
                assert(ids.contains(id));
                let i = choose|i: int| 0 <= i < ids.len() && ids[i] == id;
                assert(users.contains_key(ids[i]));
                days::lemma_comes_up(users[id].birthdate@, today@, plain::reach(days as int));
                assert(people[i].id == id && people[i].date == date);
            }
            assert forall|i: int, j: int| 0 <= i < j < people.len() implies (
            #[trigger] people[i]).id != (#[trigger] people[j]).id && people[i].date.day_number()
                <= people[j].date.day_number() by {
                assert(list[i].date@.day_number() <= list[j].date@.day_number());
            }
            assert(are_next(service, today@, until, people));
            assert(people.map_values(
                |next: Next| plain::line_for(today@, next.date, next.member.full_name@),
            ) =~= list@.map_values(
                |entry: UpcomingBirthday|
                    plain::line_for(today@, entry.date@, entry.member.full_name@),
            ));
            assert(tell_of(words, today@, days, people, at));
            assert(tells_who_is_next(
                service,
                today@,
                until,
                days,
                words,
            ));
        },
        Err(error) => {
            assert(call_ensures(
                R::find_birthdays_within,
                (&service.repo(), today, plain::reach(days as int) as u32),
                Err(error),
            ));
        },
    }
}

/// With a store in memory, a lookup command with a number behind it is answered, for the day that
/// the clock shows, with a line for everybody who is next within so many days, and at most 366;
/// without a number within 15 days; and with anything else by how to write it.
pub proof fn lookup_commands_tell_who_is_next<C: ChatPort>(
    service: BirthdayService<InMemoryUserRepository, C>,
    before: Seq<char>,
    written: Seq<char>,
    after: Seq<char>,
    reply: Reply,
) -> (today: Date)
    requires
        bot::soon_now(service, before + written + after, reply),
        text::all_white_space(before),
        text::all_white_space(after),
        plain::is_trim(written),
    ensures
        reply matches Reply::Text(words) && {
            let number = plain::unsigned(written);
            if written.len() == 0 {
                tells_who_is_next(service, today@, today@.day_number() + 15, 15, words@)
            } else if plain::is_number(number) && plain::value_of(number) <= u32::MAX {
                let days = if plain::value_of(number) <= 366 {
                    plain::value_of(number)
                } else {
                    366
                };
                tells_who_is_next(
                    service,
                    today@,
                    today@.day_number() + days,
                    days as u32,
                    words@,
                )
            } else {
                words@ == "Please use the format: /soon [days]"@
            }
        },
        written.len() == 0 || plain::is_number(plain::unsigned(written)) && plain::value_of(
            plain::unsigned(written),
        ) <= u32::MAX ==> exists|now: Timestamp| #[trigger]
            call_ensures(Timestamp::now, (), now) && today@.day_number() == now@.secs / 86400
                + 719163,
{
    text::trimming_takes_the_white_space_around(before, written, after);
    texts::lemma_u32_in(written);
    texts::lemma_value_is_natural(plain::unsigned(written));
    match bot::soon_days_in(before + written + after) {
        Some(days) => {
            let (now, today) = choose|now: Timestamp, today: Date|
                {
                    &&& #[trigger] call_ensures(Timestamp::now, (), now)
                    &&& today@.valid()
                    &&& today@.day_number() == now@.day_number()
                    &&& #[trigger] bot::soon_command(service, today, days, reply)
                };
            lemma_soon_command(service, today, days, reply);
            today
        },
        None => arbitrary(),
    }
}

} // verus!
