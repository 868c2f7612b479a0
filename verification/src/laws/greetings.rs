//! When the chat greets, and whom.

use vstd::prelude::*;

use crate::calendar::{Date, Timestamp};
use crate::elements::{RepositoryError, StoreModel, UserRepository, UsernameDirectory};
use crate::greeting;
use crate::greeting::{GreetingSchedule, Step};
use crate::inmemory::InMemoryUserRepository;
use crate::laws::lists;
use crate::laws::plain;
use crate::laws::texts;
use crate::service::{BirthdayService, ChatMemberInfo, ChatPort};
use crate::text;

verus! {

/// There is a schedule for every hour of the day and for no other number. It says to greet exactly
/// if the hour of the day has come and the last greeting was on another day, and then on the day of
/// the clock. Else it says to wait: until the hour of this day, or of the next one if it has come.
pub proof fn greetings_keep_to_the_hour(
    hour: u32,
    last: Option<Date>,
    made: Option<GreetingSchedule>,
    now: Timestamp,
    step: Step,
)
    requires
        call_ensures(GreetingSchedule::new, (hour, last), made),
        made matches Some(schedule) ==> call_ensures(
            GreetingSchedule::next_step,
            (&schedule, now),
            step,
        ),
        now@.valid(),
    ensures
        made is Some <==> hour <= 23,
        made is Some ==> {
            let day = now@.secs / 86400;
            let greeted_today = last is Some && last->0@.day_number() == day + 719163;
            &&& step is Greet <==> now@.secs % 86400 >= hour * 3600 && !greeted_today
            &&& step matches Step::Greet { today } ==> today@.valid() && today@.day_number() == day
                + 719163
            &&& step matches Step::Wait { secs, nanos } ==> {
                let waited = secs * 1000000000 + nanos;
                let end = now@.secs * 1000000000 + now@.nanos + waited;
                let due = if now@.secs % 86400 < hour * 3600 {
                    day * 86400 + hour * 3600
                } else {
                    (day + 1) * 86400 + hour * 3600
                };
                &&& nanos < 1000000000
                &&& now@.nanos < 1000000000 ==> end == due * 1000000000 && 0 < waited
                    <= 86400000000000 && end % 86400000000000 == hour * 3600000000000
                &&& now@.nanos >= 1000000000 && now@.secs % 86400 < hour * 3600 ==> end == (due
                    + 1) * 1000000000
                &&& now@.nanos >= 1000000000 && now@.secs % 86400 >= hour * 3600 ==> waited == (
                if due * 1000000000 > now@.secs * 1000000000 + now@.nanos {
                    due * 1000000000 - (now@.secs * 1000000000 + now@.nanos)
                } else {
                    0
                })
            }
        },
{
    if made is Some {
        let day = now@.secs / 86400;
        let h = hour as int;
        assert(greeting::due_second(now@.day_number(), h) == day * 86400 + h * 3600);
        assert(greeting::due_second(now@.day_number() + 1, h) == (day + 1) * 86400 + h * 3600);
        let due = greeting::wait_until(h, now@);
        assert(due / 86400 == day <==> now@.secs % 86400 < h * 3600);
        if now@.nanos < 1000000000 {
            assert((due * 1000000000) % 86400000000000 == h * 3600000000000) by {
                let whole = if now@.secs % 86400 < h * 3600 {
                    day
                } else {
                    day + 1
                };
                assert(due * 1000000000 == whole * 86400000000000 + h * 3600000000000);
            }
        }
    }
}

/// Once the greeting of a day is noted, the schedule never says to greet on that day again, at
/// whatever time it is asked.
pub proof fn nobody_is_greeted_twice(
    schedule: &mut GreetingSchedule,
    day: Date,
    now: Timestamp,
    step: Step,
)
    requires
        call_ensures(GreetingSchedule::greeted, (schedule, day), ()),
        call_ensures(GreetingSchedule::next_step, (&*final(schedule), now), step),
        now@.secs / 86400 + 719163 == day@.day_number(),
    ensures
        step is Wait,
        final(schedule).hour() == old(schedule).hour(),
{
}

/// A greeting is recorded exactly if it was posted, and it is not tried again on its day in either
/// case. The hour stays.
pub proof fn posted_greetings_are_recorded(
    schedule: &mut GreetingSchedule,
    day: Date,
    done: bool,
    record: bool,
    now: Timestamp,
    step: Step,
)
    requires
        call_ensures(GreetingSchedule::posted, (schedule, day, done), record),
        call_ensures(GreetingSchedule::next_step, (&*final(schedule), now), step),
    ensures
        record == done,
        final(schedule).hour() == old(schedule).hour(),
        now@.secs / 86400 + 719163 == day@.day_number() ==> step is Wait,
        now@.secs / 86400 + 719163 != day@.day_number() && now@.secs % 86400 >= old(schedule).hour()
            * 3600 ==> step is Greet,
{
    let h = old(schedule).hour();
    assert(greeting::due_second(now@.day_number(), h) == now@.secs / 86400 * 86400 + h * 3600);
}

/// The greeting mentions every celebrant, by username or else by a link with their ID and name, in
/// the order of the list, with commas between them and nothing else; where nobody celebrates there
/// is none. `at` gives the places.
pub proof fn everybody_is_mentioned(
    celebrants: Vec<ChatMemberInfo>,
    greeting: Option<String>,
) -> (at: Seq<int>)
    requires
        call_ensures(greeting::birthday_wishes, (&celebrants,), greeting),
    ensures
        greeting is None <==> celebrants.len() == 0,
        greeting matches Some(said) ==> {
            &&& at.len() == celebrants.len()
            &&& plain::stands_at(said@, 0, "🎉 Happy birthday, "@)
            &&& at[0] == "🎉 Happy birthday, "@.len()
            &&& forall|i: int|
                0 <= i < celebrants.len() ==> plain::stands_at(
                    said@,
                    #[trigger] at[i],
                    plain::called(celebrants[i]),
                )
            &&& forall|i: int, j: int|
                0 <= i && j == i + 1 && j < celebrants.len() ==> #[trigger] at[j]
                    == #[trigger] at[i] + plain::called(celebrants[i]).len() + 2
                    && plain::stands_at(
                    said@,
                    at[i] + plain::called(celebrants[i]).len(),
                    seq![',', ' '],
                )
            &&& plain::stands_at(
                said@,
                at.last() + plain::called(celebrants[celebrants.len() - 1]).len(),
                "! 🎂🎈"@,
            )
            &&& said@.len() == at.last() + plain::called(celebrants[celebrants.len() - 1]).len()
                + "! 🎂🎈"@.len()
        },
{
    lemma_wishes(celebrants@)
}

proof fn lemma_called(member: ChatMemberInfo)
    ensures
        greeting::mention(member) == plain::called(member),
{
    reveal_strlit("@");
    match member.username {
        Some(username) => {
            assert("@"@ + username@ =~= seq!['@'] + username@);
        },
        None => {},
    }
}

proof fn lemma_wishes(celebrants: Seq<ChatMemberInfo>) -> (at: Seq<int>)
    ensures
        greeting::wishes(celebrants) is None <==> celebrants.len() == 0,
        greeting::wishes(celebrants) matches Some(said) ==> {
            &&& at.len() == celebrants.len()
            &&& plain::stands_at(said, 0, "🎉 Happy birthday, "@)
            &&& at[0] == "🎉 Happy birthday, "@.len()
            &&& forall|i: int|
                0 <= i < celebrants.len() ==> plain::stands_at(
                    said,
                    #[trigger] at[i],
                    plain::called(celebrants[i]),
                )
            &&& forall|i: int, j: int|
                0 <= i && j == i + 1 && j < celebrants.len() ==> #[trigger] at[j]
                    == #[trigger] at[i] + plain::called(celebrants[i]).len() + 2
                    && plain::stands_at(
                    said,
                    at[i] + plain::called(celebrants[i]).len(),
                    seq![',', ' '],
                )
            &&& plain::stands_at(
                said,
                at.last() + plain::called(celebrants[celebrants.len() - 1]).len(),
                "! 🎂🎈"@,
            )
            &&& said.len() == at.last() + plain::called(celebrants[celebrants.len() - 1]).len()
                + "! 🎂🎈"@.len()
        },
{
    if celebrants.len() == 0 {
        Seq::empty()
    } else {
        let head = "🎉 Happy birthday, "@;
        let tail = "! 🎂🎈"@;
        let parts = celebrants.map_values(|member: ChatMemberInfo| greeting::mention(member));
        let said = greeting::wishes(celebrants)->0;
        let middle = text::joined(parts, ", "@);
        reveal_strlit(", ");
        assert(", "@ =~= seq![',', ' ']);
        let inner = texts::lemma_joined(parts, ", "@);
        let at = texts::lemma_around(head, middle, tail, parts, ", "@, inner);
        assert(said =~= head + middle + tail);
        assert(said.subrange(0, head.len() as int) =~= head);
        assert forall|i: int| 0 <= i < celebrants.len() implies #[trigger] parts[i]
            == plain::called(celebrants[i]) by {
            lemma_called(celebrants[i]);
        }
        assert forall|i: int| 0 <= i < celebrants.len() implies plain::stands_at(
            said,
            #[trigger] at[i],
            plain::called(celebrants[i]),
        ) by {
            assert(plain::stands_at(said, at[i], parts[i]));
        }
        assert forall|i: int, j: int|
            0 <= i && j == i + 1 && j < celebrants.len() implies #[trigger] at[j]
            == #[trigger] at[i] + plain::called(celebrants[i]).len() + 2 && plain::stands_at(
            said,
            at[i] + plain::called(celebrants[i]).len(),
            seq![',', ' '],
        ) by {
            assert(plain::stands_at(said, at[i] + parts[i].len(), ", "@));
        }
        let last = celebrants.len() - 1;
        assert(parts.last() == parts[last]);
        let end = at.last() + parts[last].len();
        assert(end == head.len() + middle.len());
        assert(said.subrange(end, end + tail.len()) =~= tail);
        at
    }
}

/// Whoever celebrates today and is in the chat is mentioned in the greeting of the day, as the chat
/// found them.
pub proof fn present_celebrants_are_mentioned<R: UserRepository + UsernameDirectory, C: ChatPort>(
    service: BirthdayService<R, C>,
    today: Date,
    said: Option<String>,
    id: u64,
) -> (place: (ChatMemberInfo, int))
    requires
        call_ensures(greeting::todays_wishes::<R, C>, (&service, today), Ok(said)),
        service.repo().users().contains_key(id),
        plain::is_celebrated(service.repo().users()[id].birthdate@, today@),
        plain::is_found(service.chat(), id),
    ensures
        plain::was_found_as(service.chat(), id, place.0),
        said matches Some(words) && plain::stands_at(words@, place.1, plain::called(place.0)),
{
    let celebrants = choose|celebrants: Vec<ChatMemberInfo>| #[trigger]
        service.lists_celebrants(today, Ok(celebrants)) && greeting::wishes(celebrants@) == (
        match said {
            Some(words) => Some(words@),
            None => None,
        });
    let ids = lists::lemma_celebrants(service, today, celebrants);
    let at = lemma_wishes(celebrants@);
    assert(ids.contains(id));
    let i = choose|i: int| 0 <= i < ids.len() && ids[i] == id;
    assert(service.repo().users().contains_key(ids[i]));
    assert(plain::stands_at(said->0@, at[i], plain::called(celebrants[i])));
    (celebrants[i], at[i])
}

/// The greeting of the day is made only of mentions of people who celebrate today and whom the chat
/// found, each once; and there is a greeting only where there is such a person. `people` gives
/// their Telegram IDs, `members` what the chat found and `at` the places.
pub proof fn only_celebrants_are_mentioned<R: UserRepository + UsernameDirectory, C: ChatPort>(
    service: BirthdayService<R, C>,
    today: Date,
    words: String,
) -> (found: (Seq<u64>, Seq<ChatMemberInfo>, Seq<int>))
    requires
        call_ensures(greeting::todays_wishes::<R, C>, (&service, today), Ok(Some(words))),
    ensures
        ({
            let (people, members, at) = found;
            &&& people.len() > 0
            &&& members.len() == people.len()
            &&& at.len() == people.len()
            &&& people.no_duplicates()
            &&& forall|i: int|
                0 <= i < people.len() ==> service.repo().users().contains_key(#[trigger] people[i])
                    && plain::is_celebrated(
                    service.repo().users()[people[i]].birthdate@,
                    today@,
                ) && plain::was_found_as(service.chat(), people[i], members[i])
                    && plain::stands_at(words@, at[i], plain::called(members[i]))
            &&& at[0] == "🎉 Happy birthday, "@.len()
            &&& forall|i: int, j: int|
                0 <= i && j == i + 1 && j < people.len() ==> #[trigger] at[j]
                    == #[trigger] at[i] + plain::called(members[i]).len() + 2
            &&& words@.len() == at.last() + plain::called(members.last()).len() + "! 🎂🎈"@.len()
        }),
{
    let celebrants = choose|celebrants: Vec<ChatMemberInfo>| #[trigger]
        service.lists_celebrants(today, Ok(celebrants)) && greeting::wishes(celebrants@) == Some(
            words@,
        );
    let ids = lists::lemma_celebrants(service, today, celebrants);
    let at = lemma_wishes(celebrants@);
    assert forall|i: int| 0 <= i < ids.len() implies service.repo().users().contains_key(
        #[trigger] ids[i],
    ) && plain::is_celebrated(service.repo().users()[ids[i]].birthdate@, today@)
        && plain::was_found_as(service.chat(), ids[i], celebrants@[i]) && plain::stands_at(
        words@,
        at[i],
        plain::called(celebrants@[i]),
    ) by {
        assert(plain::stands_at(words@, at[i], plain::called(celebrants@[i])));
        assert(plain::was_found_as(service.chat(), ids[i], celebrants[i]));
    }
    (ids, celebrants@, at)
}

/// With a store in memory the greeting of the day never fails, and elsewhere only with the store.
pub proof fn greetings_fail_with_the_store<R: UserRepository + UsernameDirectory, C: ChatPort>(
    service: BirthdayService<R, C>,
    in_memory: BirthdayService<InMemoryUserRepository, C>,
    today: Date,
    error: RepositoryError,
    said: Result<Option<String>, RepositoryError>,
)
    requires
        call_ensures(greeting::todays_wishes::<R, C>, (&service, today), Err(error)),
        call_ensures(
            greeting::todays_wishes::<InMemoryUserRepository, C>,
            (&in_memory, today),
            said,
        ),
    ensures
        call_ensures(R::find_birthdays_for_date, (&service.repo(), today), Err(error)),
        said is Ok,
{
}

} // verus!
