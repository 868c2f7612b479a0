//! What the chat can rely on, whatever Telegram and the store answer.

use vstd::prelude::*;

use crate::bot;
use crate::bot::{Entity, Message, Reply};
use crate::calendar;
use crate::calendar::Date;
use crate::elements;
use crate::elements::{RepositoryError, StoreModel, User, UserRepository, UsernameDirectory};
use crate::inmemory;
use crate::inmemory::InMemoryUserRepository;
use crate::service;
use crate::service::{
    AddBirthdayError, Added, BirthdayService, ChatError, ChatMemberInfo, ChatPort, Removed, Target,
    UpcomingBirthday,
};
use crate::text;

verus! {

/// The chat never says that this user is an admin: it says that they are not, or does not answer.
pub open spec fn never_admin<C: ChatPort>(chat: C, telegram_id: u64) -> bool {
    forall|answer: Result<bool, ChatError>| #[trigger]
        call_ensures(C::is_admin, (&chat, telegram_id), answer) ==> answer != Ok::<bool, ChatError>(
            true,
        )
}

/// The chat says that this user is an admin.
pub open spec fn always_admin<C: ChatPort>(chat: C, telegram_id: u64) -> bool {
    forall|answer: Result<bool, ChatError>| #[trigger]
        call_ensures(C::is_admin, (&chat, telegram_id), answer) ==> answer == Ok::<bool, ChatError>(
            true,
        )
}

/// The chat does not find this user: it says that they are not there, or does not answer.
pub open spec fn never_present<C: ChatPort>(chat: C, telegram_id: u64) -> bool {
    forall|answer: Result<Option<ChatMemberInfo>, ChatError>| #[trigger]
        call_ensures(C::present_member, (&chat, telegram_id), answer) ==> service::found_member(
            answer,
        ) is None
}

/// The chat says that this user is not there.
pub open spec fn always_absent<C: ChatPort>(chat: C, telegram_id: u64) -> bool {
    forall|answer: Result<Option<ChatMemberInfo>, ChatError>| #[trigger]
        call_ensures(C::present_member, (&chat, telegram_id), answer) ==> answer == Ok::<
            Option<ChatMemberInfo>,
            ChatError,
        >(None)
}

/// The chat finds this user.
pub open spec fn always_present<C: ChatPort>(chat: C, telegram_id: u64) -> bool {
    forall|answer: Result<Option<ChatMemberInfo>, ChatError>| #[trigger]
        call_ensures(C::present_member, (&chat, telegram_id), answer) ==> service::found_member(
            answer,
        ) is Some
}

/// `target` is the user `telegram_id`, called `name`, as far as the service knows.
pub open spec fn known_as<R: UserRepository + UsernameDirectory, C: ChatPort>(
    service: BirthdayService<R, C>,
    target: Target,
    telegram_id: u64,
    name: Seq<char>,
) -> bool {
    match target {
        Target::User { telegram_id: id, name: called } => id == telegram_id && called@ == name,
        Target::Username(raw) => {
            let key = service::username_key(raw@);
            &&& service.repo().usernames().contains_key(key)
            &&& service.repo().usernames()[key] == telegram_id
            &&& name == seq!['@'] + key
        },
    }
}

/// The store could not look the username of `target` up, and `error` says why.
pub open spec fn lookup_failed<R: UserRepository + UsernameDirectory, C: ChatPort>(
    service: BirthdayService<R, C>,
    target: Target,
    error: AddBirthdayError,
) -> bool {
    &&& target matches Target::Username(raw)
    &&& error matches AddBirthdayError::Repository(reason)
    &&& service.lookup_fails(service::username_key(raw@), reason)
}

/// Whoever is not known as an admin can save a birthday for nobody but themselves, and a failed
/// admin check denies: the attempt fails and nothing is stored. It fails for want of rights,
/// unless the store could not even look the username up.
pub proof fn only_admins_save_for_others<R: UserRepository + UsernameDirectory, C: ChatPort>(
    before: BirthdayService<R, C>,
    after: BirthdayService<R, C>,
    actor_id: u64,
    target: Target,
    telegram_id: u64,
    name: Seq<char>,
    birthdate: Date,
    result: Result<Added, AddBirthdayError>,
)
    requires
        BirthdayService::adds(before, after, actor_id, Some(target), birthdate, result),
        known_as(before, target, telegram_id, name),
        telegram_id != actor_id,
        never_admin(before.chat(), actor_id),
    ensures
        after.repo() == before.repo(),
        match result {
            Ok(_) => false,
            Err(error) => error == AddBirthdayError::NotAdmin || lookup_failed(
                before,
                target,
                error,
            ),
        },
{
}

/// The same of removing a birthday.
pub proof fn only_admins_remove_for_others<R: UserRepository + UsernameDirectory, C: ChatPort>(
    before: BirthdayService<R, C>,
    after: BirthdayService<R, C>,
    actor_id: u64,
    target: Target,
    telegram_id: u64,
    name: Seq<char>,
    result: Result<Removed, AddBirthdayError>,
)
    requires
        BirthdayService::removes(before, after, actor_id, Some(target), result),
        known_as(before, target, telegram_id, name),
        telegram_id != actor_id,
        never_admin(before.chat(), actor_id),
    ensures
        after.repo() == before.repo(),
        match result {
            Ok(_) => false,
            Err(error) => error == AddBirthdayError::NotAdmin || lookup_failed(
                before,
                target,
                error,
            ),
        },
{
}

/// Nobody, not even an admin, saves a birthday for a target whom the chat does not find.
pub proof fn only_members_can_be_targets<R: UserRepository + UsernameDirectory, C: ChatPort>(
    before: BirthdayService<R, C>,
    after: BirthdayService<R, C>,
    actor_id: u64,
    target: Target,
    telegram_id: u64,
    name: Seq<char>,
    birthdate: Date,
    result: Result<Added, AddBirthdayError>,
)
    requires
        BirthdayService::adds(before, after, actor_id, Some(target), birthdate, result),
        known_as(before, target, telegram_id, name),
        never_present(before.chat(), telegram_id),
    ensures
        after.repo() == before.repo(),
        result is Err,
{
}

/// An admin who targets someone who is known but not in the chat is told so.
pub proof fn absent_targets_are_named<R: UserRepository + UsernameDirectory, C: ChatPort>(
    before: BirthdayService<R, C>,
    after: BirthdayService<R, C>,
    actor_id: u64,
    target: Target,
    telegram_id: u64,
    name: Seq<char>,
    birthdate: Date,
    result: Result<Added, AddBirthdayError>,
)
    requires
        BirthdayService::adds(before, after, actor_id, Some(target), birthdate, result),
        known_as(before, target, telegram_id, name),
        telegram_id == actor_id || always_admin(before.chat(), actor_id),
        always_absent(before.chat(), telegram_id),
        forall|error: AddBirthdayError| !#[trigger] lookup_failed(before, target, error),
    ensures
        after.repo() == before.repo(),
        result matches Err(AddBirthdayError::NotInChat(called)) && called@ == name,
{
    assert(!lookup_failed(before, target, result->Err_0));
}

/// A username that the bot never saw cannot be targeted, and the answer repeats it as it was
/// written.
pub proof fn unseen_usernames_are_refused<R: UserRepository + UsernameDirectory, C: ChatPort>(
    before: BirthdayService<R, C>,
    after_adding: BirthdayService<R, C>,
    after_removing: BirthdayService<R, C>,
    actor_id: u64,
    raw: String,
    birthdate: Date,
    added: Result<Added, AddBirthdayError>,
    removed: Result<Removed, AddBirthdayError>,
)
    requires
        BirthdayService::adds(
            before,
            after_adding,
            actor_id,
            Some(Target::Username(raw)),
            birthdate,
            added,
        ),
        BirthdayService::removes(
            before,
            after_removing,
            actor_id,
            Some(Target::Username(raw)),
            removed,
        ),
        !before.repo().usernames().contains_key(service::username_key(raw@)),
        forall|error: AddBirthdayError|
            !#[trigger] lookup_failed(before, Target::Username(raw), error),
    ensures
        added == Err::<Added, AddBirthdayError>(AddBirthdayError::UnknownUsername(raw)),
        removed == Err::<Removed, AddBirthdayError>(AddBirthdayError::UnknownUsername(raw)),
        after_adding.repo() == before.repo(),
        after_removing.repo() == before.repo(),
{
    assert(!lookup_failed(before, Target::Username(raw), added->Err_0));
    assert(!lookup_failed(before, Target::Username(raw), removed->Err_0));
}

/// Once a username was recorded, it can be targeted in any case and with an `@` before it, and
/// then means whoever it was recorded for last.
pub proof fn recorded_usernames_resolve<R: UserRepository + UsernameDirectory, C: ChatPort>(
    before: BirthdayService<R, C>,
    after: BirthdayService<R, C>,
    username: Seq<char>,
    telegram_id: u64,
    raw: String,
)
    requires
        after.repo().usernames() == before.repo().usernames().insert(
            text::lowercase(username),
            telegram_id,
        ),
        text::lowercase(text::without_at(raw@)) == text::lowercase(username),
    ensures
        known_as(after, Target::Username(raw), telegram_id, seq!['@'] + text::lowercase(username)),
{
}

/// Neither saving nor removing a birthday touches the known usernames, whatever comes of it.
pub proof fn birthdays_leave_usernames_alone<R: UserRepository + UsernameDirectory, C: ChatPort>(
    before: BirthdayService<R, C>,
    after_adding: BirthdayService<R, C>,
    after_removing: BirthdayService<R, C>,
    actor_id: u64,
    target: Option<Target>,
    birthdate: Date,
    added: Result<Added, AddBirthdayError>,
    removed: Result<Removed, AddBirthdayError>,
)
    requires
        BirthdayService::adds(before, after_adding, actor_id, target, birthdate, added),
        BirthdayService::removes(before, after_removing, actor_id, target, removed),
    ensures
        after_adding.repo().usernames() == before.repo().usernames(),
        after_removing.repo().usernames() == before.repo().usernames(),
{
}

/// Observing a message never touches the birthdays.
pub proof fn observing_leaves_birthdays_alone<R: UserRepository + UsernameDirectory, C: ChatPort>(
    before: BirthdayService<R, C>,
    after: BirthdayService<R, C>,
    message: Message,
    answer: Result<(), RepositoryError>,
)
    requires
        bot::observes(before, after, message, answer),
    ensures
        after.repo().users() == before.repo().users(),
{
}

/// Any number of `@` signs before a username that starts with none are not part of it.
pub proof fn at_signs_do_not_matter(signs: Seq<char>, username: Seq<char>)
    requires
        forall|i: int| 0 <= i < signs.len() ==> #[trigger] signs[i] == '@',
        username.len() > 0 ==> username[0] != '@',
    ensures
        service::username_key(signs + username) == text::lowercase(username),
    decreases signs.len(),
{
    if signs.len() == 0 {
        assert(signs + username =~= username);
    } else {
        assert((signs + username)[0] == signs[0]);
        assert((signs + username).skip(1) =~= signs.skip(1) + username);
        at_signs_do_not_matter(signs.skip(1), username);
    }
}

/// With a store in memory, everybody can save their own birthday, with or without being an admin.
pub proof fn own_birthday_is_saved<C: ChatPort>(
    before: BirthdayService<InMemoryUserRepository, C>,
    after: BirthdayService<InMemoryUserRepository, C>,
    actor_id: u64,
    birthdate: Date,
    result: Result<Added, AddBirthdayError>,
)
    requires
        BirthdayService::adds(before, after, actor_id, None, birthdate, result),
    ensures
        result == Ok::<Added, AddBirthdayError>(Added::ForSelf),
        elements::birthday_saved(
            before.repo().users(),
            after.repo().users(),
            actor_id,
            birthdate,
        ),
{
}

/// With a store in memory, whoever targets themselves and is in the chat needs no further rights,
/// and an admin saves the birthday of anyone whom the bot knows and who is in the chat.
pub proof fn permitted_birthday_is_saved<C: ChatPort>(
    before: BirthdayService<InMemoryUserRepository, C>,
    after: BirthdayService<InMemoryUserRepository, C>,
    actor_id: u64,
    target: Target,
    telegram_id: u64,
    name: Seq<char>,
    birthdate: Date,
    result: Result<Added, AddBirthdayError>,
)
    requires
        BirthdayService::adds(before, after, actor_id, Some(target), birthdate, result),
        known_as(before, target, telegram_id, name),
        telegram_id == actor_id || always_admin(before.chat(), actor_id),
        always_present(before.chat(), telegram_id),
    ensures
        result is Ok,
        telegram_id == actor_id ==> result == Ok::<Added, AddBirthdayError>(Added::ForSelf),
        telegram_id != actor_id ==> (result matches Ok(Added::ForOther { name: called })
            && called@ == name),
        elements::birthday_saved(
            before.repo().users(),
            after.repo().users(),
            telegram_id,
            birthdate,
        ),
{
}

/// With a store in memory, saving a birthday through the service touches nobody but the one person
/// whose birthday it is: everybody else and the known usernames stay as they were.
pub proof fn saving_touches_nobody_else<C: ChatPort>(
    before: BirthdayService<InMemoryUserRepository, C>,
    after: BirthdayService<InMemoryUserRepository, C>,
    actor_id: u64,
    target: Option<Target>,
    birthdate: Date,
    result: Result<Added, AddBirthdayError>,
) -> (telegram_id: u64)
    requires
        BirthdayService::adds(before, after, actor_id, target, birthdate, result),
    ensures
        after.repo().users().remove(telegram_id) == before.repo().users().remove(telegram_id),
        target is None ==> telegram_id == actor_id,
        result is Ok ==> after.repo().users().contains_key(telegram_id)
            && after.repo().users()[telegram_id].birthdate == birthdate,
        result is Err ==> after.repo() == before.repo(),
        after.repo().usernames() == before.repo().usernames(),
{
    match target {
        None => {
            inmemory::adding_leaves_others_alone(
                before.repo(),
                after.repo(),
                actor_id,
                birthdate,
                Ok(()),
            );
            actor_id
        },
        Some(whom) => {
            let found = choose|found: Result<(u64, String), AddBirthdayError>| #[trigger]
                before.resolves(whom, found) && (match found {
                    Ok((telegram_id, name)) => BirthdayService::adds_for(
                        before,
                        after,
                        actor_id,
                        telegram_id,
                        name,
                        birthdate,
                        result,
                    ),
                    Err(error) => after.repo() == before.repo() && result == Err::<
                        Added,
                        AddBirthdayError,
                    >(error),
                });
            match found {
                Ok((telegram_id, _)) => {
                    if result is Ok {
                        inmemory::adding_leaves_others_alone(
                            before.repo(),
                            after.repo(),
                            telegram_id,
                            birthdate,
                            Ok(()),
                        );
                    }
                    telegram_id
                },
                Err(_) => actor_id,
            }
        },
    }
}

/// With a store in memory, whoever is allowed to removes a birthday, whether or not its person is
/// still in the chat.
pub proof fn permitted_removal_succeeds<C: ChatPort>(
    before: BirthdayService<InMemoryUserRepository, C>,
    after: BirthdayService<InMemoryUserRepository, C>,
    actor_id: u64,
    target: Target,
    telegram_id: u64,
    name: Seq<char>,
    result: Result<Removed, AddBirthdayError>,
)
    requires
        BirthdayService::removes(before, after, actor_id, Some(target), result),
        known_as(before, target, telegram_id, name),
        telegram_id == actor_id || always_admin(before.chat(), actor_id),
    ensures
        after.repo().users() == before.repo().users().remove(telegram_id),
        ({
            let existed = before.repo().users().contains_key(telegram_id);
            if telegram_id == actor_id {
                result == Ok::<Removed, AddBirthdayError>(Removed::ForSelf { existed })
            } else {
                result matches Ok(Removed::ForOther { name: called, existed: e }) && called@ == name
                    && e == existed
            }
        }),
{
}

/// With a store in memory, everybody can remove their own birthday, in the chat or not.
pub proof fn own_birthday_is_removed<C: ChatPort>(
    before: BirthdayService<InMemoryUserRepository, C>,
    after: BirthdayService<InMemoryUserRepository, C>,
    actor_id: u64,
    result: Result<Removed, AddBirthdayError>,
)
    requires
        BirthdayService::removes(before, after, actor_id, None, result),
    ensures
        result == Ok::<Removed, AddBirthdayError>(
            Removed::ForSelf { existed: before.repo().users().contains_key(actor_id) },
        ),
        after.repo().users() == before.repo().users().remove(actor_id),
{
}

/// A second removal finds nothing, and changes nothing.
pub proof fn second_removal_finds_nothing<R: UserRepository + UsernameDirectory, C: ChatPort>(
    first: BirthdayService<R, C>,
    second: BirthdayService<R, C>,
    third: BirthdayService<R, C>,
    actor_id: u64,
    existed: bool,
    again: bool,
)
    requires
        BirthdayService::removes(
            first,
            second,
            actor_id,
            None,
            Ok(Removed::ForSelf { existed }),
        ),
        BirthdayService::removes(
            second,
            third,
            actor_id,
            None,
            Ok(Removed::ForSelf { existed: again }),
        ),
    ensures
        existed == first.repo().users().contains_key(actor_id),
        !again,
        third.repo().users() == second.repo().users(),
{
    assert(third.repo().users() =~= second.repo().users());
}

/// Each entry of a list of upcoming birthdays comes from an entry of what the store found, in the
/// same order, and only those are left out whom the chat did not find; `at` gives the places.
pub open spec fn picks(
    found: Seq<(Date, User)>,
    answers: Seq<Result<Option<ChatMemberInfo>, ChatError>>,
    list: Seq<UpcomingBirthday>,
    at: Seq<int>,
) -> bool {
    &&& at.len() == list.len()
    &&& forall|i: int|
        0 <= i < list.len() ==> {
            &&& 0 <= #[trigger] at[i] < found.len()
            &&& list[i].date == found[at[i]].0
            &&& service::found_member(answers[at[i]]) == Some(list[i].member)
        }
    &&& forall|i: int, j: int|
        0 <= i < j < list.len() ==> #[trigger] at[i] < #[trigger] at[j]
    &&& forall|k: int|
        0 <= k < found.len() && service::found_member(answers[k]) is Some
            ==> #[trigger] at.contains(k)
}

/// Exactly those are left out of a list whom the chat did not find.
pub proof fn only_the_absent_are_skipped(
    found: Seq<(Date, User)>,
    answers: Seq<Result<Option<ChatMemberInfo>, ChatError>>,
) -> (at: Seq<int>)
    requires
        answers.len() == found.len(),
    ensures
        picks(found, answers, service::upcoming_present(found, answers), at),
    decreases found.len(),
{
    if found.len() == 0 {
        Seq::empty()
    } else {
        let last = found.len() - 1;
        let rest = only_the_absent_are_skipped(found.drop_last(), answers.drop_last());
        let list = service::upcoming_present(found, answers);
        let at = match service::found_member(answers.last()) {
            Some(_) => rest.push(last),
            None => rest,
        };
        assert forall|k: int|
            0 <= k < found.len() && service::found_member(answers[k])
                is Some implies #[trigger] at.contains(k) by {
            if k == last {
                assert(at[at.len() - 1] == k);
            } else {
                assert(answers.drop_last()[k] == answers[k]);
                assert(rest.contains(k));
                let i = choose|i: int| 0 <= i < rest.len() && rest[i] == k;
                assert(at[i] == k);
            }
        }
        assert forall|i: int| 0 <= i < list.len() implies {
            &&& 0 <= #[trigger] at[i] < found.len()
            &&& list[i].date == found[at[i]].0
            &&& service::found_member(answers[at[i]]) == Some(list[i].member)
        } by {
            if i < rest.len() {
                assert(at[i] == rest[i]);
                assert(found.drop_last()[rest[i]] == found[rest[i]]);
                assert(answers.drop_last()[rest[i]] == answers[rest[i]]);
            }
        }
        assert forall|i: int, j: int| 0 <= i < j < list.len() implies #[trigger] at[i]
            < #[trigger] at[j] by {
            assert(at[i] == rest[i]);
            if j < rest.len() {
                assert(at[j] == rest[j]);
            }
        }
        at
    }
}

/// What the store found and the chat answered behind a list of upcoming birthdays, and the places
/// of the entries that are on it.
pub(crate) proof fn lemma_where_upcoming_come_from<R: UserRepository + UsernameDirectory, C: ChatPort>(
    service: BirthdayService<R, C>,
    from: Date,
    days: u32,
    list: Vec<UpcomingBirthday>,
) -> (origin: (Vec<(Date, User)>, Seq<Result<Option<ChatMemberInfo>, ChatError>>, Seq<int>))
    requires
        service.lists_upcoming(from, days, Ok(list)),
    ensures
        service.upcoming_from(from, days, origin.0, origin.1, list),
        picks(origin.0@, origin.1, list@, origin.2),
{
    let (found, answers) = choose|
        found: Vec<(Date, User)>,
        answers: Seq<Result<Option<ChatMemberInfo>, ChatError>>,
    | #[trigger]
        service.upcoming_from(from, days, found, answers, list);
    (found, answers, only_the_absent_are_skipped(found@, answers))
}

/// What the store found and the chat answered behind a list of celebrants.
pub(crate) proof fn lemma_where_celebrants_come_from<R: UserRepository + UsernameDirectory, C: ChatPort>(
    service: BirthdayService<R, C>,
    today: Date,
    list: Vec<ChatMemberInfo>,
) -> (origin: (Vec<User>, Seq<Result<Option<ChatMemberInfo>, ChatError>>))
    requires
        service.lists_celebrants(today, Ok(list)),
    ensures
        service.celebrants_from(today, origin.0, origin.1, list),
{
    choose|found: Vec<User>, answers: Seq<Result<Option<ChatMemberInfo>, ChatError>>| #[trigger]
        service.celebrants_from(today, found, answers, list)
}

/// A list of upcoming birthdays is sorted by soonest first, and no entry is further away than was
/// asked for.
pub proof fn upcoming_are_sorted_and_near<R: UserRepository + UsernameDirectory, C: ChatPort>(
    service: BirthdayService<R, C>,
    from: Date,
    days: u32,
    list: Vec<UpcomingBirthday>,
)
    requires
        service.lists_upcoming(from, days, Ok(list)),
    ensures
        forall|i: int, j: int|
            0 <= i < j < list.len() ==> (#[trigger] list[i]).date@.day_number() <= (
            #[trigger] list[j]).date@.day_number(),
        forall|i: int|
            0 <= i < list.len() ==> from@.day_number() <= (#[trigger] list[i]).date@.day_number()
                <= from@.day_number() + days && list[i].date@.day_number() <= from@.day_number()
                + service::MAX_SOON_DAYS,
{
    let (found, answers, at) = lemma_where_upcoming_come_from(service, from, days, list);
    assert forall|i: int, j: int| 0 <= i < j < list.len() implies (
    #[trigger] list[i]).date@.day_number() <= (#[trigger] list[j]).date@.day_number() by {
        assert(at[i] < at[j]);
        assert(found@[at[i]].0@.day_number() <= found@[at[j]].0@.day_number());
    }
    assert forall|i: int| 0 <= i < list.len() implies from@.day_number() <= (
    #[trigger] list[i]).date@.day_number() <= from@.day_number() + days
        && list[i].date@.day_number() <= from@.day_number() + service::MAX_SOON_DAYS by {
        let entry = found@[at[i]];
        elements::next_celebration_is_the_earliest(
            entry.1.birthdate@,
            from@,
            service::horizon(days) as int,
        );
        assert(elements::is_next_celebration(
            entry.1.birthdate@,
            from@,
            service::horizon(days) as int,
            entry.0@,
        ));
    }
}

/// Whoever the chat does not find is not greeted: every member who is, is one whom the chat found
/// when asked for a person whose birthday is today.
pub proof fn greeted_members_are_present<R: UserRepository + UsernameDirectory, C: ChatPort>(
    service: BirthdayService<R, C>,
    today: Date,
    list: Vec<ChatMemberInfo>,
)
    requires
        service.lists_celebrants(today, Ok(list)),
    ensures
        forall|i: int|
            0 <= i < list.len() ==> exists|telegram_id: u64| #[trigger]
                service.repo().users().contains_key(telegram_id) && elements::celebrated_on(
                    service.repo().users()[telegram_id].birthdate@,
                    today@,
                ) && call_ensures(
                    C::present_member,
                    (&service.chat(), telegram_id),
                    Ok(Some(#[trigger] list[i])),
                ),
        (forall|telegram_id: u64| #[trigger]
            service.repo().users().contains_key(telegram_id) ==> never_present(
                service.chat(),
                telegram_id,
            )) ==> list.len() == 0,
{
    let (found, answers) = lemma_where_celebrants_come_from(service, today, list);
    assert forall|i: int| 0 <= i < list.len() implies exists|telegram_id: u64| #[trigger]
        service.repo().users().contains_key(telegram_id) && elements::celebrated_on(
            service.repo().users()[telegram_id].birthdate@,
            today@,
        ) && call_ensures(
            C::present_member,
            (&service.chat(), telegram_id),
            Ok(Some(#[trigger] list[i])),
        ) by {
        let k = lemma_members_come_from_answers(answers, i);
        let id = found@[k].telegram_id;
        assert(answers[k] == Ok::<Option<ChatMemberInfo>, ChatError>(Some(list[i])));
        assert(service.repo().users().contains_key(id));
    }
    if list.len() > 0 && forall|telegram_id: u64| #[trigger]
        service.repo().users().contains_key(telegram_id) ==> never_present(
            service.chat(),
            telegram_id,
        ) {
        let k = lemma_members_come_from_answers(answers, 0);
        let id = found@[k].telegram_id;
        assert(service.repo().users().contains_key(id));
        assert(never_present(service.chat(), id));
        assert(call_ensures(C::present_member, (&service.chat(), id), answers[k]));
    }
}

pub(crate) proof fn lemma_members_come_from_answers(
    answers: Seq<Result<Option<ChatMemberInfo>, ChatError>>,
    i: int,
) -> (k: int)
    requires
        0 <= i < service::members_present(answers).len(),
    ensures
        0 <= k < answers.len(),
        service::found_member(answers[k]) == Some(service::members_present(answers)[i]),
    decreases answers.len(),
{
    let rest = service::members_present(answers.drop_last());
    if i < rest.len() {
        lemma_members_come_from_answers(answers.drop_last(), i)
    } else {
        answers.len() - 1
    }
}

/// Whoever celebrates today and is in the chat is greeted; `i` gives the place.
pub proof fn present_celebrants_are_greeted<R: UserRepository + UsernameDirectory, C: ChatPort>(
    service: BirthdayService<R, C>,
    today: Date,
    list: Vec<ChatMemberInfo>,
    telegram_id: u64,
) -> (i: int)
    requires
        service.lists_celebrants(today, Ok(list)),
        service.repo().users().contains_key(telegram_id),
        elements::celebrated_on(service.repo().users()[telegram_id].birthdate@, today@),
        always_present(service.chat(), telegram_id),
    ensures
        0 <= i < list.len(),
        call_ensures(
            C::present_member,
            (&service.chat(), telegram_id),
            Ok::<Option<ChatMemberInfo>, ChatError>(Some(list[i])),
        ),
{
    let (found, answers) = lemma_where_celebrants_come_from(service, today, list);
    let user = service.repo().users()[telegram_id];
    assert(found@.contains(user));
    let k = choose|k: int| 0 <= k < found.len() && found@[k] == user;
    assert(call_ensures(C::present_member, (&service.chat(), telegram_id), answers[k]));
    lemma_found_members_are_kept(answers, k)
}

pub(crate) proof fn lemma_found_members_are_kept(
    answers: Seq<Result<Option<ChatMemberInfo>, ChatError>>,
    k: int,
) -> (i: int)
    requires
        0 <= k < answers.len(),
        service::found_member(answers[k]) is Some,
    ensures
        0 <= i < service::members_present(answers).len(),
        service::found_member(answers[k]) == Some(service::members_present(answers)[i]),
    decreases answers.len(),
{
    if k == answers.len() - 1 {
        service::members_present(answers).len() - 1
    } else {
        lemma_found_members_are_kept(answers.drop_last(), k)
    }
}

/// Everybody on a list of upcoming birthdays is someone whom the chat found when asked for a person
/// whose birthday next falls on the day that is given.
pub proof fn listed_members_are_present<R: UserRepository + UsernameDirectory, C: ChatPort>(
    service: BirthdayService<R, C>,
    from: Date,
    days: u32,
    list: Vec<UpcomingBirthday>,
    i: int,
) -> (telegram_id: u64)
    requires
        service.lists_upcoming(from, days, Ok(list)),
        0 <= i < list.len(),
    ensures
        service.repo().users().contains_key(telegram_id),
        elements::next_celebration(
            service.repo().users()[telegram_id].birthdate@,
            from@,
            service::horizon(days) as int,
        ) == Some(list[i].date@),
        call_ensures(
            C::present_member,
            (&service.chat(), telegram_id),
            Ok::<Option<ChatMemberInfo>, ChatError>(Some(list[i].member)),
        ),
{
    let (found, answers, at) = lemma_where_upcoming_come_from(service, from, days, list);
    let k = at[i];
    let user = found@[k].1;
    assert(call_ensures(C::present_member, (&service.chat(), user.telegram_id), answers[k]));
    user.telegram_id
}

/// Whoever is in the chat and has a birthday within the horizon is on the list, with the day it
/// next falls on; `i` gives the place.
pub proof fn present_birthdays_are_listed<R: UserRepository + UsernameDirectory, C: ChatPort>(
    service: BirthdayService<R, C>,
    from: Date,
    days: u32,
    list: Vec<UpcomingBirthday>,
    telegram_id: u64,
) -> (i: int)
    requires
        service.lists_upcoming(from, days, Ok(list)),
        service.repo().users().contains_key(telegram_id),
        elements::next_celebration(
            service.repo().users()[telegram_id].birthdate@,
            from@,
            service::horizon(days) as int,
        ) is Some,
        always_present(service.chat(), telegram_id),
    ensures
        0 <= i < list.len(),
        elements::next_celebration(
            service.repo().users()[telegram_id].birthdate@,
            from@,
            service::horizon(days) as int,
        ) == Some(list[i].date@),
        call_ensures(
            C::present_member,
            (&service.chat(), telegram_id),
            Ok::<Option<ChatMemberInfo>, ChatError>(Some(list[i].member)),
        ),
{
    let (found, answers, at) = lemma_where_upcoming_come_from(service, from, days, list);
    let user = service.repo().users()[telegram_id];
    let k = choose|k: int| 0 <= k < found.len() && (#[trigger] found@[k]).1 == user;
    assert(call_ensures(C::present_member, (&service.chat(), telegram_id), answers[k]));
    assert(at.contains(k));
    let i = choose|i: int| 0 <= i < at.len() && at[i] == k;
    i
}

/// Asked for 365 days or more, the service lists everybody who has a birthday saved and is in the
/// chat; `i` gives the place.
pub proof fn everybody_present_is_listed_within_a_year<
    R: UserRepository + UsernameDirectory,
    C: ChatPort,
>(
    service: BirthdayService<R, C>,
    from: Date,
    days: u32,
    list: Vec<UpcomingBirthday>,
    telegram_id: u64,
) -> (i: int)
    requires
        service.lists_upcoming(from, days, Ok(list)),
        from@.valid(),
        from@.year < calendar::MAX_YEAR,
        days >= 365,
        service.repo().users().contains_key(telegram_id),
        always_present(service.chat(), telegram_id),
    ensures
        0 <= i < list.len(),
        call_ensures(
            C::present_member,
            (&service.chat(), telegram_id),
            Ok::<Option<ChatMemberInfo>, ChatError>(Some(list[i].member)),
        ),
{
    lemma_where_upcoming_come_from(service, from, days, list);
    elements::everyone_is_celebrated_within_a_year(
        service.repo().users()[telegram_id].birthdate@,
        from@,
        service::horizon(days) as int,
    );
    present_birthdays_are_listed(service, from, days, list, telegram_id)
}

/// What is written behind a command, in a message with these entities, means the user
/// `telegram_id`: the first one mentioned, or else whoever has the username.
pub open spec fn means<R: UserRepository + UsernameDirectory, C: ChatPort>(
    service: BirthdayService<R, C>,
    entities: Seq<Entity>,
    written: Seq<char>,
    telegram_id: u64,
) -> bool {
    &&& written.len() > 0
    &&& if exists|i: int| bot::first_mention_at(entities, i) {
        exists|i: int| #[trigger]
            bot::first_mention_at(entities, i) && entities[i]->telegram_id == telegram_id
    } else {
        let usernames = service.repo().usernames();
        let key = service::username_key(written);
        usernames.contains_key(key) && usernames[key] == telegram_id
    }
}

proof fn lemma_target_is_meant<R: UserRepository + UsernameDirectory, C: ChatPort>(
    service: BirthdayService<R, C>,
    entities: Seq<Entity>,
    written: Seq<char>,
    telegram_id: u64,
    target: Option<Target>,
) -> (name: Seq<char>)
    requires
        means(service, entities, written, telegram_id),
        bot::is_target(entities, written, target),
    ensures
        target matches Some(whom) && known_as(service, whom, telegram_id, name),
{
    match target->0 {
        Target::User { telegram_id: id, name } => {
            let i = choose|i: int| #[trigger]
                bot::first_mention_at(entities, i) && entities[i]->telegram_id == id;
            let k = choose|k: int| #[trigger]
                bot::first_mention_at(entities, k) && entities[k]->telegram_id == telegram_id;
            assert(i == k);
            name@
        },
        Target::Username(raw) => {
            assert(forall|i: int| !bot::first_mention_at(entities, i));
            seq!['@'] + service::username_key(raw@)
        },
    }
}

/// Someone who is not known as an admin and asks to save a birthday for somebody else is told that
/// only admins can, or, where the store failed, that something went wrong; and nothing is stored.
pub proof fn refused_saving_is_answered<R: UserRepository + UsernameDirectory, C: ChatPort>(
    before: BirthdayService<R, C>,
    after: BirthdayService<R, C>,
    message: Message,
    args: Seq<char>,
    telegram_id: u64,
    reply: Reply,
)
    requires
        bot::add_command(before, after, message, args, reply),
        service::birthday_in(bot::add_args(args).0) is Some,
        means(before, message.entities@, bot::add_args(args).1, telegram_id),
        message.from matches Some(sender) && sender.telegram_id != telegram_id && never_admin(
            before.chat(),
            sender.telegram_id,
        ),
    ensures
        after.repo() == before.repo(),
        bot::says(
            reply,
            "Only chat admins can add birthdays for other people. You can add your own with /add_birthday MM-DD"@,
        ) || bot::says(reply, "Something went wrong saving the birthday."@),
{
    let (date_str, target_str) = bot::add_args(args);
    let day = service::birthday_in(date_str)->0;
    let actor_id = message.from->0.telegram_id;
    let (target, birthdate, result) = choose|
        target: Option<Target>,
        birthdate: Date,
        result: Result<Added, AddBirthdayError>,
    |
        {
            &&& bot::is_target(message.entities@, target_str, target)
            &&& birthdate@ == day
            &&& after.chat() == before.chat()
            &&& #[trigger] BirthdayService::adds(
                before,
                after,
                actor_id,
                target,
                birthdate,
                result,
            )
            &&& bot::says(reply, bot::add_words(result, day))
        };
    let name = lemma_target_is_meant(
        before,
        message.entities@,
        target_str,
        telegram_id,
        target,
    );
    only_admins_save_for_others(
        before,
        after,
        actor_id,
        target->0,
        telegram_id,
        name,
        birthdate,
        result,
    );
}

/// The same of asking to remove somebody else's birthday.
pub proof fn refused_removal_is_answered<R: UserRepository + UsernameDirectory, C: ChatPort>(
    before: BirthdayService<R, C>,
    after: BirthdayService<R, C>,
    message: Message,
    args: Seq<char>,
    telegram_id: u64,
    reply: Reply,
)
    requires
        bot::remove_command(before, after, message, args, reply),
        means(before, message.entities@, text::trimmed(args), telegram_id),
        message.from matches Some(sender) && sender.telegram_id != telegram_id && never_admin(
            before.chat(),
            sender.telegram_id,
        ),
    ensures
        after.repo() == before.repo(),
        bot::says(
            reply,
            "Only chat admins can remove birthdays for other people. You can remove your own with /remove_birthday"@,
        ) || bot::says(reply, "Something went wrong removing the birthday."@),
{
    let actor_id = message.from->0.telegram_id;
    let (target, result) = choose|
        target: Option<Target>,
        result: Result<Removed, AddBirthdayError>,
    |
        {
            &&& bot::is_target(message.entities@, text::trimmed(args), target)
            &&& after.chat() == before.chat()
            &&& #[trigger] BirthdayService::removes(before, after, actor_id, target, result)
            &&& bot::says(reply, bot::remove_words(result))
        };
    let name = lemma_target_is_meant(
        before,
        message.entities@,
        text::trimmed(args),
        telegram_id,
        target,
    );
    only_admins_remove_for_others(
        before,
        after,
        actor_id,
        target->0,
        telegram_id,
        name,
        result,
    );
}

} // verus!
