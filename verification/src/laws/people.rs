//! Who may save and remove whose birthday, with a store in memory.

use vstd::prelude::*;

use crate::calendar::{Date, Timestamp};
use crate::elements;
use crate::elements::{RepositoryError, StoreModel, User, UserRepository, UsernameDirectory};
use crate::inmemory;
use crate::inmemory::InMemoryUserRepository;
use crate::laws::plain;
use crate::service;
use crate::service::{
    AddBirthdayError, Added, BirthdayService, ChatError, ChatMemberInfo, ChatPort, Removed, Target,
};
use crate::text;

verus! {

/// `target` is the user `id`, who is called `name`: as the target says, or as the known usernames
/// have it, in lower case and without `@` signs before it.
pub open spec fn is_meant(
    usernames: Map<Seq<char>, u64>,
    target: Target,
    id: u64,
    name: Seq<char>,
) -> bool {
    match target {
        Target::User { telegram_id, name: called } => telegram_id == id && called@ == name,
        Target::Username(raw) => {
            let key = text::lowercase(text::without_at(raw@));
            usernames.contains_key(key) && usernames[key] == id && name == seq!['@'] + key
        },
    }
}

/// The store has this birthday for the user `id`, updated now. Nobody else was touched, nor the
/// known usernames. Someone who was stored before keeps their ID and the time they were created;
/// someone new has an ID that nobody had.
pub open spec fn has_saved(
    before: InMemoryUserRepository,
    after: InMemoryUserRepository,
    id: u64,
    birthdate: Date,
) -> bool {
    &&& after.users().contains_key(id)
    &&& after.users()[id].telegram_id == id
    &&& after.users()[id].birthdate == birthdate
    &&& after.users().remove(id) == before.users().remove(id)
    &&& after.usernames() == before.usernames()
    &&& before.users().contains_key(id) ==> after.users()[id].id == before.users()[id].id
        && after.users()[id].created_at == before.users()[id].created_at
    &&& call_ensures(Timestamp::now, (), after.users()[id].updated_at)
    &&& !before.users().contains_key(id) ==> after.users()[id].created_at
        == after.users()[id].updated_at && forall|other: u64| #[trigger]
        before.users().contains_key(other) ==> before.users()[other].id != after.users()[id].id
}

pub(crate) proof fn lemma_has_saved(
    before: InMemoryUserRepository,
    after: InMemoryUserRepository,
    id: u64,
    birthdate: Date,
    answer: Result<(), RepositoryError>,
)
    requires
        InMemoryUserRepository::add_answers(before, after, id, birthdate, answer),
    ensures
        has_saved(before, after, id, birthdate),
{
    inmemory::adding_leaves_others_alone(before, after, id, birthdate, answer);
    elements::found_by_telegram_id(before.records());
    if !before.users().contains_key(id) {
        assert forall|other: u64| #[trigger]
            before.users().contains_key(other) implies before.users()[other].id
            != after.users()[id].id by {
            let i = choose|i: int|
                0 <= i < before.records().len() && #[trigger] before.records()[i]
                    == before.users()[other] && before.records()[i].telegram_id == other;
            assert(before.records()[i].id != after.users()[id].id);
        }
    }
}

/// What the service does about a birthday is what `adds` and `removes` say of it, and it keeps the
/// chat; what it does about a username is to remember it in lower case.
pub proof fn services_do_as_they_say<R: UserRepository + UsernameDirectory, C: ChatPort>(
    adding: &mut BirthdayService<R, C>,
    removing: &mut BirthdayService<R, C>,
    recording: &mut BirthdayService<R, C>,
    actor_id: u64,
    target: Option<Target>,
    birthdate: Date,
    added: Result<Added, AddBirthdayError>,
    removed: Result<Removed, AddBirthdayError>,
    username: &str,
    recorded: Result<(), RepositoryError>,
)
    requires
        call_ensures(
            BirthdayService::<R, C>::add_birthday,
            (adding, actor_id, target, birthdate),
            added,
        ),
        call_ensures(
            BirthdayService::<R, C>::remove_birthday,
            (removing, actor_id, target),
            removed,
        ),
        call_ensures(
            BirthdayService::<R, C>::record_username,
            (recording, username, actor_id),
            recorded,
        ),
    ensures
        BirthdayService::adds(*old(adding), *final(adding), actor_id, target, birthdate, added),
        final(adding).chat() == old(adding).chat(),
        final(adding).repo().usernames() == old(adding).repo().usernames(),
        BirthdayService::removes(*old(removing), *final(removing), actor_id, target, removed),
        final(removing).chat() == old(removing).chat(),
        final(removing).repo().usernames() == old(removing).repo().usernames(),
        final(recording).chat() == old(recording).chat(),
        final(recording).repo().users() == old(recording).repo().users(),
        recorded is Ok ==> final(recording).repo().usernames() == old(
            recording,
        ).repo().usernames().insert(text::lowercase(username@), actor_id),
{
}

/// A new service has the store and the chat that it was given.
pub proof fn services_have_what_they_were_given<R: UserRepository + UsernameDirectory, C: ChatPort>(
    repo: R,
    chat: C,
    made: BirthdayService<R, C>,
)
    requires
        call_ensures(BirthdayService::<R, C>::new, (repo, chat), made),
    ensures
        made.repo() == repo,
        made.chat() == chat,
{
}

/// Without a target, everybody saves their own birthday, whatever the chat says.
pub proof fn everybody_saves_their_own<C: ChatPort>(
    before: BirthdayService<InMemoryUserRepository, C>,
    after: BirthdayService<InMemoryUserRepository, C>,
    actor_id: u64,
    birthdate: Date,
    result: Result<Added, AddBirthdayError>,
)
    requires
        BirthdayService::adds(before, after, actor_id, None, birthdate, result),
    ensures
        result matches Ok(done) && done is ForSelf,
        has_saved(before.repo(), after.repo(), actor_id, birthdate),
{
    lemma_has_saved(before.repo(), after.repo(), actor_id, birthdate, Ok(()));
}

/// A birthday is saved for a target who is known exactly if the actor is the target or an admin,
/// and the target is in the chat; else nothing is stored and the result says which of these was
/// not so.
pub proof fn targets_are_saved_with_permission<C: ChatPort>(
    before: BirthdayService<InMemoryUserRepository, C>,
    after: BirthdayService<InMemoryUserRepository, C>,
    actor_id: u64,
    target: Target,
    id: u64,
    name: Seq<char>,
    birthdate: Date,
    result: Result<Added, AddBirthdayError>,
)
    requires
        BirthdayService::adds(before, after, actor_id, Some(target), birthdate, result),
        is_meant(before.repo().usernames(), target, id, name),
    ensures
        id == actor_id && plain::is_found(before.chat(), id) ==> (result matches Ok(done)
            && done is ForSelf) && has_saved(before.repo(), after.repo(), id, birthdate),
        id != actor_id && plain::is_an_admin(before.chat(), actor_id) && plain::is_found(
            before.chat(),
            id,
        ) ==> (result matches Ok(Added::ForOther { name: called }) && called@ == name)
            && has_saved(before.repo(), after.repo(), id, birthdate),
        id != actor_id && plain::is_no_admin(before.chat(), actor_id) ==> after.repo()
            == before.repo() && (result matches Err(error) && error is NotAdmin),
        (id == actor_id || plain::is_an_admin(before.chat(), actor_id)) && plain::is_gone(
            before.chat(),
            id,
        ) ==> after.repo() == before.repo() && (result matches Err(
            AddBirthdayError::NotInChat(called),
        ) && called@ == name),
        (id == actor_id || plain::is_an_admin(before.chat(), actor_id)) && plain::lookup_fails(
            before.chat(),
            id,
        ) ==> after.repo() == before.repo() && (result matches Err(AddBirthdayError::Chat(error))
            && call_ensures(
            C::present_member,
            (&before.chat(), id),
            Err::<Option<ChatMemberInfo>, ChatError>(error),
        )),
        result is Err ==> after.repo() == before.repo(),
        result is Ok ==> has_saved(before.repo(), after.repo(), id, birthdate),
{
    let found = choose|found: Result<(u64, String), AddBirthdayError>| #[trigger]
        before.resolves(target, found) && (match found {
            Ok((telegram_id, name)) => BirthdayService::adds_for(
                before,
                after,
                actor_id,
                telegram_id,
                name,
                birthdate,
                result,
            ),
            Err(error) => after.repo() == before.repo() && result == Err::<Added, AddBirthdayError>(
                error,
            ),
        });
    assert(found is Ok && found->Ok_0.0 == id && found->Ok_0.1@ == name);
    if result is Ok {
        lemma_has_saved(before.repo(), after.repo(), id, birthdate, Ok(()));
    }
}

/// Nothing is stored for a username that is not known, and the result repeats it; nor is anything
/// removed.
pub proof fn unknown_targets_are_refused<C: ChatPort>(
    before: BirthdayService<InMemoryUserRepository, C>,
    after_adding: BirthdayService<InMemoryUserRepository, C>,
    after_removing: BirthdayService<InMemoryUserRepository, C>,
    actor_id: u64,
    raw: String,
    birthdate: Date,
    added: Result<Added, AddBirthdayError>,
    removed: Result<Removed, AddBirthdayError>,
)
    requires
        !before.repo().usernames().contains_key(text::lowercase(text::without_at(raw@))),
    ensures
        BirthdayService::adds(
            before,
            after_adding,
            actor_id,
            Some(Target::Username(raw)),
            birthdate,
            added,
        ) ==> after_adding.repo() == before.repo() && (added matches Err(
            AddBirthdayError::UnknownUsername(said),
        ) && said@ == raw@),
        BirthdayService::removes(
            before,
            after_removing,
            actor_id,
            Some(Target::Username(raw)),
            removed,
        ) ==> after_removing.repo() == before.repo() && (removed matches Err(
            AddBirthdayError::UnknownUsername(said),
        ) && said@ == raw@),
{
}

/// Without a target, everybody removes their own birthday, whatever the chat says, and learns
/// whether there was one.
pub proof fn everybody_removes_their_own<C: ChatPort>(
    before: BirthdayService<InMemoryUserRepository, C>,
    after: BirthdayService<InMemoryUserRepository, C>,
    actor_id: u64,
    result: Result<Removed, AddBirthdayError>,
)
    requires
        BirthdayService::removes(before, after, actor_id, None, result),
    ensures
        result matches Ok(Removed::ForSelf { existed }) && existed
            == before.repo().users().contains_key(actor_id),
        after.repo().users() == before.repo().users().remove(actor_id),
        after.repo().usernames() == before.repo().usernames(),
{
}

/// A birthday of a target who is known is removed exactly if the actor is the target or an admin,
/// wherever the target is, and the result says whether there was one; else nothing is removed.
pub proof fn targets_are_removed_with_permission<C: ChatPort>(
    before: BirthdayService<InMemoryUserRepository, C>,
    after: BirthdayService<InMemoryUserRepository, C>,
    actor_id: u64,
    target: Target,
    id: u64,
    name: Seq<char>,
    result: Result<Removed, AddBirthdayError>,
)
    requires
        BirthdayService::removes(before, after, actor_id, Some(target), result),
        is_meant(before.repo().usernames(), target, id, name),
    ensures
        id == actor_id || plain::is_an_admin(before.chat(), actor_id) ==> after.repo().users()
            == before.repo().users().remove(id) && after.repo().usernames()
            == before.repo().usernames() && result is Ok,
        id == actor_id ==> (result matches Ok(Removed::ForSelf { existed }) && existed
            == before.repo().users().contains_key(id)),
        id != actor_id && plain::is_an_admin(before.chat(), actor_id) ==> (result matches Ok(
            Removed::ForOther { name: called, existed },
        ) && called@ == name && existed == before.repo().users().contains_key(id)),
        id != actor_id && plain::is_no_admin(before.chat(), actor_id) ==> after.repo()
            == before.repo() && (result matches Err(error) && error is NotAdmin),
        result is Err ==> after.repo() == before.repo(),
{
    let found = choose|found: Result<(u64, String), AddBirthdayError>| #[trigger]
        before.resolves(target, found) && (match found {
            Ok((telegram_id, name)) => BirthdayService::removes_for(
                before,
                after,
                actor_id,
                telegram_id,
                name,
                result,
            ),
            Err(error) => after.repo() == before.repo() && result == Err::<
                Removed,
                AddBirthdayError,
            >(error),
        });
    assert(found is Ok && found->Ok_0.0 == id && found->Ok_0.1@ == name);
}

/// On any store, saving fails in no other way than with the store where nobody is targeted, and the
/// store is told just what was asked; the same of removing.
pub proof fn stores_are_told_what_was_asked<R: UserRepository + UsernameDirectory, C: ChatPort>(
    before: BirthdayService<R, C>,
    after_adding: BirthdayService<R, C>,
    after_removing: BirthdayService<R, C>,
    actor_id: u64,
    birthdate: Date,
    added: Result<Added, AddBirthdayError>,
    removed: Result<Removed, AddBirthdayError>,
)
    requires
        BirthdayService::adds(before, after_adding, actor_id, None, birthdate, added),
        BirthdayService::removes(before, after_removing, actor_id, None, removed),
    ensures
        match added {
            Ok(done) => done is ForSelf && R::add_answers(
                before.repo(),
                after_adding.repo(),
                actor_id,
                birthdate,
                Ok(()),
            ),
            Err(error) => error is Repository && R::add_answers(
                before.repo(),
                after_adding.repo(),
                actor_id,
                birthdate,
                Err(error->Repository_0),
            ),
        },
        match removed {
            Ok(Removed::ForSelf { existed }) => existed == before.repo().users().contains_key(
                actor_id,
            ) && after_removing.repo().users() == before.repo().users().remove(actor_id)
                && R::remove_answers(before.repo(), after_removing.repo(), actor_id, Ok(existed)),
            Ok(_) => false,
            Err(error) => error is Repository && R::remove_answers(
                before.repo(),
                after_removing.repo(),
                actor_id,
                Err(error->Repository_0),
            ),
        },
{
}

/// On any store, for a target who is known: where the actor is neither the target nor an admin the
/// store is not touched; where they are, the store is told to save just this birthday for just this
/// person, if they are in the chat, and to remove it in any case. What comes of it is the store's
/// answer. Only where the store cannot look the username up, nothing is done.
pub proof fn stores_are_told_of_targets<R: UserRepository + UsernameDirectory, C: ChatPort>(
    before: BirthdayService<R, C>,
    after_adding: BirthdayService<R, C>,
    after_removing: BirthdayService<R, C>,
    actor_id: u64,
    target: Target,
    id: u64,
    name: Seq<char>,
    birthdate: Date,
    added: Result<Added, AddBirthdayError>,
    removed: Result<Removed, AddBirthdayError>,
)
    requires
        BirthdayService::adds(before, after_adding, actor_id, Some(target), birthdate, added),
        BirthdayService::removes(before, after_removing, actor_id, Some(target), removed),
        is_meant(before.repo().usernames(), target, id, name),
        forall|asked: &str, error: RepositoryError|
            !(target is Username && #[trigger] call_ensures(
                R::resolve_username,
                (&before.repo(), asked),
                Err::<Option<u64>, RepositoryError>(error),
            )),
    ensures
        id != actor_id && plain::is_no_admin(before.chat(), actor_id) ==> after_adding.repo()
            == before.repo() && after_removing.repo() == before.repo() && (added matches Err(error)
            && error is NotAdmin) && (removed matches Err(error) && error is NotAdmin),
        (id == actor_id || plain::is_an_admin(before.chat(), actor_id)) && plain::is_found(
            before.chat(),
            id,
        ) ==> match added {
            Ok(done) => R::add_answers(before.repo(), after_adding.repo(), id, birthdate, Ok(()))
                && (id == actor_id ==> done is ForSelf) && (id != actor_id ==> (
            done matches Added::ForOther { name: called } && called@ == name)),
            Err(error) => error is Repository && R::add_answers(
                before.repo(),
                after_adding.repo(),
                id,
                birthdate,
                Err(error->Repository_0),
            ),
        },
        (id == actor_id || plain::is_an_admin(before.chat(), actor_id)) ==> match removed {
            Ok(done) => R::remove_answers(
                before.repo(),
                after_removing.repo(),
                id,
                Ok(before.repo().users().contains_key(id)),
            ) && after_removing.repo().users() == before.repo().users().remove(id) && (id
                == actor_id ==> (done matches Removed::ForSelf { existed } && existed
                == before.repo().users().contains_key(id))) && (id != actor_id ==> (
            done matches Removed::ForOther { name: called, existed } && called@ == name && existed
                == before.repo().users().contains_key(id))),
            Err(error) => error is Repository && R::remove_answers(
                before.repo(),
                after_removing.repo(),
                id,
                Err(error->Repository_0),
            ),
        },
{
}

/// The decisions on what the chat answered: only a plain yes makes an admin; someone is in the way
/// of nothing only where they were found; and a list has only those who were found.
pub proof fn answers_of_the_chat_are_taken_as_they_are(
    admin: Result<bool, ChatError>,
    allowed: bool,
    answer: Result<Option<ChatMemberInfo>, ChatError>,
    name: String,
    verdict: Result<String, AddBirthdayError>,
    member: Option<ChatMemberInfo>,
)
    requires
        call_ensures(service::allows, (admin,), allowed),
        call_ensures(service::require_presence, (answer, name), verdict),
        call_ensures(service::member_or_skip, (answer,), member),
    ensures
        allowed <==> admin is Ok && admin->Ok_0,
        match answer {
            Ok(Some(found)) => verdict matches Ok(same) && same == name,
            Ok(None) => verdict matches Err(AddBirthdayError::NotInChat(same)) && same == name,
            Err(error) => verdict matches Err(AddBirthdayError::Chat(same)) && same == error,
        },
        match answer {
            Ok(Some(found)) => member == Some(found),
            Ok(None) => member is None,
            Err(_) => member is None,
        },
{
}

} // verus!
