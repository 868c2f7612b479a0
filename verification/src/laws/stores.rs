//! What a store in memory gives back of what was put into it, and what rows hold.

use vstd::prelude::*;

use crate::calendar::{Date, Timestamp, Ymd};
use crate::elements;
use crate::elements::{
    RepositoryError, StoreModel, User, UserId, UserRepository, UsernameDirectory,
};
use crate::ids::IdSource;
use crate::inmemory;
use crate::inmemory::InMemoryUserRepository;
use crate::laws::days;
use crate::laws::plain;
use crate::rows;
use crate::rows::{InvalidId, UserRow};

verus! {

/// The list has an entry for this user.
pub open spec fn lists(list: Seq<User>, telegram_id: u64) -> bool {
    exists|i: int| 0 <= i < list.len() && (#[trigger] list[i]).telegram_id == telegram_id
}

/// The list has an entry for this user, with the day that it is given.
pub open spec fn lists_on(list: Seq<(Date, User)>, telegram_id: u64, date: Ymd) -> bool {
    exists|i: int|
        0 <= i < list.len() && (#[trigger] list[i]).1.telegram_id == telegram_id && list[i].0@
            == date
}

/// The list has an entry for this user, on whatever day.
pub open spec fn lists_somewhere(list: Seq<(Date, User)>, telegram_id: u64) -> bool {
    exists|i: int| 0 <= i < list.len() && (#[trigger] list[i]).1.telegram_id == telegram_id
}

/// Lookups in memory succeed.
pub proof fn lookups_succeed(
    repo: InMemoryUserRepository,
    date: Date,
    days: u32,
    username: &str,
    celebrants: Result<Vec<User>, RepositoryError>,
    upcoming: Result<Vec<(Date, User)>, RepositoryError>,
    resolved: Result<Option<u64>, RepositoryError>,
)
    requires
        call_ensures(InMemoryUserRepository::find_birthdays_for_date, (&repo, date), celebrants),
        call_ensures(
            InMemoryUserRepository::find_birthdays_within,
            (&repo, date, days),
            upcoming,
        ),
        call_ensures(InMemoryUserRepository::resolve_username, (&repo, username), resolved),
    ensures
        celebrants is Ok,
        upcoming is Ok,
        resolved is Ok,
{
}

/// An empty store gives nothing back.
pub proof fn new_stores_are_empty(
    repo: InMemoryUserRepository,
    date: Date,
    days: u32,
    username: &str,
    celebrants: Vec<User>,
    upcoming: Vec<(Date, User)>,
    resolved: Option<u64>,
)
    requires
        call_ensures(InMemoryUserRepository::new, (), repo) || call_ensures(
            InMemoryUserRepository::default,
            (),
            repo,
        ),
        call_ensures(
            InMemoryUserRepository::find_birthdays_for_date,
            (&repo, date),
            Ok(celebrants),
        ),
        call_ensures(
            InMemoryUserRepository::find_birthdays_within,
            (&repo, date, days),
            Ok(upcoming),
        ),
        call_ensures(InMemoryUserRepository::resolve_username, (&repo, username), Ok(resolved)),
    ensures
        celebrants.len() == 0,
        upcoming.len() == 0,
        resolved is None,
{
    if celebrants.len() > 0 {
        assert(repo.users().contains_key(celebrants[0].telegram_id));
    }
    if upcoming.len() > 0 {
        assert(repo.users().contains_key(upcoming[0].1.telegram_id));
    }
}

/// A birthday that was added is found on the days that it is celebrated on and on no other, with
/// the month and day that were added; and it comes up within so many days exactly if it is
/// celebrated within them, on the first such day.
pub proof fn added_birthdays_are_found(
    repo: &mut InMemoryUserRepository,
    telegram_id: u64,
    birthday: Date,
    answer: Result<(), RepositoryError>,
    date: Date,
    celebrants: Vec<User>,
    from: Date,
    days: u32,
    upcoming: Vec<(Date, User)>,
)
    requires
        call_ensures(
            InMemoryUserRepository::add_birthday,
            (repo, telegram_id, birthday),
            answer,
        ),
        call_ensures(
            InMemoryUserRepository::find_birthdays_for_date,
            (&*final(repo), date),
            Ok(celebrants),
        ),
        call_ensures(
            InMemoryUserRepository::find_birthdays_within,
            (&*final(repo), from, days),
            Ok(upcoming),
        ),
    ensures
        answer is Ok,
        lists(celebrants@, telegram_id) <==> plain::is_celebrated(birthday@, date@),
        forall|i: int|
            0 <= i < celebrants.len() && (#[trigger] celebrants[i]).telegram_id == telegram_id
                ==> celebrants[i].birthdate == birthday,
        forall|day: Ymd| #[trigger]
            lists_on(upcoming@, telegram_id, day) <==> plain::comes_up(
                birthday@,
                from@,
                from@.day_number() + days,
                day,
            ),
{
    inmemory::adding_leaves_others_alone(*old(repo), *final(repo), telegram_id, birthday, answer);
    let users = final(repo).users();
    assert(elements::celebrated_on(birthday@, date@) == plain::is_celebrated(birthday@, date@));
    if plain::is_celebrated(birthday@, date@) {
        assert(celebrants@.contains(users[telegram_id]));
        let i = choose|i: int| 0 <= i < celebrants.len() && celebrants@[i] == users[telegram_id];
        assert(celebrants@[i].telegram_id == telegram_id);
    }
    days::lemma_comes_up(birthday@, from@, days as int);
    assert forall|day: Ymd| #[trigger] lists_on(upcoming@, telegram_id, day) <==> plain::comes_up(
        birthday@,
        from@,
        from@.day_number() + days,
        day,
    ) by {
        if plain::comes_up(birthday@, from@, from@.day_number() + days, day) {
            assert(users.contains_key(telegram_id));
            let i = choose|i: int|
                0 <= i < upcoming.len() && (#[trigger] upcoming@[i]).1 == users[telegram_id];
            assert(upcoming@[i].1.telegram_id == telegram_id);
            assert(upcoming@[i].0@ == day);
        }
        if lists_on(upcoming@, telegram_id, day) {
            let i = choose|i: int|
                0 <= i < upcoming.len() && (#[trigger] upcoming@[i]).1.telegram_id == telegram_id
                    && upcoming@[i].0@ == day;
            assert(upcoming@[i].1 == users[telegram_id]);
        }
    }
}

/// Adding or removing one birthday leaves the others as they were: every other user is found before
/// exactly if they are found afterwards, unchanged.
pub proof fn others_are_found_as_before(
    adding: &mut InMemoryUserRepository,
    removing: &mut InMemoryUserRepository,
    telegram_id: u64,
    birthday: Date,
    added: Result<(), RepositoryError>,
    removed: Result<bool, RepositoryError>,
    date: Date,
    before_adding: Vec<User>,
    after_adding: Vec<User>,
    before_removing: Vec<User>,
    after_removing: Vec<User>,
    other: User,
)
    requires
        call_ensures(
            InMemoryUserRepository::find_birthdays_for_date,
            (&*old(adding), date),
            Ok(before_adding),
        ),
        call_ensures(InMemoryUserRepository::add_birthday, (adding, telegram_id, birthday), added),
        call_ensures(
            InMemoryUserRepository::find_birthdays_for_date,
            (&*final(adding), date),
            Ok(after_adding),
        ),
        call_ensures(
            InMemoryUserRepository::find_birthdays_for_date,
            (&*old(removing), date),
            Ok(before_removing),
        ),
        call_ensures(InMemoryUserRepository::remove_birthday, (removing, telegram_id), removed),
        call_ensures(
            InMemoryUserRepository::find_birthdays_for_date,
            (&*final(removing), date),
            Ok(after_removing),
        ),
        other.telegram_id != telegram_id,
    ensures
        before_adding@.contains(other) <==> after_adding@.contains(other),
        before_removing@.contains(other) <==> after_removing@.contains(other),
{
    inmemory::adding_leaves_others_alone(*old(adding), *final(adding), telegram_id, birthday, added);
    assert(old(adding).users().remove(telegram_id) == final(adding).users().remove(telegram_id));
    lemma_others(
        old(adding).users(),
        final(adding).users(),
        telegram_id,
        date@,
        before_adding@,
        after_adding@,
        other,
    );
    assert(final(removing).users() == old(removing).users().remove(telegram_id));
    assert(final(removing).users().remove(telegram_id) =~= old(removing).users().remove(
        telegram_id,
    ));
    lemma_others(
        old(removing).users(),
        final(removing).users(),
        telegram_id,
        date@,
        before_removing@,
        after_removing@,
        other,
    );
}

proof fn lemma_others(
    a: Map<u64, User>,
    b: Map<u64, User>,
    telegram_id: u64,
    date: Ymd,
    in_a: Seq<User>,
    in_b: Seq<User>,
    other: User,
)
    requires
        a.remove(telegram_id) == b.remove(telegram_id),
        elements::lists_celebrants(a, date, in_a),
        elements::lists_celebrants(b, date, in_b),
        other.telegram_id != telegram_id,
    ensures
        in_a.contains(other) <==> in_b.contains(other),
{
    lemma_listed(a, date, in_a, other);
    lemma_listed(b, date, in_b, other);
    let id = other.telegram_id;
    assert(a.remove(telegram_id).dom().contains(id) == a.dom().contains(id));
    assert(b.remove(telegram_id).dom().contains(id) == b.dom().contains(id));
    if a.contains_key(id) {
        assert(a.remove(telegram_id)[id] == a[id]);
        assert(b.remove(telegram_id)[id] == b[id]);
    }
}

proof fn lemma_listed(users: Map<u64, User>, date: Ymd, list: Seq<User>, user: User)
    requires
        elements::lists_celebrants(users, date, list),
    ensures
        list.contains(user) <==> users.contains_key(user.telegram_id) && users[user.telegram_id]
            == user && elements::celebrated_on(user.birthdate@, date),
{
    if list.contains(user) {
        let i = choose|i: int| 0 <= i < list.len() && list[i] == user;
        assert(users[list[i].telegram_id] == list[i]);
    }
}

/// A removed birthday is found no more, and the answer tells whether there was one: whether the
/// user was found when everybody was asked for.
pub proof fn removed_birthdays_are_gone(
    repo: &mut InMemoryUserRepository,
    telegram_id: u64,
    answer: Result<bool, RepositoryError>,
    from: Date,
    days: u32,
    before: Vec<(Date, User)>,
    after: Vec<(Date, User)>,
    date: Date,
    celebrants: Vec<User>,
)
    requires
        call_ensures(
            InMemoryUserRepository::find_birthdays_within,
            (&*old(repo), from, days),
            Ok(before),
        ),
        call_ensures(InMemoryUserRepository::remove_birthday, (repo, telegram_id), answer),
        call_ensures(
            InMemoryUserRepository::find_birthdays_within,
            (&*final(repo), from, days),
            Ok(after),
        ),
        call_ensures(
            InMemoryUserRepository::find_birthdays_for_date,
            (&*final(repo), date),
            Ok(celebrants),
        ),
        from@.valid(),
        from@.year < 262142,
        days >= 365,
    ensures
        answer matches Ok(existed) && existed == lists_somewhere(before@, telegram_id),
        !lists_somewhere(after@, telegram_id),
        !lists(celebrants@, telegram_id),
        final(repo).usernames() == old(repo).usernames(),
{
    let users = old(repo).users();
    elements::longest_horizon_lists_everybody(users, from@, days as int, before@);
    if users.contains_key(telegram_id) {
        let i = choose|i: int|
            0 <= i < before.len() && (#[trigger] before@[i]).1 == users[telegram_id];
        assert(before@[i].1.telegram_id == telegram_id);
    }
    elements::removed_birthday_is_gone(
        users,
        telegram_id,
        date@,
        celebrants@,
        from@,
        days as int,
        after@,
    );
}

/// What comes up and what is found on a day agree: whoever is listed with a day is found on it; and
/// whoever is found on a day within the horizon is listed with that day or an earlier one. The list
/// is in the order of the days, with everybody once.
pub proof fn lookups_agree(
    repo: InMemoryUserRepository,
    from: Date,
    days: u32,
    upcoming: Vec<(Date, User)>,
    date: Date,
    celebrants: Vec<User>,
    user: User,
)
    requires
        call_ensures(
            InMemoryUserRepository::find_birthdays_within,
            (&repo, from, days),
            Ok(upcoming),
        ),
        call_ensures(
            InMemoryUserRepository::find_birthdays_for_date,
            (&repo, date),
            Ok(celebrants),
        ),
        date@.valid(),
    ensures
        (exists|i: int|
            0 <= i < upcoming.len() && (#[trigger] upcoming[i]).0 == date && upcoming[i].1 == user)
            ==> celebrants@.contains(user),
        celebrants@.contains(user) && from@.day_number() <= date@.day_number() <= from@.day_number()
            + days ==> exists|i: int|
            0 <= i < upcoming.len() && (#[trigger] upcoming[i]).1 == user
                && upcoming[i].0@.day_number() <= date@.day_number(),
        forall|i: int, j: int|
            0 <= i < j < upcoming.len() ==> (#[trigger] upcoming[i]).1.telegram_id != (
            #[trigger] upcoming[j]).1.telegram_id && upcoming[i].0@.day_number()
                <= upcoming[j].0@.day_number(),
{
    let users = repo.users();
    lemma_listed(users, date@, celebrants@, user);
    elements::next_celebration_is_the_earliest(user.birthdate@, from@, days as int);
    if exists|i: int|
        0 <= i < upcoming.len() && (#[trigger] upcoming[i]).0 == date && upcoming[i].1 == user {
        let i = choose|i: int|
            0 <= i < upcoming.len() && (#[trigger] upcoming[i]).0 == date && upcoming[i].1 == user;
        assert(upcoming@[i].1 == user);
        assert(elements::is_next_celebration(user.birthdate@, from@, days as int, date@));
    }
    if celebrants@.contains(user) && from@.day_number() <= date@.day_number() <= from@.day_number()
        + days {
        assert(users.contains_key(user.telegram_id));
        assert(elements::next_celebration(user.birthdate@, from@, days as int) is Some);
        let i = choose|i: int|
            0 <= i < upcoming.len() && (#[trigger] upcoming@[i]).1 == users[user.telegram_id];
        assert(upcoming[i].1 == user);
        assert(elements::is_next_celebration(
            user.birthdate@,
            from@,
            days as int,
            upcoming[i].0@,
        ));
    }
}

/// A username resolves to whoever it was recorded for last, every other one as before, and the
/// birthdays stay.
pub proof fn recorded_usernames_are_resolved(
    repo: &mut InMemoryUserRepository,
    username: &str,
    telegram_id: u64,
    answer: Result<(), RepositoryError>,
    other: &str,
    before: Option<u64>,
    after: Option<u64>,
)
    requires
        call_ensures(InMemoryUserRepository::resolve_username, (&*old(repo), other), Ok(before)),
        call_ensures(
            InMemoryUserRepository::record_username,
            (repo, username, telegram_id),
            answer,
        ),
        call_ensures(InMemoryUserRepository::resolve_username, (&*final(repo), other), Ok(after)),
    ensures
        answer is Ok,
        after == (if other@ == username@ {
            Some(telegram_id)
        } else {
            before
        }),
        final(repo).users() == old(repo).users(),
{
}

/// Saving changes the birthday and the time of the update of whoever first has the Telegram ID, and
/// nothing else of theirs; else it puts a new user in the place of whoever has the ID, or at the
/// end. Everybody else stays where they are.
pub proof fn saving_changes_one_place(
    users: &mut Vec<User>,
    telegram_id: u64,
    birthdate: Date,
    id: UserId,
    now: Timestamp,
    i: int,
)
    requires
        call_ensures(inmemory::save, (users, telegram_id, birthdate, id, now), ()),
        0 <= i <= old(users)@.len(),
        forall|k: int| 0 <= k < i ==> (#[trigger] old(users)@[k]).telegram_id != telegram_id,
        i < old(users)@.len() ==> old(users)@[i].telegram_id == telegram_id,
    ensures
        ({
            let before = old(users)@;
            let after = final(users)@;
            let made = User {
                id,
                telegram_id,
                birthdate,
                created_at: now,
                updated_at: now,
            };
            &&& i < before.len() ==> after == before.update(
                i,
                User {
                    id: before[i].id,
                    telegram_id,
                    birthdate,
                    created_at: before[i].created_at,
                    updated_at: now,
                },
            )
            &&& i == before.len() && (forall|k: int|
                0 <= k < before.len() ==> (#[trigger] before[k]).id != id) ==> after == before.push(
                made,
            )
            &&& forall|k: int|
                i == before.len() && 0 <= k < before.len() && (#[trigger] before[k]).id == id && (
                forall|j: int| 0 <= j < k ==> (#[trigger] before[j]).id != id) ==> after
                    == before.update(k, made)
        }),
{
    let before = old(users)@;
    if i < before.len() {
        assert(inmemory::telegram_id_at(before, telegram_id, i));
        inmemory::lemma_position(before, telegram_id, i);
    } else {
        assert(!exists|k: int| inmemory::telegram_id_at(before, telegram_id, k));
        let made = User { id, telegram_id, birthdate, created_at: now, updated_at: now };
        assert forall|k: int|
            0 <= k < before.len() && (#[trigger] before[k]).id == id && (forall|j: int|
                0 <= j < k ==> (#[trigger] before[j]).id != id) implies final(users)@
            == before.update(k, made) by {
            assert(inmemory::id_at(before, id, k));
            inmemory::lemma_position_of_id(before, id, k);
        }
    }
}

/// A Telegram ID is stored as the same number, or that less 2^64 where it is too large, and is
/// loaded again as it was.
pub proof fn telegram_ids_are_kept(telegram_id: u64, number: i64, loaded: u64)
    requires
        call_ensures(rows::stored_id, (telegram_id,), number),
        call_ensures(rows::loaded_id, (number,), loaded),
    ensures
        number == (if telegram_id < 0x8000_0000_0000_0000 {
            telegram_id as int
        } else {
            telegram_id - 0x1_0000_0000_0000_0000
        }),
        loaded == telegram_id,
{
}

/// A user's row holds each of their fields, and gives the same user back.
pub proof fn rows_give_users_back(user: User, row: UserRow, back: Result<User, InvalidId>)
    requires
        call_ensures(rows::user_to_row, (&user,), row),
        call_ensures(rows::row_to_user, (&row,), back),
    ensures
        row.id@ == elements::uuid_text(user.id.0),
        row.telegram_id == (if user.telegram_id < 0x8000_0000_0000_0000 {
            user.telegram_id as int
        } else {
            user.telegram_id - 0x1_0000_0000_0000_0000
        }),
        row.birthdate == user.birthdate,
        row.created_at == user.created_at,
        row.updated_at == user.updated_at,
        back matches Ok(same) && same == user,
{
    if back is Ok {
        rows::row_holds_one_user(row, user, back->Ok_0, InvalidId(arbitrary()));
    }
}

/// A user who was read from a row has each field as it stands there, and there is one exactly if
/// the ID column is a UUID.
pub proof fn users_are_read_from_rows(row: UserRow, user: Result<User, InvalidId>)
    requires
        call_ensures(rows::row_to_user, (&row,), user),
    ensures
        user is Ok <==> elements::uuid_in(row.id@) is Ok,
        user matches Ok(found) ==> {
            &&& found.id.0 == elements::uuid_in(row.id@)->Ok_0
            &&& found.telegram_id == (if row.telegram_id >= 0 {
                row.telegram_id as int
            } else {
                row.telegram_id + 0x1_0000_0000_0000_0000
            })
            &&& found.birthdate == row.birthdate
            &&& found.created_at == row.created_at
            &&& found.updated_at == row.updated_at
        },
        user matches Err(error) ==> error.0@ == elements::uuid_in(row.id@)->Err_0,
{
}

/// Rows are read one by one: there are users exactly if every row holds one, and then the one that
/// each row holds alone, in their order.
pub proof fn rows_are_read_one_by_one(
    rows: Vec<UserRow>,
    users: Result<Vec<User>, InvalidId>,
    i: int,
    alone: Result<User, InvalidId>,
)
    requires
        call_ensures(rows::rows_to_users, (&rows,), users),
        0 <= i < rows.len(),
        call_ensures(rows::row_to_user, (&rows[i],), alone),
    ensures
        users matches Ok(found) ==> found.len() == rows.len() && alone is Ok && alone->Ok_0
            == found[i],
        alone is Err ==> users is Err,
        users is Err ==> exists|k: int|
            0 <= k < rows.len() && elements::uuid_in((#[trigger] rows[k]).id@) is Err,
{
    match users {
        Ok(found) => {
            assert(rows::holds(rows@[i], found@[i]));
            match alone {
                Ok(one) => rows::row_holds_one_user(
                    rows@[i],
                    one,
                    found@[i],
                    InvalidId(arbitrary()),
                ),
                Err(error) => rows::row_holds_one_user(rows@[i], found@[i], found@[i], error),
            }
        },
        Err(error) => {
            let k = choose|k: int|
                0 <= k < rows.len() && rows::is_invalid(#[trigger] rows[k], error) && forall|j: int|
                    0 <= j < k ==> elements::uuid_in((#[trigger] rows[j]).id@) is Ok;
            assert(elements::uuid_in(rows[k].id@) is Err);
        },
    }
}

/// A new row is read as a user with this Telegram ID and birthday, created and updated at once.
pub proof fn new_rows_hold_what_was_given(
    telegram_id: u64,
    birthdate: Date,
    row: UserRow,
    user: Result<User, InvalidId>,
)
    requires
        call_ensures(rows::new_row, (telegram_id, birthdate), row),
        call_ensures(rows::row_to_user, (&row,), user),
    ensures
        user matches Ok(found) && found.telegram_id == telegram_id && found.birthdate == birthdate
            && found.created_at == found.updated_at && row.id@ == elements::uuid_text(found.id.0),
{
}

/// An ID is the number that it is made of.
pub proof fn ids_are_what_they_are_made_of(bits: u128, id: UserId)
    requires
        call_ensures(<UserId as From<u128>>::from, (bits,), id),
    ensures
        id.0 == bits,
{
}

/// A source draws each time a greater number than before.
pub proof fn ids_are_drawn_in_order(source: &mut IdSource, bits: u128)
    requires
        call_ensures(IdSource::draw, (source,), bits),
    ensures
        bits > old(source).last(),
        final(source).last() == bits,
{
}

/// An ID is read again from its text.
pub proof fn ids_are_read_again(
    id: UserId,
    text: String,
    input: &str,
    read: Result<UserId, String>,
)
    requires
        call_ensures(UserId::text, (&id,), text),
        input@ == text@,
        call_ensures(UserId::parse, (input,), read),
    ensures
        read matches Ok(same) && same == id,
{
}

} // verus!
