//! Users and Telegram IDs as a database holds them.

use vstd::prelude::*;

use crate::calendar;
use crate::calendar::{Date, Timestamp, Ymd};
use crate::elements;
use crate::elements::{User, UserId};
use crate::ids;

verus! {

/// The signed number under which a database holds a Telegram ID: the same 64 bits.
pub open spec fn stored(telegram_id: u64) -> int {
    if telegram_id <= i64::MAX {
        telegram_id as int
    } else {
        telegram_id - 0x1_0000_0000_0000_0000
    }
}

/// The signed number under which to store a Telegram ID.
pub fn stored_id(telegram_id: u64) -> (number: i64)
    ensures
        number == stored(telegram_id),
{
    let number: i64 = telegram_id as i64;
    assert(telegram_id <= 0x7fff_ffff_ffff_ffff ==> number == telegram_id) by (bit_vector)
        requires
            number == telegram_id as i64,
    ;
    assert(telegram_id > 0x7fff_ffff_ffff_ffff ==> number == telegram_id - 0x1_0000_0000_0000_0000)
        by (bit_vector)
        requires
            number == telegram_id as i64,
    ;
    number
}

/// The Telegram ID that is stored under a signed number.
pub fn loaded_id(number: i64) -> (telegram_id: u64)
    ensures
        number == stored(telegram_id),
{
    let telegram_id: u64 = number as u64;
    assert(number >= 0 ==> telegram_id == number) by (bit_vector)
        requires
            telegram_id == number as u64,
    ;
    assert(number < 0 ==> telegram_id == number + 0x1_0000_0000_0000_0000) by (bit_vector)
        requires
            telegram_id == number as u64,
    ;
    telegram_id
}

/// No two Telegram IDs are stored under the same number, and each number stands for one.
pub proof fn stored_ids_are_distinct(a: u64, b: u64, number: i64)
    ensures
        stored(a) == stored(b) <==> a == b,
        i64::MIN <= stored(a) <= i64::MAX,
        exists|id: u64| stored(id) == number,
{
    let id = if number >= 0 {
        number as u64
    } else {
        (number + 0x1_0000_0000_0000_0000) as u64
    };
    assert(stored(id) == number);
}

/// A stored user, column by column.
#[derive(Debug, Clone, PartialEq, Eq)]
pub struct UserRow {
    pub id: String,
    pub telegram_id: i64,
    pub birthdate: Date,
    pub created_at: Timestamp,
    pub updated_at: Timestamp,
}

/// Why a row does not hold a user: the text in its ID column is no UUID.
#[derive(Debug, Clone, PartialEq, Eq)]
pub struct InvalidId(pub String);

/// The row holds this user.
pub open spec fn holds(row: UserRow, user: User) -> bool {
    &&& elements::uuid_in(row.id@) == Ok::<u128, Seq<char>>(user.id.0)
    &&& row.telegram_id == stored(user.telegram_id)
    &&& row.birthdate == user.birthdate
    &&& row.created_at == user.created_at
    &&& row.updated_at == user.updated_at
}

/// The row holds no user, for the reason that `error` gives.
pub open spec fn is_invalid(row: UserRow, error: InvalidId) -> bool {
    elements::uuid_in(row.id@) == Err::<u128, Seq<char>>(error.0@)
}

/// The user that a row holds.
pub fn row_to_user(row: &UserRow) -> (user: Result<User, InvalidId>)
    ensures
        match user {
            Ok(found) => holds(*row, found),
            Err(error) => is_invalid(*row, error),
        },
{
    match UserId::parse(row.id.as_str()) {
        Ok(id) => Ok(
            User {
                id,
                telegram_id: loaded_id(row.telegram_id),
                birthdate: row.birthdate,
                created_at: row.created_at,
                updated_at: row.updated_at,
            },
        ),
        Err(reason) => Err(InvalidId(reason)),
    }
}

/// The row that holds a user.
pub fn user_to_row(user: &User) -> (row: UserRow)
    ensures
        row.id@ == elements::uuid_text(user.id.0),
        holds(row, *user),
{
    UserRow {
        id: user.id.text(),
        telegram_id: stored_id(user.telegram_id),
        birthdate: user.birthdate,
        created_at: user.created_at,
        updated_at: user.updated_at,
    }
}

/// A row for someone new, with a new ID and created now.
pub fn new_row(telegram_id: u64, birthdate: Date) -> (row: UserRow)
    ensures
        exists|user: User| #[trigger]
            holds(row, user) && row.id@ == elements::uuid_text(user.id.0) && user.telegram_id
                == telegram_id && user.birthdate == birthdate && user.created_at == user.updated_at
                && call_ensures(UserId::generate, (), user.id) && ids::is_version_7(user.id.0)
                && call_ensures(Timestamp::now, (), user.created_at),
{
    let now = Timestamp::now();
    let id = UserId::generate();
    let user = User::created_at(id, telegram_id, birthdate, now);
    let row = user_to_row(&user);
    assert(holds(row, user));
    row
}

/// A row holds at most one user, and none if it is invalid.
pub proof fn row_holds_one_user(row: UserRow, a: User, b: User, error: InvalidId)
    ensures
        holds(row, a) && holds(row, b) ==> a == b,
        holds(row, a) ==> !is_invalid(row, error),
{
    if holds(row, a) && holds(row, b) {
        stored_ids_are_distinct(a.telegram_id, b.telegram_id, row.telegram_id);
    }
}

/// The users that rows hold, in the order of the rows; or what is wrong with the first row that
/// holds none.
pub fn rows_to_users(rows: &Vec<UserRow>) -> (users: Result<Vec<User>, InvalidId>)
    ensures
        match users {
            Ok(found) => found.len() == rows.len() && forall|i: int|
                0 <= i < rows.len() ==> holds(#[trigger] rows[i], found[i]),
            Err(error) => exists|i: int|
                0 <= i < rows.len() && is_invalid(#[trigger] rows[i], error) && forall|k: int|
                    0 <= k < i ==> elements::uuid_in((#[trigger] rows[k]).id@) is Ok,
        },
{
    let mut users: Vec<User> = Vec::new();
    let mut i: usize = 0;
    while i < rows.len()
        invariant
            i <= rows.len(),
            users.len() == i,
            forall|k: int| 0 <= k < i ==> holds(#[trigger] rows[k], users[k]),
        decreases rows.len() - i,
    {
        match row_to_user(&rows[i]) {
            Ok(user) => {
                users.push(user);
            },
            Err(error) => {
                assert(is_invalid(rows[i as int], error));
                return Err(error);
            },
        }
        i = i + 1;
    }
    Ok(users)
}

/// The users come in the order of the numbers under which their Telegram IDs are stored.
pub open spec fn ordered_by_stored_id(users: Seq<User>) -> bool {
    forall|i: int, j: int|
        0 <= i < j < users.len() ==> stored((#[trigger] users[i]).telegram_id) < stored(
            (#[trigger] users[j]).telegram_id,
        )
}

/// Rows in the order of their stored Telegram IDs hold users in that order.
pub proof fn ordered_rows_hold_ordered_users(rows: Seq<UserRow>, users: Seq<User>)
    requires
        users.len() == rows.len(),
        forall|i: int| 0 <= i < rows.len() ==> holds(#[trigger] rows[i], users[i]),
        forall|i: int, j: int|
            0 <= i < j < rows.len() ==> (#[trigger] rows[i]).telegram_id < (
            #[trigger] rows[j]).telegram_id,
    ensures
        ordered_by_stored_id(users),
        elements::unique_telegram_ids(users),
{
    assert forall|i: int, j: int| 0 <= i < j < users.len() implies stored(
        (#[trigger] users[i]).telegram_id,
    ) < stored((#[trigger] users[j]).telegram_id) by {
        assert(rows[i].telegram_id < rows[j].telegram_id);
    }
}

/// Of users in the order of their stored Telegram IDs, the upcoming birthdays are listed by day, and
/// those on the same day by stored ID.
pub proof fn listed_by_day_and_id(
    users: Seq<User>,
    from: Ymd,
    days: int,
    list: Seq<(Date, User)>,
)
    requires
        ordered_by_stored_id(users),
        elements::soonest_first(users, from, days, list),
    ensures
        forall|i: int, j: int|
            0 <= i < j < list.len() ==> (#[trigger] list[i]).0@.day_number() < (
            #[trigger] list[j]).0@.day_number() || list[i].0 == list[j].0 && stored(
                list[i].1.telegram_id,
            ) < stored(list[j].1.telegram_id),
{
    let at = choose|at: Seq<int>| elements::listed_at(users, from, days, list, at);
    assert forall|i: int, j: int| 0 <= i < j < list.len() implies (
    #[trigger] list[i]).0@.day_number() < (#[trigger] list[j]).0@.day_number() || list[i].0
        == list[j].0 && stored(list[i].1.telegram_id) < stored(list[j].1.telegram_id) by {
        let a = users[at[i]];
        let b = users[at[j]];
        if list[i].0@.day_number() >= list[j].0@.day_number() {
            elements::next_celebration_is_the_earliest(a.birthdate@, from, days);
            elements::next_celebration_is_the_earliest(b.birthdate@, from, days);
            assert(elements::is_next_celebration(a.birthdate@, from, days, list[i].0@));
            assert(elements::is_next_celebration(b.birthdate@, from, days, list[j].0@));
            calendar::day_numbers_follow_the_calendar(list[i].0@, list[j].0@);
            calendar::date_is_its_day(list[i].0, list[j].0);
            assert(stored(users[at[i]].telegram_id) < stored(users[at[j]].telegram_id));
        }
    }
}

} // verus!
