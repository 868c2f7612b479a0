//! A store that lives in memory.

use vstd::hash_map::StringHashMap;
use vstd::prelude::*;

use crate::calendar::{Date, Timestamp};
use crate::elements;
use crate::elements::{
    RepositoryError, StoreModel, User, UserId, UserRepository, UsernameDirectory,
};
use crate::ids;
use crate::ids::IdSource;

verus! {

/// No two users have the same ID.
pub open spec fn unique_ids(users: Seq<User>) -> bool {
    forall|i: int, j: int|
        0 <= i < j < users.len() ==> (#[trigger] users[i]).id != (#[trigger] users[j]).id
}

/// Every birthday in `users` is a day of the calendar.
pub open spec fn birthdays_exist(users: Seq<User>) -> bool {
    forall|i: int| 0 <= i < users.len() ==> (#[trigger] users[i]).birthdate@.valid()
}

/// Nobody in `users` has this ID.
pub open spec fn is_new(users: Seq<User>, id: UserId) -> bool {
    forall|i: int| 0 <= i < users.len() ==> (#[trigger] users[i]).id != id
}

/// `users` holds, at the place `i` and at none before, a user with this Telegram ID.
pub open spec fn telegram_id_at(users: Seq<User>, telegram_id: u64, i: int) -> bool {
    &&& 0 <= i < users.len()
    &&& users[i].telegram_id == telegram_id
    &&& forall|k: int| 0 <= k < i ==> (#[trigger] users[k]).telegram_id != telegram_id
}

/// `users` holds, at the place `i` and at none before, a user with this ID.
pub open spec fn id_at(users: Seq<User>, id: UserId, i: int) -> bool {
    &&& 0 <= i < users.len()
    &&& users[i].id == id
    &&& forall|k: int| 0 <= k < i ==> (#[trigger] users[k]).id != id
}

/// `users` with the birthday saved under `telegram_id`. Someone who is there keeps their place and
/// all but their birthday and the time of their update; someone new comes last, or in the place of
/// whoever has the ID already.
pub open spec fn saved(
    users: Seq<User>,
    telegram_id: u64,
    birthdate: Date,
    id: UserId,
    now: Timestamp,
) -> Seq<User> {
    let user = User { id, telegram_id, birthdate, created_at: now, updated_at: now };
    if exists|i: int| telegram_id_at(users, telegram_id, i) {
        let i = choose|i: int| telegram_id_at(users, telegram_id, i);
        users.update(i, User { birthdate, updated_at: now, ..users[i] })
    } else if exists|i: int| id_at(users, id, i) {
        users.update(choose|i: int| id_at(users, id, i), user)
    } else {
        users.push(user)
    }
}

/// `users` without the one with this Telegram ID.
pub open spec fn removed(users: Seq<User>, telegram_id: u64) -> Seq<User> {
    if exists|i: int| telegram_id_at(users, telegram_id, i) {
        users.remove(choose|i: int| telegram_id_at(users, telegram_id, i))
    } else {
        users
    }
}

/// Saves the birthday for `telegram_id` at the time `now`, under `id` where there is no such user
/// yet. Where no Telegram ID and no ID occurred twice, none does afterwards.
pub fn save(
    users: &mut Vec<User>,
    telegram_id: u64,
    birthdate: Date,
    id: UserId,
    now: Timestamp,
)
    ensures
        final(users)@ == saved(old(users)@, telegram_id, birthdate, id, now),
        elements::unique_telegram_ids(old(users)@) && unique_ids(old(users)@) ==> {
            &&& elements::unique_telegram_ids(final(users)@)
            &&& unique_ids(final(users)@)
            &&& elements::birthday_saved(
                elements::by_telegram_id(old(users)@),
                elements::by_telegram_id(final(users)@),
                telegram_id,
                birthdate,
            )
        },
{
    let ghost before = users@;
    let ghost unique = elements::unique_telegram_ids(before) && unique_ids(before);
    match position_of(users, telegram_id) {
        Some(i) => {
            let mut user = users[i];
            user.birthdate = birthdate;
            user.updated_at = now;
            users.set(i, user);
            proof {
                lemma_position(before, telegram_id, i as int);
                if unique {
                    lemma_update_known(before, i as int, user);
                }
            }
        },
        None => {
            let user = User::created_at(id, telegram_id, birthdate, now);
            match position_of_id(users, id) {
                Some(i) => {
                    users.set(i, user);
                    proof {
                        lemma_position_of_id(before, id, i as int);
                        if unique {
                            lemma_replace(before, i as int, user);
                        }
                    }
                },
                None => {
                    users.push(user);
                    proof {
                        if unique {
                            lemma_append(before, user);
                        }
                    }
                },
            }
        },
    }
}

/// Birthdays and usernames in memory.
pub struct InMemoryUserRepository {
    users: Vec<User>,
    usernames: StringHashMap<u64>,
    ids: IdSource,
}

impl InMemoryUserRepository {
    #[verifier::type_invariant]
    spec fn each_once(self) -> bool {
        &&& elements::unique_telegram_ids(self.users@)
        &&& unique_ids(self.users@)
        &&& forall|i: int|
            0 <= i < self.users@.len() ==> (#[trigger] self.users@[i]).id.0 <= self.ids.last()
        &&& birthdays_exist(self.users@)
    }

    /// The stored users, in the order in which they were first stored.
    pub closed spec fn records(self) -> Seq<User> {
        self.users@
    }

    /// The known usernames and the Telegram ID that each belongs to.
    pub closed spec fn directory(self) -> Map<Seq<char>, u64> {
        self.usernames@
    }

    /// An empty store.
    pub fn new() -> (repo: Self)
        ensures
            repo.records() == Seq::<User>::empty(),
            repo.users() == Map::<u64, User>::empty(),
            repo.usernames() == Map::<Seq<char>, u64>::empty(),
    {
        let repo = InMemoryUserRepository {
            users: Vec::new(),
            usernames: StringHashMap::new(),
            ids: IdSource::new(),
        };
        assert(repo.users() =~= Map::<u64, User>::empty());
        repo
    }
}

impl Default for InMemoryUserRepository {
    /// An empty store.
    fn default() -> (repo: Self)
        ensures
            repo.records() == Seq::<User>::empty(),
            repo.users() == Map::<u64, User>::empty(),
            repo.usernames() == Map::<Seq<char>, u64>::empty(),
    {
        InMemoryUserRepository::new()
    }
}

impl StoreModel for InMemoryUserRepository {
    open spec fn users(&self) -> Map<u64, User> {
        elements::by_telegram_id(self.records())
    }

    open spec fn usernames(&self) -> Map<Seq<char>, u64> {
        self.directory()
    }
}

impl UserRepository for InMemoryUserRepository {
    open spec fn add_answers(
        before: Self,
        after: Self,
        telegram_id: u64,
        birthday: Date,
        answer: Result<(), RepositoryError>,
    ) -> bool {
        &&& answer is Ok
        &&& after.directory() == before.directory()
        &&& elements::unique_telegram_ids(before.records())
        &&& elements::unique_telegram_ids(after.records())
        &&& exists|id: UserId, now: Timestamp|
            {
                &&& is_new(before.records(), id)
                &&& ids::is_version_7(id.0)
                &&& call_ensures(Timestamp::now, (), now)
                &&& after.records() == #[trigger] saved(
                    before.records(),
                    telegram_id,
                    birthday,
                    id,
                    now,
                )
            }
    }

    open spec fn remove_answers(
        before: Self,
        after: Self,
        telegram_id: u64,
        answer: Result<bool, RepositoryError>,
    ) -> bool {
        &&& answer is Ok
        &&& after.directory() == before.directory()
        &&& elements::unique_telegram_ids(before.records())
        &&& elements::unique_telegram_ids(after.records())
        &&& after.records() == removed(before.records(), telegram_id)
    }

    fn find_birthdays_for_date(&self, date: Date) -> (answer: Result<Vec<User>, RepositoryError>)
        ensures
            answer is Ok,
            elements::unique_telegram_ids(self.records()),
            birthdays_exist(self.records()),
            answer matches Ok(list) ==> list@ == elements::celebrants_of(self.records(), date@),
    {
        proof {
            use_type_invariant(self);
            elements::celebrants_are_listed(self.users@, date@);
            elements::found_by_telegram_id(self.users@);
        }
        Ok(elements::celebrants(&self.users, date))
    }

    fn find_birthdays_within(&self, from: Date, days: u32) -> (answer: Result<
        Vec<(Date, User)>,
        RepositoryError,
    >)
        ensures
            answer is Ok,
            elements::unique_telegram_ids(self.records()),
            birthdays_exist(self.records()),
            answer matches Ok(list) ==> elements::soonest_first(
                self.records(),
                from@,
                days as int,
                list@,
            ),
    {
        let list = elements::upcoming(&self.users, from, days);
        proof {
            use_type_invariant(self);
            elements::soonest_are_listed(self.users@, from@, days as int, list@);
            elements::found_by_telegram_id(self.users@);
        }
        Ok(list)
    }

    fn add_birthday(&mut self, telegram_id: u64, birthday: Date) -> (answer: Result<
        (),
        RepositoryError,
    >) {
        proof {
            use_type_invariant(&*self);
            use_type_invariant(&birthday);
        }
        let mut users: Vec<User> = Vec::new();
        std::mem::swap(&mut users, &mut self.users);
        let mut source = IdSource::new();
        std::mem::swap(&mut source, &mut self.ids);
        let id = UserId(source.draw());
        let now = Timestamp::now();
        save(&mut users, telegram_id, birthday, id, now);
        assert(is_new(old(self).users@, id));
        assert(call_ensures(Timestamp::now, (), now));
        self.ids = source;
        self.users = users;
        assert(self.records() == saved(old(self).records(), telegram_id, birthday, id, now));
        Ok(())
    }

    fn remove_birthday(&mut self, telegram_id: u64) -> (answer: Result<bool, RepositoryError>) {
        proof {
            use_type_invariant(&*self);
        }
        let ghost before = self.users@;
        match position_of(&self.users, telegram_id) {
            Some(i) => {
                let mut users: Vec<User> = Vec::new();
                std::mem::swap(&mut users, &mut self.users);
                users.remove(i);
                proof {
                    lemma_position(before, telegram_id, i as int);
                    lemma_remove(before, i as int);
                }
                self.users = users;
                Ok(true)
            },
            None => {
                proof {
                    assert(self.users() =~= old(self).users().remove(telegram_id));
                }
                Ok(false)
            },
        }
    }
}

impl UsernameDirectory for InMemoryUserRepository {
    open spec fn record_answers(
        before: Self,
        after: Self,
        username: Seq<char>,
        telegram_id: u64,
        answer: Result<(), RepositoryError>,
    ) -> bool {
        &&& answer is Ok
        &&& after.records() == before.records()
    }

    fn record_username(&mut self, username: &str, telegram_id: u64) -> (answer: Result<
        (),
        RepositoryError,
    >) {
        proof {
            use_type_invariant(&*self);
        }
        let mut usernames: StringHashMap<u64> = StringHashMap::new();
        std::mem::swap(&mut usernames, &mut self.usernames);
        usernames.insert(username.to_owned(), telegram_id);
        self.usernames = usernames;
        Ok(())
    }

    fn resolve_username(&self, username: &str) -> (answer: Result<Option<u64>, RepositoryError>)
        ensures
            answer is Ok,
    {
        match self.usernames.get(username) {
            Some(telegram_id) => Ok(Some(*telegram_id)),
            None => Ok(None),
        }
    }
}

/// The place of the user with this Telegram ID.
fn position_of(users: &Vec<User>, telegram_id: u64) -> (place: Option<usize>)
    ensures
        match place {
            Some(i) => telegram_id_at(users@, telegram_id, i as int),
            None => forall|i: int|
                0 <= i < users.len() ==> (#[trigger] users[i]).telegram_id != telegram_id,
        },
{
    let mut i: usize = 0;
    while i < users.len()
        invariant
            i <= users.len(),
            forall|k: int| 0 <= k < i ==> (#[trigger] users[k]).telegram_id != telegram_id,
        decreases users.len() - i,
    {
        if users[i].telegram_id == telegram_id {
            return Some(i);
        }
        i = i + 1;
    }
    None
}

/// The place of the user with this ID.
fn position_of_id(users: &Vec<User>, id: UserId) -> (place: Option<usize>)
    ensures
        match place {
            Some(i) => id_at(users@, id, i as int),
            None => is_new(users@, id),
        },
{
    let mut i: usize = 0;
    while i < users.len()
        invariant
            i <= users.len(),
            forall|k: int| 0 <= k < i ==> (#[trigger] users[k]).id != id,
        decreases users.len() - i,
    {
        if users[i].id == id {
            return Some(i);
        }
        i = i + 1;
    }
    None
}

pub(crate) proof fn lemma_position(users: Seq<User>, telegram_id: u64, i: int)
    requires
        telegram_id_at(users, telegram_id, i),
    ensures
        i == choose|k: int| telegram_id_at(users, telegram_id, k),
{
    let k = choose|k: int| telegram_id_at(users, telegram_id, k);
    assert(users[k].telegram_id == users[i].telegram_id);
}

pub(crate) proof fn lemma_position_of_id(users: Seq<User>, id: UserId, i: int)
    requires
        id_at(users, id, i),
    ensures
        i == choose|k: int| id_at(users, id, k),
{
    let k = choose|k: int| id_at(users, id, k);
    assert(users[k].id == users[i].id);
}

/// Replacing a user by one with the same two IDs.
proof fn lemma_update_known(users: Seq<User>, i: int, user: User)
    requires
        elements::unique_telegram_ids(users),
        unique_ids(users),
        0 <= i < users.len(),
        user.id == users[i].id,
        user.telegram_id == users[i].telegram_id,
        user.created_at == users[i].created_at,
    ensures
        elements::unique_telegram_ids(users.update(i, user)),
        unique_ids(users.update(i, user)),
        elements::birthday_saved(
            elements::by_telegram_id(users),
            elements::by_telegram_id(users.update(i, user)),
            user.telegram_id,
            user.birthdate,
        ),
{
    let more = users.update(i, user);
    let before = elements::by_telegram_id(users);
    let after = elements::by_telegram_id(more);
    assert(forall|k: int|
        0 <= k < users.len() ==> (#[trigger] more[k]).telegram_id == users[k].telegram_id
            && more[k].id == users[k].id);
    assert(elements::unique_telegram_ids(more));
    elements::found_by_telegram_id(users);
    elements::found_by_telegram_id(more);
    assert(after =~= before.insert(user.telegram_id, user)) by {
        assert forall|id: u64| before.contains_key(id) implies #[trigger] after.contains_key(id) by {
            let k = choose|k: int|
                0 <= k < users.len() && #[trigger] users[k] == before[id] && users[k].telegram_id
                    == id;
            assert(more[k].telegram_id == id);
        }
        assert(more[i] == user);
        assert forall|id: u64| #[trigger] after.contains_key(id) implies after[id]
            == before.insert(user.telegram_id, user)[id] && before.contains_key(id) by {
            let k = choose|k: int|
                0 <= k < more.len() && #[trigger] more[k] == after[id] && more[k].telegram_id == id;
            assert(users[k].telegram_id == id);
        }
    }
    assert(before.contains_key(users[i].telegram_id));
    assert(elements::user_saved(before, after, user));
}

/// Replacing a user by a new one with the same ID.
proof fn lemma_replace(users: Seq<User>, i: int, user: User)
    requires
        elements::unique_telegram_ids(users),
        unique_ids(users),
        id_at(users, user.id, i),
        forall|k: int|
            0 <= k < users.len() ==> (#[trigger] users[k]).telegram_id != user.telegram_id,
        user.created_at == user.updated_at,
    ensures
        elements::unique_telegram_ids(users.update(i, user)),
        unique_ids(users.update(i, user)),
        elements::birthday_saved(
            elements::by_telegram_id(users),
            elements::by_telegram_id(users.update(i, user)),
            user.telegram_id,
            user.birthdate,
        ),
{
    let more = users.update(i, user);
    let before = elements::by_telegram_id(users);
    let after = elements::by_telegram_id(more);
    assert(forall|k: int| 0 <= k < users.len() ==> (#[trigger] more[k]).id == users[k].id);
    elements::found_by_telegram_id(users);
    elements::found_by_telegram_id(more);
    let expected = elements::without_id(before, user.id).insert(user.telegram_id, user);
    assert(after =~= expected) by {
        assert(more[i] == user);
        assert forall|id: u64| #[trigger] after.contains_key(id) implies expected.contains_key(id)
            && after[id] == expected[id] by {
            let k = choose|k: int|
                0 <= k < more.len() && #[trigger] more[k] == after[id] && more[k].telegram_id == id;
            if k != i {
                assert(users[k] == more[k]);
                assert(users[k].id != users[i].id);
            }
        }
        assert forall|id: u64| #[trigger] expected.contains_key(id) implies after.contains_key(
            id,
        ) by {
            if id != user.telegram_id {
                let k = choose|k: int|
                    0 <= k < users.len() && #[trigger] users[k] == before[id]
                        && users[k].telegram_id == id;
                assert(k != i);
                assert(more[k].telegram_id == id);
            }
        }
    }
    assert(!before.contains_key(user.telegram_id));
    assert(elements::user_saved(before, after, user));
}

/// A new user behind the others.
proof fn lemma_append(users: Seq<User>, user: User)
    requires
        elements::unique_telegram_ids(users),
        unique_ids(users),
        forall|k: int|
            0 <= k < users.len() ==> (#[trigger] users[k]).telegram_id != user.telegram_id,
        is_new(users, user.id),
        user.created_at == user.updated_at,
    ensures
        elements::unique_telegram_ids(users.push(user)),
        unique_ids(users.push(user)),
        elements::birthday_saved(
            elements::by_telegram_id(users),
            elements::by_telegram_id(users.push(user)),
            user.telegram_id,
            user.birthdate,
        ),
{
    let more = users.push(user);
    let before = elements::by_telegram_id(users);
    let after = elements::by_telegram_id(more);
    elements::found_by_telegram_id(users);
    elements::found_by_telegram_id(more);
    let expected = elements::without_id(before, user.id).insert(user.telegram_id, user);
    assert(after =~= expected) by {
        assert(more[users.len() as int] == user);
        assert forall|id: u64| #[trigger] after.contains_key(id) implies expected.contains_key(id)
            && after[id] == expected[id] by {
            let k = choose|k: int|
                0 <= k < more.len() && #[trigger] more[k] == after[id] && more[k].telegram_id == id;
            if k < users.len() {
                assert(users[k] == more[k]);
            }
        }
        assert forall|id: u64| #[trigger] expected.contains_key(id) implies after.contains_key(
            id,
        ) by {
            if id != user.telegram_id {
                let k = choose|k: int|
                    0 <= k < users.len() && #[trigger] users[k] == before[id]
                        && users[k].telegram_id == id;
                assert(more[k].telegram_id == id);
            }
        }
    }
    assert(!before.contains_key(user.telegram_id));
    assert(elements::user_saved(before, after, user));
}

/// Taking one user out.
proof fn lemma_remove(users: Seq<User>, i: int)
    requires
        elements::unique_telegram_ids(users),
        unique_ids(users),
        0 <= i < users.len(),
    ensures
        elements::unique_telegram_ids(users.remove(i)),
        unique_ids(users.remove(i)),
        elements::by_telegram_id(users.remove(i)) == elements::by_telegram_id(users).remove(
            users[i].telegram_id,
        ),
        elements::by_telegram_id(users).contains_key(users[i].telegram_id),
{
    let rest = users.remove(i);
    let before = elements::by_telegram_id(users);
    let after = elements::by_telegram_id(rest);
    assert forall|a: int, b: int| 0 <= a < b < rest.len() implies (#[trigger] rest[a]).telegram_id
        != (#[trigger] rest[b]).telegram_id && rest[a].id != rest[b].id by {
        let c = if a < i {
            a
        } else {
            a + 1
        };
        let d = if b < i {
            b
        } else {
            b + 1
        };
        assert(rest[a] == users[c] && rest[b] == users[d]);
    }
    elements::found_by_telegram_id(users);
    elements::found_by_telegram_id(rest);
    let expected = before.remove(users[i].telegram_id);
    assert(after =~= expected) by {
        assert forall|id: u64| #[trigger] after.contains_key(id) implies expected.contains_key(id)
            && after[id] == expected[id] by {
            let k = choose|k: int|
                0 <= k < rest.len() && #[trigger] rest[k] == after[id] && rest[k].telegram_id == id;
            let c = if k < i {
                k
            } else {
                k + 1
            };
            assert(rest[k] == users[c]);
            assert(users[c].telegram_id != users[i].telegram_id);
        }
        assert forall|id: u64| #[trigger] expected.contains_key(id) implies after.contains_key(
            id,
        ) by {
            let k = choose|k: int|
                0 <= k < users.len() && #[trigger] users[k] == before[id] && users[k].telegram_id
                    == id;
            let c = if k < i {
                k
            } else {
                k - 1
            };
            assert(rest[c] == users[k]);
        }
    }
}

/// Adding a birthday leaves everybody else alone: afterwards exactly one user has this Telegram ID,
/// with this birthday, updated now. Someone who was there keeps their ID and the time they were
/// created; someone new has an ID that nobody had.
pub proof fn adding_leaves_others_alone(
    before: InMemoryUserRepository,
    after: InMemoryUserRepository,
    telegram_id: u64,
    birthday: Date,
    answer: Result<(), RepositoryError>,
)
    requires
        InMemoryUserRepository::add_answers(before, after, telegram_id, birthday, answer),
    ensures
        answer is Ok,
        after.usernames() == before.usernames(),
        elements::unique_telegram_ids(after.records()),
        after.users().contains_key(telegram_id),
        after.users()[telegram_id].telegram_id == telegram_id,
        after.users()[telegram_id].birthdate == birthday,
        after.users().remove(telegram_id) == before.users().remove(telegram_id),
        call_ensures(Timestamp::now, (), after.users()[telegram_id].updated_at),
        if before.users().contains_key(telegram_id) {
            &&& after.users()[telegram_id].id == before.users()[telegram_id].id
            &&& after.users()[telegram_id].created_at == before.users()[telegram_id].created_at
        } else {
            &&& after.users()[telegram_id].created_at == after.users()[telegram_id].updated_at
            &&& is_new(before.records(), after.users()[telegram_id].id)
            &&& ids::is_version_7(after.users()[telegram_id].id.0)
        },
{
    let (id, now) = choose|id: UserId, now: Timestamp|
        {
            &&& is_new(before.records(), id)
            &&& ids::is_version_7(id.0)
            &&& call_ensures(Timestamp::now, (), now)
            &&& after.records() == #[trigger] saved(
                before.records(),
                telegram_id,
                birthday,
                id,
                now,
            )
        };
    let users = before.records();
    let more = after.records();
    elements::found_by_telegram_id(users);
    elements::found_by_telegram_id(more);
    if exists|i: int| telegram_id_at(users, telegram_id, i) {
        let i = choose|i: int| telegram_id_at(users, telegram_id, i);
        assert(users[i].telegram_id == telegram_id);
        assert(more[i].telegram_id == telegram_id);
        lemma_others_kept(users, more, telegram_id, i);
    } else {
        assert(!exists|i: int| id_at(users, id, i));
        if before.users().contains_key(telegram_id) {
            let k = choose|k: int|
                0 <= k < users.len() && (#[trigger] users[k]).telegram_id == telegram_id;
            lemma_first_exists(users, telegram_id, k);
        }
        assert(more[users.len() as int].telegram_id == telegram_id);
        lemma_others_kept(users, more, telegram_id, users.len() as int);
    }
}

/// Where a Telegram ID occurs, there is a first place of it.
proof fn lemma_first_exists(users: Seq<User>, telegram_id: u64, k: int)
    requires
        0 <= k < users.len(),
        users[k].telegram_id == telegram_id,
    ensures
        exists|i: int| telegram_id_at(users, telegram_id, i),
    decreases k,
{
    if exists|j: int| 0 <= j < k && (#[trigger] users[j]).telegram_id == telegram_id {
        let j = choose|j: int| 0 <= j < k && (#[trigger] users[j]).telegram_id == telegram_id;
        lemma_first_exists(users, telegram_id, j);
    } else {
        assert(telegram_id_at(users, telegram_id, k));
    }
}

/// Two sequences of users that differ only at the place `i`, where the Telegram ID is the same, or
/// by one more user at the end.
proof fn lemma_others_kept(users: Seq<User>, more: Seq<User>, telegram_id: u64, i: int)
    requires
        elements::unique_telegram_ids(users),
        elements::unique_telegram_ids(more),
        0 <= i <= users.len(),
        more.len() == if i == users.len() {
            users.len() + 1
        } else {
            users.len()
        },
        more[i].telegram_id == telegram_id,
        i < users.len() ==> users[i].telegram_id == telegram_id,
        forall|k: int| 0 <= k < users.len() && k != i ==> #[trigger] more[k] == users[k],
    ensures
        elements::by_telegram_id(more).remove(telegram_id) == elements::by_telegram_id(
            users,
        ).remove(telegram_id),
{
    let before = elements::by_telegram_id(users).remove(telegram_id);
    let after = elements::by_telegram_id(more).remove(telegram_id);
    elements::found_by_telegram_id(users);
    elements::found_by_telegram_id(more);
    assert forall|id: u64| #[trigger] after.contains_key(id) implies before.contains_key(id)
        && after[id] == before[id] by {
        assert(elements::by_telegram_id(more).contains_key(id));
        let k = choose|k: int|
            0 <= k < more.len() && #[trigger] more[k] == elements::by_telegram_id(more)[id]
                && more[k].telegram_id == id;
        assert(k != i);
        assert(more[k] == users[k]);
    }
    assert forall|id: u64| #[trigger] before.contains_key(id) implies after.contains_key(id) by {
        assert(elements::by_telegram_id(users).contains_key(id));
        let k = choose|k: int|
            0 <= k < users.len() && #[trigger] users[k] == elements::by_telegram_id(users)[id]
                && users[k].telegram_id == id;
        assert(k != i);
        assert(more[k] == users[k]);
    }
    assert(after =~= before);
}

/// Removing a birthday undoes adding it for someone new: the store holds what it held before.
pub proof fn removing_undoes_adding(
    before: InMemoryUserRepository,
    between: InMemoryUserRepository,
    after: InMemoryUserRepository,
    telegram_id: u64,
    birthday: Date,
    added: Result<(), RepositoryError>,
    removed_answer: Result<bool, RepositoryError>,
)
    requires
        !before.users().contains_key(telegram_id),
        InMemoryUserRepository::add_answers(before, between, telegram_id, birthday, added),
        InMemoryUserRepository::remove_answers(between, after, telegram_id, removed_answer),
    ensures
        after.records() == before.records(),
        after.users() == before.users(),
        after.usernames() == before.usernames(),
{
    let (id, now) = choose|id: UserId, now: Timestamp|
        {
            &&& is_new(before.records(), id)
            &&& ids::is_version_7(id.0)
            &&& call_ensures(Timestamp::now, (), now)
            &&& between.records() == #[trigger] saved(
                before.records(),
                telegram_id,
                birthday,
                id,
                now,
            )
        };
    let users = before.records();
    let more = between.records();
    elements::found_by_telegram_id(users);
    if exists|i: int| telegram_id_at(users, telegram_id, i) {
        let i = choose|i: int| telegram_id_at(users, telegram_id, i);
        assert(before.users().contains_key(users[i].telegram_id));
    }
    assert(!exists|i: int| id_at(users, id, i));
    let last = users.len() as int;
    assert forall|k: int| 0 <= k < last implies (#[trigger] more[k]).telegram_id != telegram_id by {
        assert(users[k] == more[k]);
    }
    assert(telegram_id_at(more, telegram_id, last));
    lemma_position(more, telegram_id, last);
    assert(more.remove(last) =~= users);
}

} // verus!
