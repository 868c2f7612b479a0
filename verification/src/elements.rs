//! People, their birthdays and the days on which these are celebrated, and the ports to what
//! stores them.

use vstd::prelude::*;

use crate::calendar;
use crate::calendar::{Date, Timestamp, Ymd};
use crate::ids;
use crate::ids::IdSource;

verus! {

/// Why a store could not answer.
#[derive(Debug, Clone, PartialEq, Eq)]
pub enum RepositoryError {
    Storage(String),
}

impl RepositoryError {
    pub open spec fn message_text(self) -> Seq<char> {
        match self {
            RepositoryError::Storage(reason) => reason@,
        }
    }

    pub fn message(&self) -> (message: String)
        ensures
            message@ == self.message_text(),
    {
        match self {
            RepositoryError::Storage(reason) => reason.clone(),
        }
    }
}

/// Identifies a stored user: the 128 bits of a UUID.
#[derive(Debug, Clone, Copy, PartialEq, Eq, Hash, Structural)]
pub struct UserId(pub u128);

impl From<u128> for UserId {
    fn from(value: u128) -> (id: Self) {
        UserId(value)
    }
}

impl vstd::std_specs::convert::FromSpecImpl<u128> for UserId {
    open spec fn obeys_from_spec() -> bool {
        true
    }

    open spec fn from_spec(value: u128) -> Self {
        UserId(value)
    }
}

/// The lower-case hexadecimal digit that stands for `n`, for `n` below sixteen.
pub open spec fn hex_digit(n: int) -> char {
    if n < 10 {
        ('0' as u32 + n) as char
    } else {
        ('a' as u32 + (n - 10)) as char
    }
}

/// What the last `count` hexadecimal digits of `n` are.
pub open spec fn hex_digits(n: int, count: nat) -> Seq<char>
    decreases count,
{
    if count == 0 {
        Seq::empty()
    } else {
        hex_digits(n / 16, (count - 1) as nat).push(hex_digit(n % 16))
    }
}

/// The 32 digits of a UUID with hyphens behind the 8th, 12th, 16th and 20th.
pub open spec fn uuid_text(bits: u128) -> Seq<char> {
    let digits = hex_digits(bits as int, 32);
    digits.subrange(0, 8) + seq!['-'] + digits.subrange(8, 12) + seq!['-'] + digits.subrange(12, 16)
        + seq!['-'] + digits.subrange(16, 20) + seq!['-'] + digits.subrange(20, 32)
}

/// The bits of the UUID that a text denotes, or the reason why it denotes none, as
/// `uuid::Uuid::parse_str` has it.
pub uninterp spec fn uuid_in(text: Seq<char>) -> Result<u128, Seq<char>>;

impl UserId {
    /// A new ID: a version 7 UUID of the current time.
    pub fn generate() -> (id: UserId)
        ensures
            ids::is_version_7(id.0),
    {
        let mut source = IdSource::new();
        UserId(source.draw())
    }

    /// The ID in the form in which it is stored.
    pub fn text(&self) -> (text: String)
        ensures
            text@ == uuid_text(self.0),
            uuid_in(text@) matches Ok(read) && read == self.0,
    {
        uuid_to_string(self.0)
    }

    /// The ID that a text denotes, or the reason why it denotes none.
    pub fn parse(text: &str) -> (id: Result<UserId, String>)
        ensures
            match id {
                Ok(found) => uuid_in(text@) matches Ok(read) && read == found.0,
                Err(reason) => uuid_in(text@) matches Err(said) && said == reason@,
            },
    {
        match parse_uuid(text) {
            Ok(bits) => Ok(UserId(bits)),
            Err(reason) => Err(reason),
        }
    }
}

/// Formats a `uuid::Uuid` by its `Display`, which is believed to write its 32 digits in lower case
/// with hyphens between the five groups, and so that `uuid::Uuid::parse_str` reads the same UUID.
#[verifier::external_body]
fn uuid_to_string(bits: u128) -> (text: String)
    ensures
        text@ == uuid_text(bits),
        (uuid_in(text@) == Ok::<u128, Seq<char>>(bits)),
{
    uuid::Uuid::from_u128(bits).to_string()
}

/// Calls `uuid::Uuid::parse_str`. That a text has one outcome, a UUID or an error with one message,
/// is believed; which notations it accepts is left open.
#[verifier::external_body]
fn parse_uuid(text: &str) -> (bits: Result<u128, String>)
    ensures
        match bits {
            Ok(found) => uuid_in(text@) matches Ok(read) && read == found,
            Err(reason) => uuid_in(text@) matches Err(said) && said == reason@,
        },
{
    uuid::Uuid::parse_str(text).map(|id| id.as_u128()).map_err(|err| err.to_string())
}

/// Identifies a Telegram account.
#[derive(Debug, Clone, Copy, PartialEq, Eq, Hash, Structural)]
pub struct TelegramId(u64);

/// Someone whose birthday is stored.
#[derive(Debug, Clone, Copy, PartialEq, Eq, Hash, Structural)]
pub struct User {
    pub id: UserId,
    pub telegram_id: u64,
    /// Only the month and day are significant; the year is an arbitrary anchor
    /// (a leap year, so Feb 29 is representable).
    pub birthdate: Date,
    pub created_at: Timestamp,
    pub updated_at: Timestamp,
}

/// Whether a birthday on the month and day of `birth` is celebrated on `date`: on the same month
/// and day, and Feb 29 on Feb 28 where the year has no Feb 29.
pub open spec fn celebrated_on(birth: Ymd, date: Ymd) -> bool {
    ||| birth.month == date.month && birth.day == date.day
    ||| birth.month == 2 && birth.day == 29 && date.month == 2 && date.day == 28
        && !calendar::is_leap(date.year)
}

/// `date` is the first day from `from` on that the birthday is celebrated on, and it is at most
/// `days` days away.
pub open spec fn is_next_celebration(birth: Ymd, from: Ymd, days: int, date: Ymd) -> bool {
    &&& date.valid()
    &&& celebrated_on(birth, date)
    &&& from.day_number() <= date.day_number() <= from.day_number() + days
    &&& forall|other: Ymd|
        other.valid() && celebrated_on(birth, other) && from.day_number() <= other.day_number()
            ==> date.day_number() <= #[trigger] other.day_number()
}

/// The first day of `from..=from + days` that the birthday is celebrated on.
pub open spec fn next_celebration(birth: Ymd, from: Ymd, days: int) -> Option<Ymd> {
    if exists|date: Ymd| is_next_celebration(birth, from, days, date) {
        Some(choose|date: Ymd| is_next_celebration(birth, from, days, date))
    } else {
        None
    }
}

/// There is at most one next celebration, and there is none only if no day of
/// `from..=from + days` is one on which the birthday is celebrated.
pub proof fn next_celebration_is_the_earliest(birth: Ymd, from: Ymd, days: int)
    ensures
        forall|date: Ymd|
            is_next_celebration(birth, from, days, date) <==> next_celebration(birth, from, days)
                == Some(date),
        next_celebration(birth, from, days) is None ==> forall|date: Ymd|
            date.valid() && celebrated_on(birth, date) && from.day_number()
                <= #[trigger] date.day_number() ==> from.day_number() + days < date.day_number(),
{
    assert forall|date: Ymd| is_next_celebration(birth, from, days, date) implies next_celebration(
        birth,
        from,
        days,
    ) == Some(date) by {
        let chosen = choose|d: Ymd| is_next_celebration(birth, from, days, d);
        assert(chosen.day_number() == date.day_number());
        calendar::day_numbers_follow_the_calendar(chosen, date);
    }
    if next_celebration(birth, from, days) is None {
        assert forall|date: Ymd|
            date.valid() && celebrated_on(birth, date) && from.day_number()
                <= #[trigger] date.day_number() implies from.day_number() + days
            < date.day_number() by {
            if date.day_number() <= from.day_number() + days {
                lemma_earliest_exists(birth, from, days, date);
            }
        }
    }
}

/// Among the celebrations from `from` to `date` there is a first one.
proof fn lemma_earliest_exists(birth: Ymd, from: Ymd, days: int, date: Ymd)
    requires
        date.valid(),
        celebrated_on(birth, date),
        from.day_number() <= date.day_number() <= from.day_number() + days,
    ensures
        exists|d: Ymd| is_next_celebration(birth, from, days, d),
    decreases date.day_number() - from.day_number(),
{
    if exists|other: Ymd|
        other.valid() && celebrated_on(birth, other) && from.day_number()
            <= #[trigger] other.day_number() < date.day_number() {
        let other = choose|other: Ymd|
            other.valid() && celebrated_on(birth, other) && from.day_number()
                <= #[trigger] other.day_number() < date.day_number();
        lemma_earliest_exists(birth, from, days, other);
    } else {
        assert(is_next_celebration(birth, from, days, date));
    }
}

impl User {
    /// Whether this user's birthday is celebrated on `date`.
    /// Feb 29 birthdays are celebrated on Feb 28 in non-leap years.
    pub fn celebrates_on(&self, date: Date) -> (celebrates: bool)
        ensures
            celebrates == celebrated_on(self.birthdate@, date@),
    {
        let birth_month: u32 = self.birthdate.month();
        let birth_day: u32 = self.birthdate.day();
        if birth_month == date.month() && birth_day == date.day() {
            return true;
        }
        let year: i32 = date.year();
        let is_leap_year = Date::from_ymd_opt(year, 2, 29).is_some();
        birth_month == 2 && birth_day == 29 && date.month() == 2 && date.day() == 28
            && !is_leap_year
    }

    /// The first day of `from..=from + days` on which this user's birthday is celebrated.
    pub fn celebration_within(&self, from: Date, days: u32) -> (next: Option<Date>)
        ensures
            match next {
                Some(date) => next_celebration(self.birthdate@, from@, days as int) == Some(date@),
                None => next_celebration(self.birthdate@, from@, days as int) is None,
            },
    {
        let ghost birth = self.birthdate@;
        proof {
            next_celebration_is_the_earliest(birth, from@, days as int);
        }
        let limit: u64 = days as u64;
        let mut offset: u64 = 0;
        while offset <= limit
            invariant
                birth == self.birthdate@,
                limit == days,
                offset <= limit + 1,
                forall|other: Ymd|
                    other.valid() && celebrated_on(birth, other) && from@.day_number()
                        <= #[trigger] other.day_number() ==> from@.day_number() + offset
                        <= other.day_number(),
                forall|date: Ymd|
                    is_next_celebration(birth, from@, days as int, date) <==> next_celebration(
                        birth,
                        from@,
                        days as int,
                    ) == Some(date),
            decreases limit + 1 - offset,
        {
            match from.checked_add_days(offset) {
                Some(date) => {
                    if self.celebrates_on(date) {
                        assert(is_next_celebration(birth, from@, days as int, date@));
                        return Some(date);
                    }
                    assert forall|other: Ymd|
                        other.valid() && celebrated_on(birth, other) && from@.day_number()
                            <= #[trigger] other.day_number() implies from@.day_number() + offset + 1
                        <= other.day_number() by {
                        if other.day_number() == date@.day_number() {
                            calendar::day_numbers_follow_the_calendar(other, date@);
                        }
                    }
                },
                None => {
                    proof {
                        if next_celebration(birth, from@, days as int) is Some {
                            let date = next_celebration(birth, from@, days as int)->0;
                            assert(is_next_celebration(birth, from@, days as int, date));
                            calendar::day_of_year_bounds(date);
                        }
                    }
                    return None;
                },
            }
            offset = offset + 1;
        }
        proof {
            if next_celebration(birth, from@, days as int) is Some {
                let date = next_celebration(birth, from@, days as int)->0;
                assert(is_next_celebration(birth, from@, days as int, date));
            }
        }
        None
    }

    /// A user with this birthday, created now.
    pub fn new(id: UserId, telegram_id: u64, birthdate: Date) -> (user: Self)
        ensures
            user.id == id,
            user.telegram_id == telegram_id,
            user.birthdate == birthdate,
            user.created_at == user.updated_at,
            call_ensures(Timestamp::now, (), user.created_at),
    {
        User::created_at(id, telegram_id, birthdate, Timestamp::now())
    }

    /// A user with this birthday, created at `now`.
    pub fn created_at(id: UserId, telegram_id: u64, birthdate: Date, now: Timestamp) -> (user: Self)
        ensures
            user == (User { id, telegram_id, birthdate, created_at: now, updated_at: now }),
    {
        User { id, telegram_id, birthdate, created_at: now, updated_at: now }
    }
}

/// The day of `year` on which the birthday is celebrated.
pub open spec fn celebration_in_year(birth: Ymd, year: int) -> Ymd {
    if birth.month == 2 && birth.day == 29 && !calendar::is_leap(year) {
        Ymd { year, month: 2, day: 28 }
    } else {
        Ymd { year, month: birth.month, day: birth.day }
    }
}

/// Every birthday is celebrated on exactly one day of each year.
pub proof fn celebrated_once_a_year(birth: Ymd, year: int)
    requires
        birth.valid(),
        calendar::MIN_YEAR <= year <= calendar::MAX_YEAR,
    ensures
        celebration_in_year(birth, year).valid(),
        forall|date: Ymd|
            date.valid() && date.year == year ==> (#[trigger] celebrated_on(birth, date) <==> date
                == celebration_in_year(birth, year)),
{
}

/// Only the month and the day of a birth date matter.
pub proof fn birth_year_is_irrelevant(birth: Ymd, year: int, date: Ymd)
    ensures
        celebrated_on(birth, date) == celebrated_on(Ymd { year, ..birth }, date),
{
}

/// A birthday that is not on Feb 29 is celebrated on its own month and day, in every year, and on no
/// other day.
pub proof fn regular_birthdays_keep_their_day(birth: Ymd, date: Ymd)
    requires
        birth.month != 2 || birth.day != 29,
    ensures
        celebrated_on(birth, date) <==> birth.month == date.month && birth.day == date.day,
{
}

/// Feb 29 birthdays are celebrated on Feb 29 in leap years, on Feb 28 in the others, and on no
/// other day.
pub proof fn leap_day_birthdays(birth: Ymd, date: Ymd)
    requires
        birth.month == 2,
        birth.day == 29,
        date.valid(),
    ensures
        celebrated_on(birth, date) <==> date.month == 2 && date.day == (if calendar::is_leap(
            date.year,
        ) {
            29int
        } else {
            28int
        }),
{
}

/// From any day on, every birthday comes round within 365 days, so the longest horizon that can
/// be asked for lists everyone.
pub proof fn everyone_is_celebrated_within_a_year(birth: Ymd, from: Ymd, days: int)
    requires
        birth.valid(),
        from.valid(),
        from.year < calendar::MAX_YEAR,
        days >= 365,
    ensures
        next_celebration(birth, from, days) is Some,
{
    let this = celebration_in_year(birth, from.year);
    let next = celebration_in_year(birth, from.year + 1);
    celebrated_once_a_year(birth, from.year);
    celebrated_once_a_year(birth, from.year + 1);
    assert(celebrated_on(birth, this));
    assert(celebrated_on(birth, next));
    next_celebration_is_the_earliest(birth, from, days);
    calendar::day_of_year_bounds(from);
    calendar::day_of_year_bounds(this);
    calendar::day_of_year_bounds(next);
    calendar::year_length(from.year);
    if this.day_number() < from.day_number() {
        calendar::same_day_next_year(this, next);
    }
}

/// The users whose birthday is celebrated on `date`, in the order of `users`.
pub open spec fn celebrants_of(users: Seq<User>, date: Ymd) -> Seq<User> {
    users.filter(|user: User| celebrated_on(user.birthdate@, date))
}

/// The users whose birthday is celebrated on `date`.
pub fn celebrants(users: &Vec<User>, date: Date) -> (found: Vec<User>)
    ensures
        found@ == celebrants_of(users@, date@),
{
    let mut found: Vec<User> = Vec::new();
    let ghost celebrates = |user: User| celebrated_on(user.birthdate@, date@);
    assert(users@.take(0) =~= Seq::empty());
    assert(Seq::<User>::empty().filter(celebrates) =~= Seq::empty()) by {
        reveal(Seq::filter);
    }
    let mut i: usize = 0;
    while i < users.len()
        invariant
            i <= users.len(),
            celebrates == (|user: User| celebrated_on(user.birthdate@, date@)),
            found@ == users@.take(i as int).filter(celebrates),
        decreases users.len() - i,
    {
        let user = users[i];
        proof {
            reveal(Seq::filter);
            assert(users@.take(i + 1).drop_last() =~= users@.take(i as int));
            assert(users@.take(i + 1).last() == user);
        }
        if user.celebrates_on(date) {
            found.push(user);
        }
        i = i + 1;
    }
    assert(users@.take(i as int) =~= users@);
    found
}

/// Every user of `users` whose birthday falls within `from..=from + days` stands in `list` once,
/// with the day it falls on; `at` gives the places in `users`. Sooner days come first, and users
/// with the same day come in the order of `users`.
pub open spec fn listed_at(
    users: Seq<User>,
    from: Ymd,
    days: int,
    list: Seq<(Date, User)>,
    at: Seq<int>,
) -> bool {
    &&& at.len() == list.len()
    &&& forall|i: int|
        0 <= i < list.len() ==> {
            &&& 0 <= #[trigger] at[i] < users.len()
            &&& list[i].1 == users[at[i]]
            &&& next_celebration(users[at[i]].birthdate@, from, days) == Some(list[i].0@)
        }
    &&& forall|k: int|
        0 <= k < users.len() && next_celebration(users[k].birthdate@, from, days) is Some
            ==> #[trigger] at.contains(k)
    &&& forall|i: int, j: int|
        0 <= i < j < list.len() ==> (#[trigger] list[i]).0@.day_number() <= (
        #[trigger] list[j]).0@.day_number() && (list[i].0@.day_number() == list[j].0@.day_number()
            ==> at[i] < at[j])
}

/// `list` holds the users whose birthday falls within `from..=from + days`, soonest first.
pub open spec fn soonest_first(
    users: Seq<User>,
    from: Ymd,
    days: int,
    list: Seq<(Date, User)>,
) -> bool {
    exists|at: Seq<int>| listed_at(users, from, days, list, at)
}

/// The users whose birthday falls within `from..=from + days`, each with the day it falls on,
/// soonest first.
pub fn upcoming(users: &Vec<User>, from: Date, days: u32) -> (list: Vec<(Date, User)>)
    ensures
        soonest_first(users@, from@, days as int, list@),
{
    let mut list: Vec<(Date, User)> = Vec::new();
    let ghost mut at: Seq<int> = Seq::empty();
    let mut i: usize = 0;
    while i < users.len()
        invariant
            i <= users.len(),
            listed_at(users@.take(i as int), from@, days as int, list@, at),
        decreases users.len() - i,
    {
        let user = users[i];
        let ghost seen = users@.take(i as int);
        let ghost more = users@.take(i + 1);
        assert(more =~= seen.push(user));
        match user.celebration_within(from, days) {
            Some(date) => {
                let place: usize = place_of(&list, date);
                proof {
                    lemma_insert_listed(seen, from@, days as int, list@, at, user, date, place as int);
                    at = at.insert(place as int, i as int);
                }
                list.insert(place, (date, user));
            },
            None => {
                assert(listed_at(more, from@, days as int, list@, at)) by {
                    assert forall|k: int|
                        0 <= k < more.len() && next_celebration(
                            more[k].birthdate@,
                            from@,
                            days as int,
                        ) is Some implies #[trigger] at.contains(k) by {
                        assert(k < i);
                        assert(seen[k] == more[k]);
                    }
                }
            },
        }
        i = i + 1;
    }
    assert(users@.take(i as int) =~= users@);
    list
}

/// Where `date` goes in a list of days in order: behind every day that is not later.
fn place_of(list: &Vec<(Date, User)>, date: Date) -> (place: usize)
    requires
        forall|i: int, j: int|
            0 <= i < j < list.len() ==> (#[trigger] list[i]).0@.day_number() <= (
            #[trigger] list[j]).0@.day_number(),
    ensures
        place <= list.len(),
        forall|i: int| 0 <= i < place ==> (#[trigger] list[i]).0@.day_number() <= date@.day_number(),
        forall|i: int|
            place <= i < list.len() ==> date@.day_number() < (#[trigger] list[i]).0@.day_number(),
{
    let mut place: usize = list.len();
    while place > 0 && date.is_before(list[place - 1].0)
        invariant
            place <= list.len(),
            forall|i: int|
                place <= i < list.len() ==> date@.day_number() < (#[trigger] list[i]).0@.day_number(),
        decreases place,
    {
        place = place - 1;
    }
    place
}

proof fn lemma_insert_listed(
    users: Seq<User>,
    from: Ymd,
    days: int,
    list: Seq<(Date, User)>,
    at: Seq<int>,
    user: User,
    date: Date,
    place: int,
)
    requires
        listed_at(users, from, days, list, at),
        next_celebration(user.birthdate@, from, days) == Some(date@),
        0 <= place <= list.len(),
        forall|i: int| 0 <= i < place ==> (#[trigger] list[i]).0@.day_number() <= date@.day_number(),
        forall|i: int|
            place <= i < list.len() ==> date@.day_number() < (#[trigger] list[i]).0@.day_number(),
    ensures
        listed_at(
            users.push(user),
            from,
            days,
            list.insert(place, (date, user)),
            at.insert(place, users.len() as int),
        ),
{
    let more = users.push(user);
    let longer = list.insert(place, (date, user));
    let spots = at.insert(place, users.len() as int);
    assert forall|i: int| 0 <= i < longer.len() implies {
        &&& 0 <= #[trigger] spots[i] < more.len()
        &&& longer[i].1 == more[spots[i]]
        &&& next_celebration(more[spots[i]].birthdate@, from, days) == Some(longer[i].0@)
    } by {
        if i < place {
            assert(spots[i] == at[i]);
        } else if i > place {
            assert(spots[i] == at[i - 1]);
        }
    }
    assert forall|k: int|
        0 <= k < more.len() && next_celebration(more[k].birthdate@, from, days)
            is Some implies #[trigger] spots.contains(k) by {
        if k < users.len() {
            assert(users[k] == more[k]);
            assert(at.contains(k));
            let i = choose|i: int| 0 <= i < at.len() && at[i] == k;
            if i < place {
                assert(spots[i] == k);
            } else {
                assert(spots[i + 1] == k);
            }
        } else {
            assert(spots[place] == k);
        }
    }
    assert forall|i: int, j: int| 0 <= i < j < longer.len() implies (
    #[trigger] longer[i]).0@.day_number() <= (#[trigger] longer[j]).0@.day_number() && (
    longer[i].0@.day_number() == longer[j].0@.day_number() ==> spots[i] < spots[j]) by {
        let a = if i < place {
            i
        } else {
            i - 1
        };
        let b = if j < place {
            j
        } else {
            j - 1
        };
        if i != place && j != place {
            assert(spots[i] == at[a] && spots[j] == at[b]);
        } else if j == place {
            assert(spots[i] == at[a]);
        } else {
            assert(spots[j] == at[b]);
        }
    }
}

/// A shorter horizon finds the same next celebration, or none where it is too far away.
pub proof fn shorter_horizon_finds_the_same(birth: Ymd, from: Ymd, shorter: int, longer: int)
    requires
        shorter <= longer,
    ensures
        next_celebration(birth, from, shorter) == (match next_celebration(birth, from, longer) {
            Some(date) => if date.day_number() <= from.day_number() + shorter {
                Some(date)
            } else {
                None
            },
            None => None,
        }),
{
    next_celebration_is_the_earliest(birth, from, shorter);
    next_celebration_is_the_earliest(birth, from, longer);
    match next_celebration(birth, from, longer) {
        Some(date) => {
            assert(is_next_celebration(birth, from, longer, date));
            if date.day_number() <= from.day_number() + shorter {
                assert(is_next_celebration(birth, from, shorter, date));
            } else if next_celebration(birth, from, shorter) is Some {
                let near = next_celebration(birth, from, shorter)->0;
                assert(is_next_celebration(birth, from, shorter, near));
                assert(date.day_number() <= near.day_number());
            }
        },
        None => {
            if next_celebration(birth, from, shorter) is Some {
                let near = next_celebration(birth, from, shorter)->0;
                assert(is_next_celebration(birth, from, shorter, near));
            }
        },
    }
}

/// The list for a shorter horizon is a prefix of the list for a longer one: the birthdays that fall
/// within it.
pub proof fn shorter_list_is_a_prefix(
    users: Seq<User>,
    from: Ymd,
    shorter: int,
    longer: int,
    near: Seq<(Date, User)>,
    far: Seq<(Date, User)>,
)
    requires
        shorter <= longer,
        soonest_first(users, from, shorter, near),
        soonest_first(users, from, longer, far),
    ensures
        near.len() <= far.len(),
        near == far.take(near.len() as int),
        forall|i: int|
            0 <= i < far.len() ==> (i < near.len() <==> (#[trigger] far[i]).0@.day_number()
                <= from.day_number() + shorter),
{
    let a = choose|at: Seq<int>| listed_at(users, from, shorter, near, at);
    let b = choose|at: Seq<int>| listed_at(users, from, longer, far, at);
    assert forall|i: int| 0 <= i < near.len() implies i < far.len() && a[i] == b[i] by {
        lemma_same_place(users, from, shorter, longer, near, a, far, b, i);
    }
    if near.len() > 0 {
        lemma_same_place(users, from, shorter, longer, near, a, far, b, near.len() - 1);
    }
    assert forall|i: int| 0 <= i < near.len() implies near[i] == far[i] by {
        assert(a[i] == b[i]);
        shorter_horizon_finds_the_same(users[a[i]].birthdate@, from, shorter, longer);
        calendar::date_is_its_day(near[i].0, far[i].0);
    }
    assert(near =~= far.take(near.len() as int));
    assert forall|i: int| 0 <= i < far.len() implies (i < near.len() <==> (
    #[trigger] far[i]).0@.day_number() <= from.day_number() + shorter) by {
        shorter_horizon_finds_the_same(users[b[i]].birthdate@, from, shorter, longer);
        next_celebration_is_the_earliest(users[b[i]].birthdate@, from, shorter);
        if i < near.len() {
            assert(a[i] == b[i]);
        } else if far[i].0@.day_number() <= from.day_number() + shorter {
            assert(a.contains(b[i]));
            let m = choose|m: int| 0 <= m < a.len() && a[m] == b[i];
            assert(b[m] == b[i]);
            assert(far[m].0@ == far[i].0@);
            assert(far[m].0@.day_number() == far[i].0@.day_number());
        }
    }
}

/// The two lists name the same user at the place `i`.
proof fn lemma_same_place(
    users: Seq<User>,
    from: Ymd,
    shorter: int,
    longer: int,
    near: Seq<(Date, User)>,
    a: Seq<int>,
    far: Seq<(Date, User)>,
    b: Seq<int>,
    i: int,
)
    requires
        shorter <= longer,
        listed_at(users, from, shorter, near, a),
        listed_at(users, from, longer, far, b),
        0 <= i < near.len(),
    ensures
        i < far.len(),
        a[i] == b[i],
    decreases i,
{
    assert forall|k: int| 0 <= k < i implies k < far.len() && a[k] == b[k] by {
        lemma_same_place(users, from, shorter, longer, near, a, far, b, k);
    }
    shorter_horizon_finds_the_same(users[a[i]].birthdate@, from, shorter, longer);
    assert(b.contains(a[i]));
    let j = choose|j: int| 0 <= j < b.len() && b[j] == a[i];
    assert(far[j].0@ == near[i].0@);
    if j < i {
        assert(a[j] == a[i]);
        assert(near[j].0@ == near[i].0@);
        assert(near[j].0@.day_number() == near[i].0@.day_number());
    }
    if j > i {
        assert(far[i].0@.day_number() <= far[j].0@.day_number());
        next_celebration_is_the_earliest(users[a[i]].birthdate@, from, shorter);
        assert(is_next_celebration(users[a[i]].birthdate@, from, shorter, near[i].0@));
        shorter_horizon_finds_the_same(users[b[i]].birthdate@, from, shorter, longer);
        assert(a.contains(b[i]));
        let m = choose|m: int| 0 <= m < a.len() && a[m] == b[i];
        assert(near[m].0@ == far[i].0@);
        if m < i {
            assert(b[m] == b[i]);
            assert(far[m].0@.day_number() == far[i].0@.day_number());
        } else if m > i {
            assert(near[i].0@.day_number() <= near[m].0@.day_number());
        }
    }
}

/// Every birthday on a list is celebrated on the day that is given, and nobody is listed twice.
pub proof fn listed_birthdays_are_celebrated(
    users: Seq<User>,
    from: Ymd,
    days: int,
    list: Seq<(Date, User)>,
)
    requires
        unique_telegram_ids(users),
        soonest_first(users, from, days, list),
    ensures
        forall|i: int|
            0 <= i < list.len() ==> celebrated_on((#[trigger] list[i]).1.birthdate@, list[i].0@),
        forall|i: int, j: int|
            0 <= i < j < list.len() ==> (#[trigger] list[i]).1.telegram_id != (
            #[trigger] list[j]).1.telegram_id,
{
    soonest_are_listed(users, from, days, list);
    assert forall|i: int| 0 <= i < list.len() implies celebrated_on(
        (#[trigger] list[i]).1.birthdate@,
        list[i].0@,
    ) by {
        next_celebration_is_the_earliest(list[i].1.birthdate@, from, days);
        assert(is_next_celebration(list[i].1.birthdate@, from, days, list[i].0@));
    }
}

/// No two users have the same Telegram ID.
pub open spec fn unique_telegram_ids(users: Seq<User>) -> bool {
    forall|i: int, j: int|
        0 <= i < j < users.len() ==> (#[trigger] users[i]).telegram_id != (
        #[trigger] users[j]).telegram_id
}

/// The users by their Telegram IDs.
pub open spec fn by_telegram_id(users: Seq<User>) -> Map<u64, User> {
    Map::new(
        |id: u64| exists|i: int| 0 <= i < users.len() && (#[trigger] users[i]).telegram_id == id,
        |id: u64|
            users[choose|i: int| 0 <= i < users.len() && (#[trigger] users[i]).telegram_id == id],
    )
}

/// Where no Telegram ID occurs twice, every user is found under theirs, and nobody else is.
pub proof fn found_by_telegram_id(users: Seq<User>)
    requires
        unique_telegram_ids(users),
    ensures
        forall|i: int|
            0 <= i < users.len() ==> by_telegram_id(users).contains_key(
                (#[trigger] users[i]).telegram_id,
            ) && by_telegram_id(users)[users[i].telegram_id] == users[i],
        forall|id: u64| #[trigger]
            by_telegram_id(users).contains_key(id) ==> exists|i: int|
                0 <= i < users.len() && #[trigger] users[i] == by_telegram_id(users)[id]
                    && users[i].telegram_id == id,
{
    assert forall|i: int| 0 <= i < users.len() implies by_telegram_id(users).contains_key(
        (#[trigger] users[i]).telegram_id,
    ) && by_telegram_id(users)[users[i].telegram_id] == users[i] by {
        let id = users[i].telegram_id;
        let k = choose|k: int| 0 <= k < users.len() && (#[trigger] users[k]).telegram_id == id;
        if k < i {
            assert(users[k].telegram_id != users[i].telegram_id);
        } else if i < k {
            assert(users[i].telegram_id != users[k].telegram_id);
        }
    }
    assert forall|id: u64| #[trigger] by_telegram_id(users).contains_key(id) implies exists|i: int|
        0 <= i < users.len() && #[trigger] users[i] == by_telegram_id(users)[id]
            && users[i].telegram_id == id by {
        let k = choose|k: int| 0 <= k < users.len() && (#[trigger] users[k]).telegram_id == id;
        assert(users[k] == by_telegram_id(users)[id]);
    }
}

/// `list` holds exactly the users whose birthday is celebrated on `date`, each once.
pub open spec fn lists_celebrants(users: Map<u64, User>, date: Ymd, list: Seq<User>) -> bool {
    &&& unique_telegram_ids(list)
    &&& forall|i: int|
        0 <= i < list.len() ==> users.contains_key((#[trigger] list[i]).telegram_id)
            && users[list[i].telegram_id] == list[i] && celebrated_on(list[i].birthdate@, date)
    &&& forall|id: u64| #[trigger]
        users.contains_key(id) && celebrated_on(users[id].birthdate@, date) ==> list.contains(
            users[id],
        )
}

/// `list` holds exactly the users whose birthday falls within `from..=from + days`, each once and
/// with the day it falls on, sooner days first.
pub open spec fn lists_upcoming(
    users: Map<u64, User>,
    from: Ymd,
    days: int,
    list: Seq<(Date, User)>,
) -> bool {
    &&& forall|i: int|
        0 <= i < list.len() ==> users.contains_key((#[trigger] list[i]).1.telegram_id)
            && users[list[i].1.telegram_id] == list[i].1 && next_celebration(
            list[i].1.birthdate@,
            from,
            days,
        ) == Some(list[i].0@)
    &&& forall|id: u64| #[trigger]
        users.contains_key(id) && next_celebration(users[id].birthdate@, from, days) is Some
            ==> exists|i: int| 0 <= i < list.len() && (#[trigger] list[i]).1 == users[id]
    &&& forall|i: int, j: int|
        0 <= i < j < list.len() ==> (#[trigger] list[i]).1.telegram_id != (
        #[trigger] list[j]).1.telegram_id && list[i].0@.day_number() <= list[j].0@.day_number()
}

/// What [`celebrants`] finds are the celebrants among the users by their Telegram IDs.
pub proof fn celebrants_are_listed(users: Seq<User>, date: Ymd)
    requires
        unique_telegram_ids(users),
    ensures
        lists_celebrants(by_telegram_id(users), date, celebrants_of(users, date)),
{
    let celebrates = |user: User| celebrated_on(user.birthdate@, date);
    let list = celebrants_of(users, date);
    found_by_telegram_id(users);
    lemma_filter_unique(users, celebrates);
    assert forall|i: int| 0 <= i < list.len() implies by_telegram_id(users).contains_key(
        (#[trigger] list[i]).telegram_id,
    ) && by_telegram_id(users)[list[i].telegram_id] == list[i] && celebrated_on(
        list[i].birthdate@,
        date,
    ) by {
        users.lemma_filter_contains_rev(celebrates, list[i]);
        users.lemma_filter_pred(celebrates, i);
    }
    assert forall|id: u64| #[trigger]
        by_telegram_id(users).contains_key(id) && celebrated_on(
            by_telegram_id(users)[id].birthdate@,
            date,
        ) implies list.contains(by_telegram_id(users)[id]) by {
        let i = choose|i: int|
            0 <= i < users.len() && #[trigger] users[i] == by_telegram_id(users)[id]
                && users[i].telegram_id == id;
        users.lemma_filter_contains(celebrates, i);
    }
}

proof fn lemma_filter_unique(users: Seq<User>, keep: spec_fn(User) -> bool)
    requires
        unique_telegram_ids(users),
    ensures
        unique_telegram_ids(users.filter(keep)),
    decreases users.len(),
{
    reveal(Seq::filter);
    if users.len() > 0 {
        let rest = users.drop_last();
        lemma_filter_unique(rest, keep);
        assert forall|i: int| 0 <= i < rest.filter(keep).len() implies (#[trigger] rest.filter(
            keep,
        )[i]).telegram_id != users.last().telegram_id by {
            rest.lemma_filter_contains_rev(keep, rest.filter(keep)[i]);
        }
    }
}

/// What [`upcoming`] lists are the upcoming birthdays among the users by their Telegram IDs.
pub proof fn soonest_are_listed(users: Seq<User>, from: Ymd, days: int, list: Seq<(Date, User)>)
    requires
        unique_telegram_ids(users),
        soonest_first(users, from, days, list),
    ensures
        lists_upcoming(by_telegram_id(users), from, days, list),
{
    let at = choose|at: Seq<int>| listed_at(users, from, days, list, at);
    let by_id = by_telegram_id(users);
    found_by_telegram_id(users);
    assert forall|i: int| 0 <= i < list.len() implies by_id.contains_key(
        (#[trigger] list[i]).1.telegram_id,
    ) && by_id[list[i].1.telegram_id] == list[i].1 && next_celebration(
        list[i].1.birthdate@,
        from,
        days,
    ) == Some(list[i].0@) by {
        assert(users[at[i]] == list[i].1);
    }
    assert forall|id: u64| #[trigger]
        by_id.contains_key(id) && next_celebration(by_id[id].birthdate@, from, days)
            is Some implies exists|i: int|
        0 <= i < list.len() && (#[trigger] list[i]).1 == by_id[id] by {
        let k = choose|k: int|
            0 <= k < users.len() && #[trigger] users[k] == by_id[id] && users[k].telegram_id == id;
        assert(at.contains(k));
        let i = choose|i: int| 0 <= i < at.len() && at[i] == k;
        assert(list[i].1 == by_id[id]);
    }
    assert forall|i: int, j: int| 0 <= i < j < list.len() implies (
    #[trigger] list[i]).1.telegram_id != (#[trigger] list[j]).1.telegram_id
        && list[i].0@.day_number() <= list[j].0@.day_number() by {
        assert(list[i].1 == users[at[i]] && list[j].1 == users[at[j]]);
        assert(list[i].0@.day_number() <= list[j].0@.day_number());
        if at[i] == at[j] {
            assert(list[i].0@ == list[j].0@);
        } else if at[i] < at[j] {
            assert(users[at[i]].telegram_id != users[at[j]].telegram_id);
        } else {
            assert(users[at[j]].telegram_id != users[at[i]].telegram_id);
        }
    }
}

/// The users of `users` whose ID is not `id`.
pub open spec fn without_id(users: Map<u64, User>, id: UserId) -> Map<u64, User> {
    users.restrict(Set::new(|k: u64| users.contains_key(k) && users[k].id != id))
}

/// `after` is `before` with `user` saved under their Telegram ID. Someone who was there keeps their
/// ID and the time they were created; someone new takes the place of whoever else had their ID.
pub open spec fn user_saved(before: Map<u64, User>, after: Map<u64, User>, user: User) -> bool {
    if before.contains_key(user.telegram_id) {
        &&& user.id == before[user.telegram_id].id
        &&& user.created_at == before[user.telegram_id].created_at
        &&& after == before.insert(user.telegram_id, user)
    } else {
        &&& user.created_at == user.updated_at
        &&& after == without_id(before, user.id).insert(user.telegram_id, user)
    }
}

/// `after` is `before` with the birthday saved under `telegram_id`.
pub open spec fn birthday_saved(
    before: Map<u64, User>,
    after: Map<u64, User>,
    telegram_id: u64,
    birthdate: Date,
) -> bool {
    exists|user: User|
        user.telegram_id == telegram_id && user.birthdate == birthdate && #[trigger] user_saved(
            before,
            after,
            user,
        )
}

/// Everyone is stored under their own Telegram ID, with a birthday that is a day of the calendar.
pub open spec fn well_formed(users: Map<u64, User>) -> bool {
    forall|id: u64| #[trigger]
        users.contains_key(id) ==> users[id].telegram_id == id && users[id].birthdate@.valid()
}

/// What a store holds. Both ports speak of both halves, so that each can say that it leaves the
/// other one alone. A verified implementation says what its model is; of one outside of verified
/// code it is left unspecified.
pub trait StoreModel: Sized {
    /// The stored users by their Telegram IDs.
    open spec fn users(&self) -> Map<u64, User> {
        let model: spec_fn(Self) -> Map<u64, User> = arbitrary();
        model(*self)
    }

    /// The known usernames and the Telegram ID that each belongs to.
    open spec fn usernames(&self) -> Map<Seq<char>, u64> {
        let model: spec_fn(Self) -> Map<Seq<char>, u64> = arbitrary();
        model(*self)
    }
}

/// What stores birthdays.
pub trait UserRepository: StoreModel {
    /// What [`add_birthday`](UserRepository::add_birthday) may answer, and do to the repository.
    open spec fn add_answers(
        before: Self,
        after: Self,
        telegram_id: u64,
        birthday: Date,
        answer: Result<(), RepositoryError>,
    ) -> bool {
        let answers: spec_fn(Self, Self, u64, Date, Result<(), RepositoryError>) -> bool =
            arbitrary();
        answers(before, after, telegram_id, birthday, answer)
    }

    /// What [`remove_birthday`](UserRepository::remove_birthday) may answer, and do to the
    /// repository.
    open spec fn remove_answers(
        before: Self,
        after: Self,
        telegram_id: u64,
        answer: Result<bool, RepositoryError>,
    ) -> bool {
        let answers: spec_fn(Self, Self, u64, Result<bool, RepositoryError>) -> bool = arbitrary();
        answers(before, after, telegram_id, answer)
    }

    /// Users whose birthday is celebrated on `date`.
    fn find_birthdays_for_date(&self, date: Date) -> (answer: Result<Vec<User>, RepositoryError>)
        ensures
            answer matches Ok(list) ==> lists_celebrants(self.users(), date@, list@),
            answer is Ok ==> well_formed(self.users()),
    ;

    /// Users whose birthday falls within `from..=from + days`, paired with the
    /// date it falls on, sorted by soonest first.
    fn find_birthdays_within(&self, from: Date, days: u32) -> (answer: Result<
        Vec<(Date, User)>,
        RepositoryError,
    >)
        ensures
            answer matches Ok(list) ==> lists_upcoming(self.users(), from@, days as int, list@),
            answer is Ok ==> well_formed(self.users()),
    ;

    /// Stores the birthday for `telegram_id`, in place of one that was there. The known usernames
    /// stay as they are, also where it fails.
    fn add_birthday(&mut self, telegram_id: u64, birthday: Date) -> (answer: Result<
        (),
        RepositoryError,
    >)
        ensures
            Self::add_answers(*old(self), *final(self), telegram_id, birthday, answer),
            final(self).usernames() == old(self).usernames(),
            answer is Ok ==> birthday_saved(
                old(self).users(),
                final(self).users(),
                telegram_id,
                birthday,
            ),
    ;

    /// Removes the stored birthday for `telegram_id`. Returns whether one existed. The known
    /// usernames stay as they are, also where it fails.
    fn remove_birthday(&mut self, telegram_id: u64) -> (answer: Result<bool, RepositoryError>)
        ensures
            Self::remove_answers(*old(self), *final(self), telegram_id, answer),
            final(self).usernames() == old(self).usernames(),
            answer matches Ok(existed) ==> existed == old(self).users().contains_key(telegram_id)
                && final(self).users() == old(self).users().remove(telegram_id),
    ;
}

/// What remembers which Telegram ID a username belongs to.
pub trait UsernameDirectory: StoreModel {
    /// What [`record_username`](UsernameDirectory::record_username) may answer, and do to the
    /// directory.
    open spec fn record_answers(
        before: Self,
        after: Self,
        username: Seq<char>,
        telegram_id: u64,
        answer: Result<(), RepositoryError>,
    ) -> bool {
        let answers: spec_fn(Self, Self, Seq<char>, u64, Result<(), RepositoryError>) -> bool =
            arbitrary();
        answers(before, after, username, telegram_id, answer)
    }

    /// Remembers that the username belongs to `telegram_id`, whoever had it before. The stored
    /// birthdays stay as they are, also where it fails.
    fn record_username(&mut self, username: &str, telegram_id: u64) -> (answer: Result<
        (),
        RepositoryError,
    >)
        ensures
            Self::record_answers(*old(self), *final(self), username@, telegram_id, answer),
            final(self).users() == old(self).users(),
            answer is Ok ==> final(self).usernames() == old(self).usernames().insert(
                username@,
                telegram_id,
            ),
    ;

    /// The Telegram ID that the username belongs to, if it is known.
    fn resolve_username(&self, username: &str) -> (answer: Result<Option<u64>, RepositoryError>)
        ensures
            answer matches Ok(found) ==> found == if self.usernames().contains_key(username@) {
                Some(self.usernames()[username@])
            } else {
                None
            },
    ;
}

/// A horizon of 365 days or more lists everybody who is stored, each once.
pub proof fn longest_horizon_lists_everybody(
    users: Map<u64, User>,
    from: Ymd,
    days: int,
    list: Seq<(Date, User)>,
)
    requires
        well_formed(users),
        lists_upcoming(users, from, days, list),
        from.valid(),
        from.year < calendar::MAX_YEAR,
        days >= 365,
    ensures
        forall|id: u64| #[trigger]
            users.contains_key(id) ==> exists|i: int|
                0 <= i < list.len() && (#[trigger] list[i]).1 == users[id],
        forall|i: int, j: int|
            0 <= i < j < list.len() ==> (#[trigger] list[i]).1.telegram_id != (
            #[trigger] list[j]).1.telegram_id,
{
    assert forall|id: u64| #[trigger] users.contains_key(id) implies exists|i: int|
        0 <= i < list.len() && (#[trigger] list[i]).1 == users[id] by {
        everyone_is_celebrated_within_a_year(users[id].birthdate@, from, days);
    }
}

/// A saved birthday is found on the days on which it is celebrated, and on no others.
pub proof fn saved_birthday_is_found(
    before: Map<u64, User>,
    after: Map<u64, User>,
    telegram_id: u64,
    birthdate: Date,
    date: Ymd,
    list: Seq<User>,
)
    requires
        birthday_saved(before, after, telegram_id, birthdate),
        lists_celebrants(after, date, list),
    ensures
        (exists|i: int| 0 <= i < list.len() && (#[trigger] list[i]).telegram_id == telegram_id)
            <==> celebrated_on(birthdate@, date),
        forall|i: int|
            0 <= i < list.len() && (#[trigger] list[i]).telegram_id == telegram_id
                ==> list[i].birthdate == birthdate,
{
    assert(after.contains_key(telegram_id));
    assert(after[telegram_id].birthdate == birthdate);
    assert(after[telegram_id].telegram_id == telegram_id);
    if celebrated_on(birthdate@, date) {
        assert(list.contains(after[telegram_id]));
        let i = choose|i: int| 0 <= i < list.len() && list[i] == after[telegram_id];
        assert(list[i].telegram_id == telegram_id);
    }
}

/// A saved birthday comes up in a lookup exactly if it is celebrated within the horizon, and then
/// on the first such day.
pub proof fn saved_birthday_comes_up(
    before: Map<u64, User>,
    after: Map<u64, User>,
    telegram_id: u64,
    birthdate: Date,
    from: Ymd,
    days: int,
    list: Seq<(Date, User)>,
)
    requires
        birthday_saved(before, after, telegram_id, birthdate),
        lists_upcoming(after, from, days, list),
    ensures
        (exists|i: int| 0 <= i < list.len() && (#[trigger] list[i]).1.telegram_id == telegram_id)
            <==> next_celebration(birthdate@, from, days) is Some,
        forall|i: int|
            0 <= i < list.len() && (#[trigger] list[i]).1.telegram_id == telegram_id
                ==> next_celebration(birthdate@, from, days) == Some(list[i].0@),
{
    assert(after.contains_key(telegram_id));
    assert(after[telegram_id].birthdate == birthdate);
    assert(after[telegram_id].telegram_id == telegram_id);
    if next_celebration(birthdate@, from, days) is Some {
        let i = choose|i: int| 0 <= i < list.len() && (#[trigger] list[i]).1 == after[telegram_id];
        assert(list[i].1.telegram_id == telegram_id);
    }
}

/// Saving someone's birthday leaves everybody else alone who does not have the very ID that
/// someone new was given.
pub proof fn saving_leaves_others_alone(
    before: Map<u64, User>,
    after: Map<u64, User>,
    telegram_id: u64,
    birthdate: Date,
    other: u64,
)
    requires
        birthday_saved(before, after, telegram_id, birthdate),
        other != telegram_id,
        !before.contains_key(telegram_id) && before.contains_key(other) ==> before[other].id
            != after[telegram_id].id,
    ensures
        after.contains_key(other) <==> before.contains_key(other),
        before.contains_key(other) ==> after[other] == before[other],
{
}

/// Saving again updates instead of duplicating: the person keeps their ID and the time they were
/// created, has the later birthday, and nobody else is touched.
pub proof fn saving_again_updates(
    first: Map<u64, User>,
    second: Map<u64, User>,
    third: Map<u64, User>,
    telegram_id: u64,
    earlier: Date,
    later: Date,
)
    requires
        birthday_saved(first, second, telegram_id, earlier),
        birthday_saved(second, third, telegram_id, later),
    ensures
        third.dom() == second.dom(),
        third[telegram_id].birthdate == later,
        third[telegram_id].id == second[telegram_id].id,
        third[telegram_id].created_at == second[telegram_id].created_at,
        third.remove(telegram_id) == second.remove(telegram_id),
{
    assert(second.contains_key(telegram_id));
    assert(third.dom() =~= second.dom());
    assert(third.remove(telegram_id) =~= second.remove(telegram_id));
}

/// A removed birthday is on no list any more.
pub proof fn removed_birthday_is_gone(
    before: Map<u64, User>,
    telegram_id: u64,
    date: Ymd,
    celebrants: Seq<User>,
    from: Ymd,
    days: int,
    upcoming: Seq<(Date, User)>,
)
    requires
        lists_celebrants(before.remove(telegram_id), date, celebrants),
        lists_upcoming(before.remove(telegram_id), from, days, upcoming),
    ensures
        forall|i: int|
            0 <= i < celebrants.len() ==> (#[trigger] celebrants[i]).telegram_id != telegram_id,
        forall|i: int|
            0 <= i < upcoming.len() ==> (#[trigger] upcoming[i]).1.telegram_id != telegram_id,
{
}

/// Removing a birthday undoes saving it for someone new, where nobody had the new ID.
pub proof fn removing_undoes_saving(
    before: Map<u64, User>,
    after: Map<u64, User>,
    telegram_id: u64,
    birthdate: Date,
)
    requires
        birthday_saved(before, after, telegram_id, birthdate),
        !before.contains_key(telegram_id),
        forall|other: u64| #[trigger]
            before.contains_key(other) ==> before[other].id != after[telegram_id].id,
    ensures
        after.remove(telegram_id) == before,
{
    assert(after.remove(telegram_id) =~= before);
}

} // verus!
