//! Who may save or remove whose birthday, and whose birthdays the chat gets to see.

use vstd::prelude::*;

use crate::calendar;
use crate::calendar::{Date, Ymd};
use crate::elements;
use crate::elements::{RepositoryError, StoreModel, User, UserRepository, UsernameDirectory};
use crate::text;

verus! {

/// Birthdays carry no real year; they are stored anchored to this leap year
/// so Feb 29 is representable.
pub const ANCHOR_YEAR: i32 = 2000;

/// Default horizon for upcoming-birthday lookups, in days.
pub const DEFAULT_SOON_DAYS: u32 = 15;

/// Upper bound on the upcoming-birthday horizon.
pub const MAX_SOON_DAYS: u32 = 366;

/// The birthday that a text denotes: month and day with a hyphen between them, white space around
/// them apart.
pub open spec fn birthday_in(input: Seq<char>) -> Option<Ymd> {
    calendar::month_day_in(ANCHOR_YEAR as int, text::trimmed(input))
}

/// Parses a month-day birthday ("MM-DD") into its `ANCHOR_YEAR`-anchored date.
pub fn parse_birthday(input: &str) -> (birthday: Option<Date>)
    ensures
        match birthday {
            Some(date) => birthday_in(input@) == Some(date@),
            None => birthday_in(input@) is None,
        },
{
    let trimmed = text::trim(input);
    let mut dated = text::decimal_text(ANCHOR_YEAR as i64);
    dated.append("-");
    dated.append(trimmed);
    proof {
        reveal_strlit("-");
        reveal_with_fuel(text::natural, 5);
        reveal_with_fuel(text::digits_value, 5);
        let year = text::decimal(ANCHOR_YEAR as int);
        assert(year =~= seq!['2', '0', '0', '0']);
        assert(dated@.take(4) =~= year);
        assert(year.drop_last() =~= seq!['2', '0', '0']);
        assert(year.drop_last().drop_last() =~= seq!['2', '0']);
        assert(year.drop_last().drop_last().drop_last() =~= seq!['2']);
        assert(text::digits_value(dated@.take(4)) == ANCHOR_YEAR);
        assert(dated@.skip(5) =~= trimmed@);
    }
    calendar::parse_from_str(dated.as_str(), "%Y-%m-%d")
}

/// A parsed birthday is a day of the anchor year.
pub proof fn parsed_birthdays_are_anchored(input: Seq<char>)
    ensures
        birthday_in(input) matches Some(date) ==> date.valid() && date.year == ANCHOR_YEAR,
{
}

/// A month and a day of one or two digits each, with a hyphen between them, are read as that day,
/// whatever white space is around them; nothing is read where there is no such day.
pub proof fn month_and_day_are_read(
    before: Seq<char>,
    month: Seq<char>,
    day: Seq<char>,
    after: Seq<char>,
)
    requires
        text::all_white_space(before),
        text::all_white_space(after),
        1 <= month.len() <= 2,
        text::all_digits(month),
        1 <= day.len() <= 2,
        text::all_digits(day),
    ensures
        ({
            let date = Ymd {
                year: ANCHOR_YEAR as int,
                month: text::digits_value(month),
                day: text::digits_value(day),
            };
            birthday_in(before + (month + seq!['-'] + day) + after) == if date.valid() {
                Some(date)
            } else {
                None
            }
        }),
{
    let s = month + seq!['-'] + day;
    assert(s[0] == month[0]);
    assert(s.last() == day.last());
    assert(text::is_digit(month[0]));
    assert(text::is_digit(day[0]));
    assert(text::is_digit(day.last()));
    text::trimming_takes_the_white_space_around(before, s, after);
    assert(s[month.len() as int] == '-');
    assert(month.len() == 2 ==> s[1] == month[1] && text::is_digit(month[1]));
    assert(day.len() == 2 ==> text::is_digit(day[1]));
    assert(calendar::leading_digits(s) == month.len());
    assert(s.take(month.len() as int) =~= month);
    assert(s.skip(month.len() as int + 1) =~= day);
}

/// A member of the chat.
#[derive(Debug, Clone, PartialEq, Eq)]
pub struct ChatMemberInfo {
    pub telegram_id: u64,
    pub username: Option<String>,
    pub full_name: String,
}

/// Why the chat could not answer.
#[derive(Debug, Clone, PartialEq, Eq)]
pub struct ChatError(pub String);

impl ChatError {
    pub fn message(&self) -> (message: String)
        ensures
            message@ == "chat API error: "@ + self.0@,
    {
        "chat API error: ".to_owned().concat(self.0.as_str())
    }
}

/// The single chat this bot serves, as seen from the application layer.
pub trait ChatPort: Send + Sync {
    /// Member info if the user is currently present in the chat.
    fn present_member(&self, telegram_id: u64) -> Result<Option<ChatMemberInfo>, ChatError>;

    /// Whether the user is the chat owner or an administrator.
    fn is_admin(&self, telegram_id: u64) -> Result<bool, ChatError>;
}

/// Whose birthday a command is about.
#[derive(Debug, Clone, PartialEq, Eq)]
pub enum Target {
    /// Already resolved to a user (e.g. a Telegram text mention).
    User { telegram_id: u64, name: String },
    /// A plain @username that still needs resolving via observed messages.
    Username(String),
}

/// Whose birthday was saved.
#[derive(Debug, Clone, PartialEq, Eq)]
pub enum Added {
    ForSelf,
    ForOther { name: String },
}

/// Whose birthday was to be removed, and whether there was one.
#[derive(Debug, Clone, PartialEq, Eq)]
pub enum Removed {
    ForSelf { existed: bool },
    ForOther { name: String, existed: bool },
}

/// Why a birthday was not saved or removed.
#[derive(Debug, Clone, PartialEq, Eq)]
pub enum AddBirthdayError {
    UnknownUsername(String),
    NotInChat(String),
    NotAdmin,
    Repository(RepositoryError),
    Chat(ChatError),
}

impl AddBirthdayError {
    pub open spec fn message_text(self) -> Seq<char> {
        match self {
            AddBirthdayError::UnknownUsername(raw) => "unknown username "@ + raw@,
            AddBirthdayError::NotInChat(name) => name@ + " is not in the chat"@,
            AddBirthdayError::NotAdmin => "only admins may add birthdays for others"@,
            AddBirthdayError::Repository(error) => error.message_text(),
            AddBirthdayError::Chat(error) => "chat API error: "@ + error.0@,
        }
    }

    pub fn message(&self) -> (message: String)
        ensures
            message@ == self.message_text(),
    {
        match self {
            AddBirthdayError::UnknownUsername(raw) => "unknown username ".to_owned().concat(
                raw.as_str(),
            ),
            AddBirthdayError::NotInChat(name) => name.clone().concat(" is not in the chat"),
            AddBirthdayError::NotAdmin => "only admins may add birthdays for others".to_owned(),
            AddBirthdayError::Repository(error) => error.message(),
            AddBirthdayError::Chat(error) => error.message(),
        }
    }
}

/// A birthday that comes up, and the chat member who has it.
#[derive(Debug, Clone, PartialEq, Eq)]
pub struct UpcomingBirthday {
    pub date: Date,
    pub member: ChatMemberInfo,
}

/// The form in which a username is remembered and looked up.
pub open spec fn username_key(raw: Seq<char>) -> Seq<char> {
    text::lowercase(text::without_at(raw))
}

/// Whether the chat's answer to an admin lookup lets someone act on other people. A failed lookup
/// does not.
pub fn allows(answer: Result<bool, ChatError>) -> (allowed: bool)
    ensures
        allowed == (answer == Ok::<bool, ChatError>(true)),
{
    match answer {
        Ok(admin) => admin,
        Err(_) => false,
    }
}

/// What stands in the way of saving a birthday for the person called `name`, given the chat's
/// answer to a lookup of them: a failed lookup, or that they are not in the chat. Gives the name
/// back where nothing does.
pub fn require_presence(
    answer: Result<Option<ChatMemberInfo>, ChatError>,
    name: String,
) -> (verdict: Result<String, AddBirthdayError>)
    ensures
        verdict == presence_verdict(answer, name),
{
    match answer {
        Ok(Some(_)) => Ok(name),
        Ok(None) => Err(AddBirthdayError::NotInChat(name)),
        Err(error) => Err(AddBirthdayError::Chat(error)),
    }
}

pub open spec fn presence_verdict(
    answer: Result<Option<ChatMemberInfo>, ChatError>,
    name: String,
) -> Result<String, AddBirthdayError> {
    match answer {
        Ok(Some(_)) => Ok(name),
        Ok(None) => Err(AddBirthdayError::NotInChat(name)),
        Err(error) => Err(AddBirthdayError::Chat(error)),
    }
}

/// The member, if the chat found one; someone who left, or whose lookup failed, is skipped.
pub fn member_or_skip(answer: Result<Option<ChatMemberInfo>, ChatError>) -> (member: Option<
    ChatMemberInfo,
>)
    ensures
        member == found_member(answer),
{
    match answer {
        Ok(found) => found,
        Err(_) => None,
    }
}

pub open spec fn found_member(answer: Result<Option<ChatMemberInfo>, ChatError>) -> Option<
    ChatMemberInfo,
> {
    match answer {
        Ok(found) => found,
        Err(_) => None,
    }
}

/// The birthdays of `list` whose person the chat found, in the order of `list`; `answers` holds
/// the chat's answers.
pub open spec fn upcoming_present(
    list: Seq<(Date, User)>,
    answers: Seq<Result<Option<ChatMemberInfo>, ChatError>>,
) -> Seq<UpcomingBirthday>
    decreases list.len(),
{
    if list.len() == 0 {
        Seq::empty()
    } else {
        let rest = upcoming_present(list.drop_last(), answers.drop_last());
        match found_member(answers.last()) {
            Some(member) => rest.push(UpcomingBirthday { date: list.last().0, member }),
            None => rest,
        }
    }
}

/// The members that the chat found, in the order of its answers.
pub open spec fn members_present(
    answers: Seq<Result<Option<ChatMemberInfo>, ChatError>>,
) -> Seq<ChatMemberInfo>
    decreases answers.len(),
{
    if answers.len() == 0 {
        Seq::empty()
    } else {
        let rest = members_present(answers.drop_last());
        match found_member(answers.last()) {
            Some(member) => rest.push(member),
            None => rest,
        }
    }
}

/// The horizon that a lookup of upcoming birthdays is given.
pub open spec fn horizon(days: u32) -> u32 {
    if days < MAX_SOON_DAYS {
        days
    } else {
        MAX_SOON_DAYS
    }
}

/// Saves, removes and looks up the birthdays of one chat.
pub struct BirthdayService<R, C> {
    repo: R,
    chat: C,
}

impl<R, C> BirthdayService<R, C> {
    pub closed spec fn repo(self) -> R {
        self.repo
    }

    pub closed spec fn chat(self) -> C {
        self.chat
    }
}

impl<R: UserRepository + UsernameDirectory, C: ChatPort> BirthdayService<R, C> {
    /// The repository may fail with `error` when asked who has the username.
    pub open spec fn lookup_fails(self, username: Seq<char>, error: RepositoryError) -> bool {
        exists|asked: &str|
            asked@ == username && #[trigger] call_ensures(
                R::resolve_username,
                (&self.repo(), asked),
                Err::<Option<u64>, RepositoryError>(error),
            )
    }

    /// `found` is who `target` is: the Telegram ID and the name to call them, or why that is not
    /// known.
    pub open spec fn resolves(
        self,
        target: Target,
        found: Result<(u64, String), AddBirthdayError>,
    ) -> bool {
        match target {
            Target::User { telegram_id, name } => {
                &&& found is Ok
                &&& found->Ok_0.0 == telegram_id
                &&& found->Ok_0.1 == name
            },
            Target::Username(raw) => {
                let key = username_key(raw@);
                let usernames = self.repo().usernames();
                match found {
                    Ok((telegram_id, name)) => {
                        &&& usernames.contains_key(key)
                        &&& telegram_id == usernames[key]
                        &&& name@ == seq!['@'] + key
                    },
                    Err(AddBirthdayError::UnknownUsername(unknown)) => {
                        &&& unknown == raw
                        &&& !usernames.contains_key(key)
                    },
                    Err(AddBirthdayError::Repository(error)) => self.lookup_fails(key, error),
                    Err(_) => false,
                }
            },
        }
    }

    /// Whether `actor_id` may act on `telegram_id`: on themselves always, on others if the chat
    /// says that they are an admin.
    pub open spec fn authorizes(self, actor_id: u64, telegram_id: u64, allowed: bool) -> bool {
        if telegram_id == actor_id {
            allowed
        } else {
            exists|answer: Result<bool, ChatError>| #[trigger]
                call_ensures(C::is_admin, (&self.chat(), actor_id), answer) && allowed == (answer
                    == Ok::<bool, ChatError>(true))
        }
    }

    /// The repository was told to save the birthday; `result` is `added`, or the repository's
    /// error. The known usernames are unchanged.
    pub open spec fn stores(
        before: Self,
        after: Self,
        telegram_id: u64,
        birthdate: Date,
        added: Added,
        result: Result<Added, AddBirthdayError>,
    ) -> bool {
        &&& after.repo().usernames() == before.repo().usernames()
        &&& match result {
            Ok(done) => {
                &&& done == added
                &&& R::add_answers(before.repo(), after.repo(), telegram_id, birthdate, Ok(()))
                &&& elements::birthday_saved(
                    before.repo().users(),
                    after.repo().users(),
                    telegram_id,
                    birthdate,
                )
            },
            Err(AddBirthdayError::Repository(error)) => R::add_answers(
                before.repo(),
                after.repo(),
                telegram_id,
                birthdate,
                Err(error),
            ),
            Err(_) => false,
        }
    }

    /// What saving a birthday for the person `telegram_id`, called `name`, comes to: the actor
    /// must be allowed to, then the person must be in the chat, then the repository is told.
    pub open spec fn adds_for(
        before: Self,
        after: Self,
        actor_id: u64,
        telegram_id: u64,
        name: String,
        birthdate: Date,
        result: Result<Added, AddBirthdayError>,
    ) -> bool {
        ||| {
            &&& before.authorizes(actor_id, telegram_id, false)
            &&& after.repo() == before.repo()
            &&& result == Err::<Added, AddBirthdayError>(AddBirthdayError::NotAdmin)
        }
        ||| {
            &&& before.authorizes(actor_id, telegram_id, true)
            &&& exists|answer: Result<Option<ChatMemberInfo>, ChatError>| #[trigger]
                call_ensures(C::present_member, (&before.chat(), telegram_id), answer) && (
                match presence_verdict(answer, name) {
                    Ok(name) => {
                        let added = if telegram_id == actor_id {
                            Added::ForSelf
                        } else {
                            Added::ForOther { name }
                        };
                        Self::stores(before, after, telegram_id, birthdate, added, result)
                    },
                    Err(error) => after.repo() == before.repo() && result == Err::<
                        Added,
                        AddBirthdayError,
                    >(error),
                })
        }
    }

    /// What [`add_birthday`](BirthdayService::add_birthday) comes to.
    pub open spec fn adds(
        before: Self,
        after: Self,
        actor_id: u64,
        target: Option<Target>,
        birthdate: Date,
        result: Result<Added, AddBirthdayError>,
    ) -> bool {
        match target {
            None => Self::stores(before, after, actor_id, birthdate, Added::ForSelf, result),
            Some(target) => exists|found: Result<(u64, String), AddBirthdayError>| #[trigger]
                before.resolves(target, found) && (match found {
                    Ok((telegram_id, name)) => Self::adds_for(
                        before,
                        after,
                        actor_id,
                        telegram_id,
                        name,
                        birthdate,
                        result,
                    ),
                    Err(error) => after.repo() == before.repo() && result == Err::<
                        Added,
                        AddBirthdayError,
                    >(error),
                }),
        }
    }

    /// The repository was told to remove the birthday; `result` tells, of the actor or of the
    /// person called `other`, whether there was one, or is the repository's error. The known
    /// usernames are unchanged.
    pub open spec fn drops(
        before: Self,
        after: Self,
        telegram_id: u64,
        other: Option<String>,
        result: Result<Removed, AddBirthdayError>,
    ) -> bool {
        &&& after.repo().usernames() == before.repo().usernames()
        &&& match result {
            Ok(done) => {
                let existed = before.repo().users().contains_key(telegram_id);
                &&& done == (match other {
                    None => Removed::ForSelf { existed },
                    Some(name) => Removed::ForOther { name, existed },
                })
                &&& R::remove_answers(before.repo(), after.repo(), telegram_id, Ok(existed))
                &&& after.repo().users() == before.repo().users().remove(telegram_id)
            },
            Err(AddBirthdayError::Repository(error)) => R::remove_answers(
                before.repo(),
                after.repo(),
                telegram_id,
                Err(error),
            ),
            Err(_) => false,
        }
    }

    /// What removing the birthday of the person `telegram_id`, called `name`, comes to: the actor
    /// must be allowed to, then the repository is told.
    pub open spec fn removes_for(
        before: Self,
        after: Self,
        actor_id: u64,
        telegram_id: u64,
        name: String,
        result: Result<Removed, AddBirthdayError>,
    ) -> bool {
        ||| {
            &&& before.authorizes(actor_id, telegram_id, false)
            &&& after.repo() == before.repo()
            &&& result == Err::<Removed, AddBirthdayError>(AddBirthdayError::NotAdmin)
        }
        ||| {
            &&& before.authorizes(actor_id, telegram_id, true)
            &&& Self::drops(
                before,
                after,
                telegram_id,
                if telegram_id == actor_id {
                    None
                } else {
                    Some(name)
                },
                result,
            )
        }
    }

    /// What [`remove_birthday`](BirthdayService::remove_birthday) comes to.
    pub open spec fn removes(
        before: Self,
        after: Self,
        actor_id: u64,
        target: Option<Target>,
        result: Result<Removed, AddBirthdayError>,
    ) -> bool {
        match target {
            None => Self::drops(before, after, actor_id, None, result),
            Some(target) => exists|found: Result<(u64, String), AddBirthdayError>| #[trigger]
                before.resolves(target, found) && (match found {
                    Ok((telegram_id, name)) => Self::removes_for(
                        before,
                        after,
                        actor_id,
                        telegram_id,
                        name,
                        result,
                    ),
                    Err(error) => after.repo() == before.repo() && result == Err::<
                        Removed,
                        AddBirthdayError,
                    >(error),
                }),
        }
    }

    /// `answers` are what the chat answered when asked for each of `ids`.
    pub open spec fn answered(
        self,
        ids: Seq<u64>,
        answers: Seq<Result<Option<ChatMemberInfo>, ChatError>>,
    ) -> bool {
        &&& answers.len() == ids.len()
        &&& forall|i: int|
            0 <= i < ids.len() ==> call_ensures(
                C::present_member,
                (&self.chat(), ids[i]),
                #[trigger] answers[i],
            )
    }

    /// The store found `found` when asked for the birthdays from `from` on, the chat answered
    /// `answers` when asked for each of those people, and `list` is what comes of it.
    pub open spec fn upcoming_from(
        self,
        from: Date,
        days: u32,
        found: Vec<(Date, User)>,
        answers: Seq<Result<Option<ChatMemberInfo>, ChatError>>,
        list: Vec<UpcomingBirthday>,
    ) -> bool {
        &&& call_ensures(
            R::find_birthdays_within,
            (&self.repo(), from, horizon(days)),
            Ok::<Vec<(Date, User)>, RepositoryError>(found),
        )
        &&& elements::well_formed(self.repo().users())
        &&& elements::lists_upcoming(self.repo().users(), from@, horizon(days) as int, found@)
        &&& self.answered(found@.map_values(|e: (Date, User)| e.1.telegram_id), answers)
        &&& list@ == upcoming_present(found@, answers)
    }

    /// What [`upcoming_birthdays`](BirthdayService::upcoming_birthdays) comes to.
    pub open spec fn lists_upcoming(
        self,
        from: Date,
        days: u32,
        result: Result<Vec<UpcomingBirthday>, RepositoryError>,
    ) -> bool {
        match result {
            Ok(list) => exists|
                found: Vec<(Date, User)>,
                answers: Seq<Result<Option<ChatMemberInfo>, ChatError>>,
            | #[trigger]
                self.upcoming_from(from, days, found, answers, list),
            Err(error) => call_ensures(
                R::find_birthdays_within,
                (&self.repo(), from, horizon(days)),
                Err(error),
            ),
        }
    }

    /// The store found `found` when asked who celebrates today, the chat answered `answers` when
    /// asked for each of them, and `list` is what comes of it.
    pub open spec fn celebrants_from(
        self,
        today: Date,
        found: Vec<User>,
        answers: Seq<Result<Option<ChatMemberInfo>, ChatError>>,
        list: Vec<ChatMemberInfo>,
    ) -> bool {
        &&& call_ensures(
            R::find_birthdays_for_date,
            (&self.repo(), today),
            Ok::<Vec<User>, RepositoryError>(found),
        )
        &&& elements::well_formed(self.repo().users())
        &&& elements::lists_celebrants(self.repo().users(), today@, found@)
        &&& self.answered(found@.map_values(|u: User| u.telegram_id), answers)
        &&& list@ == members_present(answers)
    }

    /// What [`todays_celebrants`](BirthdayService::todays_celebrants) comes to.
    pub open spec fn lists_celebrants(
        self,
        today: Date,
        result: Result<Vec<ChatMemberInfo>, RepositoryError>,
    ) -> bool {
        match result {
            Ok(list) => exists|
                found: Vec<User>,
                answers: Seq<Result<Option<ChatMemberInfo>, ChatError>>,
            | #[trigger]
                self.celebrants_from(today, found, answers, list),
            Err(error) => call_ensures(
                R::find_birthdays_for_date,
                (&self.repo(), today),
                Err(error),
            ),
        }
    }

    pub fn new(repo: R, chat: C) -> (service: Self)
        ensures
            service.repo() == repo,
            service.chat() == chat,
    {
        BirthdayService { repo, chat }
    }

    /// Remembers which Telegram ID a username belongs to. The birthdays stay as they are.
    pub fn record_username(&mut self, username: &str, telegram_id: u64) -> (answer: Result<
        (),
        RepositoryError,
    >)
        ensures
            final(self).chat() == old(self).chat(),
            R::record_answers(
                old(self).repo(),
                final(self).repo(),
                text::lowercase(username@),
                telegram_id,
                answer,
            ),
            final(self).repo().users() == old(self).repo().users(),
            answer is Ok ==> final(self).repo().usernames() == old(self).repo().usernames().insert(
                text::lowercase(username@),
                telegram_id,
            ),
    {
        let key = text::to_lowercase(username);
        self.repo.record_username(key.as_str(), telegram_id)
    }

    /// Who a target is: their Telegram ID and the name to call them.
    fn resolve_target(&self, target: Target) -> (found: Result<(u64, String), AddBirthdayError>)
        ensures
            self.resolves(target, found),
    {
        match target {
            Target::User { telegram_id, name } => Ok((telegram_id, name)),
            Target::Username(raw) => {
                let key = text::to_lowercase(text::trim_at(raw.as_str()));
                let username = key.as_str();
                match self.repo.resolve_username(username) {
                    Ok(Some(telegram_id)) => {
                        proof {
                            reveal_strlit("@");
                            assert("@"@ =~= seq!['@']);
                        }
                        Ok((telegram_id, "@".to_owned().concat(username)))
                    },
                    Ok(None) => Err(AddBirthdayError::UnknownUsername(raw)),
                    Err(error) => {
                        assert(call_ensures(
                            R::resolve_username,
                            (&self.repo(), username),
                            Err::<Option<u64>, RepositoryError>(error),
                        ));
                        Err(AddBirthdayError::Repository(error))
                    },
                }
            },
        }
    }

    /// Members may only act on themselves; admins can act on anyone.
    /// A failed admin lookup fails closed.
    fn may_act_on(&self, actor_id: u64, telegram_id: u64) -> (allowed: bool)
        ensures
            self.authorizes(actor_id, telegram_id, allowed),
    {
        telegram_id == actor_id || allows(self.chat.is_admin(actor_id))
    }

    /// Adds a birthday for the actor themselves (no target) or, if the actor
    /// is a chat admin, for another chat member.
    pub fn add_birthday(
        &mut self,
        actor_id: u64,
        target: Option<Target>,
        birthdate: Date,
    ) -> (result: Result<Added, AddBirthdayError>)
        ensures
            final(self).chat() == old(self).chat(),
            final(self).repo().usernames() == old(self).repo().usernames(),
            Self::adds(*old(self), *final(self), actor_id, target, birthdate, result),
    {
        let target = match target {
            Some(target) => target,
            None => {
                let answer = self.repo.add_birthday(actor_id, birthdate);
                assert(answer matches Ok(unit) ==> unit == ());
                return match answer {
                    Ok(()) => Ok(Added::ForSelf),
                    Err(error) => Err(AddBirthdayError::Repository(error)),
                };
            },
        };
        let found = self.resolve_target(target);
        let ghost resolution = found;
        assert(self.resolves(target, resolution));
        let (telegram_id, name) = match found {
            Ok(found) => found,
            Err(error) => {
                return Err(error);
            },
        };
        if !self.may_act_on(actor_id, telegram_id) {
            return Err(AddBirthdayError::NotAdmin);
        }
        let answer = self.chat.present_member(telegram_id);
        let ghost presence = answer;
        assert(call_ensures(C::present_member, (&self.chat, telegram_id), presence));
        let name = match require_presence(answer, name) {
            Ok(name) => name,
            Err(error) => {
                return Err(error);
            },
        };
        let answer = self.repo.add_birthday(telegram_id, birthdate);
        assert(answer matches Ok(unit) ==> unit == ());
        match answer {
            Ok(()) => Ok(
                if telegram_id == actor_id {
                    Added::ForSelf
                } else {
                    Added::ForOther { name }
                },
            ),
            Err(error) => Err(AddBirthdayError::Repository(error)),
        }
    }

    /// Removes the birthday of the actor themselves (no target) or, if the actor is a chat admin,
    /// of someone else, whether or not they are still in the chat.
    pub fn remove_birthday(&mut self, actor_id: u64, target: Option<Target>) -> (result: Result<
        Removed,
        AddBirthdayError,
    >)
        ensures
            final(self).chat() == old(self).chat(),
            final(self).repo().usernames() == old(self).repo().usernames(),
            Self::removes(*old(self), *final(self), actor_id, target, result),
    {
        let target = match target {
            Some(target) => target,
            None => {
                return match self.repo.remove_birthday(actor_id) {
                    Ok(existed) => Ok(Removed::ForSelf { existed }),
                    Err(error) => Err(AddBirthdayError::Repository(error)),
                };
            },
        };
        let found = self.resolve_target(target);
        let ghost resolution = found;
        assert(self.resolves(target, resolution));
        let (telegram_id, name) = match found {
            Ok(found) => found,
            Err(error) => {
                return Err(error);
            },
        };
        if !self.may_act_on(actor_id, telegram_id) {
            return Err(AddBirthdayError::NotAdmin);
        }
        match self.repo.remove_birthday(telegram_id) {
            Ok(existed) => Ok(
                if telegram_id == actor_id {
                    Removed::ForSelf { existed }
                } else {
                    Removed::ForOther { name, existed }
                },
            ),
            Err(error) => Err(AddBirthdayError::Repository(error)),
        }
    }

    /// Chat members with a birthday within `from..=from + days`, soonest
    /// first. Users who are no longer in the chat are skipped.
    pub fn upcoming_birthdays(&self, from: Date, days: u32) -> (result: Result<
        Vec<UpcomingBirthday>,
        RepositoryError,
    >)
        ensures
            self.lists_upcoming(from, days, result),
    {
        let limit: u32 = if days < MAX_SOON_DAYS {
            days
        } else {
            MAX_SOON_DAYS
        };
        let found = match self.repo.find_birthdays_within(from, limit) {
            Ok(found) => found,
            Err(error) => {
                return Err(error);
            },
        };
        let ghost mut answers: Seq<Result<Option<ChatMemberInfo>, ChatError>> = Seq::empty();
        let mut list: Vec<UpcomingBirthday> = Vec::new();
        let mut i: usize = 0;
        while i < found.len()
            invariant
                i <= found.len(),
                self.answered(
                    found@.take(i as int).map_values(|e: (Date, User)| e.1.telegram_id),
                    answers,
                ),
                list@ == upcoming_present(found@.take(i as int), answers),
            decreases found.len() - i,
        {
            let (date, user) = found[i];
            let answer = self.chat.present_member(user.telegram_id);
            proof {
                let before = answers;
                answers = answers.push(answer);
                assert(answers.drop_last() =~= before);
                assert(found@.take(i + 1).drop_last() =~= found@.take(i as int));
                assert(found@.take(i + 1).last() == found@[i as int]);
                let ids = found@.take(i as int).map_values(|e: (Date, User)| e.1.telegram_id);
                assert(found@.take(i + 1).map_values(|e: (Date, User)| e.1.telegram_id) =~= ids.push(
                    user.telegram_id,
                ));
            }
            if let Some(member) = member_or_skip(answer) {
                list.push(UpcomingBirthday { date, member });
            }
            i = i + 1;
        }
        assert(found@.take(i as int) =~= found@);
        let result: Result<Vec<UpcomingBirthday>, RepositoryError> = Ok(list);
        assert(self.upcoming_from(from, days, found, answers, result->Ok_0));
        result
    }

    /// Chat members whose birthday is celebrated today. Users who are no
    /// longer in the chat are skipped.
    pub fn todays_celebrants(&self, today: Date) -> (result: Result<
        Vec<ChatMemberInfo>,
        RepositoryError,
    >)
        ensures
            self.lists_celebrants(today, result),
    {
        let found = match self.repo.find_birthdays_for_date(today) {
            Ok(found) => found,
            Err(error) => {
                return Err(error);
            },
        };
        let ghost mut answers: Seq<Result<Option<ChatMemberInfo>, ChatError>> = Seq::empty();
        let mut list: Vec<ChatMemberInfo> = Vec::new();
        let mut i: usize = 0;
        while i < found.len()
            invariant
                i <= found.len(),
                self.answered(found@.take(i as int).map_values(|u: User| u.telegram_id), answers),
                list@ == members_present(answers),
            decreases found.len() - i,
        {
            let user = found[i];
            let answer = self.chat.present_member(user.telegram_id);
            proof {
                let before = answers;
                answers = answers.push(answer);
                assert(answers.drop_last() =~= before);
                let ids = found@.take(i as int).map_values(|u: User| u.telegram_id);
                assert(found@.take(i + 1).map_values(|u: User| u.telegram_id) =~= ids.push(
                    user.telegram_id,
                ));
            }
            if let Some(member) = member_or_skip(answer) {
                list.push(member);
            }
            i = i + 1;
        }
        assert(found@.take(i as int) =~= found@);
        let result: Result<Vec<ChatMemberInfo>, RepositoryError> = Ok(list);
        assert(self.celebrants_from(today, found, answers, result->Ok_0));
        result
    }
}

} // verus!
