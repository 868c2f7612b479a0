//! What the bot reads from messages and what it answers to its commands.

use vstd::prelude::*;

use crate::calendar;
use crate::calendar::{Date, Timestamp, Ymd};
use crate::elements::{RepositoryError, StoreModel, UserRepository, UsernameDirectory};
use crate::service;
use crate::service::{
    AddBirthdayError, Added, BirthdayService, ChatError, ChatMemberInfo, ChatPort, Removed, Target,
    UpcomingBirthday, DEFAULT_SOON_DAYS, MAX_SOON_DAYS,
};
use crate::text;

verus! {

/// What Telegram answers to a lookup of a member of the chat.
#[derive(Debug, Clone, PartialEq, Eq)]
pub enum MemberLookup {
    /// There is such a member, or has been.
    Found { present: bool, privileged: bool, username: Option<String>, full_name: String },
    /// There never was one.
    UserNotFound,
    /// The request failed.
    Failed(String),
}

/// What a lookup says of someone's presence in the chat.
pub open spec fn presence(telegram_id: u64, lookup: MemberLookup) -> Result<
    Option<ChatMemberInfo>,
    ChatError,
> {
    match lookup {
        MemberLookup::Found { present, privileged, username, full_name } => Ok(
            if present {
                Some(ChatMemberInfo { telegram_id, username, full_name })
            } else {
                None
            },
        ),
        MemberLookup::UserNotFound => Ok(None),
        MemberLookup::Failed(reason) => Err(ChatError(reason)),
    }
}

/// Member info if a lookup shows that the user is present in the chat.
pub fn present_member(telegram_id: u64, lookup: MemberLookup) -> (answer: Result<
    Option<ChatMemberInfo>,
    ChatError,
>)
    ensures
        answer == presence(telegram_id, lookup),
{
    match lookup {
        MemberLookup::Found { present, privileged: _, username, full_name } => {
            if present {
                Ok(Some(ChatMemberInfo { telegram_id, username, full_name }))
            } else {
                Ok(None)
            }
        },
        MemberLookup::UserNotFound => Ok(None),
        MemberLookup::Failed(reason) => Err(ChatError(reason)),
    }
}

/// What a lookup says of someone's rights in the chat.
pub open spec fn privilege(lookup: MemberLookup) -> Result<bool, ChatError> {
    match lookup {
        MemberLookup::Found { privileged, .. } => Ok(privileged),
        MemberLookup::UserNotFound => Ok(false),
        MemberLookup::Failed(reason) => Err(ChatError(reason)),
    }
}

/// Whether a lookup shows the chat owner or an administrator.
pub fn is_admin(lookup: MemberLookup) -> (answer: Result<bool, ChatError>)
    ensures
        answer == privilege(lookup),
{
    match lookup {
        MemberLookup::Found { privileged, .. } => Ok(privileged),
        MemberLookup::UserNotFound => Ok(false),
        MemberLookup::Failed(reason) => Err(ChatError(reason)),
    }
}

/// Who sent a message.
#[derive(Debug, Clone, PartialEq, Eq)]
pub struct Sender {
    pub telegram_id: u64,
    pub username: Option<String>,
}

/// A marked part of a message's text.
#[derive(Debug, Clone, PartialEq, Eq)]
pub enum Entity {
    /// The mention of a user without a username.
    TextMention { telegram_id: u64, full_name: String },
    Other,
}

/// What matters of a message.
#[derive(Debug, Clone, PartialEq, Eq)]
pub struct Message {
    pub from: Option<Sender>,
    pub entities: Vec<Entity>,
}

/// A command to the bot, with what stands behind it.
#[derive(Debug, Clone, PartialEq, Eq)]
pub enum Command {
    AddBirthday(String),
    RemoveBirthday(String),
    Soon(String),
    Help,
}

/// What the bot answers.
#[derive(Debug, Clone, PartialEq, Eq)]
pub enum Reply {
    Text(String),
    /// The list of commands.
    Help,
    Nothing,
}

/// The reply says this.
pub open spec fn says(reply: Reply, words: Seq<char>) -> bool {
    reply matches Reply::Text(text) && text@ == words
}

/// `i` is the place of the first text mention.
pub open spec fn first_mention_at(entities: Seq<Entity>, i: int) -> bool {
    &&& 0 <= i < entities.len()
    &&& entities[i] is TextMention
    &&& forall|k: int| 0 <= k < i ==> !((#[trigger] entities[k]) is TextMention)
}

/// `target` is whom a command is about: nobody in particular where nothing stands behind it;
/// else the first user who is mentioned in the text, or the username that is written there.
pub open spec fn is_target(
    entities: Seq<Entity>,
    written: Seq<char>,
    target: Option<Target>,
) -> bool {
    match target {
        None => written.len() == 0,
        Some(Target::User { telegram_id, name }) => {
            &&& written.len() > 0
            &&& exists|i: int| #[trigger]
                first_mention_at(entities, i) && entities[i]->telegram_id == telegram_id
                    && entities[i]->full_name@ == name@
        },
        Some(Target::Username(raw)) => {
            &&& written.len() > 0
            &&& raw@ == written
            &&& forall|i: int| 0 <= i < entities.len() ==> !((#[trigger] entities[i]) is TextMention)
        },
    }
}

/// Interprets the non-date part of a command as who it acts on. A text
/// mention (users without a username) carries the user directly; otherwise
/// the raw @username is passed on for resolution.
pub fn parse_target(entities: &Vec<Entity>, target_str: &str) -> (target: Option<Target>)
    ensures
        is_target(entities@, target_str@, target),
{
    if target_str.is_empty() {
        return None;
    }
    let mut i: usize = 0;
    while i < entities.len()
        invariant
            i <= entities.len(),
            target_str@.len() > 0,
            forall|k: int| 0 <= k < i ==> !((#[trigger] entities[k]) is TextMention),
        decreases entities.len() - i,
    {
        match &entities[i] {
            Entity::TextMention { telegram_id, full_name } => {
                assert(first_mention_at(entities@, i as int));
                return Some(
                    Target::User { telegram_id: *telegram_id, name: full_name.clone() },
                );
            },
            Entity::Other => {},
        }
        i = i + 1;
    }
    Some(Target::Username(target_str.to_owned()))
}

/// The two parts of what stands behind an add command: a date, and whom it is for.
pub open spec fn add_args(args: Seq<char>) -> (Seq<char>, Seq<char>) {
    match text::split_at_white_space(text::trimmed(args)) {
        Some((date, rest)) => (date, text::trimmed(rest)),
        None => (text::trimmed(args), Seq::empty()),
    }
}

pub open spec fn add_usage() -> Seq<char> {
    "Please use the format: /add_birthday MM-DD [@username]"@
}

pub open spec fn soon_usage() -> Seq<char> {
    "Please use the format: /soon [days]"@
}

/// What is answered where a username is not known.
pub open spec fn unknown_words(raw: Seq<char>) -> Seq<char> {
    "I don't know who "@ + raw
        + " is yet — they need to send a message in the chat first."@
}

/// What is answered to an attempt to save the birthday.
pub open spec fn add_words(result: Result<Added, AddBirthdayError>, birthdate: Ymd) -> Seq<char> {
    match result {
        Ok(Added::ForSelf) => "Saved your birthday: "@ + calendar::day_and_month(birthdate)
            + " 🎂"@,
        Ok(Added::ForOther { name }) => "Saved "@ + name@ + "'s birthday: "@
            + calendar::day_and_month(birthdate) + " 🎂"@,
        Err(AddBirthdayError::UnknownUsername(raw)) => unknown_words(raw@),
        Err(AddBirthdayError::NotInChat(name)) => name@ + " doesn't seem to be in the chat."@,
        Err(AddBirthdayError::NotAdmin) =>
            "Only chat admins can add birthdays for other people. You can add your own with /add_birthday MM-DD"@,
        Err(_) => "Something went wrong saving the birthday."@,
    }
}

/// What is answered to an attempt to remove a birthday.
pub open spec fn remove_words(result: Result<Removed, AddBirthdayError>) -> Seq<char> {
    match result {
        Ok(Removed::ForSelf { existed }) => if existed {
            "Removed your birthday."@
        } else {
            "You don't have a birthday saved."@
        },
        Ok(Removed::ForOther { name, existed }) => if existed {
            "Removed "@ + name@ + "'s birthday."@
        } else {
            name@ + " doesn't have a birthday saved."@
        },
        Err(AddBirthdayError::UnknownUsername(raw)) => unknown_words(raw@),
        Err(AddBirthdayError::NotAdmin) =>
            "Only chat admins can remove birthdays for other people. You can remove your own with /remove_birthday"@,
        Err(_) => "Something went wrong removing the birthday."@,
    }
}

/// The three texts one after the other.
fn compose(first: &str, second: &str, third: &str) -> (whole: String)
    ensures
        whole@ == first@ + second@ + third@,
{
    let mut whole = first.to_owned();
    whole.append(second);
    whole.append(third);
    whole
}

/// The answer to an attempt to save the birthday.
pub fn add_reply(result: &Result<Added, AddBirthdayError>, birthdate: Date) -> (reply: String)
    ensures
        reply@ == add_words(*result, birthdate@),
{
    match result {
        Ok(Added::ForSelf) => compose(
            "Saved your birthday: ",
            birthdate.day_and_month().as_str(),
            " 🎂",
        ),
        Ok(Added::ForOther { name }) => compose(
            compose("Saved ", name.as_str(), "'s birthday: ").as_str(),
            birthdate.day_and_month().as_str(),
            " 🎂",
        ),
        Err(AddBirthdayError::UnknownUsername(raw)) => compose(
            "I don't know who ",
            raw.as_str(),
            " is yet — they need to send a message in the chat first.",
        ),
        Err(AddBirthdayError::NotInChat(name)) => name.clone().concat(
            " doesn't seem to be in the chat.",
        ),
        Err(AddBirthdayError::NotAdmin) =>
            "Only chat admins can add birthdays for other people. You can add your own with /add_birthday MM-DD".to_owned(),
        Err(AddBirthdayError::Repository(_)) | Err(AddBirthdayError::Chat(_)) =>
            "Something went wrong saving the birthday.".to_owned(),
    }
}

/// The answer to an attempt to remove a birthday.
pub fn remove_reply(result: &Result<Removed, AddBirthdayError>) -> (reply: String)
    ensures
        reply@ == remove_words(*result),
{
    match result {
        Ok(Removed::ForSelf { existed }) => if *existed {
            "Removed your birthday.".to_owned()
        } else {
            "You don't have a birthday saved.".to_owned()
        },
        Ok(Removed::ForOther { name, existed }) => if *existed {
            compose("Removed ", name.as_str(), "'s birthday.")
        } else {
            name.clone().concat(" doesn't have a birthday saved.")
        },
        Err(AddBirthdayError::UnknownUsername(raw)) => compose(
            "I don't know who ",
            raw.as_str(),
            " is yet — they need to send a message in the chat first.",
        ),
        Err(AddBirthdayError::NotAdmin) =>
            "Only chat admins can remove birthdays for other people. You can remove your own with /remove_birthday".to_owned(),
        Err(AddBirthdayError::NotInChat(_))
        | Err(AddBirthdayError::Repository(_))
        | Err(AddBirthdayError::Chat(_)) => "Something went wrong removing the birthday.".to_owned(),
    }
}

/// The horizon that a lookup command asks for: the default where nothing stands behind it, at most
/// the longest, and none where there is something else than a number.
pub open spec fn soon_days_in(args: Seq<char>) -> Option<u32> {
    if text::trimmed(args).len() == 0 {
        Some(DEFAULT_SOON_DAYS)
    } else {
        match text::u32_in(text::trimmed(args)) {
            Some(days) => Some(service::horizon(days)),
            None => None,
        }
    }
}

/// The horizon that a lookup command asks for.
pub fn soon_days(args: &str) -> (days: Option<u32>)
    ensures
        days == soon_days_in(args@),
{
    let args = text::trim(args);
    if args.is_empty() {
        return Some(DEFAULT_SOON_DAYS);
    }
    match text::parse_u32(args) {
        Some(days) => Some(
            if days < MAX_SOON_DAYS {
                days
            } else {
                MAX_SOON_DAYS
            },
        ),
        None => None,
    }
}

/// How far away a day is that is `days` days away.
pub open spec fn distance(days: int) -> Seq<char> {
    if days == 0 {
        "today! 🎉"@
    } else if days == 1 {
        "tomorrow"@
    } else {
        "in "@ + text::decimal(days) + " days"@
    }
}

/// The line for one birthday. Plain names on purpose: a list shouldn't ping everyone in it.
pub open spec fn soon_line(today: Ymd, entry: UpcomingBirthday) -> Seq<char> {
    "🎂 "@ + calendar::day_and_month(entry.date@) + " — "@ + entry.member.full_name@ + " ("@
        + distance(entry.date@.day_number() - today.day_number()) + ")"@
}

/// What is answered to a lookup.
pub open spec fn soon_words(today: Ymd, days: u32, list: Seq<UpcomingBirthday>) -> Seq<char> {
    if list.len() == 0 {
        "No birthdays in the next "@ + text::decimal(days as int) + " days."@
    } else {
        "Birthdays in the next "@ + text::decimal(days as int) + " days:\n"@ + text::joined(
            list.map_values(|entry: UpcomingBirthday| soon_line(today, entry)),
            "\n"@,
        )
    }
}

fn soon_entry(today: Date, entry: &UpcomingBirthday) -> (line: String)
    ensures
        line@ == soon_line(today@, *entry),
{
    let days: i64 = entry.date.days_since(today);
    let when = if days == 0 {
        "today! 🎉".to_owned()
    } else if days == 1 {
        "tomorrow".to_owned()
    } else {
        compose("in ", text::decimal_text(days).as_str(), " days")
    };
    let mut line = compose("🎂 ", entry.date.day_and_month().as_str(), " — ");
    line.append(entry.member.full_name.as_str());
    line.append(" (");
    line.append(when.as_str());
    line.append(")");
    line
}

/// The answer to a lookup.
pub fn soon_reply(today: Date, days: u32, list: &Vec<UpcomingBirthday>) -> (reply: String)
    ensures
        reply@ == soon_words(today@, days, list@),
{
    let number = text::decimal_text(days as i64);
    if list.len() == 0 {
        return compose("No birthdays in the next ", number.as_str(), " days.");
    }
    let ghost all = list@.map_values(|entry: UpcomingBirthday| soon_line(today@, entry));
    let mut lines: Vec<String> = Vec::new();
    let mut i: usize = 0;
    while i < list.len()
        invariant
            i <= list.len(),
            lines.len() == i,
            all == list@.map_values(|entry: UpcomingBirthday| soon_line(today@, entry)),
            forall|k: int| 0 <= k < i ==> (#[trigger] lines[k])@ == all[k],
        decreases list.len() - i,
    {
        lines.push(soon_entry(today, &list[i]));
        i = i + 1;
    }
    assert(text::views(lines@) =~= all);
    let mut reply = compose("Birthdays in the next ", number.as_str(), " days:\n");
    reply.append(text::join(&lines, "\n").as_str());
    reply
}

/// What an add command comes to.
pub open spec fn add_command<R: UserRepository + UsernameDirectory, C: ChatPort>(
    before: BirthdayService<R, C>,
    after: BirthdayService<R, C>,
    message: Message,
    args: Seq<char>,
    reply: Reply,
) -> bool {
    let (date_str, target_str) = add_args(args);
    match (service::birthday_in(date_str), message.from) {
        (None, _) => after == before && says(reply, add_usage()),
        (Some(_), None) => after == before && reply == Reply::Nothing,
        (Some(day), Some(sender)) => exists|
            target: Option<Target>,
            birthdate: Date,
            result: Result<Added, AddBirthdayError>,
        |
            {
                &&& is_target(message.entities@, target_str, target)
                &&& birthdate@ == day
                &&& after.chat() == before.chat()
                &&& #[trigger] BirthdayService::adds(
                    before,
                    after,
                    sender.telegram_id,
                    target,
                    birthdate,
                    result,
                )
                &&& says(reply, add_words(result, day))
            },
    }
}

/// Answers an add command.
pub fn handle_add_birthday<R: UserRepository + UsernameDirectory, C: ChatPort>(
    service: &mut BirthdayService<R, C>,
    message: &Message,
    args: &str,
) -> (reply: Reply)
    ensures
        add_command(*old(service), *final(service), *message, args@, reply),
{
    let args = text::trim(args);
    let (date_str, target_str) = match text::split_once(args) {
        Some((date, rest)) => (date, text::trim(rest)),
        None => {
            proof {
                reveal_strlit("");
                assert(""@ =~= Seq::empty());
            }
            (args, "")
        },
    };
    let birthdate = match service::parse_birthday(date_str) {
        Some(date) => date,
        None => {
            return Reply::Text("Please use the format: /add_birthday MM-DD [@username]".to_owned());
        },
    };
    let sender = match &message.from {
        Some(sender) => sender,
        None => {
            return Reply::Nothing;
        },
    };
    let target = parse_target(&message.entities, target_str);
    let ghost whom = target;
    let result = service.add_birthday(sender.telegram_id, target, birthdate);
    assert(BirthdayService::adds(
        *old(service),
        *service,
        sender.telegram_id,
        whom,
        birthdate,
        result,
    ));
    Reply::Text(add_reply(&result, birthdate))
}

/// What a remove command comes to.
pub open spec fn remove_command<R: UserRepository + UsernameDirectory, C: ChatPort>(
    before: BirthdayService<R, C>,
    after: BirthdayService<R, C>,
    message: Message,
    args: Seq<char>,
    reply: Reply,
) -> bool {
    match message.from {
        None => after == before && reply == Reply::Nothing,
        Some(sender) => exists|target: Option<Target>, result: Result<Removed, AddBirthdayError>|
            {
                &&& is_target(message.entities@, text::trimmed(args), target)
                &&& after.chat() == before.chat()
                &&& #[trigger] BirthdayService::removes(
                    before,
                    after,
                    sender.telegram_id,
                    target,
                    result,
                )
                &&& says(reply, remove_words(result))
            },
    }
}

/// Answers a remove command.
pub fn handle_remove_birthday<R: UserRepository + UsernameDirectory, C: ChatPort>(
    service: &mut BirthdayService<R, C>,
    message: &Message,
    args: &str,
) -> (reply: Reply)
    ensures
        remove_command(*old(service), *final(service), *message, args@, reply),
{
    let sender = match &message.from {
        Some(sender) => sender,
        None => {
            return Reply::Nothing;
        },
    };
    let target = parse_target(&message.entities, text::trim(args));
    let ghost whom = target;
    let result = service.remove_birthday(sender.telegram_id, target);
    assert(BirthdayService::removes(
        *old(service),
        *service,
        sender.telegram_id,
        whom,
        result,
    ));
    Reply::Text(remove_reply(&result))
}

/// What a lookup on the day `today` comes to.
pub open spec fn soon_command<R: UserRepository + UsernameDirectory, C: ChatPort>(
    service: BirthdayService<R, C>,
    today: Date,
    days: u32,
    reply: Reply,
) -> bool {
    exists|result: Result<Vec<UpcomingBirthday>, RepositoryError>| #[trigger]
        service.lists_upcoming(today, days, result) && says(
            reply,
            match result {
                Ok(list) => soon_words(today@, days, list@),
                Err(_) => "Something went wrong looking up birthdays."@,
            },
        )
}

/// Answers a lookup on the day `today`.
pub fn upcoming_reply<R: UserRepository + UsernameDirectory, C: ChatPort>(
    service: &BirthdayService<R, C>,
    today: Date,
    days: u32,
) -> (reply: Reply)
    ensures
        soon_command(*service, today, days, reply),
{
    let result = service.upcoming_birthdays(today, days);
    assert(service.lists_upcoming(today, days, result));
    match &result {
        Ok(list) => Reply::Text(soon_reply(today, days, list)),
        Err(_) => Reply::Text("Something went wrong looking up birthdays.".to_owned()),
    }
}

/// What a lookup command comes to: a lookup on the day that the clock shows.
pub open spec fn soon_now<R: UserRepository + UsernameDirectory, C: ChatPort>(
    service: BirthdayService<R, C>,
    args: Seq<char>,
    reply: Reply,
) -> bool {
    match soon_days_in(args) {
        Some(days) => exists|now: Timestamp, today: Date|
            {
                &&& #[trigger] call_ensures(Timestamp::now, (), now)
                &&& today@.valid()
                &&& today@.day_number() == now@.day_number()
                &&& #[trigger] soon_command(service, today, days, reply)
            },
        None => says(reply, soon_usage()),
    }
}

/// Answers a lookup command.
pub fn handle_soon<R: UserRepository + UsernameDirectory, C: ChatPort>(
    service: &BirthdayService<R, C>,
    args: &str,
) -> (reply: Reply)
    ensures
        soon_now(*service, args@, reply),
{
    match soon_days(args) {
        Some(days) => {
            let now = Timestamp::now();
            let today = now.date();
            let reply = upcoming_reply(service, today, days);
            assert(call_ensures(Timestamp::now, (), now));
            assert(soon_command(*service, today, days, reply));
            reply
        },
        None => Reply::Text("Please use the format: /soon [days]".to_owned()),
    }
}

/// What observing a message comes to: the username of its sender is remembered, if they have one.
pub open spec fn observes<R: UserRepository + UsernameDirectory, C: ChatPort>(
    before: BirthdayService<R, C>,
    after: BirthdayService<R, C>,
    message: Message,
    answer: Result<(), RepositoryError>,
) -> bool {
    match message.from {
        Some(Sender { telegram_id, username: Some(username) }) => {
            let key = text::lowercase(username@);
            &&& after.chat() == before.chat()
            &&& after.repo().users() == before.repo().users()
            &&& R::record_answers(before.repo(), after.repo(), key, telegram_id, answer)
            &&& answer is Ok ==> after.repo().usernames() == before.repo().usernames().insert(
                key,
                telegram_id,
            )
        },
        _ => after == before && answer is Ok,
    }
}

/// Remembers the username of a message's sender, so that @usernames can be resolved later.
pub fn record_sender<R: UserRepository + UsernameDirectory, C: ChatPort>(
    service: &mut BirthdayService<R, C>,
    message: &Message,
) -> (answer: Result<(), RepositoryError>)
    ensures
        observes(*old(service), *final(service), *message, answer),
{
    match &message.from {
        Some(sender) => match &sender.username {
            Some(username) => service.record_username(username.as_str(), sender.telegram_id),
            None => Ok(()),
        },
        None => Ok(()),
    }
}

/// What is answered to a command that could not be carried through.
pub open spec fn failure(command: Command, reply: Reply) -> bool {
    match command {
        Command::AddBirthday(_) => says(reply, "Something went wrong saving the birthday."@),
        Command::RemoveBirthday(_) => says(reply, "Something went wrong removing the birthday."@),
        Command::Soon(_) => says(reply, "Something went wrong looking up birthdays."@),
        Command::Help => reply == Reply::Help,
    }
}

/// The answer to a command that could not be carried through.
pub fn failure_reply(command: &Command) -> (reply: Reply)
    ensures
        failure(*command, reply),
{
    match command {
        Command::AddBirthday(_) => Reply::Text(
            "Something went wrong saving the birthday.".to_owned(),
        ),
        Command::RemoveBirthday(_) => Reply::Text(
            "Something went wrong removing the birthday.".to_owned(),
        ),
        Command::Soon(_) => Reply::Text("Something went wrong looking up birthdays.".to_owned()),
        Command::Help => Reply::Help,
    }
}

/// What a command comes to once the message has been observed.
pub open spec fn answers_command<R: UserRepository + UsernameDirectory, C: ChatPort>(
    before: BirthdayService<R, C>,
    after: BirthdayService<R, C>,
    message: Message,
    command: Command,
    reply: Reply,
) -> bool {
    match command {
        Command::AddBirthday(args) => add_command(before, after, message, args@, reply),
        Command::RemoveBirthday(args) => remove_command(before, after, message, args@, reply),
        Command::Soon(args) => after == before && soon_now(before, args@, reply),
        Command::Help => after == before && reply == Reply::Help,
    }
}

/// Observes the message of a command, then answers the command. That the sender could not be
/// remembered does not matter to the answer.
pub fn handle_command<R: UserRepository + UsernameDirectory, C: ChatPort>(
    service: &mut BirthdayService<R, C>,
    message: &Message,
    command: &Command,
) -> (reply: Reply)
    ensures
        exists|between: BirthdayService<R, C>, answer: Result<(), RepositoryError>| #[trigger]
            observes(*old(service), between, *message, answer) && answers_command(
                between,
                *final(service),
                *message,
                *command,
                reply,
            ),
{
    let answer = record_sender(service, message);
    let ghost between = *service;
    assert(observes(*old(service), between, *message, answer));
    match command {
        Command::AddBirthday(args) => handle_add_birthday(service, message, args.as_str()),
        Command::RemoveBirthday(args) => handle_remove_birthday(service, message, args.as_str()),
        Command::Soon(args) => handle_soon(&*service, args.as_str()),
        Command::Help => Reply::Help,
    }
}

} // verus!
