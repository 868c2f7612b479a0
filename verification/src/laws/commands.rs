//! What the bot's commands do and what is answered to them, with a store in memory.

use vstd::prelude::*;

use crate::bot;
use crate::bot::{Command, Entity, MemberLookup, Message, Reply, Sender};
use crate::calendar;
use crate::calendar::{Date, Ymd};
use crate::elements::{RepositoryError, StoreModel, User, UserRepository, UsernameDirectory};
use crate::inmemory::InMemoryUserRepository;
use crate::laws::days;
use crate::laws::people;
use crate::laws::plain;
use crate::laws::texts;
use crate::service;
use crate::service::{
    AddBirthdayError, Added, BirthdayService, ChatError, ChatMemberInfo, ChatPort, Removed, Target,
};
use crate::text;

verus! {

/// `month` and `day` are numbers of one or two digits.
pub open spec fn are_numbers(month: Seq<char>, day: Seq<char>) -> bool {
    plain::is_number(month) && month.len() <= 2 && plain::is_number(day) && day.len() <= 2
}

/// There is such a day in a leap year.
pub open spec fn is_a_day(month: int, day: int) -> bool {
    1 <= month <= 12 && 1 <= day <= plain::length_of_month(2000, month)
}

/// Takes the white space that `s` begins with off it.
proof fn lemma_trim_start_splits(s: Seq<char>) -> (before: Seq<char>)
    ensures
        s == before + text::trim_start(s),
        text::all_white_space(before),
        text::trim_start(s).len() > 0 ==> !text::is_white_space(text::trim_start(s)[0]),
    decreases s.len(),
{
    if s.len() > 0 && text::is_white_space(s[0]) {
        let rest = lemma_trim_start_splits(s.skip(1));
        let before = seq![s[0]] + rest;
        assert(s =~= seq![s[0]] + s.skip(1));
        assert(s =~= before + text::trim_start(s));
        before
    } else {
        assert(s =~= Seq::<char>::empty() + s);
        Seq::empty()
    }
}

proof fn lemma_trim_end_splits(s: Seq<char>) -> (after: Seq<char>)
    ensures
        s == text::trim_end(s) + after,
        text::all_white_space(after),
    decreases s.len(),
{
    if s.len() > 0 && text::is_white_space(s.last()) {
        let rest = lemma_trim_end_splits(s.drop_last());
        let after = rest.push(s.last());
        assert(s =~= s.drop_last().push(s.last()));
        assert(s =~= text::trim_end(s) + after);
        after
    } else {
        assert(s =~= s + Seq::<char>::empty());
        Seq::empty()
    }
}

proof fn lemma_number(s: Seq<char>)
    requires
        text::all_digits(s),
        1 <= s.len() <= 2,
    ensures
        plain::is_number(s),
        plain::value_of(s) == text::digits_value(s),
{
    texts::lemma_value(s);
    assert forall|i: int| 0 <= i < s.len() implies 48 <= #[trigger] s[i] as u32 <= 57 by {
        assert(text::is_digit(s[i]));
    }
}

proof fn lemma_digits(s: Seq<char>)
    requires
        plain::is_number(s),
    ensures
        text::all_digits(s),
        plain::value_of(s) == text::digits_value(s),
{
    texts::lemma_value(s);
}

/// A month, a hyphen and a day with whatever white space around are read as that day of the year
/// 2000, if there is one, and not read if there is none.
pub proof fn birthdays_are_read(
    before: Seq<char>,
    month: Seq<char>,
    day: Seq<char>,
    after: Seq<char>,
    input: &str,
    read: Option<Date>,
)
    requires
        call_ensures(service::parse_birthday, (input,), read),
        input@ == before + (month + seq!['-'] + day) + after,
        text::all_white_space(before),
        text::all_white_space(after),
        are_numbers(month, day),
    ensures
        read is Some <==> is_a_day(plain::value_of(month), plain::value_of(day)),
        read matches Some(date) ==> date@.year == 2000 && date@.month == plain::value_of(month)
            && date@.day == plain::value_of(day),
{
    lemma_read(before, month, day, after);
}

proof fn lemma_read(before: Seq<char>, month: Seq<char>, day: Seq<char>, after: Seq<char>)
    requires
        text::all_white_space(before),
        text::all_white_space(after),
        are_numbers(month, day),
    ensures
        service::birthday_in(before + (month + seq!['-'] + day) + after) == if is_a_day(
            plain::value_of(month),
            plain::value_of(day),
        ) {
            Some(Ymd { year: 2000, month: plain::value_of(month), day: plain::value_of(day) })
        } else {
            None
        },
{
    lemma_digits(month);
    lemma_digits(day);
    service::month_and_day_are_read(before, month, day, after);
}

/// What is read as a birthday was written as a month, a hyphen and a day, each of one or two
/// digits, with nothing but white space around and before the day.
pub proof fn read_birthdays_were_written(input: &str, date: Date) -> (parts: (
    Seq<char>,
    Seq<char>,
    Seq<char>,
    Seq<char>,
    Seq<char>,
))
    requires
        call_ensures(service::parse_birthday, (input,), Some(date)),
    ensures
        ({
            let (before, month, gap, day, after) = parts;
            &&& input@ == before + month + seq!['-'] + gap + day + after
            &&& text::all_white_space(before)
            &&& text::all_white_space(gap)
            &&& text::all_white_space(after)
            &&& are_numbers(month, day)
            &&& is_a_day(plain::value_of(month), plain::value_of(day))
            &&& date@.year == 2000
            &&& date@.month == plain::value_of(month)
            &&& date@.day == plain::value_of(day)
        }),
{
    lemma_was_written(input@, date@)
}

proof fn lemma_was_written(input: Seq<char>, date: Ymd) -> (parts: (
    Seq<char>,
    Seq<char>,
    Seq<char>,
    Seq<char>,
    Seq<char>,
))
    requires
        service::birthday_in(input) == Some(date),
    ensures
        ({
            let (before, month, gap, day, after) = parts;
            &&& input == before + month + seq!['-'] + gap + day + after
            &&& text::all_white_space(before)
            &&& text::all_white_space(gap)
            &&& text::all_white_space(after)
            &&& are_numbers(month, day)
            &&& is_a_day(plain::value_of(month), plain::value_of(day))
            &&& date.year == 2000
            &&& date.month == plain::value_of(month)
            &&& date.day == plain::value_of(day)
        }),
{
    let started = text::trim_start(input);
    let first = lemma_trim_start_splits(input);
    let after = lemma_trim_end_splits(started);
    let s = text::trimmed(input);
    let second = lemma_trim_start_splits(s);
    let rest = text::trim_start(s);
    let m = calendar::leading_digits(rest);
    let month = rest.take(m);
    let tail = rest.skip(m + 1);
    let gap = lemma_trim_start_splits(tail);
    let day = text::trim_start(tail);
    let before = first + second;
    assert forall|i: int| 0 <= i < before.len() implies text::is_white_space(
        #[trigger] before[i],
    ) by {
        if i < first.len() {
            assert(before[i] == first[i]);
        } else {
            assert(before[i] == second[i - first.len()]);
        }
    }
    assert(text::all_digits(month)) by {
        assert forall|i: int| 0 <= i < month.len() implies text::is_digit(#[trigger] month[i]) by {
            assert(month[i] == rest[i]);
        }
    }
    assert(text::all_digits(day));
    lemma_number(month);
    lemma_number(day);
    assert(rest =~= month + seq!['-'] + tail);
    assert(input =~= before + month + seq!['-'] + gap + day + after);
    (before, month, gap, day, after)
}

/// The command is carried out in two steps: the sender's username is remembered, and nothing else,
/// which leads to `between`; and then the command is answered for what it is, with what stands
/// behind it.
pub open spec fn is_carried_out<R: UserRepository + UsernameDirectory, C: ChatPort>(
    before: BirthdayService<R, C>,
    between: BirthdayService<R, C>,
    after: BirthdayService<R, C>,
    message: Message,
    command: Command,
    reply: Reply,
) -> bool {
    &&& between.chat() == before.chat()
    &&& between.repo().users() == before.repo().users()
    &&& match message.from {
        Some(Sender { telegram_id, username: Some(username) }) => exists|
            answer: Result<(), RepositoryError>,
        | #[trigger]
            R::record_answers(
                before.repo(),
                between.repo(),
                text::lowercase(username@),
                telegram_id,
                answer,
            ) && (answer is Ok ==> between.repo().usernames() == before.repo().usernames().insert(
                text::lowercase(username@),
                telegram_id,
            )),
        _ => between == before,
    }
    &&& match command {
        Command::AddBirthday(args) => bot::add_command(between, after, message, args@, reply),
        Command::RemoveBirthday(args) => bot::remove_command(between, after, message, args@, reply),
        Command::Soon(args) => after == between && bot::soon_now(between, args@, reply),
        Command::Help => after == between && reply is Help,
    }
}

/// A command goes to its handler once the sender's username was remembered.
pub proof fn commands_go_to_their_handlers<R: UserRepository + UsernameDirectory, C: ChatPort>(
    service: &mut BirthdayService<R, C>,
    message: Message,
    command: Command,
    reply: Reply,
)
    requires
        call_ensures(bot::handle_command::<R, C>, (service, &message, &command), reply),
    ensures
        exists|between: BirthdayService<R, C>| #[trigger]
            is_carried_out(*old(service), between, *final(service), message, command, reply),
{
    let (between, answer) = choose|
        between: BirthdayService<R, C>,
        answer: Result<(), RepositoryError>,
    | #[trigger]
        bot::observes(*old(service), between, message, answer) && bot::answers_command(
            between,
            *final(service),
            message,
            command,
            reply,
        );
    assert(is_carried_out(*old(service), between, *final(service), message, command, reply));
}

/// A lookup command is answered as `soon_now` says.
pub proof fn lookups_do_as_they_say<R: UserRepository + UsernameDirectory, C: ChatPort>(
    service: BirthdayService<R, C>,
    args: &str,
    reply: Reply,
)
    requires
        call_ensures(bot::handle_soon::<R, C>, (&service, args), reply),
    ensures
        bot::soon_now(service, args@, reply),
{
}

/// Each handler does what its relation says.
pub proof fn handlers_do_as_they_say<R: UserRepository + UsernameDirectory, C: ChatPort>(
    adding: &mut BirthdayService<R, C>,
    removing: &mut BirthdayService<R, C>,
    message: Message,
    args: &str,
    add_reply: Reply,
    remove_reply: Reply,
)
    requires
        call_ensures(bot::handle_add_birthday::<R, C>, (adding, &message, args), add_reply),
        call_ensures(bot::handle_remove_birthday::<R, C>, (removing, &message, args), remove_reply),
    ensures
        bot::add_command(*old(adding), *final(adding), message, args@, add_reply),
        bot::remove_command(*old(removing), *final(removing), message, args@, remove_reply),
{
}

/// Observing a message remembers whose username it is, in lower case, and nothing else; without a
/// username nothing changes.
pub proof fn senders_are_remembered<C: ChatPort>(
    service: &mut BirthdayService<InMemoryUserRepository, C>,
    message: Message,
    answer: Result<(), RepositoryError>,
)
    requires
        call_ensures(
            bot::record_sender::<InMemoryUserRepository, C>,
            (service, &message),
            answer,
        ),
    ensures
        answer is Ok,
        final(service).chat() == old(service).chat(),
        final(service).repo().users() == old(service).repo().users(),
        final(service).repo().usernames() == (match message.from {
            Some(Sender { telegram_id, username: Some(username) }) => old(
                service,
            ).repo().usernames().insert(text::lowercase(username@), telegram_id),
            _ => old(service).repo().usernames(),
        }),
{
}

/// What a lookup of a member says: who is present is given with their username and name, and only
/// the privileged are admins; someone who was never there is neither; a failure stays one.
pub proof fn lookups_are_taken_as_they_are(
    telegram_id: u64,
    lookup: MemberLookup,
    present: Result<Option<ChatMemberInfo>, ChatError>,
    admin: Result<bool, ChatError>,
)
    requires
        call_ensures(bot::present_member, (telegram_id, lookup), present),
        call_ensures(bot::is_admin, (lookup,), admin),
    ensures
        match lookup {
            MemberLookup::Found { present: there, privileged, username, full_name } => {
                &&& there ==> (present matches Ok(Some(member)) && member.telegram_id == telegram_id
                    && member.username == username && member.full_name == full_name)
                &&& !there ==> present is Ok && present->Ok_0 is None
                &&& admin is Ok && admin->Ok_0 == privileged
            },
            MemberLookup::UserNotFound => {
                &&& present is Ok && present->Ok_0 is None
                &&& admin is Ok && !admin->Ok_0
            },
            MemberLookup::Failed(reason) => {
                &&& present matches Err(error) && error.0 == reason
                &&& admin matches Err(error) && error.0 == reason
            },
        },
{
}

/// Whom a command is about: nobody in particular where nothing stands behind it; else the first
/// user who is mentioned; else whoever has the username that is written.
pub proof fn targets_are_read(entities: Vec<Entity>, written: &str, target: Option<Target>)
    requires
        call_ensures(bot::parse_target, (&entities, written), target),
    ensures
        target is None <==> written@.len() == 0,
        written@.len() > 0 && (forall|k: int|
            0 <= k < entities.len() ==> !((#[trigger] entities[k]) is TextMention)) ==> (
        target matches Some(Target::Username(raw)) && raw@ == written@),
        forall|i: int|
            written@.len() > 0 && 0 <= i < entities.len() && (#[trigger] entities[i]) is TextMention
                && (forall|k: int|
                0 <= k < i ==> !((#[trigger] entities[k]) is TextMention)) ==> (target matches Some(
                Target::User { telegram_id, name },
            ) && telegram_id == entities[i]->telegram_id && name@ == entities[i]->full_name@),
{
    assert forall|i: int|
        written@.len() > 0 && 0 <= i < entities.len() && (#[trigger] entities[i]) is TextMention && (
        forall|k: int| 0 <= k < i ==> !((#[trigger] entities[k]) is TextMention)) implies (
    target matches Some(Target::User { telegram_id, name }) && telegram_id
        == entities[i]->telegram_id && name@ == entities[i]->full_name@) by {
        assert(bot::first_mention_at(entities@, i));
        match target {
            Some(Target::User { telegram_id, name }) => {
                let k = choose|k: int| #[trigger]
                    bot::first_mention_at(entities@, k) && entities@[k]->telegram_id == telegram_id
                        && entities@[k]->full_name@ == name@;
                if k < i {
                    assert(!(entities[k] is TextMention));
                } else if i < k {
                    assert(!(entities@[i] is TextMention));
                }
            },
            _ => {
                assert(!(entities@[i] is TextMention));
            },
        }
    }
}

/// What is written behind a command means the user `id`, who is called `name`: the first user who
/// is mentioned in the message, or else whoever has the username, in lower case and without `@`
/// signs before it.
pub open spec fn means(
    usernames: Map<Seq<char>, u64>,
    entities: Seq<Entity>,
    written: Seq<char>,
    id: u64,
    name: Seq<char>,
) -> bool {
    ||| exists|i: int|
        {
            &&& 0 <= i < entities.len()
            &&& #[trigger] entities[i] is TextMention
            &&& entities[i]->telegram_id == id
            &&& entities[i]->full_name@ == name
            &&& forall|k: int| 0 <= k < i ==> !((#[trigger] entities[k]) is TextMention)
        }
    ||| {
        &&& forall|k: int| 0 <= k < entities.len() ==> !((#[trigger] entities[k]) is TextMention)
        &&& usernames.contains_key(text::lowercase(text::without_at(written)))
        &&& usernames[text::lowercase(text::without_at(written))] == id
        &&& name == seq!['@'] + text::lowercase(text::without_at(written))
    }
}

/// The target that is read is the one who is meant.
proof fn lemma_target(
    usernames: Map<Seq<char>, u64>,
    entities: Seq<Entity>,
    written: Seq<char>,
    id: u64,
    name: Seq<char>,
    target: Option<Target>,
)
    requires
        means(usernames, entities, written, id, name),
        written.len() > 0,
        bot::is_target(entities, written, target),
    ensures
        target matches Some(whom) && people::is_meant(usernames, whom, id, name),
{
    match target->0 {
        Target::User { telegram_id, name: called } => {
            let k = choose|k: int| #[trigger]
                bot::first_mention_at(entities, k) && entities[k]->telegram_id == telegram_id
                    && entities[k]->full_name@ == called@;
            let i = choose|i: int|
                {
                    &&& 0 <= i < entities.len()
                    &&& #[trigger] entities[i] is TextMention
                    &&& entities[i]->telegram_id == id
                    &&& entities[i]->full_name@ == name
                    &&& forall|k: int| 0 <= k < i ==> !((#[trigger] entities[k]) is TextMention)
                };
            assert(entities[k] is TextMention);
            assert(i == k);
        },
        Target::Username(raw) => {},
    }
}

/// Where the white space is of what stands behind an add command.
proof fn lemma_add_args_alone(
    before: Seq<char>,
    month: Seq<char>,
    day: Seq<char>,
    after: Seq<char>,
)
    requires
        text::all_white_space(before),
        text::all_white_space(after),
        are_numbers(month, day),
    ensures
        bot::add_args(before + (month + seq!['-'] + day) + after) == (
            month + seq!['-'] + day,
            Seq::<char>::empty(),
        ),
        service::birthday_in(month + seq!['-'] + day) == if is_a_day(
            plain::value_of(month),
            plain::value_of(day),
        ) {
            Some(Ymd { year: 2000, month: plain::value_of(month), day: plain::value_of(day) })
        } else {
            None
        },
{
    let date = month + seq!['-'] + day;
    lemma_no_white_space(month, day);
    text::trimming_takes_the_white_space_around(before, date, after);
    lemma_no_split(date);
    lemma_read(Seq::empty(), month, day, Seq::empty());
    assert(Seq::<char>::empty() + date + Seq::<char>::empty() =~= date);
}

proof fn lemma_no_white_space(month: Seq<char>, day: Seq<char>)
    requires
        are_numbers(month, day),
    ensures
        forall|i: int|
            0 <= i < (month + seq!['-'] + day).len() ==> !text::is_white_space(
                #[trigger] (month + seq!['-'] + day)[i],
            ),
{
    let date = month + seq!['-'] + day;
    assert forall|i: int| 0 <= i < date.len() implies !text::is_white_space(#[trigger] date[i]) by {
        if i < month.len() {
            assert(date[i] == month[i]);
        } else if i > month.len() {
            assert(date[i] == day[i - month.len() - 1]);
        }
    }
}

proof fn lemma_no_split(s: Seq<char>)
    requires
        forall|i: int| 0 <= i < s.len() ==> !text::is_white_space(#[trigger] s[i]),
    ensures
        text::split_at_white_space(s) is None,
    decreases s.len(),
{
    if s.len() > 0 {
        assert forall|i: int| 0 <= i < s.skip(1).len() implies !text::is_white_space(
            #[trigger] s.skip(1)[i],
        ) by {
            assert(s.skip(1)[i] == s[i + 1]);
        }
        lemma_no_split(s.skip(1));
    }
}

proof fn lemma_split(s: Seq<char>, c: char, rest: Seq<char>)
    requires
        forall|i: int| 0 <= i < s.len() ==> !text::is_white_space(#[trigger] s[i]),
        text::is_white_space(c),
    ensures
        text::split_at_white_space(s + seq![c] + rest) == Some((s, rest)),
    decreases s.len(),
{
    let whole = s + seq![c] + rest;
    if s.len() == 0 {
        assert(whole.skip(1) =~= rest);
        assert(s =~= Seq::<char>::empty());
    } else {
        assert(whole[0] == s[0]);
        assert(whole.skip(1) =~= s.skip(1) + seq![c] + rest);
        assert forall|i: int| 0 <= i < s.skip(1).len() implies !text::is_white_space(
            #[trigger] s.skip(1)[i],
        ) by {
            assert(s.skip(1)[i] == s[i + 1]);
        }
        lemma_split(s.skip(1), c, rest);
        assert(seq![s[0]] + s.skip(1) =~= s);
    }
}

/// The same with someone's name behind the date.
proof fn lemma_add_args_with_target(
    before: Seq<char>,
    month: Seq<char>,
    day: Seq<char>,
    gap: Seq<char>,
    written: Seq<char>,
    after: Seq<char>,
)
    requires
        text::all_white_space(before),
        text::all_white_space(gap),
        text::all_white_space(after),
        are_numbers(month, day),
        gap.len() > 0,
        written.len() > 0,
        plain::is_trim(written),
    ensures
        bot::add_args(before + (month + seq!['-'] + day + gap + written) + after) == (
            month + seq!['-'] + day,
            written,
        ),
        service::birthday_in(month + seq!['-'] + day) == if is_a_day(
            plain::value_of(month),
            plain::value_of(day),
        ) {
            Some(Ymd { year: 2000, month: plain::value_of(month), day: plain::value_of(day) })
        } else {
            None
        },
{
    let date = month + seq!['-'] + day;
    let inner = date + gap + written;
    lemma_no_white_space(month, day);
    assert(inner[0] == date[0]);
    assert(inner.last() == written.last());
    text::trimming_takes_the_white_space_around(before, inner, after);
    let c = gap[0];
    let rest = gap.skip(1) + written;
    assert(inner =~= date + seq![c] + rest);
    lemma_split(date, c, rest);
    assert(text::all_white_space(gap.skip(1))) by {
        assert forall|i: int| 0 <= i < gap.skip(1).len() implies text::is_white_space(
            #[trigger] gap.skip(1)[i],
        ) by {
            assert(gap.skip(1)[i] == gap[i + 1]);
        }
    }
    assert(rest =~= gap.skip(1) + written + Seq::<char>::empty());
    text::trimming_takes_the_white_space_around(gap.skip(1), written, Seq::empty());
    lemma_read(Seq::empty(), month, day, Seq::empty());
    assert(Seq::<char>::empty() + date + Seq::<char>::empty() =~= date);
}

/// The store has this day as the birthday of the user `id`, and nobody else was touched.
pub open spec fn has_day(
    before: InMemoryUserRepository,
    after: InMemoryUserRepository,
    id: u64,
    month: int,
    day: int,
) -> bool {
    exists|birthdate: Date| #[trigger]
        people::has_saved(before, after, id, birthdate) && birthdate@.month == month
            && birthdate@.day == day && birthdate@.year == 2000
}

/// An add command with nothing but a day behind it saves just that month and day for the sender,
/// and names them; where there is no such day it says how to write one and saves nothing; and from
/// nobody it is not answered.
pub proof fn own_birthdays_are_saved_as_written<C: ChatPort>(
    old_service: BirthdayService<InMemoryUserRepository, C>,
    new_service: BirthdayService<InMemoryUserRepository, C>,
    message: Message,
    before: Seq<char>,
    month: Seq<char>,
    day: Seq<char>,
    after: Seq<char>,
    reply: Reply,
)
    requires
        bot::add_command(
            old_service,
            new_service,
            message,
            before + (month + seq!['-'] + day) + after,
            reply,
        ),
        text::all_white_space(before),
        text::all_white_space(after),
        are_numbers(month, day),
    ensures
        ({
            let m = plain::value_of(month);
            let d = plain::value_of(day);
            &&& !is_a_day(m, d) ==> new_service == old_service && (reply matches Reply::Text(words)
                && words@ == "Please use the format: /add_birthday MM-DD [@username]"@)
            &&& is_a_day(m, d) && message.from is None ==> new_service == old_service
                && reply is Nothing
            &&& is_a_day(m, d) && message.from is Some ==> has_day(
                old_service.repo(),
                new_service.repo(),
                message.from->0.telegram_id,
                m,
                d,
            ) && (reply matches Reply::Text(words) && words@ == "Saved your birthday: "@
                + plain::day_in_words(m, d) + " 🎂"@)
        }),
{
    lemma_add_args_alone(before, month, day, after);
    let args = before + (month + seq!['-'] + day) + after;
    if is_a_day(plain::value_of(month), plain::value_of(day)) && message.from is Some {
        let (date_str, target_str) = bot::add_args(args);
        let read = service::birthday_in(date_str)->0;
        let actor_id = message.from->0.telegram_id;
        let (target, birthdate, result) = choose|
            target: Option<Target>,
            birthdate: Date,
            result: Result<Added, AddBirthdayError>,
        |
            {
                &&& bot::is_target(message.entities@, target_str, target)
                &&& birthdate@ == read
                &&& new_service.chat() == old_service.chat()
                &&& #[trigger] BirthdayService::adds(
                    old_service,
                    new_service,
                    actor_id,
                    target,
                    birthdate,
                    result,
                )
                &&& bot::says(reply, bot::add_words(result, read))
            };
        people::everybody_saves_their_own(old_service, new_service, actor_id, birthdate, result);
        assert(people::has_saved(old_service.repo(), new_service.repo(), actor_id, birthdate));
        days::lemma_day_in_words(read);
    }
}

/// An add command with a day and then someone behind it saves just that month and day for that
/// person, if they are in the chat and the sender is that person or an admin, and names both; else
/// nothing is saved, and the answer says why.
pub proof fn birthdays_of_others_are_saved_as_written<C: ChatPort>(
    old_service: BirthdayService<InMemoryUserRepository, C>,
    new_service: BirthdayService<InMemoryUserRepository, C>,
    message: Message,
    before: Seq<char>,
    month: Seq<char>,
    day: Seq<char>,
    gap: Seq<char>,
    written: Seq<char>,
    after: Seq<char>,
    id: u64,
    name: Seq<char>,
    reply: Reply,
)
    requires
        bot::add_command(
            old_service,
            new_service,
            message,
            before + (month + seq!['-'] + day + gap + written) + after,
            reply,
        ),
        text::all_white_space(before),
        text::all_white_space(gap),
        text::all_white_space(after),
        are_numbers(month, day),
        is_a_day(plain::value_of(month), plain::value_of(day)),
        gap.len() > 0,
        written.len() > 0,
        plain::is_trim(written),
        message.from is Some,
        means(old_service.repo().usernames(), message.entities@, written, id, name),
    ensures
        ({
            let m = plain::value_of(month);
            let d = plain::value_of(day);
            let actor_id = message.from->0.telegram_id;
            let chat = old_service.chat();
            let allowed = id == actor_id || plain::is_an_admin(chat, actor_id);
            &&& allowed && plain::is_found(chat, id) ==> has_day(
                old_service.repo(),
                new_service.repo(),
                id,
                m,
                d,
            ) && (reply matches Reply::Text(words) && words@ == (if id == actor_id {
                "Saved your birthday: "@ + plain::day_in_words(m, d) + " 🎂"@
            } else {
                "Saved "@ + name + "'s birthday: "@ + plain::day_in_words(m, d) + " 🎂"@
            }))
            &&& allowed && plain::is_gone(chat, id) ==> new_service.repo() == old_service.repo() && (
            reply matches Reply::Text(words) && words@ == name
                + " doesn't seem to be in the chat."@)
            &&& allowed && plain::lookup_fails(chat, id) ==> new_service.repo()
                == old_service.repo() && (reply matches Reply::Text(words) && words@
                == "Something went wrong saving the birthday."@)
            &&& id != actor_id && plain::is_no_admin(chat, actor_id) ==> new_service.repo()
                == old_service.repo() && (reply matches Reply::Text(words) && words@
                == "Only chat admins can add birthdays for other people. You can add your own with /add_birthday MM-DD"@)
            &&& new_service.repo() == old_service.repo() || has_day(
                old_service.repo(),
                new_service.repo(),
                id,
                m,
                d,
            )
        }),
{
    lemma_add_args_with_target(before, month, day, gap, written, after);
    let args = before + (month + seq!['-'] + day + gap + written) + after;
    let read = service::birthday_in(bot::add_args(args).0)->0;
    let actor_id = message.from->0.telegram_id;
    let (target, birthdate, result) = choose|
        target: Option<Target>,
        birthdate: Date,
        result: Result<Added, AddBirthdayError>,
    |
        {
            &&& bot::is_target(message.entities@, written, target)
            &&& birthdate@ == read
            &&& new_service.chat() == old_service.chat()
            &&& #[trigger] BirthdayService::adds(
                old_service,
                new_service,
                actor_id,
                target,
                birthdate,
                result,
            )
            &&& bot::says(reply, bot::add_words(result, read))
        };
    lemma_target(
        old_service.repo().usernames(),
        message.entities@,
        written,
        id,
        name,
        target,
    );
    people::targets_are_saved_with_permission(
        old_service,
        new_service,
        actor_id,
        target->0,
        id,
        name,
        birthdate,
        result,
    );
    days::lemma_day_in_words(read);
    if result is Ok {
        assert(people::has_saved(old_service.repo(), new_service.repo(), id, birthdate));
    }
}

/// An add command with a day and then a username that is not known saves nothing, and the answer
/// repeats it.
pub proof fn unknown_usernames_are_not_saved<C: ChatPort>(
    old_service: BirthdayService<InMemoryUserRepository, C>,
    new_service: BirthdayService<InMemoryUserRepository, C>,
    message: Message,
    before: Seq<char>,
    month: Seq<char>,
    day: Seq<char>,
    gap: Seq<char>,
    written: Seq<char>,
    after: Seq<char>,
    reply: Reply,
)
    requires
        bot::add_command(
            old_service,
            new_service,
            message,
            before + (month + seq!['-'] + day + gap + written) + after,
            reply,
        ),
        text::all_white_space(before),
        text::all_white_space(gap),
        text::all_white_space(after),
        are_numbers(month, day),
        is_a_day(plain::value_of(month), plain::value_of(day)),
        gap.len() > 0,
        written.len() > 0,
        plain::is_trim(written),
        message.from is Some,
        forall|k: int|
            0 <= k < message.entities@.len() ==> !(
            (#[trigger] message.entities@[k]) is TextMention),
        !old_service.repo().usernames().contains_key(text::lowercase(text::without_at(written))),
    ensures
        new_service.repo() == old_service.repo(),
        reply matches Reply::Text(words) && words@ == "I don't know who "@ + written
            + " is yet — they need to send a message in the chat first."@,
{
    lemma_add_args_with_target(before, month, day, gap, written, after);
    let args = before + (month + seq!['-'] + day + gap + written) + after;
    let read = service::birthday_in(bot::add_args(args).0)->0;
    let actor_id = message.from->0.telegram_id;
    let (target, birthdate, result) = choose|
        target: Option<Target>,
        birthdate: Date,
        result: Result<Added, AddBirthdayError>,
    |
        {
            &&& bot::is_target(message.entities@, written, target)
            &&& birthdate@ == read
            &&& new_service.chat() == old_service.chat()
            &&& #[trigger] BirthdayService::adds(
                old_service,
                new_service,
                actor_id,
                target,
                birthdate,
                result,
            )
            &&& bot::says(reply, bot::add_words(result, read))
        };
    people::unknown_targets_are_refused(
        old_service,
        new_service,
        old_service,
        actor_id,
        target->0->Username_0,
        birthdate,
        result,
        arbitrary(),
    );
}

/// Whenever an add command does anything but say how to write one, a day was written: a month, a
/// hyphen and a day, of one or two digits each, and then nothing or white space. `parts` gives what
/// stands before, the month, the day and what stands behind.
pub proof fn only_written_days_are_saved<R: UserRepository + UsernameDirectory, C: ChatPort>(
    old_service: BirthdayService<R, C>,
    new_service: BirthdayService<R, C>,
    message: Message,
    args: Seq<char>,
    reply: Reply,
) -> (parts: (Seq<char>, Seq<char>, Seq<char>, Seq<char>))
    requires
        bot::add_command(old_service, new_service, message, args, reply),
        new_service != old_service || !(reply matches Reply::Text(words) && words@
            == "Please use the format: /add_birthday MM-DD [@username]"@),
    ensures
        ({
            let (before, month, day, rest) = parts;
            &&& args == before + month + seq!['-'] + day + rest
            &&& text::all_white_space(before)
            &&& are_numbers(month, day)
            &&& is_a_day(plain::value_of(month), plain::value_of(day))
            &&& rest.len() > 0 ==> text::is_white_space(rest[0])
        }),
{
    let started = text::trim_start(args);
    let first = lemma_trim_start_splits(args);
    let ending = lemma_trim_end_splits(started);
    let s = text::trimmed(args);
    let date_str = bot::add_args(args).0;
    let read = service::birthday_in(date_str)->0;
    let (w, month, gap, day, v) = lemma_was_written(date_str, read);
    let tail = lemma_split_parts(s, date_str);
    // The date has no white space in it.
    if w.len() > 0 {
        assert(date_str[0] == w[0]);
    }
    if gap.len() > 0 {
        assert(date_str[(w.len() + month.len() + 1) as int] == gap[0]);
    }
    if v.len() > 0 {
        assert(date_str[(w.len() + month.len() + 1 + gap.len() + day.len()) as int] == v[0]);
    }
    let rest = tail + ending;
    assert(date_str =~= month + seq!['-'] + day);
    assert(args =~= first + month + seq!['-'] + day + rest);
    assert(rest.len() > 0 ==> rest[0] == if tail.len() > 0 {
        tail[0]
    } else {
        ending[0]
    });
    (first, month, day, rest)
}

/// What stands before the first white space has none, and what is behind it begins with some.
proof fn lemma_split_parts(s: Seq<char>, first: Seq<char>) -> (tail: Seq<char>)
    requires
        first == (match text::split_at_white_space(s) {
            Some((before, after)) => before,
            None => s,
        }),
    ensures
        s == first + tail,
        tail.len() > 0 ==> text::is_white_space(tail[0]),
        forall|i: int| 0 <= i < first.len() ==> !text::is_white_space(#[trigger] first[i]),
    decreases s.len(),
{
    if s.len() == 0 {
        assert(s =~= s + Seq::<char>::empty());
        Seq::empty()
    } else if text::is_white_space(s[0]) {
        assert(s =~= first + s);
        s
    } else {
        let inner = match text::split_at_white_space(s.skip(1)) {
            Some((before, after)) => before,
            None => s.skip(1),
        };
        let tail = lemma_split_parts(s.skip(1), inner);
        assert(first =~= seq![s[0]] + inner);
        assert(s =~= seq![s[0]] + s.skip(1));
        assert(s =~= first + tail);
        tail
    }
}

/// A remove command with nothing behind it removes the sender's birthday, and the answer says
/// whether there was one; from nobody it is not answered.
pub proof fn own_birthdays_are_removed<C: ChatPort>(
    old_service: BirthdayService<InMemoryUserRepository, C>,
    new_service: BirthdayService<InMemoryUserRepository, C>,
    message: Message,
    args: Seq<char>,
    reply: Reply,
)
    requires
        bot::remove_command(old_service, new_service, message, args, reply),
        text::all_white_space(args),
    ensures
        message.from is None ==> new_service == old_service && reply is Nothing,
        message.from matches Some(sender) ==> {
            &&& new_service.repo().users() == old_service.repo().users().remove(sender.telegram_id)
            &&& new_service.repo().usernames() == old_service.repo().usernames()
            &&& reply matches Reply::Text(words) && words@ == (
            if old_service.repo().users().contains_key(sender.telegram_id) {
                "Removed your birthday."@
            } else {
                "You don't have a birthday saved."@
            })
        },
{
    assert(args =~= args + Seq::<char>::empty() + Seq::<char>::empty());
    text::trimming_takes_the_white_space_around(args, Seq::empty(), Seq::empty());
    if message.from is Some {
        let actor_id = message.from->0.telegram_id;
        let (target, result) = choose|
            target: Option<Target>,
            result: Result<Removed, AddBirthdayError>,
        |
            {
                &&& bot::is_target(message.entities@, text::trimmed(args), target)
                &&& new_service.chat() == old_service.chat()
                &&& #[trigger] BirthdayService::removes(
                    old_service,
                    new_service,
                    actor_id,
                    target,
                    result,
                )
                &&& bot::says(reply, bot::remove_words(result))
            };
        people::everybody_removes_their_own(old_service, new_service, actor_id, result);
    }
}

/// A remove command with someone behind it leaves nothing stored for that person if the sender is
/// that person or an admin, wherever that person is, and the answer says whether there was a
/// birthday; else nothing is removed, and the answer says so.
pub proof fn birthdays_of_others_are_removed<C: ChatPort>(
    old_service: BirthdayService<InMemoryUserRepository, C>,
    new_service: BirthdayService<InMemoryUserRepository, C>,
    message: Message,
    before: Seq<char>,
    written: Seq<char>,
    after: Seq<char>,
    id: u64,
    name: Seq<char>,
    reply: Reply,
)
    requires
        bot::remove_command(old_service, new_service, message, before + written + after, reply),
        text::all_white_space(before),
        text::all_white_space(after),
        written.len() > 0,
        plain::is_trim(written),
        message.from is Some,
        means(old_service.repo().usernames(), message.entities@, written, id, name),
    ensures
        ({
            let actor_id = message.from->0.telegram_id;
            let chat = old_service.chat();
            let existed = old_service.repo().users().contains_key(id);
            &&& id == actor_id || plain::is_an_admin(chat, actor_id) ==> {
                &&& !new_service.repo().users().contains_key(id)
                &&& new_service.repo().users() == old_service.repo().users().remove(id)
                &&& new_service.repo().usernames() == old_service.repo().usernames()
                &&& reply matches Reply::Text(words) && words@ == (if id == actor_id {
                    if existed {
                        "Removed your birthday."@
                    } else {
                        "You don't have a birthday saved."@
                    }
                } else {
                    if existed {
                        "Removed "@ + name + "'s birthday."@
                    } else {
                        name + " doesn't have a birthday saved."@
                    }
                })
            }
            &&& id != actor_id && plain::is_no_admin(chat, actor_id) ==> new_service.repo()
                == old_service.repo() && (reply matches Reply::Text(words) && words@
                == "Only chat admins can remove birthdays for other people. You can remove your own with /remove_birthday"@)
            &&& new_service.repo() == old_service.repo() || new_service.repo().users()
                == old_service.repo().users().remove(id)
        }),
{
    text::trimming_takes_the_white_space_around(before, written, after);
    let actor_id = message.from->0.telegram_id;
    let (target, result) = choose|
        target: Option<Target>,
        result: Result<Removed, AddBirthdayError>,
    |
        {
            &&& bot::is_target(message.entities@, written, target)
            &&& new_service.chat() == old_service.chat()
            &&& #[trigger] BirthdayService::removes(
                old_service,
                new_service,
                actor_id,
                target,
                result,
            )
            &&& bot::says(reply, bot::remove_words(result))
        };
    lemma_target(
        old_service.repo().usernames(),
        message.entities@,
        written,
        id,
        name,
        target,
    );
    people::targets_are_removed_with_permission(
        old_service,
        new_service,
        actor_id,
        target->0,
        id,
        name,
        result,
    );
}

/// A remove command with a username that is not known removes nothing, and the answer repeats it.
pub proof fn unknown_usernames_are_not_removed<C: ChatPort>(
    old_service: BirthdayService<InMemoryUserRepository, C>,
    new_service: BirthdayService<InMemoryUserRepository, C>,
    message: Message,
    before: Seq<char>,
    written: Seq<char>,
    after: Seq<char>,
    reply: Reply,
)
    requires
        bot::remove_command(old_service, new_service, message, before + written + after, reply),
        text::all_white_space(before),
        text::all_white_space(after),
        written.len() > 0,
        plain::is_trim(written),
        message.from is Some,
        forall|k: int|
            0 <= k < message.entities@.len() ==> !(
            (#[trigger] message.entities@[k]) is TextMention),
        !old_service.repo().usernames().contains_key(text::lowercase(text::without_at(written))),
    ensures
        new_service.repo() == old_service.repo(),
        reply matches Reply::Text(words) && words@ == "I don't know who "@ + written
            + " is yet — they need to send a message in the chat first."@,
{
    text::trimming_takes_the_white_space_around(before, written, after);
    let actor_id = message.from->0.telegram_id;
    let (target, result) = choose|
        target: Option<Target>,
        result: Result<Removed, AddBirthdayError>,
    |
        {
            &&& bot::is_target(message.entities@, written, target)
            &&& new_service.chat() == old_service.chat()
            &&& #[trigger] BirthdayService::removes(
                old_service,
                new_service,
                actor_id,
                target,
                result,
            )
            &&& bot::says(reply, bot::remove_words(result))
        };
    people::unknown_targets_are_refused(
        old_service,
        old_service,
        new_service,
        actor_id,
        target->0->Username_0,
        arbitrary(),
        arbitrary(),
        result,
    );
}

} // verus!
