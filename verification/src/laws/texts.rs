//! Texts: what is read from them and how they are put together.

use vstd::prelude::*;

use crate::bot;
use crate::bot::{Command, Reply};
use crate::calendar::{Date, Ymd};
use crate::elements::RepositoryError;
use crate::greeting;
use crate::laws::days;
use crate::laws::plain;
use crate::service::{AddBirthdayError, Added, ChatError, Removed, UpcomingBirthday};
use crate::text;

verus! {

/// Joined texts stand one after the other, in their order, with the separator between each two and
/// nothing else. `at` gives the places.
pub proof fn joined_texts_stand_in_order(
    parts: Vec<String>,
    separator: &str,
    whole: String,
) -> (at: Seq<int>)
    requires
        call_ensures(text::join, (&parts, separator), whole),
    ensures
        plain::laid_out(
            whole@,
            parts@.map_values(|part: String| part@),
            separator@,
            at,
            whole@.len() as int,
        ),
        parts.len() > 0 ==> at[0] == 0,
        parts.len() == 0 ==> whole@.len() == 0,
{
    let texts = parts@.map_values(|part: String| part@);
    assert(texts =~= text::views(parts@));
    lemma_joined(texts, separator@)
}

pub(crate) proof fn lemma_joined(parts: Seq<Seq<char>>, separator: Seq<char>) -> (at: Seq<int>)
    ensures
        plain::laid_out(
            text::joined(parts, separator),
            parts,
            separator,
            at,
            text::joined(parts, separator).len() as int,
        ),
        parts.len() > 0 ==> at[0] == 0,
    decreases parts.len(),
{
    let whole = text::joined(parts, separator);
    if parts.len() == 0 {
        Seq::empty()
    } else if parts.len() == 1 {
        assert(whole.subrange(0, whole.len() as int) =~= parts[0]);
        seq![0int]
    } else {
        let rest = parts.drop_last();
        let before = lemma_joined(rest, separator);
        let start = text::joined(rest, separator);
        let at = before.push((start.len() + separator.len()) as int);
        let last = parts.len() - 1;
        assert forall|i: int| 0 <= i < parts.len() implies plain::stands_at(
            whole,
            at[i],
            #[trigger] parts[i],
        ) by {
            if i < last {
                assert(parts[i] == rest[i]);
                assert(plain::stands_at(start, before[i], rest[i]));
                assert(whole.subrange(at[i], at[i] + parts[i].len()) =~= start.subrange(
                    at[i],
                    at[i] + parts[i].len(),
                ));
            } else {
                assert(whole.subrange(at[i], at[i] + parts[i].len()) =~= parts[i]);
            }
        }
        assert forall|i: int| 0 <= i < parts.len() - 1 implies plain::stands_at(
            whole,
            at[i] + (#[trigger] parts[i]).len(),
            separator,
        ) && at[i + 1] == at[i] + parts[i].len() + separator.len() by {
            assert(parts[i] == rest[i]);
            assert(plain::stands_at(start, before[i], rest[i]));
            let j = at[i] + parts[i].len();
            if i < last - 1 {
                assert(plain::stands_at(start, before[i] + rest[i].len(), separator));
                assert(whole.subrange(j, j + separator.len()) =~= start.subrange(
                    j,
                    j + separator.len(),
                ));
            } else {
                assert(rest.last() == parts[i]);
                assert(j == start.len());
                assert(whole.subrange(j, j + separator.len()) =~= separator);
            }
        }
        at
    }
}

/// What stands in a text still does where something is put around it.
pub(crate) proof fn lemma_around(
    before: Seq<char>,
    middle: Seq<char>,
    after: Seq<char>,
    parts: Seq<Seq<char>>,
    separator: Seq<char>,
    at: Seq<int>,
) -> (shifted: Seq<int>)
    requires
        plain::laid_out(middle, parts, separator, at, middle.len() as int),
        parts.len() > 0 ==> at[0] == 0,
    ensures
        plain::laid_out(
            before + middle + after,
            parts,
            separator,
            shifted,
            (before.len() + middle.len()) as int,
        ),
        parts.len() > 0 ==> shifted[0] == before.len(),
{
    let whole = before + middle + after;
    let shifted = at.map_values(|i: int| i + before.len());
    assert forall|i: int| 0 <= i < parts.len() implies plain::stands_at(
        whole,
        shifted[i],
        #[trigger] parts[i],
    ) by {
        assert(plain::stands_at(middle, at[i], parts[i]));
        assert(whole.subrange(shifted[i], shifted[i] + parts[i].len()) =~= middle.subrange(
            at[i],
            at[i] + parts[i].len(),
        ));
    }
    assert forall|i: int| 0 <= i < parts.len() - 1 implies plain::stands_at(
        whole,
        shifted[i] + (#[trigger] parts[i]).len(),
        separator,
    ) && shifted[i + 1] == shifted[i] + parts[i].len() + separator.len() by {
        let j = at[i] + parts[i].len();
        assert(plain::stands_at(middle, j, separator));
        assert(whole.subrange(j + before.len(), j + before.len() + separator.len())
            =~= middle.subrange(j, j + separator.len()));
    }
    shifted
}

pub(crate) proof fn lemma_value(s: Seq<char>)
    ensures
        plain::value_of(s) == text::digits_value(s),
    decreases s.len(),
{
    if s.len() > 0 {
        lemma_value(s.drop_last());
    }
}

pub(crate) proof fn lemma_u32_in(s: Seq<char>)
    ensures
        text::u32_in(s) == (if plain::is_number(plain::unsigned(s)) && plain::value_of(
            plain::unsigned(s),
        ) <= u32::MAX {
            Some(plain::value_of(plain::unsigned(s)) as u32)
        } else {
            None
        }),
{
    let digits = plain::unsigned(s);
    lemma_value(digits);
    assert(plain::is_number(digits) <==> digits.len() > 0 && text::all_digits(digits)) by {
        if text::all_digits(digits) {
            assert forall|i: int| 0 <= i < digits.len() implies 48 <= #[trigger] digits[i] as u32
                <= 57 by {
                assert(text::is_digit(digits[i]));
            }
        }
    }
}

/// The number behind a lookup command, whatever white space is around it and with or without a plus
/// sign, is the number of days asked for, up to 366; without anything it is 15; anything else is
/// not understood.
pub proof fn days_are_read(
    before: Seq<char>,
    written: Seq<char>,
    after: Seq<char>,
    args: &str,
    days: Option<u32>,
)
    requires
        call_ensures(bot::soon_days, (args,), days),
        args@ == before + written + after,
        text::all_white_space(before),
        text::all_white_space(after),
        plain::is_trim(written),
    ensures
        days == (if written.len() == 0 {
            Some(15u32)
        } else if plain::is_number(plain::unsigned(written)) && plain::value_of(
            plain::unsigned(written),
        ) <= u32::MAX {
            Some(plain::reach(plain::value_of(plain::unsigned(written))) as u32)
        } else {
            None
        }),
{
    text::trimming_takes_the_white_space_around(before, written, after);
    lemma_u32_in(written);
    lemma_value_is_natural(plain::unsigned(written));
}

pub(crate) proof fn lemma_value_is_natural(s: Seq<char>)
    ensures
        plain::is_number(s) ==> plain::value_of(s) >= 0,
    decreases s.len(),
{
    if s.len() > 1 {
        lemma_value_is_natural(s.drop_last());
        if plain::is_number(s) {
            assert forall|i: int| 0 <= i < s.drop_last().len() implies 48
                <= #[trigger] s.drop_last()[i] as u32 <= 57 by {
                assert(s.drop_last()[i] == s[i]);
            }
        }
    } else if s.len() == 1 {
        assert(plain::value_of(s.drop_last()) == 0);
    }
}

/// The hour of the greeting is the number that the setting holds, and 9 where there is no setting
/// or it holds anything else.
pub proof fn hours_are_read(setting: Option<&str>, hour: u32)
    requires
        call_ensures(greeting::greeting_hour, (setting,), hour),
    ensures
        hour == (match setting {
            Some(written) => if plain::is_number(plain::unsigned(written@)) && plain::value_of(
                plain::unsigned(written@),
            ) <= u32::MAX {
                plain::value_of(plain::unsigned(written@))
            } else {
                9
            },
            None => 9,
        }),
{
    if setting is Some {
        lemma_u32_in(setting->0@);
        lemma_value_is_natural(plain::unsigned(setting->0@));
    }
}

/// The answer to a lookup names the number of days, and then has one line for each birthday, in
/// their order: the day and month, the full name and how far away it is. `at` gives the places.
pub proof fn lookups_are_answered_in_lines(
    today: Date,
    days: u32,
    list: Vec<UpcomingBirthday>,
    reply: String,
) -> (at: Seq<int>)
    requires
        call_ensures(bot::soon_reply, (today, days, &list), reply),
        forall|i: int| 0 <= i < list.len() ==> (#[trigger] list[i]).date@.valid(),
    ensures
        list.len() == 0 ==> reply@ == "No birthdays in the next "@ + text::natural(days as nat)
            + " days."@,
        list.len() > 0 ==> plain::stands_at(
            reply@,
            0,
            "Birthdays in the next "@ + text::natural(days as nat) + " days:\n"@,
        ) && at[0] == ("Birthdays in the next "@ + text::natural(days as nat) + " days:\n"@).len(),
        plain::laid_out(
            reply@,
            list@.map_values(
                |entry: UpcomingBirthday|
                    plain::line_for(today@, entry.date@, entry.member.full_name@),
            ),
            "\n"@,
            at,
            reply@.len() as int,
        ),
{
    lemma_soon_words(today@, days, list@)
}

pub(crate) proof fn lemma_soon_words(
    today: Ymd,
    days: u32,
    list: Seq<UpcomingBirthday>,
) -> (at: Seq<int>)
    requires
        forall|i: int| 0 <= i < list.len() ==> (#[trigger] list[i]).date@.valid(),
    ensures
        ({
            let words = bot::soon_words(today, days, list);
            let head = "Birthdays in the next "@ + text::natural(days as nat) + " days:\n"@;
            &&& list.len() == 0 ==> words == "No birthdays in the next "@ + text::natural(
                days as nat,
            ) + " days."@
            &&& list.len() > 0 ==> plain::stands_at(words, 0, head) && at[0] == head.len()
            &&& plain::laid_out(
                words,
                list.map_values(
                    |entry: UpcomingBirthday|
                        plain::line_for(today, entry.date@, entry.member.full_name@),
                ),
                "\n"@,
                at,
                words.len() as int,
            )
        }),
{
    let words = bot::soon_words(today, days, list);
    let head = "Birthdays in the next "@ + text::natural(days as nat) + " days:\n"@;
    let lines = list.map_values(
        |entry: UpcomingBirthday| plain::line_for(today, entry.date@, entry.member.full_name@),
    );
    let written = list.map_values(|entry: UpcomingBirthday| bot::soon_line(today, entry));
    assert forall|i: int| 0 <= i < list.len() implies lines[i] == written[i] by {
        days::lemma_day_in_words(list[i].date@);
    }
    assert(lines =~= written);
    if list.len() == 0 {
        Seq::empty()
    } else {
        let middle = text::joined(lines, "\n"@);
        let at = lemma_joined(lines, "\n"@);
        let shifted = lemma_around(head, middle, Seq::empty(), lines, "\n"@, at);
        assert(head + middle + Seq::<char>::empty() =~= words);
        assert(words.subrange(0, head.len() as int) =~= head);
        shifted
    }
}

/// What is answered to an attempt to save a birthday, word for word.
pub proof fn saving_is_answered(
    result: Result<Added, AddBirthdayError>,
    birthdate: Date,
    reply: String,
)
    requires
        call_ensures(bot::add_reply, (&result, birthdate), reply),
        birthdate@.valid(),
    ensures
        result matches Ok(Added::ForSelf) ==> reply@ == "Saved your birthday: "@
            + plain::day_in_words(birthdate@.month, birthdate@.day) + " 🎂"@,
        result matches Ok(Added::ForOther { name }) ==> reply@ == "Saved "@ + name@
            + "'s birthday: "@ + plain::day_in_words(birthdate@.month, birthdate@.day) + " 🎂"@,
        result matches Err(AddBirthdayError::UnknownUsername(raw)) ==> reply@
            == "I don't know who "@ + raw@
            + " is yet — they need to send a message in the chat first."@,
        result matches Err(AddBirthdayError::NotInChat(name)) ==> reply@ == name@
            + " doesn't seem to be in the chat."@,
        result matches Err(AddBirthdayError::NotAdmin) ==> reply@
            == "Only chat admins can add birthdays for other people. You can add your own with /add_birthday MM-DD"@,
        result matches Err(AddBirthdayError::Repository(_)) ==> reply@
            == "Something went wrong saving the birthday."@,
        result matches Err(AddBirthdayError::Chat(_)) ==> reply@
            == "Something went wrong saving the birthday."@,
{
    days::lemma_day_in_words(birthdate@);
}

/// What is answered to an attempt to remove a birthday, word for word.
pub proof fn removing_is_answered(result: Result<Removed, AddBirthdayError>, reply: String)
    requires
        call_ensures(bot::remove_reply, (&result,), reply),
    ensures
        result matches Ok(Removed::ForSelf { existed }) ==> reply@ == (if existed {
            "Removed your birthday."@
        } else {
            "You don't have a birthday saved."@
        }),
        result matches Ok(Removed::ForOther { name, existed }) ==> reply@ == (if existed {
            "Removed "@ + name@ + "'s birthday."@
        } else {
            name@ + " doesn't have a birthday saved."@
        }),
        result matches Err(AddBirthdayError::UnknownUsername(raw)) ==> reply@
            == "I don't know who "@ + raw@
            + " is yet — they need to send a message in the chat first."@,
        result matches Err(AddBirthdayError::NotAdmin) ==> reply@
            == "Only chat admins can remove birthdays for other people. You can remove your own with /remove_birthday"@,
        result matches Err(AddBirthdayError::NotInChat(_)) ==> reply@
            == "Something went wrong removing the birthday."@,
        result matches Err(AddBirthdayError::Repository(_)) ==> reply@
            == "Something went wrong removing the birthday."@,
        result matches Err(AddBirthdayError::Chat(_)) ==> reply@
            == "Something went wrong removing the birthday."@,
{
}

/// What is answered to a command that could not be carried through.
pub proof fn failures_are_answered(command: Command, reply: Reply)
    requires
        call_ensures(bot::failure_reply, (&command,), reply),
    ensures
        match command {
            Command::AddBirthday(_) => reply matches Reply::Text(words) && words@
                == "Something went wrong saving the birthday."@,
            Command::RemoveBirthday(_) => reply matches Reply::Text(words) && words@
                == "Something went wrong removing the birthday."@,
            Command::Soon(_) => reply matches Reply::Text(words) && words@
                == "Something went wrong looking up birthdays."@,
            Command::Help => reply is Help,
        },
{
}

/// What the errors say of themselves.
pub proof fn errors_tell_what_went_wrong(
    stored: RepositoryError,
    stored_message: String,
    asked: ChatError,
    asked_message: String,
    error: AddBirthdayError,
    message: String,
)
    requires
        call_ensures(RepositoryError::message, (&stored,), stored_message),
        call_ensures(ChatError::message, (&asked,), asked_message),
        call_ensures(AddBirthdayError::message, (&error,), message),
    ensures
        stored matches RepositoryError::Storage(reason) ==> stored_message@ == reason@,
        asked_message@ == "chat API error: "@ + asked.0@,
        match error {
            AddBirthdayError::UnknownUsername(raw) => message@ == "unknown username "@ + raw@,
            AddBirthdayError::NotInChat(name) => message@ == name@ + " is not in the chat"@,
            AddBirthdayError::NotAdmin => message@ == "only admins may add birthdays for others"@,
            AddBirthdayError::Repository(RepositoryError::Storage(reason)) => message@ == reason@,
            AddBirthdayError::Chat(inner) => message@ == "chat API error: "@ + inner.0@,
        },
{
}

} // verus!
