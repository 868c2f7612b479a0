use birthday_bot::bot::{
    add_reply, failure_reply, handle_add_birthday, handle_command, handle_remove_birthday,
    handle_soon, is_admin,
    parse_target, present_member, record_sender, remove_reply, soon_days, soon_reply,
    upcoming_reply, Command, Entity, MemberLookup, Message, Reply, Sender,
};
use birthday_bot::calendar::{Date, Timestamp};
use birthday_bot::greeting::{
    birthday_wishes, greeting_hour, todays_wishes, GreetingSchedule, Step,
};
use birthday_bot::elements::RepositoryError;
use birthday_bot::inmemory::InMemoryUserRepository;
use birthday_bot::service::{
    AddBirthdayError, Added, BirthdayService, ChatError, ChatMemberInfo, ChatPort, Removed, Target,
    UpcomingBirthday,
};

/// A chat with Alice (1), an admin without a username, and Bob (2).
struct Chat;

impl ChatPort for Chat {
    fn present_member(&self, telegram_id: u64) -> Result<Option<ChatMemberInfo>, ChatError> {
        Ok(match telegram_id {
            1 => Some(member(1, None, "Alice <3")),
            2 => Some(member(2, Some("bob"), "Bob")),
            _ => None,
        })
    }

    fn is_admin(&self, telegram_id: u64) -> Result<bool, ChatError> {
        Ok(telegram_id == 1)
    }
}

fn member(telegram_id: u64, username: Option<&str>, full_name: &str) -> ChatMemberInfo {
    ChatMemberInfo {
        telegram_id,
        username: username.map(str::to_string),
        full_name: full_name.to_string(),
    }
}

fn service() -> BirthdayService<InMemoryUserRepository, Chat> {
    BirthdayService::new(InMemoryUserRepository::new(), Chat)
}

fn date(year: i32, month: u32, day: u32) -> Date {
    Date::from_ymd_opt(year, month, day).unwrap()
}

fn from(telegram_id: u64, username: Option<&str>) -> Message {
    Message {
        from: Some(Sender { telegram_id, username: username.map(str::to_string) }),
        entities: Vec::new(),
    }
}

fn text(words: &str) -> Reply {
    Reply::Text(words.to_string())
}

#[test]
fn lookups_tell_presence_and_rights() {
    let found = |present: bool, privileged: bool| MemberLookup::Found {
        present,
        privileged,
        username: Some("bob".into()),
        full_name: "Bob".into(),
    };
    assert_eq!(present_member(2, found(true, false)), Ok(Some(member(2, Some("bob"), "Bob"))));
    assert_eq!(present_member(2, found(false, true)), Ok(None));
    assert_eq!(present_member(2, MemberLookup::UserNotFound), Ok(None));
    assert_eq!(
        present_member(2, MemberLookup::Failed("down".into())),
        Err(ChatError("down".into()))
    );
    assert_eq!(is_admin(found(true, true)), Ok(true));
    assert_eq!(is_admin(found(true, false)), Ok(false));
    assert_eq!(is_admin(MemberLookup::UserNotFound), Ok(false));
    assert_eq!(is_admin(MemberLookup::Failed("down".into())), Err(ChatError("down".into())));
}

#[test]
fn targets_are_mentions_or_usernames() {
    let mention = |telegram_id: u64, full_name: &str| Entity::TextMention {
        telegram_id,
        full_name: full_name.to_string(),
    };
    let entities = vec![Entity::Other, mention(7, "Dave"), mention(8, "Eve")];
    assert_eq!(parse_target(&entities, ""), None);
    assert_eq!(
        parse_target(&entities, "Dave"),
        Some(Target::User { telegram_id: 7, name: "Dave".into() })
    );
    assert_eq!(
        parse_target(&vec![Entity::Other], "@bob"),
        Some(Target::Username("@bob".into()))
    );
}

#[test]
fn add_command_saves_and_answers() {
    let mut s = service();
    let alice = from(1, None);
    let bob = from(2, Some("Bob"));
    assert_eq!(
        handle_add_birthday(&mut s, &alice, " 06-06 "),
        text("Saved your birthday: 06 June 🎂")
    );
    assert_eq!(
        handle_add_birthday(&mut s, &alice, "06-07 \u{a0} @bob "),
        text("I don't know who @bob is yet — they need to send a message in the chat first.")
    );
    record_sender(&mut s, &bob).unwrap();
    assert_eq!(
        handle_add_birthday(&mut s, &alice, "06-07\t@BOB"),
        text("Saved @bob's birthday: 07 June 🎂")
    );
    let mut mention = from(1, None);
    mention.entities.push(Entity::TextMention { telegram_id: 9, full_name: "Zoe".into() });
    assert_eq!(
        handle_add_birthday(&mut s, &mention, "06-07 Zoe"),
        text("Zoe doesn't seem to be in the chat.")
    );
    mention.from = bob.from.clone();
    assert_eq!(
        handle_add_birthday(&mut s, &mention, "06-07 Zoe"),
        text(
            "Only chat admins can add birthdays for other people. \
             You can add your own with /add_birthday MM-DD"
        )
    );
    let usage = text("Please use the format: /add_birthday MM-DD [@username]");
    assert_eq!(handle_add_birthday(&mut s, &alice, ""), usage);
    assert_eq!(handle_add_birthday(&mut s, &alice, "@bob 06-07"), usage);
    let nobody = Message { from: None, entities: Vec::new() };
    assert_eq!(handle_add_birthday(&mut s, &nobody, "13-13"), usage);
    assert_eq!(handle_add_birthday(&mut s, &nobody, "06-06"), Reply::Nothing);

    let ids: Vec<u64> = s
        .upcoming_birthdays(date(2026, 6, 6), 15)
        .unwrap()
        .iter()
        .map(|entry| entry.member.telegram_id)
        .collect();
    assert_eq!(ids, vec![1, 2]);
}

#[test]
fn remove_command_removes_and_answers() {
    let mut s = service();
    let alice = from(1, None);
    let bob = from(2, Some("bob"));
    assert_eq!(
        handle_remove_birthday(&mut s, &bob, ""),
        text("You don't have a birthday saved.")
    );
    s.add_birthday(2, None, date(2000, 6, 6)).unwrap();
    assert_eq!(handle_remove_birthday(&mut s, &bob, " "), text("Removed your birthday."));
    assert_eq!(
        handle_remove_birthday(&mut s, &alice, "@bob"),
        text("I don't know who @bob is yet — they need to send a message in the chat first.")
    );
    record_sender(&mut s, &bob).unwrap();
    s.add_birthday(2, None, date(2000, 6, 6)).unwrap();
    assert_eq!(
        handle_remove_birthday(&mut s, &alice, " @bob "),
        text("Removed @bob's birthday.")
    );
    assert_eq!(
        handle_remove_birthday(&mut s, &alice, "@bob"),
        text("@bob doesn't have a birthday saved.")
    );
    s.record_username("alice", 1).unwrap();
    assert_eq!(
        handle_remove_birthday(&mut s, &bob, "@alice"),
        text(
            "Only chat admins can remove birthdays for other people. \
             You can remove your own with /remove_birthday"
        )
    );
    let nobody = Message { from: None, entities: Vec::new() };
    assert_eq!(handle_remove_birthday(&mut s, &nobody, ""), Reply::Nothing);
}

#[test]
fn failures_are_answered_without_details() {
    let storage = || AddBirthdayError::Repository(RepositoryError::Storage("x".into()));
    let chat = || AddBirthdayError::Chat(ChatError("x".into()));
    let day = date(2000, 6, 6);
    assert_eq!(add_reply(&Err(storage()), day), "Something went wrong saving the birthday.");
    assert_eq!(add_reply(&Err(chat()), day), "Something went wrong saving the birthday.");
    assert_eq!(add_reply(&Ok(Added::ForSelf), day), "Saved your birthday: 06 June 🎂");
    assert_eq!(remove_reply(&Err(storage())), "Something went wrong removing the birthday.");
    assert_eq!(remove_reply(&Err(chat())), "Something went wrong removing the birthday.");
    assert_eq!(
        remove_reply(&Err(AddBirthdayError::NotInChat("x".into()))),
        "Something went wrong removing the birthday."
    );
    assert_eq!(remove_reply(&Ok(Removed::ForSelf { existed: true })), "Removed your birthday.");
}

#[test]
fn horizons_are_read_from_the_command() {
    assert_eq!(soon_days(""), Some(15));
    assert_eq!(soon_days("  \n"), Some(15));
    assert_eq!(soon_days(" 7 "), Some(7));
    assert_eq!(soon_days("+7"), Some(7));
    assert_eq!(soon_days("007"), Some(7));
    assert_eq!(soon_days("365"), Some(365));
    assert_eq!(soon_days("366"), Some(366));
    assert_eq!(soon_days("367"), Some(366));
    assert_eq!(soon_days("4294967295"), Some(366));
    assert_eq!(soon_days("4294967296"), None);
    assert_eq!(soon_days("-1"), None);
    assert_eq!(soon_days("+"), None);
    assert_eq!(soon_days("7 8"), None);
    assert_eq!(soon_days("soon"), None);
    let s = service();
    assert_eq!(handle_soon(&s, "soon"), text("Please use the format: /soon [days]"));
    assert_eq!(handle_soon(&s, "5000"), text("No birthdays in the next 366 days."));
}

#[test]
fn lookups_are_answered_line_by_line() {
    let today = date(2026, 12, 30);
    let mut s = service();
    assert_eq!(upcoming_reply(&s, today, 15), text("No birthdays in the next 15 days."));
    s.add_birthday(2, None, date(2000, 1, 2)).unwrap();
    s.add_birthday(1, None, date(2000, 12, 31)).unwrap();
    assert_eq!(
        upcoming_reply(&s, today, 15),
        text(
            "Birthdays in the next 15 days:\n\
             🎂 31 December — Alice <3 (tomorrow)\n\
             🎂 02 January — Bob (in 3 days)"
        )
    );
    let list = vec![UpcomingBirthday { date: today, member: member(2, None, "Bob") }];
    assert_eq!(
        soon_reply(today, 0, &list),
        "Birthdays in the next 0 days:\n🎂 30 December — Bob (today! 🎉)"
    );
}

#[test]
fn commands_are_dispatched_and_their_senders_remembered() {
    let mut s = service();
    let bob = from(2, Some("Bob"));
    assert_eq!(handle_command(&mut s, &bob, &Command::Help), Reply::Help);
    assert_eq!(
        handle_command(&mut s, &from(1, None), &Command::AddBirthday("6-6 @bob".into())),
        text("Saved @bob's birthday: 06 June 🎂")
    );
    assert_eq!(
        handle_command(&mut s, &bob, &Command::RemoveBirthday("@bob".into())),
        text("Removed your birthday.")
    );
    assert_eq!(
        handle_command(&mut s, &bob, &Command::Soon("".into())),
        text("No birthdays in the next 15 days.")
    );
}

#[test]
fn wishes_mention_everybody() {
    assert_eq!(birthday_wishes(&Vec::new()), None);
    let celebrants = vec![member(2, Some("bob"), "Bob"), member(123, None, "A & <B>")];
    assert_eq!(
        birthday_wishes(&celebrants).unwrap(),
        "🎉 Happy birthday, @bob, <a href=\"tg://user?id=123\">A &amp; &lt;B&gt;</a>! 🎂🎈"
    );
    let mut s = service();
    let today = date(2026, 6, 6);
    assert_eq!(todays_wishes(&s, today), Ok(None));
    s.add_birthday(1, None, date(2000, 6, 6)).unwrap();
    s.add_birthday(3, None, date(2000, 6, 6)).unwrap();
    assert_eq!(
        todays_wishes(&s, today).unwrap().unwrap(),
        "🎉 Happy birthday, <a href=\"tg://user?id=1\">Alice &lt;3</a>! 🎂🎈"
    );
}

#[test]
fn greeting_hours_are_read_from_the_setting() {
    assert_eq!(greeting_hour(None), 9);
    assert_eq!(greeting_hour(Some("17")), 17);
    assert_eq!(greeting_hour(Some("nine")), 9);
    assert_eq!(greeting_hour(Some("")), 9);
    assert_eq!(greeting_hour(Some(" 7")), 9);
    assert_eq!(greeting_hour(Some("24")), 24);
    assert!(GreetingSchedule::new(23, None).is_some());
    assert!(GreetingSchedule::new(24, None).is_none());
}

#[test]
fn greetings_come_once_a_day_and_are_caught_up_with() {
    // 2026-06-06 00:00:00 UTC.
    let midnight = 1_780_704_000;
    let at = |secs: i64, nanos: u32| Timestamp::from_timestamp(midnight + secs, nanos).unwrap();
    let today = date(2026, 6, 6);
    let nine = 9 * 3600;
    let mut schedule = GreetingSchedule::new(9, Some(date(2026, 6, 5))).unwrap();

    assert_eq!(schedule.next_step(at(0, 0)), Step::Wait { secs: 9 * 3600, nanos: 0 });
    assert_eq!(
        schedule.next_step(at(nine - 1, 999_999_999)),
        Step::Wait { secs: 0, nanos: 1 }
    );
    assert_eq!(schedule.next_step(at(nine, 0)), Step::Greet { today });
    // Down at nine, back in the evening.
    assert_eq!(schedule.next_step(at(86_399, 5)), Step::Greet { today });
    assert_eq!(GreetingSchedule::new(9, None).unwrap().next_step(at(nine, 7)), Step::Greet { today });

    schedule.greeted(today);
    assert_eq!(schedule.next_step(at(nine, 0)), Step::Wait { secs: 86_400, nanos: 0 });
    assert_eq!(
        schedule.next_step(at(nine + 1, 250_000_000)),
        Step::Wait { secs: 86_398, nanos: 750_000_000 }
    );
    // Restarted later the same day.
    let restarted = GreetingSchedule::new(9, Some(today)).unwrap();
    assert_eq!(restarted.next_step(at(nine + 3600, 0)), Step::Wait { secs: 82_800, nanos: 0 });
    assert_eq!(
        schedule.next_step(at(86_400 + nine, 0)),
        Step::Greet { today: date(2026, 6, 7) }
    );
}

#[test]
fn waits_in_leap_seconds_are_those_of_the_calendar_library() {
    let midnight = 1_780_704_000;
    for (secs, nanos, hour) in [
        (59, 1_250_000_000u32, 9u32),
        (9 * 3600 - 1, 1_999_999_999, 9),
        (9 * 3600 - 1, 1_000_000_000, 9),
        (9 * 3600 + 59, 1_250_000_000, 9),
        (86_399, 1_500_000_000, 0),
        (86_399, 1_000_000_000, 0),
        (86_399, 1_500_000_000, 1),
        (86_399, 999_999_999, 0),
    ] {
        let now = chrono::DateTime::from_timestamp(midnight + secs, nanos).unwrap();
        let at = chrono::NaiveTime::from_hms_opt(hour, 0, 0).unwrap();
        let mut next_run = now.date_naive().and_time(at).and_utc();
        if next_run <= now {
            next_run += chrono::Duration::days(1);
        }
        let wait = (next_run - now).to_std().unwrap_or_default();
        let schedule = GreetingSchedule::new(hour, Some(date(2026, 6, 6))).unwrap();
        assert_eq!(
            schedule.next_step(Timestamp::from_timestamp(midnight + secs, nanos).unwrap()),
            Step::Wait { secs: wait.as_secs(), nanos: wait.subsec_nanos() }
        );
    }
}

#[test]
fn only_posted_greetings_are_recorded() {
    let noon = Timestamp::from_timestamp(1_780_704_000 + 43_200, 0).unwrap();
    let today = date(2026, 6, 6);
    for done in [true, false] {
        let mut schedule = GreetingSchedule::new(9, None).unwrap();
        assert_eq!(schedule.next_step(noon), Step::Greet { today });
        assert_eq!(schedule.posted(today, done), done);
        assert_eq!(schedule.next_step(noon), Step::Wait { secs: 75_600, nanos: 0 });
    }
}

#[test]
fn commands_that_fail_are_answered() {
    let text = |words: &str| Reply::Text(words.to_string());
    assert_eq!(
        failure_reply(&Command::AddBirthday("06-06".to_string())),
        text("Something went wrong saving the birthday.")
    );
    assert_eq!(
        failure_reply(&Command::RemoveBirthday(String::new())),
        text("Something went wrong removing the birthday.")
    );
    assert_eq!(
        failure_reply(&Command::Soon(String::new())),
        text("Something went wrong looking up birthdays.")
    );
    assert_eq!(failure_reply(&Command::Help), Reply::Help);
}
