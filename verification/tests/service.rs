use std::collections::{HashMap, HashSet};

use birthday_bot::calendar::Date;
use birthday_bot::elements::{
    RepositoryError, StoreModel, User, UserRepository, UsernameDirectory,
};
use birthday_bot::inmemory::InMemoryUserRepository;
use birthday_bot::service::{
    allows, member_or_skip, parse_birthday, require_presence, AddBirthdayError, Added,
    BirthdayService, ChatError, ChatMemberInfo, ChatPort, Removed, Target, ANCHOR_YEAR,
    DEFAULT_SOON_DAYS, MAX_SOON_DAYS,
};

const ALICE: u64 = 1;
const BOB: u64 = 2;
const CAROL: u64 = 3;

#[derive(Default)]
struct FakeChat {
    members: HashMap<u64, ChatMemberInfo>,
    admins: HashSet<u64>,
    down: bool,
}

impl FakeChat {
    fn with_member(mut self, id: u64, username: Option<&str>, name: &str) -> Self {
        self.members.insert(
            id,
            ChatMemberInfo {
                telegram_id: id,
                username: username.map(str::to_string),
                full_name: name.to_string(),
            },
        );
        self
    }

    fn with_admin(mut self, id: u64) -> Self {
        self.admins.insert(id);
        self
    }

    fn down(mut self) -> Self {
        self.down = true;
        self
    }
}

impl ChatPort for FakeChat {
    fn present_member(&self, telegram_id: u64) -> Result<Option<ChatMemberInfo>, ChatError> {
        if self.down {
            return Err(ChatError("down".to_string()));
        }
        Ok(self.members.get(&telegram_id).cloned())
    }

    fn is_admin(&self, telegram_id: u64) -> Result<bool, ChatError> {
        if self.down {
            return Err(ChatError("down".to_string()));
        }
        Ok(self.admins.contains(&telegram_id))
    }
}

/// A store that never answers.
struct Broken;

impl StoreModel for Broken {}

impl UserRepository for Broken {
    fn find_birthdays_for_date(&self, _: Date) -> Result<Vec<User>, RepositoryError> {
        Err(RepositoryError::Storage("broken".to_string()))
    }

    fn find_birthdays_within(&self, _: Date, _: u32) -> Result<Vec<(Date, User)>, RepositoryError> {
        Err(RepositoryError::Storage("broken".to_string()))
    }

    fn add_birthday(&mut self, _: u64, _: Date) -> Result<(), RepositoryError> {
        Err(RepositoryError::Storage("broken".to_string()))
    }

    fn remove_birthday(&mut self, _: u64) -> Result<bool, RepositoryError> {
        Err(RepositoryError::Storage("broken".to_string()))
    }
}

impl UsernameDirectory for Broken {
    fn record_username(&mut self, _: &str, _: u64) -> Result<(), RepositoryError> {
        Err(RepositoryError::Storage("broken".to_string()))
    }

    fn resolve_username(&self, _: &str) -> Result<Option<u64>, RepositoryError> {
        Err(RepositoryError::Storage("broken".to_string()))
    }
}

fn broken() -> RepositoryError {
    RepositoryError::Storage("broken".to_string())
}

fn service(chat: FakeChat) -> BirthdayService<InMemoryUserRepository, FakeChat> {
    BirthdayService::new(InMemoryUserRepository::new(), chat)
}

fn alice_and_bob() -> FakeChat {
    FakeChat::default()
        .with_member(ALICE, Some("alice"), "Alice")
        .with_member(BOB, Some("bob"), "Bob")
}

fn birthday(month: u32, day: u32) -> Date {
    Date::from_ymd_opt(ANCHOR_YEAR, month, day).unwrap()
}

fn date(year: i32, month: u32, day: u32) -> Date {
    Date::from_ymd_opt(year, month, day).unwrap()
}

#[test]
fn parse_birthday_accepts_month_day_only() {
    assert_eq!(parse_birthday("06-06"), Some(birthday(6, 6)));
    assert_eq!(parse_birthday("6-6"), Some(birthday(6, 6)));
    assert_eq!(parse_birthday(" 12-31 "), Some(birthday(12, 31)));
    assert_eq!(parse_birthday("02-29"), Some(birthday(2, 29)));
    assert_eq!(parse_birthday("13-01"), None);
    assert_eq!(parse_birthday("02-30"), None);
    assert_eq!(parse_birthday("2001-06-06"), None);
    assert_eq!(parse_birthday("birthday"), None);
    assert_eq!(parse_birthday(""), None);
}

#[test]
fn parse_birthday_edge_cases() {
    assert_eq!(parse_birthday("6- 6"), Some(birthday(6, 6)));
    assert_eq!(parse_birthday("\u{3000}06-\t06\n"), Some(birthday(6, 6)));
    assert_eq!(parse_birthday("6 -6"), None);
    assert_eq!(parse_birthday("006-06"), None);
    assert_eq!(parse_birthday("06-006"), None);
    assert_eq!(parse_birthday("06-06x"), None);
    assert_eq!(parse_birthday("06-06 x"), None);
    assert_eq!(parse_birthday("-06-06"), None);
    assert_eq!(parse_birthday("+6-06"), None);
    assert_eq!(parse_birthday("00-06"), None);
    assert_eq!(parse_birthday("06-00"), None);
    assert_eq!(parse_birthday("06-"), None);
    assert_eq!(parse_birthday("06"), None);
    assert_eq!(parse_birthday("06/06"), None);
    assert_eq!(parse_birthday("\u{0660}6-06"), None);
}

#[test]
fn member_adds_their_own_birthday() {
    let mut service = service(alice_and_bob());

    let added = service.add_birthday(ALICE, None, birthday(6, 6)).unwrap();

    assert_eq!(added, Added::ForSelf);
    let celebrants = service.todays_celebrants(date(2026, 6, 6)).unwrap();
    assert_eq!(celebrants.len(), 1);
    assert_eq!(celebrants[0].telegram_id, ALICE);
}

#[test]
fn member_cannot_add_for_someone_else() {
    let mut service = service(alice_and_bob());
    service.record_username("bob", BOB).unwrap();

    let result =
        service.add_birthday(ALICE, Some(Target::Username("@bob".into())), birthday(6, 6));

    assert_eq!(result, Err(AddBirthdayError::NotAdmin));
}

#[test]
fn admin_adds_for_someone_else() {
    let mut service = service(alice_and_bob().with_admin(ALICE));
    service.record_username("bob", BOB).unwrap();

    let added = service
        .add_birthday(ALICE, Some(Target::Username("@bob".into())), birthday(6, 6))
        .unwrap();

    assert_eq!(added, Added::ForOther { name: "@bob".into() });
    let celebrants = service.todays_celebrants(date(2026, 6, 6)).unwrap();
    assert_eq!(celebrants[0].telegram_id, BOB);
}

#[test]
fn targeting_yourself_needs_no_admin() {
    let mut service = service(alice_and_bob());
    service.record_username("alice", ALICE).unwrap();

    let added = service
        .add_birthday(ALICE, Some(Target::Username("@alice".into())), birthday(6, 6))
        .unwrap();

    assert_eq!(added, Added::ForSelf);
}

#[test]
fn unknown_username_is_rejected() {
    let mut service = service(alice_and_bob().with_admin(ALICE));

    let result =
        service.add_birthday(ALICE, Some(Target::Username("@bob".into())), birthday(6, 6));

    assert_eq!(result, Err(AddBirthdayError::UnknownUsername("@bob".into())));
}

#[test]
fn username_resolution_is_case_insensitive() {
    let mut service = service(alice_and_bob().with_admin(ALICE));
    service.record_username("Bob", BOB).unwrap();

    let added = service
        .add_birthday(ALICE, Some(Target::Username("@BOB".into())), birthday(6, 6))
        .unwrap();

    assert_eq!(added, Added::ForOther { name: "@bob".into() });
}

#[test]
fn target_must_be_in_the_chat() {
    let mut service = service(alice_and_bob().with_admin(ALICE));
    service.record_username("carol", CAROL).unwrap();

    let result =
        service.add_birthday(ALICE, Some(Target::Username("@carol".into())), birthday(6, 6));

    assert_eq!(result, Err(AddBirthdayError::NotInChat("@carol".into())));
}

#[test]
fn text_mention_target_needs_no_username_cache() {
    let mut service = service(alice_and_bob().with_admin(ALICE));

    let target = Target::User { telegram_id: BOB, name: "Bob".into() };
    let added = service.add_birthday(ALICE, Some(target), birthday(6, 6)).unwrap();

    assert_eq!(added, Added::ForOther { name: "Bob".into() });
}

#[test]
fn adding_again_overwrites_the_previous_birthday() {
    let mut service = service(alice_and_bob());

    service.add_birthday(ALICE, None, birthday(6, 6)).unwrap();
    service.add_birthday(ALICE, None, birthday(7, 7)).unwrap();

    assert!(service.todays_celebrants(date(2026, 6, 6)).unwrap().is_empty());
    assert_eq!(service.todays_celebrants(date(2026, 7, 7)).unwrap().len(), 1);
}

#[test]
fn upcoming_is_sorted_and_skips_users_who_left() {
    let mut service = service(alice_and_bob());
    service.add_birthday(ALICE, None, birthday(6, 10)).unwrap();
    service.add_birthday(BOB, None, birthday(6, 8)).unwrap();
    // Carol saved a birthday but is not in the chat (anymore).
    service.add_birthday(CAROL, None, birthday(6, 9)).unwrap();

    let upcoming = service.upcoming_birthdays(date(2026, 6, 6), 15).unwrap();

    let ids: Vec<u64> = upcoming.iter().map(|entry| entry.member.telegram_id).collect();
    assert_eq!(ids, vec![BOB, ALICE]);
    assert_eq!(upcoming[0].date, date(2026, 6, 8));
    assert_eq!(upcoming[1].date, date(2026, 6, 10));
}

#[test]
fn upcoming_includes_today_and_the_horizon_edge() {
    let mut service = service(alice_and_bob());
    service.add_birthday(ALICE, None, birthday(6, 6)).unwrap();
    service.add_birthday(BOB, None, birthday(6, 21)).unwrap();

    let upcoming = service.upcoming_birthdays(date(2026, 6, 6), 15).unwrap();
    assert_eq!(upcoming.len(), 2);

    let upcoming = service.upcoming_birthdays(date(2026, 6, 6), 14).unwrap();
    assert_eq!(upcoming.len(), 1);
}

#[test]
fn feb_29_is_celebrated_on_feb_28_in_non_leap_years() {
    let mut service = service(alice_and_bob());
    service.add_birthday(ALICE, None, birthday(2, 29)).unwrap();

    let celebrants = service.todays_celebrants(date(2025, 2, 28)).unwrap();
    assert_eq!(celebrants.len(), 1);

    let upcoming = service.upcoming_birthdays(date(2025, 2, 20), 15).unwrap();
    assert_eq!(upcoming[0].date, date(2025, 2, 28));

    // ...and on the real date in leap years.
    let upcoming = service.upcoming_birthdays(date(2028, 2, 20), 15).unwrap();
    assert_eq!(upcoming[0].date, date(2028, 2, 29));
}

#[test]
fn exactly_the_celebrants_in_the_chat_are_greeted() {
    let mut service = service(alice_and_bob());
    service.add_birthday(ALICE, None, birthday(6, 6)).unwrap();
    service.add_birthday(BOB, None, birthday(6, 7)).unwrap();
    // Carol celebrates too but is not in the chat.
    service.add_birthday(CAROL, None, birthday(6, 6)).unwrap();

    let celebrants = service.todays_celebrants(date(2026, 6, 6)).unwrap();
    let ids: Vec<u64> = celebrants.iter().map(|member| member.telegram_id).collect();
    assert_eq!(ids, vec![ALICE]);
    assert_eq!(celebrants[0].full_name, "Alice");
}

#[test]
fn a_failed_admin_check_denies() {
    let mut service = service(alice_and_bob().with_admin(ALICE).down());
    let bob = Target::User { telegram_id: BOB, name: "Bob".into() };
    assert_eq!(
        service.add_birthday(ALICE, Some(bob.clone()), birthday(6, 6)),
        Err(AddBirthdayError::NotAdmin)
    );
    assert_eq!(service.remove_birthday(ALICE, Some(bob)), Err(AddBirthdayError::NotAdmin));
}

#[test]
fn a_failed_presence_check_is_reported() {
    let mut service = service(alice_and_bob().down());
    let alice = Target::User { telegram_id: ALICE, name: "Alice".into() };
    let result = service.add_birthday(ALICE, Some(alice), birthday(6, 6));
    assert_eq!(result, Err(AddBirthdayError::Chat(ChatError("down".into()))));
    assert_eq!(result.unwrap_err().message(), "chat API error: down");
    // Listings skip whom the chat cannot look up.
    service.add_birthday(ALICE, None, birthday(6, 6)).unwrap();
    assert!(service.todays_celebrants(date(2026, 6, 6)).unwrap().is_empty());
    assert!(service.upcoming_birthdays(date(2026, 6, 6), 15).unwrap().is_empty());
}

#[test]
fn removal_works_for_people_who_left() {
    let mut service = service(alice_and_bob().with_admin(ALICE));
    service.record_username("carol", CAROL).unwrap();
    service.add_birthday(CAROL, None, birthday(6, 9)).unwrap();
    service.add_birthday(BOB, None, birthday(6, 8)).unwrap();

    let carol = || Some(Target::Username("@Carol".into()));
    assert_eq!(service.remove_birthday(BOB, carol()), Err(AddBirthdayError::NotAdmin));
    assert_eq!(
        service.remove_birthday(ALICE, carol()),
        Ok(Removed::ForOther { name: "@carol".into(), existed: true })
    );
    assert_eq!(
        service.remove_birthday(ALICE, carol()),
        Ok(Removed::ForOther { name: "@carol".into(), existed: false })
    );
    service.add_birthday(CAROL, None, birthday(6, 9)).unwrap();
    assert_eq!(service.remove_birthday(CAROL, carol()), Ok(Removed::ForSelf { existed: true }));
    assert_eq!(service.remove_birthday(CAROL, None), Ok(Removed::ForSelf { existed: false }));
    assert_eq!(service.remove_birthday(BOB, None), Ok(Removed::ForSelf { existed: true }));
    assert_eq!(
        service.remove_birthday(ALICE, Some(Target::Username("@dave".into()))),
        Err(AddBirthdayError::UnknownUsername("@dave".into()))
    );
}

#[test]
fn storage_errors_are_passed_on() {
    let mut service = BirthdayService::new(Broken, alice_and_bob());
    assert_eq!(
        service.add_birthday(ALICE, None, birthday(6, 6)),
        Err(AddBirthdayError::Repository(broken()))
    );
    let bob = || Some(Target::Username("@bob".into()));
    assert_eq!(
        service.add_birthday(ALICE, bob(), birthday(6, 6)),
        Err(AddBirthdayError::Repository(broken()))
    );
    assert_eq!(service.remove_birthday(ALICE, bob()), Err(AddBirthdayError::Repository(broken())));
    assert_eq!(service.remove_birthday(ALICE, None), Err(AddBirthdayError::Repository(broken())));
    assert_eq!(service.record_username("bob", BOB), Err(broken()));
    assert_eq!(service.todays_celebrants(date(2026, 6, 6)), Err(broken()));
    assert_eq!(service.upcoming_birthdays(date(2026, 6, 6), 15), Err(broken()));
}

#[test]
fn the_horizon_is_bounded() {
    let mut service = service(alice_and_bob());
    service.add_birthday(ALICE, None, birthday(2, 29)).unwrap();
    let upcoming = service.upcoming_birthdays(date(2027, 3, 1), u32::MAX).unwrap();
    assert_eq!(upcoming.len(), 1);
    assert_eq!(upcoming[0].date, date(2028, 2, 29));
    assert_eq!(DEFAULT_SOON_DAYS, 15);
    assert_eq!(MAX_SOON_DAYS, 366);
}

#[test]
fn at_signs_before_a_username_do_not_matter() {
    let mut service = service(alice_and_bob().with_admin(ALICE));
    service.record_username("BÖB", BOB).unwrap();
    for raw in ["böb", "@böb", "@@Böb"] {
        let added =
            service.add_birthday(ALICE, Some(Target::Username(raw.into())), birthday(6, 6)).unwrap();
        assert_eq!(added, Added::ForOther { name: "@böb".into() });
    }
}

#[test]
fn decisions_on_the_answers_of_the_chat() {
    let alice = ChatMemberInfo { telegram_id: ALICE, username: None, full_name: "Alice".into() };
    assert!(allows(Ok(true)));
    assert!(!allows(Ok(false)));
    assert!(!allows(Err(ChatError("down".into()))));
    assert_eq!(require_presence(Ok(Some(alice.clone())), "A".into()), Ok("A".into()));
    assert_eq!(
        require_presence(Ok(None), "A".into()),
        Err(AddBirthdayError::NotInChat("A".into()))
    );
    assert_eq!(
        require_presence(Err(ChatError("down".into())), "A".into()),
        Err(AddBirthdayError::Chat(ChatError("down".into())))
    );
    assert_eq!(member_or_skip(Ok(Some(alice.clone()))), Some(alice));
    assert_eq!(member_or_skip(Ok(None)), None);
    assert_eq!(member_or_skip(Err(ChatError("down".into()))), None);
}

#[test]
fn errors_have_messages() {
    assert_eq!(
        AddBirthdayError::UnknownUsername("@bob".into()).message(),
        "unknown username @bob"
    );
    assert_eq!(AddBirthdayError::NotInChat("Bob".into()).message(), "Bob is not in the chat");
    assert_eq!(
        AddBirthdayError::NotAdmin.message(),
        "only admins may add birthdays for others"
    );
    assert_eq!(AddBirthdayError::Repository(broken()).message(), "broken");
}
