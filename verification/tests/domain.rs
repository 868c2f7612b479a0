use birthday_bot::calendar::{Date, Timestamp, MAX_TIMESTAMP, MIN_TIMESTAMP};
use birthday_bot::elements::{celebrants, upcoming, User, UserId};
use birthday_bot::ids::IdSource;

fn user_born_on(month: u32, day: u32) -> User {
    let birthdate = Date::from_ymd_opt(2000, month, day).unwrap();
    User::new(UserId::generate(), 1, birthdate)
}

fn date(year: i32, month: u32, day: u32) -> Date {
    Date::from_ymd_opt(year, month, day).unwrap()
}

#[test]
fn regular_birthday_matches_month_and_day_in_any_year() {
    let user = user_born_on(6, 6);
    assert!(user.celebrates_on(date(2026, 6, 6)));
    assert!(user.celebrates_on(date(2024, 6, 6)));
    assert!(!user.celebrates_on(date(2026, 6, 7)));
    assert!(!user.celebrates_on(date(2026, 7, 6)));
}

#[test]
fn feb_29_birthday_matches_feb_29_in_leap_years() {
    let user = user_born_on(2, 29);
    assert!(user.celebrates_on(date(2024, 2, 29)));
    // Not on Feb 28 when Feb 29 exists that year.
    assert!(!user.celebrates_on(date(2024, 2, 28)));
}

#[test]
fn feb_29_birthday_falls_back_to_feb_28_in_non_leap_years() {
    let user = user_born_on(2, 29);
    assert!(user.celebrates_on(date(2025, 2, 28)));
    assert!(!user.celebrates_on(date(2025, 3, 1)));
    // 2100 is divisible by 4 but not a leap year.
    assert!(user.celebrates_on(date(2100, 2, 28)));
}

#[test]
fn feb_28_birthday_is_unaffected_by_leap_rules() {
    let user = user_born_on(2, 28);
    assert!(user.celebrates_on(date(2024, 2, 28)));
    assert!(user.celebrates_on(date(2025, 2, 28)));
    assert!(!user.celebrates_on(date(2024, 2, 29)));
}

#[test]
fn dates_exist_as_the_calendar_has_them() {
    assert!(Date::from_ymd_opt(2000, 2, 29).is_some());
    assert!(Date::from_ymd_opt(1900, 2, 29).is_none());
    assert!(Date::from_ymd_opt(2025, 2, 29).is_none());
    assert!(Date::from_ymd_opt(2025, 4, 31).is_none());
    assert!(Date::from_ymd_opt(2025, 13, 1).is_none());
    assert!(Date::from_ymd_opt(2025, 0, 1).is_none());
    assert!(Date::from_ymd_opt(2025, 1, 0).is_none());
    assert!(Date::from_ymd_opt(-262143, 1, 1).is_some());
    assert!(Date::from_ymd_opt(-262144, 12, 31).is_none());
    assert!(Date::from_ymd_opt(262142, 12, 31).is_some());
    assert!(Date::from_ymd_opt(262143, 1, 1).is_none());
    assert!(Date::from_ymd_opt(i32::MIN, 1, 1).is_none());
    assert!(Date::from_ymd_opt(2025, u32::MAX, u32::MAX).is_none());
}

#[test]
fn adding_days_crosses_months_and_years() {
    assert_eq!(date(2024, 2, 28).checked_add_days(1), Some(date(2024, 2, 29)));
    assert_eq!(date(2025, 2, 28).checked_add_days(1), Some(date(2025, 3, 1)));
    assert_eq!(date(2026, 12, 28).checked_add_days(5), Some(date(2027, 1, 2)));
    assert_eq!(date(2000, 1, 1).checked_add_days(146_097), Some(date(2400, 1, 1)));
    assert_eq!(date(2000, 1, 1).checked_add_days(0), Some(date(2000, 1, 1)));
    assert_eq!(date(262142, 12, 31).checked_add_days(1), None);
    assert_eq!(date(2000, 1, 1).checked_add_days(u64::MAX), None);
    assert_eq!(
        date(-262143, 1, 1).checked_add_days(95_745_399 + 95_746_129),
        Some(date(262142, 12, 31))
    );
    assert_eq!(date(-262143, 1, 1).checked_add_days(95_745_399 + 95_746_130), None);
}

#[test]
fn days_between_dates_are_counted() {
    assert_eq!(date(2027, 1, 2).days_since(date(2026, 12, 28)), 5);
    assert_eq!(date(2026, 12, 28).days_since(date(2027, 1, 2)), -5);
    assert_eq!(date(2001, 1, 1).days_since(date(2000, 1, 1)), 366);
    assert_eq!(date(1970, 1, 1).days_since(date(1, 1, 1)), 719_162);
    assert!(date(2025, 12, 31).is_before(date(2026, 1, 1)));
    assert!(date(2026, 1, 31).is_before(date(2026, 2, 1)));
    assert!(date(2026, 2, 1).is_before(date(2026, 2, 2)));
    assert!(!date(2026, 2, 2).is_before(date(2026, 2, 2)));
}

#[test]
fn days_are_written_with_the_name_of_their_month() {
    assert_eq!(date(2000, 6, 6).day_and_month(), "06 June");
    let names = [
        "31 January", "29 February", "31 March", "30 April", "31 May", "30 June", "31 July",
        "31 August", "30 September", "31 October", "30 November", "31 December",
    ];
    let last = [31, 29, 31, 30, 31, 30, 31, 31, 30, 31, 30, 31];
    for month in 0..12 {
        assert_eq!(date(2000, month as u32 + 1, last[month]).day_and_month(), names[month]);
    }
}

#[test]
fn instants_fall_on_their_day() {
    let at = |secs: i64| Timestamp::from_timestamp(secs, 0).unwrap().date();
    assert_eq!(at(0), date(1970, 1, 1));
    assert_eq!(at(-1), date(1969, 12, 31));
    assert_eq!(at(86_399), date(1970, 1, 1));
    assert_eq!(at(86_400), date(1970, 1, 2));
    assert_eq!(at(1_780_704_000), date(2026, 6, 6));
    assert_eq!(at(MIN_TIMESTAMP), date(-262143, 1, 1));
    assert_eq!(at(MAX_TIMESTAMP), date(262142, 12, 31));
    assert!(Timestamp::from_timestamp(MIN_TIMESTAMP - 1, 0).is_none());
    assert!(Timestamp::from_timestamp(MAX_TIMESTAMP + 1, 0).is_none());
    assert!(Timestamp::from_timestamp(0, 1_000_000_000).is_none());
    assert_eq!(Timestamp::from_timestamp(7, 5).unwrap().timestamp(), 7);
    assert_eq!(Timestamp::from_timestamp(7, 5).unwrap().subsec_nanos(), 5);
    // Leap seconds follow the last second of a minute.
    let leap = Timestamp::from_timestamp(59, 1_000_000_000).unwrap();
    assert_eq!((leap.timestamp(), leap.subsec_nanos()), (59, 1_000_000_000));
    for (secs, nanos) in [
        (59, 1_999_999_999),
        (59, 2_000_000_000),
        (58, 1_000_000_000),
        (60, 1_000_000_000),
        (-1, 1_500_000_000),
        (-2, 1_500_000_000),
        (MAX_TIMESTAMP, 1_999_999_999),
        (MIN_TIMESTAMP, 1_000_000_000),
        (MIN_TIMESTAMP + 59, 1_000_000_000),
    ] {
        assert_eq!(
            Timestamp::from_timestamp(secs, nanos).is_some(),
            chrono::DateTime::from_timestamp(secs, nanos).is_some()
        );
    }
    assert_eq!(Timestamp::from_timestamp(86_399, 1_500_000_000).unwrap().date(), date(1970, 1, 1));
    let now = Timestamp::now();
    assert!(now.subsec_nanos() < 1_000_000_000);
    assert!((chrono::Utc::now().timestamp() - now.timestamp()).abs() <= 1);
    // The bounds are those of the calendar library.
    assert!(chrono::DateTime::from_timestamp(MIN_TIMESTAMP, 0).is_some());
    assert!(chrono::DateTime::from_timestamp(MIN_TIMESTAMP - 1, 0).is_none());
    assert!(chrono::DateTime::from_timestamp(MAX_TIMESTAMP, 999_999_999).is_some());
    assert!(chrono::DateTime::from_timestamp(MAX_TIMESTAMP + 1, 0).is_none());
}

#[test]
fn new_users_are_created_and_updated_at_once() {
    let before = chrono::Utc::now().timestamp();
    let user = user_born_on(6, 6);
    let after = chrono::Utc::now().timestamp();
    assert_eq!(user.created_at, user.updated_at);
    assert!(before <= user.created_at.timestamp() && user.created_at.timestamp() <= after);
    assert_eq!(user.telegram_id, 1);
    assert_eq!(user.birthdate, date(2000, 6, 6));
}

#[test]
fn every_birthday_is_celebrated_once_a_year() {
    for year in [1900, 2000, 2023, 2024, 2100] {
        for (month, day) in [(1, 1), (2, 28), (2, 29), (3, 1), (12, 31)] {
            let user = user_born_on(month, day);
            let start = date(year, 1, 1);
            let mut count = 0;
            for offset in 0..366 {
                let d = start.checked_add_days(offset).unwrap();
                if d.year() == year && user.celebrates_on(d) {
                    count += 1;
                }
            }
            assert_eq!(count, 1);
        }
    }
}

#[test]
fn next_celebration_is_the_first_within_the_horizon() {
    let user = user_born_on(2, 29);
    assert_eq!(user.celebration_within(date(2025, 2, 20), 15), Some(date(2025, 2, 28)));
    assert_eq!(user.celebration_within(date(2028, 2, 20), 15), Some(date(2028, 2, 29)));
    assert_eq!(user.celebration_within(date(2025, 3, 1), 363), None);
    assert_eq!(user.celebration_within(date(2025, 3, 1), 364), Some(date(2026, 2, 28)));
    let user = user_born_on(6, 6);
    assert_eq!(user.celebration_within(date(2026, 6, 6), 0), Some(date(2026, 6, 6)));
    assert_eq!(user.celebration_within(date(2026, 6, 7), 363), None);
    assert_eq!(user.celebration_within(date(2026, 6, 7), 364), Some(date(2027, 6, 6)));
    // Nothing is found past the end of the calendar.
    assert_eq!(user.celebration_within(date(262142, 12, 1), 400), None);
    // The longest horizon reaches everybody.
    assert_eq!(user_born_on(2, 29).celebration_within(date(2028, 3, 1), 366), Some(date(2029, 2, 28)));
    assert_eq!(user_born_on(2, 29).celebration_within(date(2027, 3, 1), 365), Some(date(2028, 2, 29)));
}

#[test]
fn lists_keep_the_order_of_users_with_the_same_day() {
    let mut users = Vec::new();
    for (id, month, day) in [(1, 6, 8), (2, 6, 6), (3, 6, 8), (4, 7, 7), (5, 6, 6)] {
        users.push(User::new(UserId::generate(), id, date(2000, month, day)));
    }
    let ids: Vec<u64> =
        upcoming(&users, date(2026, 6, 6), 10).iter().map(|(_, user)| user.telegram_id).collect();
    assert_eq!(ids, vec![2, 5, 1, 3]);
    let ids: Vec<u64> =
        celebrants(&users, date(2026, 6, 8)).iter().map(|user| user.telegram_id).collect();
    assert_eq!(ids, vec![1, 3]);
}

#[test]
fn user_ids_are_written_as_uuids() {
    let id = UserId::from(0x0123_4567_89ab_cdef_0011_2233_4455_6677u128);
    assert_eq!(id.text(), "01234567-89ab-cdef-0011-223344556677");
    assert_eq!(UserId::parse(&id.text()), Ok(id));
    assert_eq!(UserId::parse("{01234567-89AB-CDEF-0011-223344556677}"), Ok(id));
    assert_eq!(UserId::parse("0123456789abcdef0011223344556677"), Ok(id));
    assert_eq!(
        UserId::parse("nonsense").unwrap_err(),
        uuid::Uuid::parse_str("nonsense").unwrap_err().to_string()
    );
    assert!(UserId::generate() != UserId::generate());
}

#[test]
fn new_user_ids_are_version_7_uuids() {
    let id = UserId::generate();
    assert_eq!((id.0 >> 76) & 0xf, 7);
    assert_eq!((id.0 >> 62) & 0x3, 2);
    let text = id.text();
    assert_eq!(&text[14..15], "7");
    assert!(matches!(&text[19..20], "8" | "9" | "a" | "b"));
    assert_eq!(uuid::Uuid::parse_str(&text).unwrap().get_version_num(), 7);
}

#[test]
fn drawn_ids_increase() {
    let mut source = IdSource::new();
    let mut last = 0;
    for _ in 0..1000 {
        let bits = source.draw();
        assert!(bits > last);
        last = bits;
    }
}
