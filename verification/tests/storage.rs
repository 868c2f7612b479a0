use birthday_bot::calendar::{Date, Timestamp};
use birthday_bot::elements::{RepositoryError, User, UserId, UserRepository, UsernameDirectory};
use birthday_bot::inmemory::{save, InMemoryUserRepository};
use birthday_bot::rows::{
    loaded_id, new_row, row_to_user, rows_to_users, stored_id, user_to_row, UserRow,
};

fn date(year: i32, month: u32, day: u32) -> Date {
    Date::from_ymd_opt(year, month, day).unwrap()
}

#[test]
fn inmemory_finds_birthdays_only_on_their_day() {
    let mut repo = InMemoryUserRepository::new();
    repo.add_birthday(1, date(2000, 6, 6)).unwrap();

    let found = repo.find_birthdays_for_date(date(2026, 6, 6)).unwrap();
    assert_eq!(found.len(), 1);
    assert_eq!(found[0].telegram_id, 1);

    assert!(repo.find_birthdays_for_date(date(2026, 6, 7)).unwrap().is_empty());
}

#[test]
fn inmemory_adding_again_updates_instead_of_duplicating() {
    let mut repo = InMemoryUserRepository::new();
    repo.add_birthday(1, date(2000, 6, 6)).unwrap();
    repo.add_birthday(1, date(2000, 7, 7)).unwrap();

    assert!(repo.find_birthdays_for_date(date(2026, 6, 6)).unwrap().is_empty());
    assert_eq!(repo.find_birthdays_for_date(date(2026, 7, 7)).unwrap().len(), 1);
}

#[test]
fn inmemory_within_sorts_soonest_first_and_wraps_the_year() {
    let mut repo = InMemoryUserRepository::new();
    repo.add_birthday(1, date(2000, 1, 2)).unwrap();
    repo.add_birthday(2, date(2000, 12, 30)).unwrap();

    let found = repo.find_birthdays_within(date(2026, 12, 28), 10).unwrap();

    let summary: Vec<(Date, u64)> =
        found.iter().map(|(date, user)| (*date, user.telegram_id)).collect();
    assert_eq!(summary, vec![(date(2026, 12, 30), 2), (date(2027, 1, 2), 1)]);
}

#[test]
fn within_includes_both_horizon_bounds() {
    let mut repo = InMemoryUserRepository::new();
    repo.add_birthday(1, date(2000, 6, 6)).unwrap();
    repo.add_birthday(2, date(2000, 6, 16)).unwrap();
    repo.add_birthday(3, date(2000, 6, 17)).unwrap();

    let found = repo.find_birthdays_within(date(2026, 6, 6), 10).unwrap();

    let ids: Vec<u64> = found.iter().map(|(_, user)| user.telegram_id).collect();
    assert_eq!(ids, vec![1, 2]);
}

#[test]
fn inmemory_remove_deletes_the_birthday_and_reports_whether_it_existed() {
    let mut repo = InMemoryUserRepository::new();
    repo.add_birthday(1, date(2000, 6, 6)).unwrap();

    assert!(repo.remove_birthday(1).unwrap());
    assert!(repo.find_birthdays_for_date(date(2026, 6, 6)).unwrap().is_empty());

    assert!(!repo.remove_birthday(1).unwrap());
}

#[test]
fn usernames_resolve_and_can_be_reassigned() {
    let mut store = InMemoryUserRepository::new();
    assert_eq!(store.resolve_username("bob").unwrap(), None);

    store.record_username("bob", 2).unwrap();
    assert_eq!(store.resolve_username("bob").unwrap(), Some(2));

    // Telegram usernames can change hands; the directory follows.
    store.record_username("bob", 3).unwrap();
    assert_eq!(store.resolve_username("bob").unwrap(), Some(3));
}

#[test]
fn a_default_store_is_empty() {
    let store = InMemoryUserRepository::default();
    assert!(store.find_birthdays_within(date(2026, 1, 1), 366).unwrap().is_empty());
    assert_eq!(store.resolve_username("bob").unwrap(), None);
}

#[test]
fn saving_again_keeps_id_and_creation_time() {
    let at = |secs: i64| Timestamp::from_timestamp(secs, 0).unwrap();
    let user = |id: u128, telegram_id: u64, birthdate: Date, created: i64, updated: i64| User {
        id: UserId(id),
        telegram_id,
        birthdate,
        created_at: at(created),
        updated_at: at(updated),
    };
    let mut users = Vec::new();
    save(&mut users, 1, date(2000, 6, 6), UserId(10), at(100));
    save(&mut users, 2, date(2000, 6, 6), UserId(20), at(200));
    save(&mut users, 1, date(2000, 7, 7), UserId(30), at(300));
    assert_eq!(
        users,
        vec![
            user(10, 1, date(2000, 7, 7), 100, 300),
            user(20, 2, date(2000, 6, 6), 200, 200)
        ]
    );
}

#[test]
fn a_new_user_takes_the_place_of_one_with_the_same_id() {
    let now = Timestamp::from_timestamp(100, 0).unwrap();
    let mut users = Vec::new();
    save(&mut users, 1, date(2000, 6, 6), UserId(10), now);
    save(&mut users, 2, date(2000, 6, 6), UserId(10), now);
    assert_eq!(users.len(), 1);
    assert_eq!(users[0].telegram_id, 2);
}

#[test]
fn added_users_have_ids_in_the_order_of_their_creation() {
    let mut repo = InMemoryUserRepository::new();
    for telegram_id in 0..200 {
        repo.add_birthday(telegram_id, date(2000, 6, 6)).unwrap();
    }
    let found = repo.find_birthdays_for_date(date(2026, 6, 6)).unwrap();
    assert_eq!(found.len(), 200);
    assert!(found.windows(2).all(|pair| pair[0].id.0 < pair[1].id.0));
}

#[test]
fn a_shorter_list_is_a_prefix_of_a_longer() {
    let mut repo = InMemoryUserRepository::new();
    for (telegram_id, month, day) in [(1, 7, 1), (2, 6, 8), (3, 6, 30), (4, 6, 8), (5, 6, 6)] {
        repo.add_birthday(telegram_id, date(2000, month, day)).unwrap();
    }
    let far = repo.find_birthdays_within(date(2026, 6, 6), 366).unwrap();
    let ids: Vec<u64> = far.iter().map(|(_, user)| user.telegram_id).collect();
    assert_eq!(ids, vec![5, 2, 4, 3, 1]);
    for days in 0..40u32 {
        let near = repo.find_birthdays_within(date(2026, 6, 6), days).unwrap();
        assert_eq!(near, far[..near.len()].to_vec());
        let within = far.iter().filter(|(day, _)| day.days_since(date(2026, 6, 6)) <= days as i64);
        assert_eq!(near.len(), within.count());
    }
}

#[test]
fn new_rows_have_version_7_ids() {
    let id = uuid::Uuid::parse_str(&new_row(1, date(2000, 6, 6)).id).unwrap();
    assert_eq!(id.get_version_num(), 7);
}

#[test]
fn removing_undoes_adding_and_leaves_others_alone() {
    let mut repo = InMemoryUserRepository::new();
    repo.add_birthday(1, date(2000, 6, 6)).unwrap();
    let before = repo.find_birthdays_for_date(date(2026, 6, 6)).unwrap();
    repo.add_birthday(2, date(2000, 6, 6)).unwrap();
    assert!(repo.remove_birthday(2).unwrap());
    assert_eq!(repo.find_birthdays_for_date(date(2026, 6, 6)).unwrap(), before);
}

#[test]
fn telegram_ids_keep_their_bits_in_storage() {
    for (id, number) in [
        (0u64, 0i64),
        (1, 1),
        (i64::MAX as u64, i64::MAX),
        (1 << 63, i64::MIN),
        (u64::MAX, -1),
    ] {
        assert_eq!(stored_id(id), number);
        assert_eq!(loaded_id(number), id);
    }
}

#[test]
fn rows_hold_users() {
    let row = new_row(u64::MAX, date(2000, 6, 6));
    assert_eq!(row.telegram_id, -1);
    assert_eq!(row.created_at, row.updated_at);
    let user = row_to_user(&row).unwrap();
    assert_eq!(user.telegram_id, u64::MAX);
    assert_eq!(user.birthdate, date(2000, 6, 6));
    assert_eq!(user_to_row(&user), row);
    assert!(new_row(1, date(2000, 6, 6)).id != row.id);
}

#[test]
fn the_first_invalid_row_is_reported() {
    let good = new_row(1, date(2000, 6, 6));
    let bad = UserRow { id: "nonsense".to_string(), ..good.clone() };
    let worse = UserRow { id: "".to_string(), ..good.clone() };
    let reason = |text: &str| uuid::Uuid::parse_str(text).unwrap_err().to_string();

    assert_eq!(row_to_user(&bad).unwrap_err().0, reason("nonsense"));
    assert_eq!(rows_to_users(&vec![good.clone(), good.clone()]).unwrap().len(), 2);
    assert_eq!(
        rows_to_users(&vec![good.clone(), bad.clone(), worse.clone()]).unwrap_err().0,
        reason("nonsense")
    );
    assert_eq!(rows_to_users(&vec![worse, bad]).unwrap_err().0, reason(""));
    assert_eq!(rows_to_users(&Vec::new()), Ok(Vec::new()));
}

#[test]
fn storage_errors_tell_their_reason() {
    assert_eq!(RepositoryError::Storage("disk full".to_string()).message(), "disk full");
}

#[test]
fn birthdays_and_usernames_are_kept_apart() {
    let mut repo = InMemoryUserRepository::new();
    repo.record_username("bob", 2).unwrap();
    repo.add_birthday(2, date(2000, 6, 6)).unwrap();
    let before = repo.find_birthdays_for_date(date(2026, 6, 6)).unwrap();
    repo.record_username("bob", 3).unwrap();
    assert_eq!(repo.find_birthdays_for_date(date(2026, 6, 6)).unwrap(), before);
    assert!(repo.remove_birthday(2).unwrap());
    assert_eq!(repo.resolve_username("bob").unwrap(), Some(3));
}

#[test]
fn a_year_lists_everybody_once() {
    let mut repo = InMemoryUserRepository::new();
    for (telegram_id, month, day) in [(1, 2, 29), (2, 6, 5), (3, 6, 6), (4, 6, 7), (5, 12, 31)] {
        repo.add_birthday(telegram_id, date(2000, month, day)).unwrap();
    }
    for year in [2023, 2024, 2025] {
        let found = repo.find_birthdays_within(date(year, 6, 6), 365).unwrap();
        let ids: Vec<u64> = found.iter().map(|(_, user)| user.telegram_id).collect();
        assert_eq!(ids, vec![3, 4, 5, 1, 2]);
    }
}
