use std::cell::RefCell;
use user_directory::error::AppError;
use user_directory::numeric::{fibonacci, find_max};
use user_directory::repository::{InMemoryUserRepository, Repository, MAX_USERS};
use user_directory::service::{LogLevel, Logger, UserService, UserStats};
use user_directory::user::{is_valid_email, User, UserStatus};

struct RecordingLogger {
    events: RefCell<Vec<(LogLevel, String)>>,
}

impl RecordingLogger {
    fn new() -> Self {
        RecordingLogger { events: RefCell::new(Vec::new()) }
    }
}

impl Logger for RecordingLogger {
    fn log(&self, level: LogLevel, message: &str) {
        self.events.borrow_mut().push((level, message.to_string()));
    }
}

fn user_with(id: u32, email: &str, age: Option<u8>) -> User {
    User::new_at(id, "Someone".to_string(), email.to_string(), age, 42).unwrap()
}

#[test]
fn create_issues_identities_from_one_and_find_returns_the_user() {
    let mut repo = InMemoryUserRepository::new();
    let a = repo.create_user("Alice Johnson".to_string(), "alice@example.com".to_string(), Some(28)).unwrap();
    let b = repo.create_user("Bob Smith".to_string(), "bob@example.com".to_string(), Some(16)).unwrap();
    let c = repo.create_user("Charlie Brown".to_string(), "charlie@example.com".to_string(), None).unwrap();
    assert_eq!((a, b, c), (1, 2, 3));
    let u = repo.find_by_id(b).unwrap();
    assert_eq!(u.id, 2);
    assert_eq!(u.name, "Bob Smith");
    assert_eq!(u.email, "bob@example.com");
    assert_eq!(u.age, Some(16));
    assert_eq!(u.status, UserStatus::Active);
    assert_eq!(u.preferences.theme, "light");
    assert!(u.preferences.notifications);
    assert_eq!(u.preferences.language, "en");
}

#[test]
fn identities_are_not_reused_after_delete() {
    let mut repo = InMemoryUserRepository::new();
    let a = repo.create_user("A".to_string(), "a@x.io".to_string(), None).unwrap();
    repo.delete(a).unwrap();
    let b = repo.create_user("B".to_string(), "b@x.io".to_string(), None).unwrap();
    assert_eq!(b, 2);
}

#[test]
fn create_rejects_email_without_at_or_dot() {
    let mut repo = InMemoryUserRepository::new();
    repo.create_user("A".to_string(), "a@x.io".to_string(), None).unwrap();
    for bad in ["alice.example.com", "alice@example", "", "plain"] {
        match repo.create_user("X".to_string(), bad.to_string(), Some(30)) {
            Err(AppError::InvalidEmail(e)) => assert_eq!(e, bad),
            other => panic!("expected InvalidEmail, got {:?}", other),
        }
        assert_eq!(repo.find_all().len(), 1);
    }
    let next = repo.create_user("Y".to_string(), "y@x.io".to_string(), None).unwrap();
    assert_eq!(next, 2);
}

#[test]
fn creation_past_capacity_is_refused() {
    let mut repo = InMemoryUserRepository::new();
    for i in 0..MAX_USERS {
        let id = repo.create_user(format!("user{}", i), format!("u{}@example.com", i), Some(20)).unwrap();
        assert_eq!(id as usize, i + 1);
    }
    assert_eq!(repo.find_all().len(), 1000);
    match repo.create_user("Late".to_string(), "late@example.com".to_string(), Some(20)) {
        Err(AppError::RepositoryError(msg)) => assert_eq!(msg, "Maximum users reached"),
        other => panic!("expected RepositoryError, got {:?}", other),
    }
    match repo.create_user("Late".to_string(), "not-an-email".to_string(), None) {
        Err(AppError::RepositoryError(_)) => {}
        other => panic!("expected RepositoryError, got {:?}", other),
    }
    assert_eq!(repo.find_all().len(), 1000);
}

#[test]
fn save_does_not_check_capacity() {
    let mut repo = InMemoryUserRepository::new();
    for i in 0..MAX_USERS {
        repo.create_user(format!("user{}", i), format!("u{}@example.com", i), None).unwrap();
    }
    repo.save(user_with(5000, "extra@example.com", None)).unwrap();
    assert_eq!(repo.find_all().len(), 1001);
}

#[test]
fn delete_then_find_fails_with_not_found() {
    let mut repo = InMemoryUserRepository::new();
    let a = repo.create_user("A".to_string(), "a@x.io".to_string(), Some(40)).unwrap();
    repo.create_user("B".to_string(), "b@x.io".to_string(), Some(40)).unwrap();
    assert!(repo.delete(a).is_ok());
    match repo.find_by_id(a) {
        Err(AppError::UserNotFound(id)) => assert_eq!(id, a),
        other => panic!("expected UserNotFound, got {:?}", other),
    }
    assert_eq!(repo.find_all().len(), 1);
}

#[test]
fn delete_of_absent_identity_fails() {
    let mut repo = InMemoryUserRepository::new();
    repo.create_user("A".to_string(), "a@x.io".to_string(), None).unwrap();
    match repo.delete(7) {
        Err(AppError::UserNotFound(id)) => assert_eq!(id, 7),
        other => panic!("expected UserNotFound, got {:?}", other),
    }
    assert_eq!(repo.find_all().len(), 1);
}

#[test]
fn find_of_unissued_identity_fails() {
    let mut repo = InMemoryUserRepository::new();
    repo.create_user("A".to_string(), "a@x.io".to_string(), None).unwrap();
    for id in [0u32, 2, 999, u32::MAX] {
        match repo.find_by_id(id) {
            Err(AppError::UserNotFound(got)) => assert_eq!(got, id),
            other => panic!("expected UserNotFound, got {:?}", other),
        }
    }
}

#[test]
fn stats_over_three_users() {
    let mut repo = InMemoryUserRepository::new();
    repo.create_user("Alice Johnson".to_string(), "alice@example.com".to_string(), Some(28)).unwrap();
    repo.create_user("Bob Smith".to_string(), "bob@example.com".to_string(), Some(16)).unwrap();
    repo.create_user("Charlie Brown".to_string(), "charlie@example.com".to_string(), None).unwrap();
    let service = UserService::new(repo, RecordingLogger::new());
    assert_eq!(service.get_user_stats(), UserStats { total: 3, adults: 1, active: 3, minors: 2 });
}

#[test]
fn stats_count_only_active_status() {
    let mut repo = InMemoryUserRepository::new();
    repo.create_user("A".to_string(), "a@x.io".to_string(), Some(18)).unwrap();
    let mut b = user_with(2, "b@x.io", Some(70));
    b.update_status(UserStatus::Inactive);
    repo.save(b).unwrap();
    let mut c = user_with(3, "c@x.io", Some(5));
    c.update_status(UserStatus::Pending);
    repo.save(c).unwrap();
    let service = UserService::new(repo, RecordingLogger::new());
    assert_eq!(service.get_user_stats(), UserStats { total: 3, adults: 2, active: 1, minors: 1 });
}

#[test]
fn stats_of_empty_repository() {
    let service = UserService::new(InMemoryUserRepository::new(), RecordingLogger::new());
    assert_eq!(service.get_user_stats(), UserStats { total: 0, adults: 0, active: 0, minors: 0 });
}

#[test]
fn save_twice_equals_save_once() {
    let mut once = InMemoryUserRepository::new();
    let mut twice = InMemoryUserRepository::new();
    once.create_user("A".to_string(), "a@x.io".to_string(), None).unwrap();
    twice.create_user("A".to_string(), "a@x.io".to_string(), None).unwrap();
    let u = user_with(1, "changed@x.io", Some(33));
    once.save(u.clone()).unwrap();
    twice.save(u.clone()).unwrap();
    twice.save(u).unwrap();
    assert_eq!(once.find_all().len(), twice.find_all().len());
    let (a, b) = (once.find_by_id(1).unwrap(), twice.find_by_id(1).unwrap());
    assert_eq!(format!("{:?}", a), format!("{:?}", b));
    assert_eq!(b.email, "changed@x.io");
    let next_once = once.create_user("N".to_string(), "n@x.io".to_string(), None).unwrap();
    let next_twice = twice.create_user("N".to_string(), "n@x.io".to_string(), None).unwrap();
    assert_eq!(next_once, next_twice);
}

#[test]
fn save_replaces_without_checking_email() {
    let mut repo = InMemoryUserRepository::new();
    let mut u = user_with(9, "ok@x.io", None);
    u.email = "no-at-sign".to_string();
    repo.save(u).unwrap();
    assert_eq!(repo.find_by_id(9).unwrap().email, "no-at-sign");
}

#[test]
fn is_adult_boundaries() {
    assert!(!user_with(1, "a@x.io", None).is_adult());
    assert!(!user_with(1, "a@x.io", Some(17)).is_adult());
    assert!(user_with(1, "a@x.io", Some(18)).is_adult());
    assert!(user_with(1, "a@x.io", Some(200)).is_adult());
    assert!(!user_with(1, "a@x.io", Some(0)).is_adult());
}

#[test]
fn update_status_replaces_any_status() {
    let mut u = user_with(4, "a@x.io", Some(30));
    u.update_status(UserStatus::Pending);
    assert_eq!(u.status, UserStatus::Pending);
    u.update_status(UserStatus::Active);
    assert_eq!(u.status, UserStatus::Active);
    assert_eq!(u.id, 4);
}

#[test]
fn email_check_is_permissive() {
    assert!(is_valid_email("a@b.c"));
    assert!(is_valid_email(".@"));
    assert!(is_valid_email("x.y@z"));
    assert!(is_valid_email("ü@ß.de"));
    assert!(!is_valid_email("a@b"));
    assert!(!is_valid_email("a.b"));
    assert!(!is_valid_email(""));
}

#[test]
fn new_user_carries_inputs_and_time() {
    let u = User::new_at(12, "Dee".to_string(), "d@e.f".to_string(), Some(45), 1_700_000_000).unwrap();
    assert_eq!(u.created_at, 1_700_000_000);
    assert_eq!(u.id, 12);
    let now = User::new(13, "Eve".to_string(), "e@f.g".to_string(), None).unwrap();
    assert!(now.created_at > 1_600_000_000);
    match User::new(14, "Bad".to_string(), "bad".to_string(), None) {
        Err(AppError::InvalidEmail(e)) => assert_eq!(e, "bad"),
        other => panic!("expected InvalidEmail, got {:?}", other),
    }
}

#[test]
fn create_user_at_stamps_the_given_time() {
    let mut repo = InMemoryUserRepository::new();
    let id = repo.create_user_at("A".to_string(), "a@x.io".to_string(), None, 77).unwrap();
    assert_eq!(repo.find_by_id(id).unwrap().created_at, 77);
}

#[test]
fn logger_shortcuts_pass_their_level() {
    let logger = RecordingLogger::new();
    logger.info("started");
    logger.error("failed");
    let events = logger.events.borrow();
    assert_eq!(events.len(), 2);
    assert_eq!(events[0], (LogLevel::Info, "started".to_string()));
    assert_eq!(events[1], (LogLevel::Error, "failed".to_string()));
}

#[test]
fn fibonacci_first_numbers() {
    assert_eq!(fibonacci(0), Vec::<u64>::new());
    assert_eq!(fibonacci(1), vec![0]);
    assert_eq!(fibonacci(2), vec![0, 1]);
    assert_eq!(fibonacci(10), vec![0, 1, 1, 2, 3, 5, 8, 13, 21, 34]);
}

#[test]
fn fibonacci_largest_that_fits() {
    let f = fibonacci(94);
    assert_eq!(f.len(), 94);
    assert_eq!(f[93], 12200160415121876738);
}

#[test]
fn find_max_cases() {
    assert_eq!(find_max(&[1, 5, 3, 9, 2, 8]), Some(9));
    assert_eq!(find_max(&[]), None);
    assert_eq!(find_max(&[-4, -2, -7]), Some(-2));
    assert_eq!(find_max(&[6, 6]), Some(6));
}

#[test]
fn identities_keep_increasing_across_save_and_delete() {
    let mut repo = InMemoryUserRepository::new();
    let first = repo.create_user("A".to_string(), "a@x.io".to_string(), None).unwrap();
    repo.save(user_with(40, "s@x.io", Some(50))).unwrap();
    repo.delete(first).unwrap();
    let _ = repo.find_all();
    let second = repo.create_user("B".to_string(), "b@x.io".to_string(), None).unwrap();
    assert!(second > first);
    assert_eq!(second, 2);
}

#[test]
fn created_user_survives_other_calls() {
    let mut repo = InMemoryUserRepository::new();
    let id = repo.create_user("Kept".to_string(), "kept@x.io".to_string(), Some(31)).unwrap();
    let other = repo.create_user("Other".to_string(), "o@x.io".to_string(), None).unwrap();
    repo.save(user_with(77, "s@x.io", None)).unwrap();
    repo.delete(other).unwrap();
    let _ = repo.create_user("Bad".to_string(), "bad".to_string(), None);
    let u = repo.find_by_id(id).unwrap();
    assert_eq!((u.id, u.name.as_str(), u.email.as_str(), u.age), (1, "Kept", "kept@x.io", Some(31)));
    assert_eq!(u.status, UserStatus::Active);
}
