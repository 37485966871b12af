//! Store behaviour: uniqueness on signup, uniform authentication failure,
//! upsert-log overwrite semantics, ownership isolation, partial update
//! merging, scoped listing, idempotent delete, and progress counting.

use habit_core::models::CreateHabit;
use habit_core::models::CreateUser;
use habit_core::models::Date;
use habit_core::models::LoginUser;
use habit_core::models::StoreError;
use habit_core::models::UpdateHabit;
use habit_core::store::Store;

fn date(year: i32, month: u8, day: u8) -> Date {
    Date { year, month, day }
}

fn seed_user(store: &mut Store, name: &str, email: &str, pw: &str) -> u64 {
    store
        .signup(&CreateUser {
            username: name.to_string(),
            email: email.to_string(),
            password: pw.to_string(),
        })
        .unwrap()
        .id
}

fn seed_habit(store: &mut Store, owner: u64, title: &str) -> u64 {
    store
        .create_habit(
            owner,
            &CreateHabit {
                title: title.to_string(),
                description: String::new(),
                frequency: "daily".to_string(),
            },
        )
        .unwrap()
        .id
}

#[test]
fn signup_conflicts_on_username_or_email() {
    let mut s = Store::new();
    seed_user(&mut s, "alice", "a@x.com", "pw");
    let by_name = s.signup(&CreateUser {
        username: "alice".to_string(),
        email: "other@x.com".to_string(),
        password: "pw".to_string(),
    });
    assert!(matches!(by_name, Err(StoreError::Conflict)));
    let by_email = s.signup(&CreateUser {
        username: "bob".to_string(),
        email: "a@x.com".to_string(),
        password: "pw".to_string(),
    });
    assert!(matches!(by_email, Err(StoreError::Conflict)));
    assert_eq!(s.users.len(), 1);
}

#[test]
fn authenticate_uniform_unauthorized() {
    let mut s = Store::new();
    let id = seed_user(&mut s, "alice", "a@x.com", "secret123");
    let unknown = s.authenticate(&LoginUser {
        username: "nobody".to_string(),
        password: "secret123".to_string(),
    });
    assert!(matches!(unknown, Err(StoreError::Unauthorized)));
    let wrong = s.authenticate(&LoginUser {
        username: "alice".to_string(),
        password: "wrong".to_string(),
    });
    assert!(matches!(wrong, Err(StoreError::Unauthorized)));
    let ok = s
        .authenticate(&LoginUser {
            username: "alice".to_string(),
            password: "secret123".to_string(),
        })
        .unwrap();
    assert_eq!(ok.id, id);
}

#[test]
fn upsert_log_overwrites_single_row() {
    let mut s = Store::new();
    let uid = seed_user(&mut s, "alice", "a@x.com", "pw");
    let hid = seed_habit(&mut s, uid, "meditate");
    let d = date(2024, 1, 1);
    let l1 = s.upsert_log(uid, hid, d, true).unwrap();
    assert!(l1.status);
    let l2 = s.upsert_log(uid, hid, d, false).unwrap();
    assert_eq!(l2.id, l1.id);
    assert!(!l2.status);
    assert_eq!(s.logs.len(), 1);
    assert!(!s.logs[0].status);
    let p = s.get_habit_progress(uid, hid).unwrap();
    assert_eq!(p.total_days, 1);
    assert_eq!(p.completed_days, 0);
}

#[test]
fn ownership_isolation() {
    let mut s = Store::new();
    let a = seed_user(&mut s, "alice", "a@x.com", "pw");
    let b = seed_user(&mut s, "bob", "b@x.com", "pw");
    let hid = seed_habit(&mut s, b, "bobs habit");
    let upd = UpdateHabit {
        title: Some("stolen".to_string()),
        description: None,
        frequency: None,
    };
    assert!(matches!(
        s.update_habit(a, hid, &upd),
        Err(StoreError::NotFound)
    ));
    assert!(!s.delete_habit(a, hid));
    assert!(matches!(
        s.upsert_log(a, hid, date(2024, 1, 1), true),
        Err(StoreError::NotFound)
    ));
    assert!(matches!(
        s.get_habit_progress(a, hid),
        Err(StoreError::NotFound)
    ));
    assert_eq!(s.habits.len(), 1);
    assert_eq!(s.habits[0].title, "bobs habit");
    assert!(s.update_habit(b, hid, &upd).is_ok());
}

#[test]
fn progress_zero_without_logs() {
    let mut s = Store::new();
    let uid = seed_user(&mut s, "alice", "a@x.com", "pw");
    let hid = seed_habit(&mut s, uid, "read");
    let p = s.get_habit_progress(uid, hid).unwrap();
    assert_eq!(p.total_days, 0);
    assert_eq!(p.completed_days, 0);
    let pct = if p.total_days > 0 {
        p.completed_days as f64 / p.total_days as f64 * 100.0
    } else {
        0.0
    };
    assert_eq!(pct, 0.0);
}

#[test]
fn partial_update_keeps_unspecified_fields() {
    let mut s = Store::new();
    let uid = seed_user(&mut s, "alice", "a@x.com", "pw");
    let h = s
        .create_habit(
            uid,
            &CreateHabit {
                title: "run".to_string(),
                description: "5k".to_string(),
                frequency: "weekly".to_string(),
            },
        )
        .unwrap();
    let out = s
        .update_habit(
            uid,
            h.id,
            &UpdateHabit {
                title: Some("sprint".to_string()),
                description: None,
                frequency: None,
            },
        )
        .unwrap();
    assert_eq!(out.title, "sprint");
    assert_eq!(out.description, "5k");
    assert_eq!(out.frequency, "weekly");
    let untouched = s
        .update_habit(
            uid,
            h.id,
            &UpdateHabit {
                title: None,
                description: None,
                frequency: None,
            },
        )
        .unwrap();
    assert_eq!(untouched.title, "sprint");
    assert_eq!(untouched.description, "5k");
    assert_eq!(untouched.frequency, "weekly");
}

#[test]
fn list_habits_scoped_and_ordered() {
    let mut s = Store::new();
    let a = seed_user(&mut s, "alice", "a@x.com", "pw");
    let b = seed_user(&mut s, "bob", "b@x.com", "pw");
    let h1 = seed_habit(&mut s, a, "one");
    let h2 = seed_habit(&mut s, b, "two");
    let h3 = seed_habit(&mut s, a, "three");
    let of_a = s.list_habits(a);
    assert_eq!(of_a.len(), 2);
    assert_eq!(of_a[0].id, h1);
    assert_eq!(of_a[1].id, h3);
    assert!(of_a[0].id < of_a[1].id);
    let of_b = s.list_habits(b);
    assert_eq!(of_b.len(), 1);
    assert_eq!(of_b[0].id, h2);
}

#[test]
fn delete_is_idempotent() {
    let mut s = Store::new();
    let uid = seed_user(&mut s, "alice", "a@x.com", "pw");
    let hid = seed_habit(&mut s, uid, "gone");
    assert!(s.delete_habit(uid, hid));
    assert!(!s.delete_habit(uid, hid));
    assert_eq!(s.habits.len(), 0);
}

#[test]
fn logs_for_two_dates_count_separately() {
    let mut s = Store::new();
    let uid = seed_user(&mut s, "alice", "a@x.com", "pw");
    let hid = seed_habit(&mut s, uid, "meditate");
    s.upsert_log(uid, hid, date(2024, 1, 1), true).unwrap();
    s.upsert_log(uid, hid, date(2024, 1, 2), false).unwrap();
    assert_eq!(s.logs.len(), 2);
    let p = s.get_habit_progress(uid, hid).unwrap();
    assert_eq!(p.total_days, 2);
    assert_eq!(p.completed_days, 1);
}
