//! End-to-end flows through the request handlers: signup and login with
//! status codes, bearer-authenticated habit CRUD, logging and progress.

use habit_core::handlers::create_habit;
use habit_core::handlers::delete_habit;
use habit_core::handlers::get_habit_progress;
use habit_core::handlers::get_habits;
use habit_core::handlers::log_habit;
use habit_core::handlers::login;
use habit_core::handlers::signup;
use habit_core::handlers::update_habit;
use habit_core::models::CreateHabit;
use habit_core::models::CreateHabitLog;
use habit_core::models::CreateUser;
use habit_core::models::Date;
use habit_core::models::LoginUser;
use habit_core::models::UpdateHabit;
use habit_core::store::Store;

fn date(year: i32, month: u8, day: u8) -> Date {
    Date { year, month, day }
}

fn create_user(name: &str, email: &str, pw: &str) -> CreateUser {
    CreateUser {
        username: name.to_string(),
        email: email.to_string(),
        password: pw.to_string(),
    }
}

fn bearer(store: &mut Store, name: &str, email: &str, pw: &str, now: usize) -> (u64, String) {
    let r = signup(store, &create_user(name, email, pw), "unit-secret", now);
    assert_eq!(r.status, 201);
    let body = r.body.unwrap();
    (body.user_id, format!("Bearer {}", body.token))
}

#[test]
fn signup_then_login_scenario() {
    let mut s = Store::new();
    let now = 10_000;
    let r = signup(
        &mut s,
        &create_user("alice", "a@x.com", "secret123"),
        "unit-secret",
        now,
    );
    assert_eq!(r.status, 201);
    let body = r.body.unwrap();
    assert!(!body.token.is_empty());
    let uid = body.user_id;

    let again = signup(
        &mut s,
        &create_user("alice", "elsewhere@x.com", "secret123"),
        "unit-secret",
        now,
    );
    assert_eq!(again.status, 409);

    let wrong = login(
        &s,
        &LoginUser {
            username: "alice".to_string(),
            password: "wrong".to_string(),
        },
        "unit-secret",
        now,
    );
    assert_eq!(wrong.status, 401);
    assert!(wrong.body.is_none());

    let ok = login(
        &s,
        &LoginUser {
            username: "alice".to_string(),
            password: "secret123".to_string(),
        },
        "unit-secret",
        now,
    );
    assert_eq!(ok.status, 200);
    assert_eq!(ok.body.unwrap().user_id, uid);
}

#[test]
fn habit_log_progress_scenario() {
    let mut s = Store::new();
    let now = 20_000;
    let (_uid, header) = bearer(&mut s, "alice", "a@x.com", "pw", now);

    let created = create_habit(
        &mut s,
        Some(&header),
        &CreateHabit {
            title: "daily meditation".to_string(),
            description: "10 min".to_string(),
            frequency: "daily".to_string(),
        },
        "unit-secret",
        now,
    );
    assert_eq!(created.status, 201);
    let hid = created.body.unwrap().id;

    let first = log_habit(
        &mut s,
        Some(&header),
        hid,
        &CreateHabitLog {
            date: date(2024, 1, 1),
            status: true,
        },
        "unit-secret",
        now,
    );
    assert_eq!(first.status, 201);
    let second = log_habit(
        &mut s,
        Some(&header),
        hid,
        &CreateHabitLog {
            date: date(2024, 1, 2),
            status: false,
        },
        "unit-secret",
        now,
    );
    assert_eq!(second.status, 201);

    let progress = get_habit_progress(&s, Some(&header), hid, "unit-secret", now);
    assert_eq!(progress.status, 200);
    let p = progress.body.unwrap();
    assert_eq!(p.habit_id, hid);
    assert_eq!(p.total_days, 2);
    assert_eq!(p.completed_days, 1);
    let pct = if p.total_days > 0 {
        p.completed_days as f64 / p.total_days as f64 * 100.0
    } else {
        0.0
    };
    assert_eq!(pct, 50.0);
}

#[test]
fn handlers_refuse_missing_or_bad_token() {
    let mut s = Store::new();
    let now = 30_000;
    assert_eq!(get_habits(&s, None, "unit-secret", now).status, 401);
    assert_eq!(
        create_habit(
            &mut s,
            None,
            &CreateHabit {
                title: "t".to_string(),
                description: "d".to_string(),
                frequency: "f".to_string(),
            },
            "unit-secret",
            now,
        )
        .status,
        401
    );
    assert_eq!(
        get_habits(&s, Some("Bearer nonsense"), "unit-secret", now).status,
        401
    );
    assert_eq!(delete_habit(&mut s, None, 1, "unit-secret", now).status, 401);
}

#[test]
fn expired_token_is_unauthorized() {
    let mut s = Store::new();
    let issue_at = 40_000;
    let (_uid, header) = bearer(&mut s, "alice", "a@x.com", "pw", issue_at);
    let after_expiry = issue_at + 86_400;
    assert_eq!(get_habits(&s, Some(&header), "unit-secret", after_expiry).status, 401);
    let before_expiry = issue_at + 86_399;
    assert_eq!(get_habits(&s, Some(&header), "unit-secret", before_expiry).status, 200);
}

#[test]
fn cross_owner_access_maps_to_not_found() {
    let mut s = Store::new();
    let now = 50_000;
    let (_a, header_a) = bearer(&mut s, "alice", "a@x.com", "pw", now);
    let (_b, header_b) = bearer(&mut s, "bob", "b@x.com", "pw", now);
    let created = create_habit(
        &mut s,
        Some(&header_b),
        &CreateHabit {
            title: "bobs".to_string(),
            description: String::new(),
            frequency: "daily".to_string(),
        },
        "unit-secret",
        now,
    );
    let hid = created.body.unwrap().id;

    let upd = UpdateHabit {
        title: Some("stolen".to_string()),
        description: None,
        frequency: None,
    };
    assert_eq!(
        update_habit(&mut s, Some(&header_a), hid, &upd, "unit-secret", now).status,
        404
    );
    assert_eq!(
        log_habit(
            &mut s,
            Some(&header_a),
            hid,
            &CreateHabitLog {
                date: date(2024, 1, 1),
                status: true,
            },
            "unit-secret",
            now,
        )
        .status,
        404
    );
    assert_eq!(
        get_habit_progress(&s, Some(&header_a), hid, "unit-secret", now).status,
        404
    );
    let del = delete_habit(&mut s, Some(&header_a), hid, "unit-secret", now);
    assert_eq!(del.status, 204);
    assert_eq!(s.habits.len(), 1);
    let listed = get_habits(&s, Some(&header_b), "unit-secret", now);
    assert_eq!(listed.status, 200);
    assert_eq!(listed.body.unwrap().len(), 1);
}

#[test]
fn log_habit_rejects_impossible_date() {
    let mut s = Store::new();
    let now = 60_000;
    let (_uid, header) = bearer(&mut s, "alice", "a@x.com", "pw", now);
    let created = create_habit(
        &mut s,
        Some(&header),
        &CreateHabit {
            title: "t".to_string(),
            description: String::new(),
            frequency: "daily".to_string(),
        },
        "unit-secret",
        now,
    );
    let hid = created.body.unwrap().id;
    let bad = log_habit(
        &mut s,
        Some(&header),
        hid,
        &CreateHabitLog {
            date: date(2024, 13, 1),
            status: true,
        },
        "unit-secret",
        now,
    );
    assert_eq!(bad.status, 400);
    assert_eq!(s.logs.len(), 0);
}
