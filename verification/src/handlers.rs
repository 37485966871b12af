//! Request handlers: each scoped operation first extracts and validates the
//! caller's identity, then invokes the store under that identity, and maps
//! the domain outcome onto a transport status code. No handler touches data
//! without a validated identity, except signup and login.

use crate::auth::TOKEN_VALIDITY_SECS;
use crate::auth::claims_outcome;
use crate::auth::create_jwt;
use crate::auth::extract_user_id_from_token;
use crate::auth::jwt_token_of;
use crate::auth::strip_bearer_spec;
use crate::ident::dec_of;
use crate::models::AuthResponse;
use crate::models::CreateHabit;
use crate::models::CreateHabitLog;
use crate::models::CreateUser;
use crate::models::Habit;
use crate::models::HabitLog;
use crate::models::HabitProgress;
use crate::models::LoginUser;
use crate::models::StoreError;
use crate::models::UpdateHabit;
use crate::models::User;
use crate::store::Store;
use crate::store::count_done;
use crate::store::count_logs;
use crate::store::habits_of;
use crate::store::has_user_email;
use crate::store::has_user_named;
use crate::store::log_exists;
use crate::store::overwrote_at;
use crate::store::owned_habit_exists;
use crate::store::removed_at;
use crate::store::same_state;
use crate::store::updated_at;
use crate::auth::bcrypt_matches;
use vstd::prelude::*;

verus! {

/// A transport-level reply: a status code and an optional payload.
pub struct Reply<T> {
    pub status: u16,
    pub body: Option<T>,
}

/// The raw authorization header carries a bearer token issued for identity
/// `id` with expiration `exp` under `secret`, and `exp` has not passed.
pub open spec fn authd(
    auth: Option<&str>,
    secret: Seq<char>,
    now: usize,
    id: u64,
    exp: usize,
) -> bool {
    match auth {
        Some(h) => strip_bearer_spec(h@) == jwt_token_of(dec_of(id as nat), exp, secret) && now
            < exp,
        None => false,
    }
}

/// The raw authorization header carries a token issued under `secret` whose
/// claim set does not validate at `now`: the expiration has passed, or the
/// subject is no well-formed identity id.
pub open spec fn auth_rejected(
    auth: Option<&str>,
    secret: Seq<char>,
    now: usize,
    sub: Seq<char>,
    exp: usize,
) -> bool {
    match auth {
        Some(h) => strip_bearer_spec(h@) == jwt_token_of(sub, exp, secret) && claims_outcome(
            sub,
            exp,
            now,
        ) is Err,
        None => false,
    }
}

/// A successful signup or login body for identity `id` at instant `now`:
/// the token embeds `id` and the 24-hour expiration.
pub open spec fn auth_body_for(
    body: Option<AuthResponse>,
    id: u64,
    secret: Seq<char>,
    now: usize,
) -> bool {
    body matches Some(a) && a.user_id == id && a.token@ == jwt_token_of(
        dec_of(id as nat),
        (now + TOKEN_VALIDITY_SECS) as usize,
        secret,
    )
}

/// Registers an account: 409 exactly when the username or email is taken,
/// 201 with a token on success — token issuing cannot fail, so 500 arises
/// only from the store: owed on an exhausted id space, otherwise only a
/// hashing failure, and it leaves the store untouched.
pub fn signup(store: &mut Store, data: &CreateUser, secret: &str, now: usize) -> (r: Reply<
    AuthResponse,
>)
    requires
        old(store).wf(),
        now + TOKEN_VALIDITY_SECS <= usize::MAX,
    ensures
        final(store).wf(),
        r.status == 201 || r.status == 409 || r.status == 500,
        r.status == 409 <==> has_user_named(old(store).users@, data.username@) || has_user_email(
            old(store).users@,
            data.email@,
        ),
        r.status == 409 ==> same_state(*final(store), *old(store)) && r.body is None,
        r.status == 500 ==> same_state(*final(store), *old(store)) && r.body is None,
        !has_user_named(old(store).users@, data.username@) && !has_user_email(
            old(store).users@,
            data.email@,
        ) && old(store).next_user_id == u64::MAX ==> r.status == 500,
        r.status == 201 ==> (r.body matches Some(a) && a.user_id == old(store).next_user_id
            && auth_body_for(r.body, a.user_id, secret@, now)) && (exists|u: User|
            final(store).users@ == old(store).users@.push(u) && u.id == old(store).next_user_id
                && u.username@ == data.username@ && u.email@ == data.email@ && bcrypt_matches(
                data.password@,
                u.password_hash@,
            )) && final(store).next_user_id == old(store).next_user_id + 1 && final(store).habits@
            == old(store).habits@ && final(store).logs@ == old(store).logs@ && final(store).next_habit_id == old(store).next_habit_id && final(store).next_log_id == old(
            store,
        ).next_log_id,
{
    match store.signup(data) {
        Err(StoreError::Conflict) => Reply { status: 409, body: None },
        Err(_) => Reply { status: 500, body: None },
        Ok(user) => {
            match create_jwt(user.id, secret, now) {
                Err(_) => Reply { status: 500, body: None },
                Ok(token) => Reply {
                    status: 201,
                    body: Some(AuthResponse { token, user_id: user.id }),
                },
            }
        },
    }
}

/// Logs an account in: 200 with a fresh token exactly when a stored account
/// carries the username and its secret verifies against the password; 401
/// otherwise, whether the username is unknown or the password wrong — the
/// two are indistinguishable. Verification on a stored secret and token
/// issuing cannot fail, so no other outcome is possible.
pub fn login(store: &Store, data: &LoginUser, secret: &str, now: usize) -> (r: Reply<AuthResponse>)
    requires
        store.wf(),
        now + TOKEN_VALIDITY_SECS <= usize::MAX,
    ensures
        r.status == 200 || r.status == 401,
        r.status == 200 <==> (exists|i: int|
            0 <= i < store.users@.len() && store.users@[i].username@ == data.username@
                && bcrypt_matches(data.password@, store.users@[i].password_hash@)),
        r.status == 401 ==> r.body is None,
        r.status == 200 ==> (exists|i: int|
            0 <= i < store.users@.len() && store.users@[i].username@ == data.username@
                && bcrypt_matches(data.password@, store.users@[i].password_hash@) && auth_body_for(
                r.body,
                store.users@[i].id,
                secret@,
                now,
            )),
{
    match store.authenticate(data) {
        Err(StoreError::Unauthorized) => Reply { status: 401, body: None },
        Err(_) => Reply { status: 500, body: None },
        Ok(user) => {
            match create_jwt(user.id, secret, now) {
                Err(_) => Reply { status: 500, body: None },
                Ok(token) => Reply {
                    status: 200,
                    body: Some(AuthResponse { token, user_id: user.id }),
                },
            }
        },
    }
}

/// The caller's habits, id-ascending: 401 without a validated identity.
pub fn get_habits(store: &Store, auth: Option<&str>, secret: &str, now: usize) -> (r: Reply<
    Vec<Habit>,
>)
    requires
        store.wf(),
    ensures
        r.status == 200 || r.status == 401,
        auth is None ==> r.status == 401,
        r.status == 401 ==> r.body is None,
        r.status == 200 ==> r.body is Some,
        forall|sub: Seq<char>, exp: usize|
            auth_rejected(auth, secret@, now, sub, exp) ==> r.status == 401,
        forall|id: u64, exp: usize|
            authd(auth, secret@, now, id, exp) ==> r.status == 200 && (r.body matches Some(v) && v@
                == habits_of(store.habits@, id)),
{
    match auth {
        None => Reply { status: 401, body: None },
        Some(h) => {
            match extract_user_id_from_token(h, secret, now) {
                Err(_) => Reply { status: 401, body: None },
                Ok(uid) => Reply { status: 200, body: Some(store.list_habits(uid)) },
            }
        },
    }
}

/// Creates a habit for the caller: 201 with the stored habit, 401 without a
/// validated identity, 500 when the id space is exhausted.
pub fn create_habit(
    store: &mut Store,
    auth: Option<&str>,
    data: &CreateHabit,
    secret: &str,
    now: usize,
) -> (r: Reply<Habit>)
    requires
        old(store).wf(),
    ensures
        final(store).wf(),
        r.status == 201 || r.status == 401 || r.status == 500,
        auth is None ==> r.status == 401,
        r.status == 401 ==> same_state(*final(store), *old(store)) && r.body is None,
        r.status == 500 ==> same_state(*final(store), *old(store)) && r.body is None,
        r.status == 201 ==> final(store).users@ == old(store).users@ && final(store).logs@ == old(
            store,
        ).logs@ && final(store).next_user_id == old(store).next_user_id && final(store).next_log_id == old(store).next_log_id && final(store).next_habit_id == old(
            store,
        ).next_habit_id + 1,
        forall|sub: Seq<char>, exp: usize|
            auth_rejected(auth, secret@, now, sub, exp) ==> r.status == 401,
        forall|id: u64, exp: usize|
            authd(auth, secret@, now, id, exp) ==> (old(store).next_habit_id != u64::MAX
                ==> r.status == 201 && (r.body matches Some(h) && h.id == old(
                store,
            ).next_habit_id && h.user_id == id && h.title@ == data.title@ && h.description@
                == data.description@ && h.frequency@ == data.frequency@ && final(store).habits@
                == old(store).habits@.push(h))) && (old(store).next_habit_id == u64::MAX
                ==> r.status == 500),
{
    match auth {
        None => Reply { status: 401, body: None },
        Some(hdr) => {
            match extract_user_id_from_token(hdr, secret, now) {
                Err(_) => Reply { status: 401, body: None },
                Ok(uid) => {
                    match store.create_habit(uid, data) {
                        Err(_) => Reply { status: 500, body: None },
                        Ok(h) => Reply { status: 201, body: Some(h) },
                    }
                },
            }
        },
    }
}

/// Partially updates an owned habit: 200 with the merged habit; 404 when no
/// habit with that id belongs to the caller — a foreign habit is
/// indistinguishable from a missing one; 401 without a validated identity.
pub fn update_habit(
    store: &mut Store,
    auth: Option<&str>,
    habit_id: u64,
    data: &UpdateHabit,
    secret: &str,
    now: usize,
) -> (r: Reply<Habit>)
    requires
        old(store).wf(),
    ensures
        final(store).wf(),
        r.status == 200 || r.status == 401 || r.status == 404,
        auth is None ==> r.status == 401,
        r.status == 401 ==> same_state(*final(store), *old(store)) && r.body is None,
        r.status == 404 ==> same_state(*final(store), *old(store)) && r.body is None,
        r.status == 200 ==> final(store).users@ == old(store).users@ && final(store).logs@ == old(
            store,
        ).logs@ && final(store).next_user_id == old(store).next_user_id && final(store).next_habit_id == old(store).next_habit_id && final(store).next_log_id == old(
            store,
        ).next_log_id,
        forall|sub: Seq<char>, exp: usize|
            auth_rejected(auth, secret@, now, sub, exp) ==> r.status == 401,
        forall|id: u64, exp: usize|
            authd(auth, secret@, now, id, exp) ==> (owned_habit_exists(
                old(store).habits@,
                id,
                habit_id,
            ) ==> r.status == 200 && (r.body matches Some(h) && updated_at(
                old(store).habits@,
                final(store).habits@,
                id,
                habit_id,
                *data,
                h,
            ))) && (!owned_habit_exists(old(store).habits@, id, habit_id) ==> r.status == 404),
{
    match auth {
        None => Reply { status: 401, body: None },
        Some(hdr) => {
            match extract_user_id_from_token(hdr, secret, now) {
                Err(_) => Reply { status: 401, body: None },
                Ok(uid) => {
                    match store.update_habit(uid, habit_id, data) {
                        Err(_) => Reply { status: 404, body: None },
                        Ok(h) => Reply { status: 200, body: Some(h) },
                    }
                },
            }
        },
    }
}

/// Deletes an owned habit: 204 whether or not anything matched — deleting a
/// foreign or missing habit removes nothing and still reports success; 401
/// without a validated identity.
pub fn delete_habit(
    store: &mut Store,
    auth: Option<&str>,
    habit_id: u64,
    secret: &str,
    now: usize,
) -> (r: Reply<()>)
    requires
        old(store).wf(),
    ensures
        final(store).wf(),
        r.status == 204 || r.status == 401,
        auth is None ==> r.status == 401,
        r.body is None,
        r.status == 401 ==> same_state(*final(store), *old(store)),
        final(store).users@ == old(store).users@ && final(store).logs@ == old(store).logs@
            && final(store).next_user_id == old(store).next_user_id && final(store).next_habit_id == old(store).next_habit_id && final(store).next_log_id == old(
            store,
        ).next_log_id,
        forall|sub: Seq<char>, exp: usize|
            auth_rejected(auth, secret@, now, sub, exp) ==> r.status == 401,
        forall|id: u64, exp: usize|
            authd(auth, secret@, now, id, exp) ==> r.status == 204 && (owned_habit_exists(
                old(store).habits@,
                id,
                habit_id,
            ) ==> removed_at(old(store).habits@, final(store).habits@, id, habit_id))
                && (!owned_habit_exists(old(store).habits@, id, habit_id) ==> same_state(
                *final(store),
                *old(store),
            )),
{
    match auth {
        None => Reply { status: 401, body: None },
        Some(hdr) => {
            match extract_user_id_from_token(hdr, secret, now) {
                Err(_) => Reply { status: 401, body: None },
                Ok(uid) => {
                    let _removed = store.delete_habit(uid, habit_id);
                    Reply { status: 204, body: None }
                },
            }
        },
    }
}

/// Logs a day's completion for an owned habit, overwriting any row for the
/// same date: 201 with the stored row; 404 when the habit is not the
/// caller's; 400 on a date no calendar has; 401 without a validated
/// identity; 500 when the id space is exhausted.
pub fn log_habit(
    store: &mut Store,
    auth: Option<&str>,
    habit_id: u64,
    data: &CreateHabitLog,
    secret: &str,
    now: usize,
) -> (r: Reply<HabitLog>)
    requires
        old(store).wf(),
    ensures
        final(store).wf(),
        r.status == 201 || r.status == 400 || r.status == 401 || r.status == 404 || r.status
            == 500,
        auth is None ==> r.status == 401,
        r.status != 201 ==> same_state(*final(store), *old(store)) && r.body is None,
        r.status == 201 ==> final(store).users@ == old(store).users@ && final(store).habits@
            == old(store).habits@ && final(store).next_user_id == old(store).next_user_id
            && final(store).next_habit_id == old(store).next_habit_id,
        forall|sub: Seq<char>, exp: usize|
            auth_rejected(auth, secret@, now, sub, exp) ==> r.status == 401,
        forall|id: u64, exp: usize|
            authd(auth, secret@, now, id, exp) ==> (!data.date.wf() ==> r.status == 400) && (
            data.date.wf() && !owned_habit_exists(old(store).habits@, id, habit_id) ==> r.status
                == 404) && (data.date.wf() && owned_habit_exists(old(store).habits@, id, habit_id)
                ==> (r.status == 500 <==> !log_exists(old(store).logs@, habit_id, data.date)
                && old(store).next_log_id == u64::MAX) && (r.status == 201 || r.status == 500) && (
            r.status == 201 ==> (r.body matches Some(l) && l.habit_id == habit_id && l.date
                == data.date && l.status == data.status && (log_exists(
                old(store).logs@,
                habit_id,
                data.date,
            ) ==> overwrote_at(old(store).logs@, final(store).logs@, habit_id, data.date, l)
                && final(store).next_log_id == old(store).next_log_id) && (!log_exists(
                old(store).logs@,
                habit_id,
                data.date,
            ) ==> l.id == old(store).next_log_id && final(store).logs@ == old(store).logs@.push(l)
                && final(store).next_log_id == old(store).next_log_id + 1)))),
{
    match auth {
        None => Reply { status: 401, body: None },
        Some(hdr) => {
            match extract_user_id_from_token(hdr, secret, now) {
                Err(_) => Reply { status: 401, body: None },
                Ok(uid) => {
                    let d = data.date;
                    if !(1 <= d.month && d.month <= 12 && 1 <= d.day && d.day <= 31) {
                        return Reply { status: 400, body: None };
                    }
                    match store.upsert_log(uid, habit_id, d, data.status) {
                        Err(StoreError::NotFound) => Reply { status: 404, body: None },
                        Err(_) => Reply { status: 500, body: None },
                        Ok(l) => Reply { status: 201, body: Some(l) },
                    }
                },
            }
        },
    }
}

/// Completion statistics of an owned habit: 200 with the counts — the
/// percentage is completed over total, zero when nothing is logged; 404
/// when the habit is not the caller's; 401 without a validated identity.
pub fn get_habit_progress(
    store: &Store,
    auth: Option<&str>,
    habit_id: u64,
    secret: &str,
    now: usize,
) -> (r: Reply<HabitProgress>)
    requires
        store.wf(),
    ensures
        r.status == 200 || r.status == 401 || r.status == 404,
        auth is None ==> r.status == 401,
        r.status != 200 ==> r.body is None,
        r.status == 200 ==> r.body is Some,
        forall|sub: Seq<char>, exp: usize|
            auth_rejected(auth, secret@, now, sub, exp) ==> r.status == 401,
        forall|id: u64, exp: usize|
            authd(auth, secret@, now, id, exp) ==> (owned_habit_exists(
                store.habits@,
                id,
                habit_id,
            ) ==> r.status == 200 && (r.body matches Some(p) && p.habit_id == habit_id
                && p.total_days == count_logs(store.logs@, habit_id) && p.completed_days
                == count_done(store.logs@, habit_id))) && (!owned_habit_exists(
                store.habits@,
                id,
                habit_id,
            ) ==> r.status == 404),
{
    match auth {
        None => Reply { status: 401, body: None },
        Some(hdr) => {
            match extract_user_id_from_token(hdr, secret, now) {
                Err(_) => Reply { status: 401, body: None },
                Ok(uid) => {
                    match store.get_habit_progress(uid, habit_id) {
                        Err(_) => Reply { status: 404, body: None },
                        Ok(p) => Reply { status: 200, body: Some(p) },
                    }
                },
            }
        },
    }
}

} // verus!
