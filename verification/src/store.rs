//! The resource store: accounts, habits and habit logs held in memory, every
//! operation scoped to the owning identity, with the uniqueness and
//! ownership invariants stated and preserved.

use crate::auth::bcrypt_matches;
use crate::auth::bcrypt_wf;
use crate::auth::hash_password;
use crate::auth::verify_password;
use crate::models::CreateHabit;
use crate::models::CreateUser;
use crate::models::Date;
use crate::models::Habit;
use crate::models::HabitLog;
use crate::models::HabitProgress;
use crate::models::LoginUser;
use crate::models::StoreError;
use crate::models::UpdateHabit;
use crate::models::User;
use vstd::prelude::*;

verus! {

/// Some account carries this username.
pub open spec fn has_user_named(users: Seq<User>, name: Seq<char>) -> bool {
    exists|i: int| 0 <= i < users.len() && users[i].username@ == name
}

/// Some account carries this email.
pub open spec fn has_user_email(users: Seq<User>, email: Seq<char>) -> bool {
    exists|i: int| 0 <= i < users.len() && users[i].email@ == email
}

/// A habit with this id exists and belongs to this identity.
pub open spec fn owned_habit_exists(habits: Seq<Habit>, user_id: u64, habit_id: u64) -> bool {
    exists|i: int|
        0 <= i < habits.len() && habits[i].id == habit_id && habits[i].user_id == user_id
}

/// A log row for this (habit, date) key exists.
pub open spec fn log_exists(logs: Seq<HabitLog>, habit_id: u64, date: Date) -> bool {
    exists|i: int| 0 <= i < logs.len() && logs[i].habit_id == habit_id && logs[i].date == date
}

/// At most one log row per (habit, date).
pub open spec fn logs_unique_keys(logs: Seq<HabitLog>) -> bool {
    forall|i: int, j: int|
        0 <= i < j < logs.len() ==> !(logs[i].habit_id == logs[j].habit_id && logs[i].date
            == logs[j].date)
}

/// Account invariants: ids below the counter, ids, usernames and emails
/// pairwise distinct, and every stored secret a well-formed bcrypt secret —
/// so verification against a stored secret never reports it malformed.
pub open spec fn users_wf(users: Seq<User>, next_user_id: u64) -> bool {
    &&& forall|i: int| 0 <= i < users.len() ==> (#[trigger] users[i].id) < next_user_id
    &&& forall|i: int, j: int| 0 <= i < j < users.len() ==> users[i].id != users[j].id
    &&& forall|i: int, j: int|
        0 <= i < j < users.len() ==> users[i].username@ != users[j].username@
    &&& forall|i: int, j: int| 0 <= i < j < users.len() ==> users[i].email@ != users[j].email@
    &&& forall|i: int| 0 <= i < users.len() ==> bcrypt_wf((#[trigger] users[i]).password_hash@)
}

/// Habit invariants: ids below the counter and strictly ascending, so ids
/// are unique and listing preserves id order.
pub open spec fn habits_wf(habits: Seq<Habit>, next_habit_id: u64) -> bool {
    &&& forall|i: int| 0 <= i < habits.len() ==> (#[trigger] habits[i].id) < next_habit_id
    &&& forall|i: int, j: int| 0 <= i < j < habits.len() ==> habits[i].id < habits[j].id
}

/// Log invariants: ids below the counter, unique keys, well-formed dates.
pub open spec fn logs_wf(logs: Seq<HabitLog>, next_log_id: u64) -> bool {
    &&& forall|i: int| 0 <= i < logs.len() ==> (#[trigger] logs[i].id) < next_log_id
    &&& logs_unique_keys(logs)
    &&& forall|i: int| 0 <= i < logs.len() ==> (#[trigger] logs[i].date).wf()
}

/// The persistent state: every operation requires and preserves `wf`.
pub struct Store {
    pub users: Vec<User>,
    pub habits: Vec<Habit>,
    pub logs: Vec<HabitLog>,
    pub next_user_id: u64,
    pub next_habit_id: u64,
    pub next_log_id: u64,
}

/// Two stores hold the same state, field by field.
pub open spec fn same_state(a: Store, b: Store) -> bool {
    &&& a.users@ == b.users@
    &&& a.habits@ == b.habits@
    &&& a.logs@ == b.logs@
    &&& a.next_user_id == b.next_user_id
    &&& a.next_habit_id == b.next_habit_id
    &&& a.next_log_id == b.next_log_id
}

/// The habits of one identity, in stored (id-ascending) order.
pub open spec fn habits_of(habits: Seq<Habit>, user_id: u64) -> Seq<Habit>
    decreases habits.len(),
{
    if habits.len() == 0 {
        Seq::empty()
    } else if habits.last().user_id == user_id {
        habits_of(habits.drop_last(), user_id).push(habits.last())
    } else {
        habits_of(habits.drop_last(), user_id)
    }
}

/// How many log rows a habit has.
pub open spec fn count_logs(logs: Seq<HabitLog>, habit_id: u64) -> nat
    decreases logs.len(),
{
    if logs.len() == 0 {
        0
    } else {
        count_logs(logs.drop_last(), habit_id) + if logs.last().habit_id == habit_id {
            1nat
        } else {
            0nat
        }
    }
}

/// How many log rows a habit has with completed status.
pub open spec fn count_done(logs: Seq<HabitLog>, habit_id: u64) -> nat
    decreases logs.len(),
{
    if logs.len() == 0 {
        0
    } else {
        count_done(logs.drop_last(), habit_id) + if logs.last().habit_id == habit_id
            && logs.last().status {
            1nat
        } else {
            0nat
        }
    }
}

/// What fields a partial update leaves on a habit: a given field replaces
/// the stored one, an absent field keeps it; id and owner never change.
pub open spec fn merge_spec(cur: Habit, upd: UpdateHabit) -> Habit {
    Habit {
        id: cur.id,
        user_id: cur.user_id,
        title: match upd.title {
            Some(t) => t,
            None => cur.title,
        },
        description: match upd.description {
            Some(d) => d,
            None => cur.description,
        },
        frequency: match upd.frequency {
            Some(f) => f,
            None => cur.frequency,
        },
    }
}

/// Some owned habit at an index of `pre` carries the key, `h` is its merge
/// with the update, and `post` is `pre` with that slot replaced by `h`.
pub open spec fn updated_at(
    pre: Seq<Habit>,
    post: Seq<Habit>,
    user_id: u64,
    habit_id: u64,
    data: UpdateHabit,
    h: Habit,
) -> bool {
    exists|i: int|
        0 <= i < pre.len() && pre[i].id == habit_id && pre[i].user_id == user_id && h == merge_spec(
            pre[i],
            data,
        ) && post == pre.update(i, h)
}

/// Some owned habit at an index of `pre` carries the key and `post` is
/// `pre` with that slot removed.
pub open spec fn removed_at(pre: Seq<Habit>, post: Seq<Habit>, user_id: u64, habit_id: u64) -> bool {
    exists|i: int|
        0 <= i < pre.len() && pre[i].id == habit_id && pre[i].user_id == user_id && post
            == pre.remove(i)
}

/// Some log row at an index of `pre` carries the (habit, date) key, `l` is
/// that row with the new status and the old id, and `post` is `pre` with
/// that slot replaced by `l`.
pub open spec fn overwrote_at(
    pre: Seq<HabitLog>,
    post: Seq<HabitLog>,
    habit_id: u64,
    date: Date,
    l: HabitLog,
) -> bool {
    exists|j: int|
        0 <= j < pre.len() && pre[j].habit_id == habit_id && pre[j].date == date && l.id == pre[j].id
            && post == pre.update(j, l)
}

fn clone_user(u: &User) -> (r: User)
    ensures
        r == *u,
{
    User {
        id: u.id,
        username: u.username.clone(),
        email: u.email.clone(),
        password_hash: u.password_hash.clone(),
    }
}

fn clone_habit(h: &Habit) -> (r: Habit)
    ensures
        r == *h,
{
    Habit {
        id: h.id,
        user_id: h.user_id,
        title: h.title.clone(),
        description: h.description.clone(),
        frequency: h.frequency.clone(),
    }
}

/// Fetch-then-merge of a partial update, independent of storage.
pub fn merge_habit(cur: &Habit, upd: &UpdateHabit) -> (r: Habit)
    ensures
        r == merge_spec(*cur, *upd),
{
    Habit {
        id: cur.id,
        user_id: cur.user_id,
        title: match &upd.title {
            Some(t) => t.clone(),
            None => cur.title.clone(),
        },
        description: match &upd.description {
            Some(d) => d.clone(),
            None => cur.description.clone(),
        },
        frequency: match &upd.frequency {
            Some(f) => f.clone(),
            None => cur.frequency.clone(),
        },
    }
}

fn find_user_by_name(users: &Vec<User>, name: &String) -> (r: Option<usize>)
    ensures
        r matches Some(i) ==> i < users@.len() && users@[i as int].username@ == name@,
        r is None ==> !has_user_named(users@, name@),
{
    let mut i: usize = 0;
    while i < users.len()
        invariant
            i <= users@.len(),
            forall|j: int| 0 <= j < i ==> users@[j].username@ != name@,
        decreases users@.len() - i,
    {
        if users[i].username == *name {
            return Some(i);
        }
        i += 1;
    }
    None
}

fn find_user_by_email(users: &Vec<User>, email: &String) -> (r: Option<usize>)
    ensures
        r matches Some(i) ==> i < users@.len() && users@[i as int].email@ == email@,
        r is None ==> !has_user_email(users@, email@),
{
    let mut i: usize = 0;
    while i < users.len()
        invariant
            i <= users@.len(),
            forall|j: int| 0 <= j < i ==> users@[j].email@ != email@,
        decreases users@.len() - i,
    {
        if users[i].email == *email {
            return Some(i);
        }
        i += 1;
    }
    None
}

fn find_owned_habit(habits: &Vec<Habit>, user_id: u64, habit_id: u64) -> (r: Option<usize>)
    ensures
        r matches Some(i) ==> i < habits@.len() && habits@[i as int].id == habit_id
            && habits@[i as int].user_id == user_id,
        r is None ==> !owned_habit_exists(habits@, user_id, habit_id),
{
    let mut i: usize = 0;
    while i < habits.len()
        invariant
            i <= habits@.len(),
            forall|j: int|
                0 <= j < i ==> !(habits@[j].id == habit_id && habits@[j].user_id == user_id),
        decreases habits@.len() - i,
    {
        if habits[i].id == habit_id && habits[i].user_id == user_id {
            return Some(i);
        }
        i += 1;
    }
    None
}

fn find_log(logs: &Vec<HabitLog>, habit_id: u64, date: Date) -> (r: Option<usize>)
    ensures
        r matches Some(i) ==> i < logs@.len() && logs@[i as int].habit_id == habit_id
            && logs@[i as int].date == date,
        r is None ==> !log_exists(logs@, habit_id, date),
{
    let mut i: usize = 0;
    while i < logs.len()
        invariant
            i <= logs@.len(),
            forall|j: int| 0 <= j < i ==> !(logs@[j].habit_id == habit_id && logs@[j].date == date),
        decreases logs@.len() - i,
    {
        if logs[i].habit_id == habit_id && logs[i].date.year == date.year && logs[i].date.month
            == date.month && logs[i].date.day == date.day {
            return Some(i);
        }
        i += 1;
    }
    None
}

impl Store {
    /// Store invariant: see `users_wf`, `habits_wf` and `logs_wf`.
    pub open spec fn wf(self) -> bool {
        &&& users_wf(self.users@, self.next_user_id)
        &&& habits_wf(self.habits@, self.next_habit_id)
        &&& logs_wf(self.logs@, self.next_log_id)
    }

    /// An empty store, with all three id counters starting at one.
    pub fn new() -> (s: Store)
        ensures
            s.wf(),
            s.users@ == Seq::<User>::empty(),
            s.habits@ == Seq::<Habit>::empty(),
            s.logs@ == Seq::<HabitLog>::empty(),
            s.next_user_id == 1,
            s.next_habit_id == 1,
            s.next_log_id == 1,
    {
        Store {
            users: Vec::new(),
            habits: Vec::new(),
            logs: Vec::new(),
            next_user_id: 1,
            next_habit_id: 1,
            next_log_id: 1,
        }
    }

    /// Registers an account: `Conflict` exactly when the username or the
    /// email is taken; otherwise the account is appended with a fresh id and
    /// a bcrypt secret that verifies against the given password. `Internal`
    /// is owed when the id space is exhausted; beyond that it arises only
    /// from a hashing failure.
    pub fn signup(&mut self, data: &CreateUser) -> (r: Result<User, StoreError>)
        requires
            old(self).wf(),
        ensures
            final(self).wf(),
            r == Err::<User, StoreError>(StoreError::Conflict) <==> has_user_named(
                old(self).users@,
                data.username@,
            ) || has_user_email(old(self).users@, data.email@),
            !(has_user_named(old(self).users@, data.username@) || has_user_email(
                old(self).users@,
                data.email@,
            )) && old(self).next_user_id == u64::MAX ==> r == Err::<User, StoreError>(
                StoreError::Internal,
            ),
            r is Err ==> same_state(*final(self), *old(self)) && (r == Err::<User, StoreError>(
                StoreError::Conflict,
            ) || r == Err::<User, StoreError>(StoreError::Internal)),
            r matches Ok(u) ==> u.id == old(self).next_user_id && u.username@ == data.username@
                && u.email@ == data.email@ && bcrypt_matches(data.password@, u.password_hash@)
                && final(self).users@ == old(self).users@.push(u) && final(self).next_user_id
                == old(self).next_user_id + 1 && final(self).habits@ == old(self).habits@ && final(self).logs@ == old(self).logs@ && final(self).next_habit_id == old(self).next_habit_id
                && final(self).next_log_id == old(self).next_log_id,
    {
        if find_user_by_name(&self.users, &data.username).is_some() {
            return Err(StoreError::Conflict);
        }
        if find_user_by_email(&self.users, &data.email).is_some() {
            return Err(StoreError::Conflict);
        }
        if self.next_user_id == u64::MAX {
            return Err(StoreError::Internal);
        }
        match hash_password(data.password.as_str()) {
            Err(_) => Err(StoreError::Internal),
            Ok(h) => {
                let user = User {
                    id: self.next_user_id,
                    username: data.username.clone(),
                    email: data.email.clone(),
                    password_hash: h,
                };
                let out = clone_user(&user);
                self.users.push(user);
                self.next_user_id = self.next_user_id + 1;
                Ok(out)
            },
        }
    }

    /// Authenticates by username and password. Success comes exactly when a
    /// stored account carries the username and its secret verifies against
    /// the password — the stored secrets are well-formed, so verification
    /// itself never fails. An unknown username and a wrong password yield
    /// the same `Unauthorized`.
    pub fn authenticate(&self, data: &LoginUser) -> (r: Result<User, StoreError>)
        requires
            self.wf(),
        ensures
            r is Ok <==> (exists|i: int|
                0 <= i < self.users@.len() && self.users@[i].username@ == data.username@
                    && bcrypt_matches(data.password@, self.users@[i].password_hash@)),
            r matches Ok(u) ==> (exists|i: int|
                0 <= i < self.users@.len() && self.users@[i].username@ == data.username@ && u
                    == self.users@[i]) && bcrypt_matches(data.password@, u.password_hash@),
            r is Err ==> r == Err::<User, StoreError>(StoreError::Unauthorized),
    {
        match find_user_by_name(&self.users, &data.username) {
            None => Err(StoreError::Unauthorized),
            Some(i) => {
                proof {
                    assert(bcrypt_wf(self.users@[i as int].password_hash@));
                }
                match verify_password(data.password.as_str(), self.users[i].password_hash.as_str()) {
                    Err(_) => Err(StoreError::Internal),
                    Ok(true) => Ok(clone_user(&self.users[i])),
                    Ok(false) => {
                        proof {
                            assert forall|j: int|
                                0 <= j < self.users@.len() && self.users@[j].username@
                                    == data.username@ implies !bcrypt_matches(
                                data.password@,
                                self.users@[j].password_hash@,
                            ) by {
                                if j < i as int {
                                    assert(self.users@[j].username@ != self.users@[
                                        i as int].username@);
                                } else if j > i as int {
                                    assert(self.users@[i as int].username@ != self.users@[
                                        j].username@);
                                }
                            }
                        }
                        Err(StoreError::Unauthorized)
                    },
                }
            },
        }
    }

    /// Creates a habit owned by `user_id`, appended with a fresh id; fails
    /// only when the id space is exhausted.
    pub fn create_habit(&mut self, user_id: u64, data: &CreateHabit) -> (r: Result<
        Habit,
        StoreError,
    >)
        requires
            old(self).wf(),
        ensures
            final(self).wf(),
            r is Err <==> old(self).next_habit_id == u64::MAX,
            r is Err ==> same_state(*final(self), *old(self)) && r == Err::<Habit, StoreError>(
                StoreError::Internal,
            ),
            r matches Ok(h) ==> h.id == old(self).next_habit_id && h.user_id == user_id && h.title@
                == data.title@ && h.description@ == data.description@ && h.frequency@
                == data.frequency@ && final(self).habits@ == old(self).habits@.push(h) && final(self).next_habit_id == old(self).next_habit_id + 1 && final(self).users@ == old(
                self,
            ).users@ && final(self).logs@ == old(self).logs@ && final(self).next_user_id == old(
                self,
            ).next_user_id && final(self).next_log_id == old(self).next_log_id,
    {
        if self.next_habit_id == u64::MAX {
            return Err(StoreError::Internal);
        }
        let habit = Habit {
            id: self.next_habit_id,
            user_id,
            title: data.title.clone(),
            description: data.description.clone(),
            frequency: data.frequency.clone(),
        };
        let out = clone_habit(&habit);
        self.habits.push(habit);
        self.next_habit_id = self.next_habit_id + 1;
        Ok(out)
    }

    /// The caller's habits, in stored order: ascending by id.
    pub fn list_habits(&self, user_id: u64) -> (r: Vec<Habit>)
        requires
            self.wf(),
        ensures
            r@ == habits_of(self.habits@, user_id),
    {
        let mut out: Vec<Habit> = Vec::new();
        let mut i: usize = 0;
        while i < self.habits.len()
            invariant
                i <= self.habits@.len(),
                out@ == habits_of(self.habits@.take(i as int), user_id),
            decreases self.habits@.len() - i,
        {
            proof {
                assert(self.habits@.take(i + 1).drop_last() =~= self.habits@.take(i as int));
                assert(self.habits@.take(i + 1).last() == self.habits@[i as int]);
            }
            if self.habits[i].user_id == user_id {
                out.push(clone_habit(&self.habits[i]));
            }
            i += 1;
        }
        proof {
            assert(self.habits@.take(self.habits@.len() as int) =~= self.habits@);
        }
        out
    }

    /// Partial update of an owned habit: `NotFound` exactly when no habit
    /// with that id is owned by `user_id` (foreign habits are invisible);
    /// otherwise the stored habit becomes the merge of old and update.
    pub fn update_habit(&mut self, user_id: u64, habit_id: u64, data: &UpdateHabit) -> (r: Result<
        Habit,
        StoreError,
    >)
        requires
            old(self).wf(),
        ensures
            final(self).wf(),
            r is Err <==> !owned_habit_exists(old(self).habits@, user_id, habit_id),
            r is Err ==> same_state(*final(self), *old(self)) && r == Err::<Habit, StoreError>(
                StoreError::NotFound,
            ),
            r matches Ok(h) ==> updated_at(
                old(self).habits@,
                final(self).habits@,
                user_id,
                habit_id,
                *data,
                h,
            ) && final(self).users@ == old(self).users@ && final(self).logs@ == old(self).logs@
                && final(self).next_user_id == old(self).next_user_id && final(self).next_habit_id
                == old(self).next_habit_id && final(self).next_log_id == old(self).next_log_id,
    {
        match find_owned_habit(&self.habits, user_id, habit_id) {
            None => Err(StoreError::NotFound),
            Some(i) => {
                let merged = merge_habit(&self.habits[i], data);
                let out = clone_habit(&merged);
                self.habits.set(i, merged);
                proof {
                    let gi = i as int;
                    assert(old(self).habits@[gi].id == habit_id);
                    assert(old(self).habits@[gi].user_id == user_id);
                    assert(out == merge_spec(old(self).habits@[gi], *data));
                    assert(self.habits@ == old(self).habits@.update(gi, out));
                    assert(updated_at(
                        old(self).habits@,
                        self.habits@,
                        user_id,
                        habit_id,
                        *data,
                        out,
                    ));
                }
                Ok(out)
            },
        }
    }

    /// Deletes an owned habit. The flag reports whether a row went away; a
    /// missing or foreign id deletes nothing and is not an error.
    pub fn delete_habit(&mut self, user_id: u64, habit_id: u64) -> (r: bool)
        requires
            old(self).wf(),
        ensures
            final(self).wf(),
            r == owned_habit_exists(old(self).habits@, user_id, habit_id),
            !r ==> same_state(*final(self), *old(self)),
            r ==> removed_at(old(self).habits@, final(self).habits@, user_id, habit_id) && final(self).users@ == old(self).users@ && final(self).logs@ == old(self).logs@ && final(self).next_user_id == old(self).next_user_id && final(self).next_habit_id == old(
                self,
            ).next_habit_id && final(self).next_log_id == old(self).next_log_id,
    {
        match find_owned_habit(&self.habits, user_id, habit_id) {
            None => false,
            Some(i) => {
                self.habits.remove(i);
                true
            },
        }
    }

    /// Inserts or overwrites the log row keyed by (habit, date): `NotFound`
    /// exactly when the habit is not owned by `user_id`; an existing row
    /// keeps its id and takes the new status, a fresh row gets a fresh id.
    /// `Internal` comes exactly when a fresh row meets an exhausted id
    /// space — on an owned habit, re-logging a date always succeeds.
    pub fn upsert_log(&mut self, user_id: u64, habit_id: u64, date: Date, status: bool) -> (r:
        Result<HabitLog, StoreError>)
        requires
            old(self).wf(),
            date.wf(),
        ensures
            final(self).wf(),
            !owned_habit_exists(old(self).habits@, user_id, habit_id) <==> r == Err::<
                HabitLog,
                StoreError,
            >(StoreError::NotFound),
            r is Err ==> same_state(*final(self), *old(self)) && (r == Err::<HabitLog, StoreError>(
                StoreError::NotFound,
            ) || r == Err::<HabitLog, StoreError>(StoreError::Internal)),
            r == Err::<HabitLog, StoreError>(StoreError::Internal) <==> owned_habit_exists(
                old(self).habits@,
                user_id,
                habit_id,
            ) && !log_exists(old(self).logs@, habit_id, date) && old(self).next_log_id
                == u64::MAX,
            r matches Ok(l) ==> l.habit_id == habit_id && l.date == date && l.status == status
                && final(self).users@ == old(self).users@ && final(self).habits@ == old(
                self,
            ).habits@ && final(self).next_user_id == old(self).next_user_id && final(self).next_habit_id == old(self).next_habit_id,
            r matches Ok(l) ==> (log_exists(old(self).logs@, habit_id, date) ==> overwrote_at(
                old(self).logs@,
                final(self).logs@,
                habit_id,
                date,
                l,
            ) && final(self).next_log_id == old(self).next_log_id),
            r matches Ok(l) ==> (!log_exists(old(self).logs@, habit_id, date) ==> l.id == old(
                self,
            ).next_log_id && final(self).logs@ == old(self).logs@.push(l) && final(self).next_log_id == old(self).next_log_id + 1),
    {
        match find_owned_habit(&self.habits, user_id, habit_id) {
            None => Err(StoreError::NotFound),
            Some(hi) => {
                proof {
                    assert(old(self).habits@[hi as int].id == habit_id);
                    assert(owned_habit_exists(old(self).habits@, user_id, habit_id));
                }
                match find_log(&self.logs, habit_id, date) {
                    Some(j) => {
                        let l = HabitLog {
                            id: self.logs[j].id,
                            habit_id,
                            date,
                            status,
                        };
                        self.logs.set(j, l);
                        proof {
                            let gj = j as int;
                            assert(old(self).logs@[gj].habit_id == habit_id);
                            assert(old(self).logs@[gj].date == date);
                            assert(log_exists(old(self).logs@, habit_id, date));
                            assert(self.logs@ == old(self).logs@.update(gj, l));
                            assert(overwrote_at(old(self).logs@, self.logs@, habit_id, date, l));
                        }
                        Ok(l)
                    },
                    None => {
                        if self.next_log_id == u64::MAX {
                            return Err(StoreError::Internal);
                        }
                        let l = HabitLog { id: self.next_log_id, habit_id, date, status };
                        self.logs.push(l);
                        self.next_log_id = self.next_log_id + 1;
                        Ok(l)
                    },
                }
            },
        }
    }

    /// Completion statistics of an owned habit: `NotFound` exactly when the
    /// habit is not owned by `user_id`; otherwise the two counts over the
    /// stored log rows.
    pub fn get_habit_progress(&self, user_id: u64, habit_id: u64) -> (r: Result<
        HabitProgress,
        StoreError,
    >)
        requires
            self.wf(),
        ensures
            r is Err <==> !owned_habit_exists(self.habits@, user_id, habit_id),
            r is Err ==> r == Err::<HabitProgress, StoreError>(StoreError::NotFound),
            r matches Ok(p) ==> p.habit_id == habit_id && p.total_days == count_logs(
                self.logs@,
                habit_id,
            ) && p.completed_days == count_done(self.logs@, habit_id),
    {
        match find_owned_habit(&self.habits, user_id, habit_id) {
            None => Err(StoreError::NotFound),
            Some(_) => {
                let mut total: u64 = 0;
                let mut done: u64 = 0;
                let mut i: usize = 0;
                while i < self.logs.len()
                    invariant
                        i <= self.logs@.len(),
                        total == count_logs(self.logs@.take(i as int), habit_id),
                        done == count_done(self.logs@.take(i as int), habit_id),
                        total <= i,
                        done <= i,
                    decreases self.logs@.len() - i,
                {
                    proof {
                        assert(self.logs@.take(i + 1).drop_last() =~= self.logs@.take(i as int));
                        assert(self.logs@.take(i + 1).last() == self.logs@[i as int]);
                    }
                    if self.logs[i].habit_id == habit_id {
                        total = total + 1;
                        if self.logs[i].status {
                            done = done + 1;
                        }
                    }
                    i += 1;
                }
                proof {
                    assert(self.logs@.take(self.logs@.len() as int) =~= self.logs@);
                }
                Ok(HabitProgress { habit_id, total_days: total, completed_days: done })
            },
        }
    }
}

/// How many log rows carry the (habit, date) key.
pub open spec fn count_key(logs: Seq<HabitLog>, habit_id: u64, date: Date) -> nat
    decreases logs.len(),
{
    if logs.len() == 0 {
        0
    } else {
        count_key(logs.drop_last(), habit_id, date) + if logs.last().habit_id == habit_id
            && logs.last().date == date {
            1nat
        } else {
            0nat
        }
    }
}

proof fn lemma_count_key_absent(logs: Seq<HabitLog>, habit_id: u64, date: Date)
    requires
        !log_exists(logs, habit_id, date),
    ensures
        count_key(logs, habit_id, date) == 0,
    decreases logs.len(),
{
    if logs.len() > 0 {
        assert(forall|i: int|
            0 <= i < logs.len() - 1 ==> logs.drop_last()[i] == logs[i]);
        assert(!log_exists(logs.drop_last(), habit_id, date));
        lemma_count_key_absent(logs.drop_last(), habit_id, date);
    }
}

proof fn lemma_count_key_one(logs: Seq<HabitLog>, habit_id: u64, date: Date)
    requires
        logs_unique_keys(logs),
        log_exists(logs, habit_id, date),
    ensures
        count_key(logs, habit_id, date) == 1,
    decreases logs.len(),
{
    let d = logs.drop_last();
    assert(forall|i: int| 0 <= i < d.len() ==> d[i] == logs[i]);
    if logs.last().habit_id == habit_id && logs.last().date == date {
        if log_exists(d, habit_id, date) {
            let i = choose|i: int|
                0 <= i < d.len() && d[i].habit_id == habit_id && d[i].date == date;
            assert(logs[i].habit_id == logs[logs.len() - 1].habit_id && logs[i].date
                == logs[logs.len() - 1].date);
            assert(false);
        }
        lemma_count_key_absent(d, habit_id, date);
    } else {
        let i = choose|i: int|
            0 <= i < logs.len() && logs[i].habit_id == habit_id && logs[i].date == date;
        assert(i < logs.len() - 1);
        assert(log_exists(d, habit_id, date));
        lemma_count_key_one(d, habit_id, date);
    }
}

/// One upsert step at the state level: it keeps keys unique, leaves a row
/// for the key, and grows the state only when the key was absent.
pub proof fn lemma_upsert_shape(
    pre: Seq<HabitLog>,
    post: Seq<HabitLog>,
    habit_id: u64,
    date: Date,
    l: HabitLog,
)
    requires
        logs_unique_keys(pre),
        l.habit_id == habit_id,
        l.date == date,
        log_exists(pre, habit_id, date) ==> overwrote_at(pre, post, habit_id, date, l),
        !log_exists(pre, habit_id, date) ==> post == pre.push(l),
    ensures
        logs_unique_keys(post),
        log_exists(post, habit_id, date),
        log_exists(pre, habit_id, date) ==> post.len() == pre.len(),
        !log_exists(pre, habit_id, date) ==> post.len() == pre.len() + 1,
{
    if log_exists(pre, habit_id, date) {
        let j = choose|j: int|
            0 <= j < pre.len() && pre[j].habit_id == habit_id && pre[j].date == date && l.id
                == pre[j].id && post == pre.update(j, l);
        assert(post[j] == l);
        assert(forall|i: int| 0 <= i < post.len() && i != j ==> post[i] == pre[i]);
        assert forall|i: int, k: int| 0 <= i < k < post.len() implies !(post[i].habit_id
            == post[k].habit_id && post[i].date == post[k].date) by {
            if i != j && k != j {
                assert(!(pre[i].habit_id == pre[k].habit_id && pre[i].date == pre[k].date));
            } else if i == j {
                assert(!(pre[j].habit_id == pre[k].habit_id && pre[j].date == pre[k].date));
            } else {
                assert(!(pre[i].habit_id == pre[j].habit_id && pre[i].date == pre[j].date));
            }
        }
    } else {
        assert(post[post.len() - 1] == l);
        assert(forall|i: int| 0 <= i < pre.len() ==> post[i] == pre[i]);
        assert forall|i: int, k: int| 0 <= i < k < post.len() implies !(post[i].habit_id
            == post[k].habit_id && post[i].date == post[k].date) by {
            if k == post.len() - 1 {
                assert(!(pre[i].habit_id == habit_id && pre[i].date == date));
            }
        }
    }
}

/// Upsert-log idempotence: after logging the same (habit, date) twice, with
/// any two statuses, exactly one row carries that key, it carries the
/// second status, and the second upsert added no row.
pub proof fn lemma_upsert_twice_one_row(
    pre: Seq<HabitLog>,
    mid: Seq<HabitLog>,
    post: Seq<HabitLog>,
    habit_id: u64,
    date: Date,
    l1: HabitLog,
    l2: HabitLog,
)
    requires
        logs_unique_keys(pre),
        l1.habit_id == habit_id && l1.date == date,
        l2.habit_id == habit_id && l2.date == date,
        log_exists(pre, habit_id, date) ==> overwrote_at(pre, mid, habit_id, date, l1),
        !log_exists(pre, habit_id, date) ==> mid == pre.push(l1),
        log_exists(mid, habit_id, date) ==> overwrote_at(mid, post, habit_id, date, l2),
        !log_exists(mid, habit_id, date) ==> post == mid.push(l2),
    ensures
        count_key(post, habit_id, date) == 1,
        post.len() == mid.len(),
        forall|i: int|
            0 <= i < post.len() && post[i].habit_id == habit_id && post[i].date == date
                ==> post[i].status == l2.status,
{
    lemma_upsert_shape(pre, mid, habit_id, date, l1);
    lemma_upsert_shape(mid, post, habit_id, date, l2);
    lemma_count_key_one(post, habit_id, date);
    let j = choose|j: int|
        0 <= j < mid.len() && mid[j].habit_id == habit_id && mid[j].date == date && l2.id
            == mid[j].id && post == mid.update(j, l2);
    assert forall|i: int|
        0 <= i < post.len() && post[i].habit_id == habit_id && post[i].date == date implies post[i].status
        == l2.status by {
        if i != j {
            assert(post[i] == mid[i]);
            assert(!(mid[i].habit_id == mid[j].habit_id && mid[i].date == mid[j].date));
        }
    }
}

/// Ownership isolation: a habit has one owner, so any other identity's
/// owned lookup of its id finds nothing — for that identity the update,
/// delete, log and progress operations all report absence.
pub proof fn lemma_ownership_isolation(
    habits: Seq<Habit>,
    next_habit_id: u64,
    owner: u64,
    other: u64,
    k: int,
)
    requires
        habits_wf(habits, next_habit_id),
        0 <= k < habits.len(),
        habits[k].user_id == owner,
        other != owner,
    ensures
        !owned_habit_exists(habits, other, habits[k].id),
{
    if owned_habit_exists(habits, other, habits[k].id) {
        let i = choose|i: int|
            0 <= i < habits.len() && habits[i].id == habits[k].id && habits[i].user_id == other;
        if i < k {
            assert(habits[i].id < habits[k].id);
        } else if k < i {
            assert(habits[k].id < habits[i].id);
        }
        assert(false);
    }
}

/// A habit with no log rows has zero total days and zero completed days —
/// its completion percentage is zero by definition, with no division.
pub proof fn lemma_zero_logs_zero_progress(logs: Seq<HabitLog>, habit_id: u64)
    requires
        forall|i: int| 0 <= i < logs.len() ==> (#[trigger] logs[i]).habit_id != habit_id,
    ensures
        count_logs(logs, habit_id) == 0,
        count_done(logs, habit_id) == 0,
    decreases logs.len(),
{
    if logs.len() > 0 {
        assert(forall|i: int|
            0 <= i < logs.len() - 1 ==> logs.drop_last()[i] == logs[i]);
        lemma_zero_logs_zero_progress(logs.drop_last(), habit_id);
    }
}

/// Listing is scoped and keeps the stored order: every listed habit is one
/// of the stored ones, belongs to the identity asked for, and ids come out
/// strictly ascending.
pub proof fn lemma_habits_of_sorted(habits: Seq<Habit>, user_id: u64)
    requires
        forall|i: int, j: int| 0 <= i < j < habits.len() ==> habits[i].id < habits[j].id,
    ensures
        forall|k: int|
            0 <= k < habits_of(habits, user_id).len() ==> (exists|i: int|
                0 <= i < habits.len() && #[trigger] habits_of(habits, user_id)[k] == habits[i]),
        forall|i: int, j: int|
            0 <= i < j < habits_of(habits, user_id).len() ==> habits_of(habits, user_id)[i].id
                < habits_of(habits, user_id)[j].id,
        forall|k: int|
            0 <= k < habits_of(habits, user_id).len() ==> habits_of(habits, user_id)[k].user_id
                == user_id,
    decreases habits.len(),
{
    if habits.len() > 0 {
        let d = habits.drop_last();
        let t = habits_of(d, user_id);
        let r = habits_of(habits, user_id);
        assert(forall|i: int| 0 <= i < d.len() ==> d[i] == habits[i]);
        lemma_habits_of_sorted(d, user_id);
        if habits.last().user_id == user_id {
            assert(r == t.push(habits.last()));
            assert forall|k: int| 0 <= k < r.len() implies (exists|i: int|
                0 <= i < habits.len() && #[trigger] r[k] == habits[i]) by {
                if k < t.len() {
                    assert(r[k] == t[k]);
                    assert(exists|i: int| 0 <= i < d.len() && t[k] == d[i]);
                    let i = choose|i: int| 0 <= i < d.len() && t[k] == d[i];
                    assert(r[k] == habits[i]);
                } else {
                    assert(r[k] == habits[habits.len() - 1]);
                }
            }
            assert forall|k: int| 0 <= k < t.len() implies t[k].id < habits.last().id by {
                assert(exists|i: int| 0 <= i < d.len() && t[k] == d[i]);
                let i = choose|i: int| 0 <= i < d.len() && t[k] == d[i];
                assert(habits[i].id < habits[habits.len() - 1].id);
            }
            assert forall|i: int, j: int| 0 <= i < j < r.len() implies r[i].id < r[j].id by {
                if j < t.len() {
                    assert(t[i].id < t[j].id);
                } else {
                    assert(r[i] == t[i]);
                    assert(r[j] == habits.last());
                }
            }
            assert forall|k: int| 0 <= k < r.len() implies r[k].user_id == user_id by {
                if k < t.len() {
                    assert(r[k] == t[k]);
                }
            }
        } else {
            assert(r == t);
        }
    }
}

/// Completed days never exceed total days: the reported percentage is
/// always between zero and one hundred.
pub proof fn lemma_done_le_total(logs: Seq<HabitLog>, habit_id: u64)
    ensures
        count_done(logs, habit_id) <= count_logs(logs, habit_id),
    decreases logs.len(),
{
    if logs.len() > 0 {
        lemma_done_le_total(logs.drop_last(), habit_id);
    }
}

} // verus!
