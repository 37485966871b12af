//! Data model of the habit tracker: accounts, habits, daily logs, progress
//! figures, and the error taxonomy that the store and the handlers share.

use vstd::prelude::*;

verus! {

/// A registered account: unique id, unique username and email, and the stored
/// password verification secret (never the plaintext password).
pub struct User {
    pub id: u64,
    pub username: String,
    pub email: String,
    pub password_hash: String,
}

/// Payload for registering a new account.
pub struct CreateUser {
    pub username: String,
    pub email: String,
    pub password: String,
}

/// Payload for logging in.
pub struct LoginUser {
    pub username: String,
    pub password: String,
}

/// A calendar date held as plain fields. Only equality of dates matters to the
/// store; `wf` rules out fields no calendar date has.
#[derive(Clone, Copy, Debug, PartialEq, Eq, Structural)]
pub struct Date {
    pub year: i32,
    pub month: u8,
    pub day: u8,
}

impl Date {
    /// Month and day lie in calendar range.
    pub open spec fn wf(self) -> bool {
        1 <= self.month <= 12 && 1 <= self.day <= 31
    }
}

/// A user-defined recurring goal. The owner (`user_id`) never changes.
pub struct Habit {
    pub id: u64,
    pub user_id: u64,
    pub title: String,
    pub description: String,
    pub frequency: String,
}

/// Payload for creating a habit.
pub struct CreateHabit {
    pub title: String,
    pub description: String,
    pub frequency: String,
}

/// Partial update of a habit: a `None` field keeps the stored value.
pub struct UpdateHabit {
    pub title: Option<String>,
    pub description: Option<String>,
    pub frequency: Option<String>,
}

/// One day's completion record for a habit; at most one per (habit, date).
#[derive(Clone, Copy, Debug, PartialEq, Eq, Structural)]
pub struct HabitLog {
    pub id: u64,
    pub habit_id: u64,
    pub date: Date,
    pub status: bool,
}

/// Payload for logging a day's completion.
pub struct CreateHabitLog {
    pub date: Date,
    pub status: bool,
}

/// Completion statistics for one habit. The completion percentage is
/// `completed_days / total_days * 100` (0 when `total_days` is 0) and is
/// derived by callers from the two counts.
#[derive(Clone, Copy, Debug, PartialEq, Eq, Structural)]
pub struct HabitProgress {
    pub habit_id: u64,
    pub total_days: u64,
    pub completed_days: u64,
}

/// Body of a successful signup or login response.
pub struct AuthResponse {
    pub token: String,
    pub user_id: u64,
}

/// Why a store operation failed, as the handler layer sees it.
#[derive(Clone, Copy, Debug, PartialEq, Eq, Structural)]
pub enum StoreError {
    /// Username or email already taken.
    Conflict,
    /// No such resource owned by the caller; absence and foreign ownership
    /// are indistinguishable.
    NotFound,
    /// Unknown username, wrong password, or missing/invalid token; the cause
    /// is never distinguished.
    Unauthorized,
    /// Hashing failure or exhausted id space; not attributable to the caller.
    Internal,
}

/// Why token validation failed.
#[derive(Clone, Copy, Debug, PartialEq, Eq, Structural)]
pub enum TokenError {
    /// Bad signature or malformed token structure.
    Invalid,
    /// The expiration instant has passed.
    Expired,
    /// The claimed identity id is not a well-formed identifier.
    Malformed,
}

} // verus!
