//! Core of a habit-tracking service: credential handling, token issuing and
//! validation, an ownership-scoped store of habits and habit logs, and
//! completion statistics, with machine-checked contracts.

pub mod auth;
pub mod handlers;
pub mod ident;
pub mod models;
pub mod store;
