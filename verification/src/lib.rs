//! Moderation-tracking core: reports, disciplinary actions, their lifecycle,
//! message-link bookkeeping, audit-edit history, and derived statistics.
//!
//! The crate models the persistence engine as a typed in-memory store and
//! proves the lifecycle rules over it: report status transitions, the
//! claimant-ownership guard, the at-most-one-action-per-report coupling, and
//! the append-only audit history.

pub mod codec;
pub mod fields;
pub mod history;
pub mod lifecycle;
pub mod model;
pub mod stats;
pub mod store;
pub mod text;
