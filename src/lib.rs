//! A small single-user ticket tracker: validated value types, an in-memory
//! ticket store with monotonic identifiers, and snapshots of the store for
//! persistence.
pub mod error;
pub mod title;
pub mod description;
pub mod comment;
pub mod status;
pub mod draft;
pub mod store;
pub mod persistence;
pub mod command;
