//! The local store: drafts and notices in memory, session history in SQLite.
//! Queries, retries and limits are decided here; the database is the caller's.
pub mod records;
pub mod retry;
pub mod sqlite;
