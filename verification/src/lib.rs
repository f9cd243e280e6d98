//! A small todo-list library: an in-memory cache of todo items kept in sync
//! with a remote key-value store by a thin, unverified driver.
//!
//! The library owns the logic: decoding loosely-typed remote records into
//! structured items, and the cache updates that follow each remote call.
//! The driver performs the remote calls themselves and feeds their outcomes
//! back into the library.

pub mod record;
pub mod store;
