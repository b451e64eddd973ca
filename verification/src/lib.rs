//! A local cache of a remote social-feed timeline: the stored tables, the
//! cursor bookkeeping, the time-ordered view of the feed, the buffer the
//! reader is served from, and the engine that fills the cache backwards.

pub mod backfill;
pub mod buffer;
pub mod commands;
pub mod cursor;
pub mod handler;
pub mod json;
pub mod model;
pub mod order;
pub mod query;
pub mod sql;
pub mod store;
pub mod table;
pub mod time;
