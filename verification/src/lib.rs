//! Read-optimised, per-viewer snapshots of live tournament ("arena") state.
//!
//! The authoritative state of an arena lives in a store and changes often.
//! This library holds what stands between the store and a reader:
//!
//! - [`ranking`] turns the ranking source of an arena into a rank table;
//! - [`paging`] cuts the standing into pages;
//! - [`arena`] holds the canonical record of an arena and projects it into the
//!   response for one viewer and one page;
//! - [`record`] lays a response out as named fields, leaving out what is absent;
//! - [`cache`] keeps the latest snapshot of each arena, lets concurrent readers
//!   share one fetch, and takes invalidations;
//! - [`listener`] says what to do with each report of the invalidation channel;
//! - [`error`] names the failures and how each is surfaced;
//! - [`opt`] holds the settings that callers hand on.
//!
//! The library computes and decides. Its callers do the waiting, the fetching
//! and the encoding.

pub mod arena;
pub mod cache;
pub mod error;
pub mod listener;
pub mod opt;
pub mod paging;
pub mod ranking;
pub mod record;
