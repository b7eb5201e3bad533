//! Local mirror of the items of a OneDrive drive.
//!
//! - `item`: the items, the mirror with its running total of bytes, and the
//!   snapshot that is kept between two runs.
//! - `json`, `page`: how items and pages of the delta listing are read from
//!   JSON.
//! - `fetch`: what the fetcher does with each answer of the server.
//! - `sync`: how the batches that the fetcher hands over change the mirror,
//!   and how a synchronisation ends.
//! - `size`: the files grouped by size and content hash, which shows the
//!   duplicates.
//! - `storage`: where a snapshot is kept.
//! - `auth`: the request with which the browser comes back after sign-in.

pub mod auth;
pub mod fetch;
pub mod item;
pub mod json;
pub mod page;
pub mod size;
pub mod storage;
pub mod sync;
