//! Adaptive polling engine for a remote notification feed.
//!
//! The library covers the state and decision logic of a notification
//! poller: a cadence controller that backs off while the feed is quiet,
//! an incremental-fetch cursor, the classification of fetch outcomes,
//! and the filter/sort pipeline applied to each batch of notifications.
//! Transport, decoding and delivery live outside the library and hand
//! plain values in and out.

pub mod cadence;
pub mod engine;
pub mod fetch;
pub mod notification;
pub mod outcome;
pub mod pipeline;
pub mod token_file;
