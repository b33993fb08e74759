//! Verified core of a comment-viewer application: an append-only comment
//! log fed by a hot-reloadable plugin, a virtualized scrolling list over
//! that log, and a persistence codec for the saved state.
//!
//! The unverified shell around this library (windowing, the actual dynamic
//! loading, storage I/O) lives outside; everything here is pure logic with
//! contracts.

pub mod app_state;
pub mod comment_log;
pub mod label;
pub mod persist;
pub mod list_view;
pub mod message;
pub mod reloader;
pub mod sink;
