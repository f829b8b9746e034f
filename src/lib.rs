//! Scheduling core of a documentation build service.
//!
//! - [`queue`]: the priority build queue, with deduplication, the queue lock
//!   and the registry watcher's resume reference.
//! - [`priority`] and [`pattern`]: default priorities by `LIKE` pattern over
//!   crate names.
//! - [`watcher`]: the resumable registry watcher that feeds the queue.
//! - [`maintenance`]: the audit that rebuilds releases whose archive index is
//!   corrupt or too large.
//! - [`consistency`]: acting on differences between registry and builds.
//! - [`limits`]: per-crate sandbox limit overrides.
//! - [`commands`]: decisions administrative commands take from their
//!   arguments.

pub mod pattern;
pub mod priority;
pub mod queue;
pub mod watcher;
pub mod maintenance;
pub mod consistency;
pub mod limits;
pub mod commands;
