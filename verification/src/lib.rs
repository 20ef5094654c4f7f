//! Editor-session activity tracker.
//!
//! The crate watches a text editor's document-change notifications, keeps a
//! per-file table of baseline and current content, and derives aggregate
//! "what is being edited" snapshots for a presence service.  Its three parts
//! are a line-level shortest-edit-script diff engine, the session-state
//! table with its snapshot aggregator, and the event-routing step function
//! that reconciles editor events, timer ticks and presence-channel health
//! signals.

pub mod context;
pub mod diff;
pub mod messages;
pub mod presence;
pub mod remote;
pub mod router;
pub mod session;
pub mod text;

pub use diff::get_diff;
pub use text::split_lines;
