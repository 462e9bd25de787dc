//! Watches databases for long-running queries and reports the ones that finish.
//!
//! The verified core holds the text formatting of a report, the snapshot diff
//! that decides which queries finished, and the poller state machine that
//! drives fetching, notification and shutdown.
pub mod duration;
pub mod message;
pub mod poller;
pub mod query;
pub mod supervisor;
pub mod text;
