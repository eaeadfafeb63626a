//! Verified core of a chat-workspace history exporter: paging through a
//! channel's history, folding thread replies into export records, ordering
//! them by timestamp, memoizing user names and rendering transcripts.

pub mod auth;
pub mod conversations;
pub mod export;
pub mod names;
pub mod ordering;
pub mod paginator;
pub mod reconcile;
pub mod timestamp;
pub mod user;
