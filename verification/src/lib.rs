//! Core of a log-tailing moderation helper: it parses a live, append-only
//! game log into typed events, correlates player names with their stable
//! identifiers, fans events out to in-process subscribers, and keeps a
//! debounced, cancelable pending-task registry keyed by user identifier.

pub mod ban;
pub mod bus;
pub mod config;
pub mod enrich;
pub mod events;
pub mod invite;
pub mod ident;
pub mod locate;
pub mod parse;
pub mod sched;
pub mod tail;
pub mod text;
pub mod ts;
