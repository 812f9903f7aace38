//! A chat-driven reputation engine.
//!
//! The library keeps a per-user, per-room score, lets administrators map
//! emoji reactions to signed score deltas, deduplicates inbound events,
//! and throttles how often one user's reactions may change other users'
//! scores.  All state lives in an in-memory [`store::Store`]; transport
//! and persistence are left to the surrounding application, which drives
//! the engine with plain values.

pub mod autojoin;
pub mod emoji;
pub mod emoji_util;
pub mod event;
pub mod event_handler;
pub mod laws;
pub mod listing;
pub mod store;
pub mod text;
pub mod user;
pub mod user_reaction;
pub mod user_util;
pub mod user_room_data;
