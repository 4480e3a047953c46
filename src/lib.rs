//! Game-record synchronisation and lifetime statistics for a tile-merging
//! puzzle game.
//!
//! The library deduplicates finished games by content hash, replays their
//! move history to merge lifetime statistics, keeps the local record store,
//! and decides step by step which remote writes a request needs.

pub mod history;
pub mod leaderboard;
pub mod login;
pub mod messages;
pub mod replay;
pub mod stats;
pub mod store;
pub mod sync;
