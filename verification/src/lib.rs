//! A URL shortener's core: short paths, link identifiers, the shortening and
//! redirect decisions, and the visit leaderboard.

pub mod codec;
pub mod error;
pub mod ids;
pub mod leaderboard;
pub mod models;
pub mod queue;
pub mod redirect;
pub mod shorten;
pub mod web;
