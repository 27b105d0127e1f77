//! The records that the service stores, caches and answers with.

use vstd::prelude::*;

use crate::ids::{ObjectId, Uuid};

verus! {

/// A shortened address as stored: its record identifier, the identifier of
/// its address, the address and its short path.
#[derive(Debug, Clone)]
pub struct ShortenedURL {
    pub _id: ObjectId,
    pub idx: Uuid,
    pub long_url: String,
    pub shortened_url: String,
}

/// How often the records of one shortened address were visited.
#[derive(Debug, Clone, Copy)]
pub struct AggregationResult {
    pub _id: ObjectId,
    pub count: u32,
}

/// One line of the leaderboard: an address and how often it was visited.
#[derive(Debug, Clone)]
pub struct LeaderboardItem {
    pub url: String,
    pub count: u32,
}

} // verus!
