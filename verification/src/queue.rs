//! The messages that announce visits on the visit queue.

use vstd::prelude::*;

use crate::error::URLError;
use crate::ids::ObjectId;

verus! {

/// The message that announces a visit of a record: the 12 bytes of the
/// record's identifier.
pub fn visit_message(id: &ObjectId) -> (r: Vec<u8>)
    ensures
        r@ == id.bytes@,
{
    let b = id.bytes;
    let r = vec![b[0], b[1], b[2], b[3], b[4], b[5], b[6], b[7], b[8], b[9], b[10], b[11]];
    assert(r@ =~= id.bytes@);
    r
}

/// Reads the identifier of a visited record from a visit message; a message
/// of any other length than 12 bytes names no record.
pub fn visit_from_message(payload: &[u8]) -> (r: Option<ObjectId>)
    ensures
        r is Some <==> payload@.len() == 12,
        r matches Some(id) ==> id.bytes@ == payload@,
{
    if payload.len() != 12 {
        return None;
    }
    let p = payload;
    let bytes: [u8; 12] = [p[0], p[1], p[2], p[3], p[4], p[5], p[6], p[7], p[8], p[9], p[10], p[11]];
    assert(bytes@ =~= payload@);
    Some(ObjectId { bytes })
}

/// A visit message reads back as the identifier it was written for: an
/// identifier read from the bytes of another is that identifier.
pub proof fn lemma_visit_message_reads_back(id: ObjectId, read: ObjectId)
    requires
        read.bytes@ == id.bytes@,
    ensures
        read == id,
{
    assert(read.bytes =~= id.bytes);
}


/// How long a queued write that the store refused waits before it is tried
/// again, in seconds.
pub const WRITE_RETRY_SECS: u64 = 5;

/// What becomes of a queued write (a new record or a visit) after one try.
#[derive(Debug, Clone, Copy, PartialEq, Eq, Structural)]
pub enum WriteAction {
    /// The store took the write; the next message can be handled.
    Done,
    /// The store refused or could not be reached: try the same write again
    /// after `secs` seconds.
    RetryAfter { secs: u64 },
}

/// One try of a queued write: a write that the store took is done, and one
/// that failed is tried again `WRITE_RETRY_SECS` later, so that every queued
/// write is kept until it is stored.
pub fn write_step(outcome: Result<(), URLError>) -> (r: WriteAction)
    ensures
        outcome is Ok ==> r == WriteAction::Done,
        outcome is Err ==> r == (WriteAction::RetryAfter { secs: WRITE_RETRY_SECS }),
{
    match outcome {
        Ok(()) => WriteAction::Done,
        Err(_) => WriteAction::RetryAfter { secs: WRITE_RETRY_SECS },
    }
}

} // verus!
