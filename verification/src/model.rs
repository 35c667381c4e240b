//! The registry's state machine, stated mathematically.
//!
//! Each operation is split into two functions over the abstract table, a
//! `Map` from fingerprint to [`Record`]: one gives the result (event or
//! error), the other the table after the call.  The executable operations in
//! [`crate::registry`] promise exactly these in their `ensures`, and the
//! laws in [`crate::laws`] are proved from them.

use crate::types::{Error, EventView, Record};
use vstd::prelude::*;

verus! {

/// What registering `claim` for `caller` reports: an event when the
/// fingerprint is free, `ProofAlreadyExists` when it is already held.
pub open spec fn register_outcome(
    table: Map<Seq<u8>, Record>,
    caller: u64,
    claim: Seq<u8>,
) -> Result<EventView, Error> {
    if table.contains_key(claim) {
        Err(Error::ProofAlreadyExists)
    } else {
        Ok(EventView::ClaimCreated(caller, claim))
    }
}

/// The table after registering `claim` for `caller` at time `now`: a new
/// record when the fingerprint was free, unchanged otherwise.
pub open spec fn register_table(
    table: Map<Seq<u8>, Record>,
    caller: u64,
    claim: Seq<u8>,
    now: u64,
) -> Map<Seq<u8>, Record> {
    if table.contains_key(claim) {
        table
    } else {
        table.insert(claim, Record { owner: caller, last_modified: now })
    }
}

/// What revoking `claim` by `caller` reports: `ClaimNotExist` for an absent
/// fingerprint (existence is checked first), `NotClaimOwner` when the caller
/// does not hold it, an event otherwise.
pub open spec fn revoke_outcome(
    table: Map<Seq<u8>, Record>,
    caller: u64,
    claim: Seq<u8>,
) -> Result<EventView, Error> {
    if !table.contains_key(claim) {
        Err(Error::ClaimNotExist)
    } else if table[claim].owner != caller {
        Err(Error::NotClaimOwner)
    } else {
        Ok(EventView::ClaimRevoked(caller, claim))
    }
}

/// The table after revoking `claim` by `caller`: the entry is gone on
/// success, everything unchanged on failure.
pub open spec fn revoke_table(
    table: Map<Seq<u8>, Record>,
    caller: u64,
    claim: Seq<u8>,
) -> Map<Seq<u8>, Record> {
    if table.contains_key(claim) && table[claim].owner == caller {
        table.remove(claim)
    } else {
        table
    }
}

/// What transferring `claim` from `caller` to `dest` reports: `NoSuchProof`
/// for an absent fingerprint (existence is checked first), `NotProofOwner`
/// when the caller does not hold it, an event otherwise.  `dest` may equal
/// `caller`.
pub open spec fn transfer_outcome(
    table: Map<Seq<u8>, Record>,
    caller: u64,
    claim: Seq<u8>,
    dest: u64,
) -> Result<EventView, Error> {
    if !table.contains_key(claim) {
        Err(Error::NoSuchProof)
    } else if table[claim].owner != caller {
        Err(Error::NotProofOwner)
    } else {
        Ok(EventView::ClaimedTransferred(caller, dest, claim))
    }
}

/// The table after transferring `claim` from `caller` to `dest` at time
/// `now`: the record is replaced on success, everything unchanged on
/// failure.
pub open spec fn transfer_table(
    table: Map<Seq<u8>, Record>,
    caller: u64,
    claim: Seq<u8>,
    dest: u64,
    now: u64,
) -> Map<Seq<u8>, Record> {
    if table.contains_key(claim) && table[claim].owner == caller {
        table.insert(claim, Record { owner: dest, last_modified: now })
    } else {
        table
    }
}

} // verus!
