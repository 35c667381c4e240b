//! The values the registry stores and reports: ownership records, events
//! on success, and the error taxonomy for rejected operations.

use vstd::prelude::*;

verus! {

/// What the table holds for a claimed fingerprint: the identity of the
/// current owner and the logical time (the host's block number) at which
/// ownership was last set.
#[derive(Clone, Copy, PartialEq, Eq, Structural, Debug)]
pub struct Record {
    pub owner: u64,
    pub last_modified: u64,
}

/// Why an operation was rejected.  Each variant is tied to exactly one
/// operation and one failed check; no operation mutates the table when it
/// returns one of these.
#[derive(Clone, Copy, PartialEq, Eq, Structural, Debug)]
pub enum Error {
    /// `create_claim` on a fingerprint that is already in the table.
    ProofAlreadyExists,
    /// `revoke_claim` on a fingerprint that is not in the table.
    ClaimNotExist,
    /// `revoke_claim` by an actor other than the recorded owner.
    NotClaimOwner,
    /// `transfer_claim` on a fingerprint that is not in the table.
    NoSuchProof,
    /// `transfer_claim` by an actor other than the recorded owner.
    NotProofOwner,
    /// The request carried no valid signer.
    Unauthenticated,
}

/// The notification a successful operation hands back to the host: who acted
/// and on which fingerprint (and, for a transfer, who received the claim).
#[derive(Clone, PartialEq, Eq, Debug)]
pub enum Event {
    ClaimCreated(u64, Vec<u8>),
    ClaimRevoked(u64, Vec<u8>),
    ClaimedTransferred(u64, u64, Vec<u8>),
}

/// The mathematical image of an [`Event`]: the fingerprint as a byte
/// sequence, identities as they are.
pub ghost enum EventView {
    ClaimCreated(u64, Seq<u8>),
    ClaimRevoked(u64, Seq<u8>),
    ClaimedTransferred(u64, u64, Seq<u8>),
}

impl View for Event {
    type V = EventView;

    open spec fn view(&self) -> EventView {
        match self {
            Event::ClaimCreated(who, claim) => EventView::ClaimCreated(*who, claim@),
            Event::ClaimRevoked(who, claim) => EventView::ClaimRevoked(*who, claim@),
            Event::ClaimedTransferred(from, to, claim) => EventView::ClaimedTransferred(
                *from,
                *to,
                claim@,
            ),
        }
    }
}

/// The mathematical image of an operation's result: the event by its view,
/// the error as it is.
pub open spec fn result_view(r: Result<Event, Error>) -> Result<EventView, Error> {
    match r {
        Ok(e) => Ok(e@),
        Err(e) => Err(e),
    }
}

} // verus!
