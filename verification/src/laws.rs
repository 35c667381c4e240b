//! Laws of the registry's state machine, proved over the transition
//! functions of [`crate::model`].

use crate::model::{
    register_outcome, register_table, revoke_outcome, revoke_table, transfer_outcome,
    transfer_table,
};
use crate::types::{Error, EventView, Record};
use vstd::prelude::*;

verus! {

/// A fingerprint nobody holds can be registered by anyone: the registrant
/// becomes the owner, and a second registration, by any actor and at any
/// time, is refused with `ProofAlreadyExists` and changes nothing.
pub proof fn lemma_register_unclaimed(
    table: Map<Seq<u8>, Record>,
    a: u64,
    b: u64,
    f: Seq<u8>,
    now: u64,
    later: u64,
)
    requires
        !table.contains_key(f),
    ensures
        register_outcome(table, a, f) == Ok::<EventView, Error>(EventView::ClaimCreated(a, f)),
        register_table(table, a, f, now)[f] == (Record { owner: a, last_modified: now }),
        register_outcome(register_table(table, a, f, now), b, f) == Err::<EventView, Error>(
            Error::ProofAlreadyExists,
        ),
        register_table(register_table(table, a, f, now), b, f, later) == register_table(
            table,
            a,
            f,
            now,
        ),
{
}

/// The owner of a fingerprint, and only the owner, can revoke it: the entry
/// is then gone, while a revocation by anyone else is refused with
/// `NotClaimOwner` and changes nothing.
pub proof fn lemma_revoke_owner_only(table: Map<Seq<u8>, Record>, a: u64, b: u64, f: Seq<u8>)
    requires
        table.contains_key(f),
        table[f].owner == a,
        b != a,
    ensures
        revoke_outcome(table, a, f) == Ok::<EventView, Error>(EventView::ClaimRevoked(a, f)),
        !revoke_table(table, a, f).contains_key(f),
        revoke_outcome(table, b, f) == Err::<EventView, Error>(Error::NotClaimOwner),
        revoke_table(table, b, f) == table,
{
}

/// On a fingerprint nobody holds, revocation and transfer are refused with
/// `ClaimNotExist` and `NoSuchProof` respectively, and change nothing.
pub proof fn lemma_absent_fingerprint(
    table: Map<Seq<u8>, Record>,
    a: u64,
    f: Seq<u8>,
    dest: u64,
    now: u64,
)
    requires
        !table.contains_key(f),
    ensures
        revoke_outcome(table, a, f) == Err::<EventView, Error>(Error::ClaimNotExist),
        revoke_table(table, a, f) == table,
        transfer_outcome(table, a, f, dest) == Err::<EventView, Error>(Error::NoSuchProof),
        transfer_table(table, a, f, dest, now) == table,
{
}

/// The owner of a fingerprint, and only the owner, can transfer it: the
/// receiver becomes the owner and the record carries the time of the call,
/// while a transfer by anyone else is refused with `NotProofOwner` and
/// changes nothing.
pub proof fn lemma_transfer_owner_only(
    table: Map<Seq<u8>, Record>,
    a: u64,
    b: u64,
    c: u64,
    f: Seq<u8>,
    now: u64,
)
    requires
        table.contains_key(f),
        table[f].owner == a,
        c != a,
    ensures
        transfer_outcome(table, a, f, b) == Ok::<EventView, Error>(
            EventView::ClaimedTransferred(a, b, f),
        ),
        transfer_table(table, a, f, b, now)[f] == (Record { owner: b, last_modified: now }),
        transfer_outcome(table, c, f, b) == Err::<EventView, Error>(Error::NotProofOwner),
        transfer_table(table, c, f, b, now) == table,
{
}

/// Re-registration after revocation: once the owner revokes a fingerprint,
/// any actor can register it again and becomes its owner.
pub proof fn lemma_reregister_after_revoke(
    table: Map<Seq<u8>, Record>,
    a: u64,
    b: u64,
    f: Seq<u8>,
    now0: u64,
    now1: u64,
)
    requires
        !table.contains_key(f),
    ensures
        ({
            let t1 = register_table(table, a, f, now0);
            let t2 = revoke_table(t1, a, f);
            &&& revoke_outcome(t1, a, f) == Ok::<EventView, Error>(EventView::ClaimRevoked(a, f))
            &&& register_outcome(t2, b, f) == Ok::<EventView, Error>(
                EventView::ClaimCreated(b, f),
            )
            &&& register_table(t2, b, f, now1)[f] == (Record { owner: b, last_modified: now1 })
        }),
{
}

/// Self-transfer: the owner may transfer a fingerprint to itself; ownership
/// is unchanged and the record carries the time of the call.
pub proof fn lemma_self_transfer(table: Map<Seq<u8>, Record>, a: u64, f: Seq<u8>, now: u64)
    requires
        table.contains_key(f),
        table[f].owner == a,
    ensures
        transfer_outcome(table, a, f, a) == Ok::<EventView, Error>(
            EventView::ClaimedTransferred(a, a, f),
        ),
        transfer_table(table, a, f, a, now)[f] == (Record { owner: a, last_modified: now }),
        transfer_table(table, a, f, a, now).dom() == table.dom(),
{
    assert(transfer_table(table, a, f, a, now).dom() =~= table.dom());
}

} // verus!
