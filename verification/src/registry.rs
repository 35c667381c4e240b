//! The registry itself: one table from fingerprint to [`Record`], and the
//! three operations over it.
//!
//! The table is kept as a vector of pairs with pairwise-distinct keys; its
//! abstract value, [`Pallet::table`], is the `Map` the entries denote.  Each
//! operation promises exactly the transition and outcome stated in
//! [`crate::model`].

use crate::model::{
    register_outcome, register_table, revoke_outcome, revoke_table, transfer_outcome,
    transfer_table,
};
use crate::types::{result_view, Error, Event, Record};
use vstd::prelude::*;

verus! {

/// The map denoted by a sequence of key/record pairs, later entries taking
/// precedence (the registry keeps its keys distinct, so precedence never
/// matters for it).
spec fn table_of(entries: Seq<(Vec<u8>, Record)>) -> Map<Seq<u8>, Record>
    decreases entries.len(),
{
    if entries.len() == 0 {
        Map::empty()
    } else {
        table_of(entries.drop_last()).insert(entries.last().0@, entries.last().1)
    }
}

/// No two entries share a key.
spec fn distinct_keys(entries: Seq<(Vec<u8>, Record)>) -> bool {
    forall|i: int, j: int|
        0 <= i < j < entries.len() ==> entries[i].0@ != entries[j].0@
}

/// A key is in the denoted map exactly when some entry holds it.
proof fn lemma_table_of_contains(entries: Seq<(Vec<u8>, Record)>, k: Seq<u8>)
    ensures
        table_of(entries).contains_key(k) <==> exists|i: int|
            0 <= i < entries.len() && entries[i].0@ == k,
    decreases entries.len(),
{
    if entries.len() > 0 {
        lemma_table_of_contains(entries.drop_last(), k);
        if table_of(entries).contains_key(k) {
            if k == entries.last().0@ {
                assert(entries[entries.len() - 1].0@ == k);
            } else {
                let i = choose|i: int|
                    0 <= i < entries.drop_last().len() && entries.drop_last()[i].0@ == k;
                assert(entries[i].0@ == k);
            }
        }
        if exists|i: int| 0 <= i < entries.len() && entries[i].0@ == k {
            let i = choose|i: int| 0 <= i < entries.len() && entries[i].0@ == k;
            if i < entries.len() - 1 {
                assert(entries.drop_last()[i].0@ == k);
            }
        }
    }
}

/// With distinct keys, the denoted map sends each entry's key to its record.
proof fn lemma_table_of_index(entries: Seq<(Vec<u8>, Record)>, i: int)
    requires
        distinct_keys(entries),
        0 <= i < entries.len(),
    ensures
        table_of(entries).contains_key(entries[i].0@),
        table_of(entries)[entries[i].0@] == entries[i].1,
    decreases entries.len(),
{
    if i < entries.len() - 1 {
        assert forall|x: int, y: int|
            0 <= x < y < entries.drop_last().len() implies entries.drop_last()[x].0@
            != entries.drop_last()[y].0@ by {
            assert(entries[x].0@ != entries[y].0@);
        }
        lemma_table_of_index(entries.drop_last(), i);
        assert(entries.drop_last()[i] == entries[i]);
        assert(entries[i].0@ != entries.last().0@);
    }
}

/// Appending a pair inserts its key into the denoted map.
proof fn lemma_table_of_push(entries: Seq<(Vec<u8>, Record)>, p: (Vec<u8>, Record))
    ensures
        table_of(entries.push(p)) == table_of(entries).insert(p.0@, p.1),
{
    assert(entries.push(p).drop_last() =~= entries);
    assert(entries.push(p).last() == p);
}

/// With distinct keys, dropping the entry at `i` removes its key from the
/// denoted map, keeps the keys distinct, and leaves no entry with that key.
proof fn lemma_table_of_remove(entries: Seq<(Vec<u8>, Record)>, i: int)
    requires
        distinct_keys(entries),
        0 <= i < entries.len(),
    ensures
        table_of(entries.remove(i)) == table_of(entries).remove(entries[i].0@),
        distinct_keys(entries.remove(i)),
        forall|j: int|
            0 <= j < entries.remove(i).len() ==> entries.remove(i)[j].0@ != entries[i].0@,
    decreases entries.len(),
{
    let k = entries[i].0@;
    lemma_table_of_contains(entries.drop_last(), k);
    if i == entries.len() - 1 {
        assert(entries.remove(i) =~= entries.drop_last());
        assert(!table_of(entries.drop_last()).contains_key(k)) by {
            assert forall|j: int|
                0 <= j < entries.drop_last().len() implies entries.drop_last()[j].0@ != k by {
                assert(entries[j].0@ != entries[i].0@);
            }
        }
        assert(table_of(entries).remove(k) =~= table_of(entries.drop_last()));
    } else {
        assert forall|x: int, y: int|
            0 <= x < y < entries.drop_last().len() implies entries.drop_last()[x].0@
            != entries.drop_last()[y].0@ by {
            assert(entries[x].0@ != entries[y].0@);
        }
        lemma_table_of_remove(entries.drop_last(), i);
        assert(entries.remove(i).drop_last() =~= entries.drop_last().remove(i));
        assert(entries.remove(i).last() == entries.last());
        assert(entries.last().0@ != k);
        assert(table_of(entries).remove(k) =~= table_of(entries.drop_last()).remove(k).insert(
            entries.last().0@,
            entries.last().1,
        ));
        assert(table_of(entries.remove(i)) =~= table_of(entries).remove(k));
    }
}

/// With distinct keys, the denoted map has exactly one key per entry.
proof fn lemma_table_of_len(entries: Seq<(Vec<u8>, Record)>)
    requires
        distinct_keys(entries),
    ensures
        table_of(entries).dom().finite(),
        table_of(entries).dom().len() == entries.len(),
    decreases entries.len(),
{
    if entries.len() > 0 {
        let k = entries.last().0@;
        assert forall|x: int, y: int|
            0 <= x < y < entries.drop_last().len() implies entries.drop_last()[x].0@
            != entries.drop_last()[y].0@ by {
            assert(entries[x].0@ != entries[y].0@);
        }
        lemma_table_of_len(entries.drop_last());
        lemma_table_of_contains(entries.drop_last(), k);
        assert(!table_of(entries.drop_last()).contains_key(k)) by {
            assert forall|j: int|
                0 <= j < entries.drop_last().len() implies entries.drop_last()[j].0@ != k by {
                assert(entries[j].0@ != entries[entries.len() - 1].0@);
            }
        }
        vstd::set::axiom_set_insert_len(table_of(entries.drop_last()).dom(), k);
        assert(table_of(entries).dom() =~= table_of(entries.drop_last()).dom().insert(k));
    }
}

/// Byte-for-byte equality of two fingerprints.
fn bytes_eq(a: &Vec<u8>, b: &Vec<u8>) -> (r: bool)
    ensures
        r <==> a@ == b@,
{
    if a.len() != b.len() {
        return false;
    }
    let mut i: usize = 0;
    while i < a.len()
        invariant
            a@.len() == b@.len(),
            i <= a@.len(),
            forall|j: int| 0 <= j < i ==> a@[j] == b@[j],
        decreases a@.len() - i,
    {
        if a[i] != b[i] {
            return false;
        }
        i += 1;
    }
    proof {
        assert(a@ =~= b@);
    }
    true
}

/// A fresh vector holding the same bytes.
fn copy_bytes(a: &Vec<u8>) -> (r: Vec<u8>)
    ensures
        r@ == a@,
{
    let mut r: Vec<u8> = Vec::new();
    let mut i: usize = 0;
    while i < a.len()
        invariant
            i <= a@.len(),
            r@ == a@.subrange(0, i as int),
        decreases a@.len() - i,
    {
        r.push(a[i]);
        proof {
            assert(r@ =~= a@.subrange(0, i + 1));
        }
        i += 1;
    }
    proof {
        assert(r@ =~= a@);
    }
    r
}

/// The host's authenticator: hands the registry the resolved signer of a
/// request, or nothing when the request carried no valid signature.
pub fn ensure_signed(origin: Option<u64>) -> (r: Result<u64, Error>)
    ensures
        match r {
            Ok(who) => origin == Some(who),
            Err(e) => origin is None && e == Error::Unauthenticated,
        },
{
    match origin {
        Some(who) => Ok(who),
        None => Err(Error::Unauthenticated),
    }
}

/// The registry: a table from fingerprint to its current [`Record`].
pub struct Pallet {
    proofs: Vec<(Vec<u8>, Record)>,
}

impl Pallet {
    /// The entries keep pairwise-distinct keys, so each fingerprint has
    /// exactly one current owner.
    pub closed spec fn wf(self) -> bool {
        distinct_keys(self.proofs@)
    }

    /// The abstract table: fingerprint to record.
    pub closed spec fn table(self) -> Map<Seq<u8>, Record> {
        table_of(self.proofs@)
    }

    /// An empty registry.
    pub fn new() -> (r: Pallet)
        ensures
            r.wf(),
            r.table() == Map::<Seq<u8>, Record>::empty(),
    {
        Pallet { proofs: Vec::new() }
    }

    /// The index of the entry holding `claim`, if any.
    fn find_index(&self, claim: &Vec<u8>) -> (r: Option<usize>)
        ensures
            match r {
                Some(i) => i < self.proofs@.len() && self.proofs@[i as int].0@ == claim@,
                None => forall|j: int| 0 <= j < self.proofs@.len() ==> self.proofs@[j].0@ != claim@,
            },
    {
        let mut i: usize = 0;
        while i < self.proofs.len()
            invariant
                i <= self.proofs@.len(),
                forall|j: int| 0 <= j < i ==> self.proofs@[j].0@ != claim@,
            decreases self.proofs@.len() - i,
        {
            if bytes_eq(&self.proofs[i].0, claim) {
                return Some(i);
            }
            i += 1;
        }
        None
    }

    /// The record under `claim`, if the fingerprint is in the table.
    pub fn get_claim(&self, claim: &Vec<u8>) -> (r: Option<Record>)
        requires
            self.wf(),
        ensures
            match r {
                Some(rec) => self.table().contains_key(claim@) && self.table()[claim@] == rec,
                None => !self.table().contains_key(claim@),
            },
    {
        proof {
            lemma_table_of_contains(self.proofs@, claim@);
        }
        match self.find_index(claim) {
            Some(i) => {
                proof {
                    lemma_table_of_index(self.proofs@, i as int);
                }
                Some(self.proofs[i].1)
            },
            None => None,
        }
    }

    /// How many fingerprints are claimed.
    pub fn claim_count(&self) -> (n: usize)
        requires
            self.wf(),
        ensures
            n == self.table().dom().len(),
    {
        proof {
            lemma_table_of_len(self.proofs@);
        }
        self.proofs.len()
    }

    /// Register `claim` for `caller` at time `now`.  Fails with
    /// `ProofAlreadyExists` when the fingerprint is already held; on success
    /// the new record carries `caller` and `now`, and the event says so.
    pub fn create_claim(&mut self, caller: u64, claim: Vec<u8>, now: u64) -> (r: Result<
        Event,
        Error,
    >)
        requires
            old(self).wf(),
        ensures
            final(self).wf(),
            final(self).table() == register_table(old(self).table(), caller, claim@, now),
            result_view(r) == register_outcome(old(self).table(), caller, claim@),
    {
        proof {
            lemma_table_of_contains(self.proofs@, claim@);
        }
        match self.find_index(&claim) {
            Some(_) => Err(Error::ProofAlreadyExists),
            None => {
                let key = copy_bytes(&claim);
                let record = Record { owner: caller, last_modified: now };
                proof {
                    lemma_table_of_push(self.proofs@, (key, record));
                }
                self.proofs.push((key, record));
                Ok(Event::ClaimCreated(caller, claim))
            },
        }
    }

    /// Revoke `claim` on behalf of `caller`.  Fails with `ClaimNotExist` for
    /// an absent fingerprint and `NotClaimOwner` for a caller that does not
    /// hold it (in that order); on success the entry is gone.
    pub fn revoke_claim(&mut self, caller: u64, claim: Vec<u8>) -> (r: Result<Event, Error>)
        requires
            old(self).wf(),
        ensures
            final(self).wf(),
            final(self).table() == revoke_table(old(self).table(), caller, claim@),
            result_view(r) == revoke_outcome(old(self).table(), caller, claim@),
    {
        proof {
            lemma_table_of_contains(self.proofs@, claim@);
        }
        match self.find_index(&claim) {
            None => Err(Error::ClaimNotExist),
            Some(i) => {
                proof {
                    lemma_table_of_index(self.proofs@, i as int);
                }
                if self.proofs[i].1.owner != caller {
                    Err(Error::NotClaimOwner)
                } else {
                    proof {
                        lemma_table_of_remove(self.proofs@, i as int);
                    }
                    let _ = self.proofs.remove(i);
                    Ok(Event::ClaimRevoked(caller, claim))
                }
            },
        }
    }

    /// Transfer `claim` from `caller` to `dest` at time `now`.  Fails with
    /// `NoSuchProof` for an absent fingerprint and `NotProofOwner` for a
    /// caller that does not hold it (in that order); on success the record
    /// carries `dest` and `now`.  `dest` may equal `caller`.
    pub fn transfer_claim(&mut self, caller: u64, claim: Vec<u8>, dest: u64, now: u64) -> (r:
        Result<Event, Error>)
        requires
            old(self).wf(),
        ensures
            final(self).wf(),
            final(self).table() == transfer_table(old(self).table(), caller, claim@, dest, now),
            result_view(r) == transfer_outcome(old(self).table(), caller, claim@, dest),
    {
        proof {
            lemma_table_of_contains(self.proofs@, claim@);
        }
        match self.find_index(&claim) {
            None => Err(Error::NoSuchProof),
            Some(i) => {
                proof {
                    lemma_table_of_index(self.proofs@, i as int);
                }
                if self.proofs[i].1.owner != caller {
                    Err(Error::NotProofOwner)
                } else {
                    proof {
                        lemma_table_of_remove(self.proofs@, i as int);
                    }
                    let entry = self.proofs.remove(i);
                    let record = Record { owner: dest, last_modified: now };
                    proof {
                        lemma_table_of_push(self.proofs@, (entry.0, record));
                    }
                    self.proofs.push((entry.0, record));
                    proof {
                        assert(self.table() =~= transfer_table(
                            old(self).table(),
                            caller,
                            claim@,
                            dest,
                            now,
                        ));
                    }
                    Ok(Event::ClaimedTransferred(caller, dest, claim))
                }
            },
        }
    }
}

} // verus!
