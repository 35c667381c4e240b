use poe::registry::{ensure_signed, Pallet};
use poe::types::{Error, Event, Record};

const ALICE: u64 = 1;
const BOB: u64 = 2;
const CAROL: u64 = 3;

#[test]
fn register_unclaimed_succeeds() {
    let mut p = Pallet::new();
    let r = p.create_claim(ALICE, b"fingerprint".to_vec(), 10);
    assert_eq!(r, Ok(Event::ClaimCreated(ALICE, b"fingerprint".to_vec())));
    assert_eq!(
        p.get_claim(&b"fingerprint".to_vec()),
        Some(Record { owner: ALICE, last_modified: 10 })
    );

    let again = p.create_claim(BOB, b"fingerprint".to_vec(), 11);
    assert_eq!(again, Err(Error::ProofAlreadyExists));
    assert_eq!(
        p.get_claim(&b"fingerprint".to_vec()),
        Some(Record { owner: ALICE, last_modified: 10 })
    );
}

#[test]
fn revoke_by_owner_and_by_stranger() {
    let mut p = Pallet::new();
    let _ = p.create_claim(ALICE, b"f".to_vec(), 5);

    let denied = p.revoke_claim(BOB, b"f".to_vec());
    assert_eq!(denied, Err(Error::NotClaimOwner));
    assert_eq!(p.get_claim(&b"f".to_vec()), Some(Record { owner: ALICE, last_modified: 5 }));

    let r = p.revoke_claim(ALICE, b"f".to_vec());
    assert_eq!(r, Ok(Event::ClaimRevoked(ALICE, b"f".to_vec())));
    assert_eq!(p.get_claim(&b"f".to_vec()), None);
    assert_eq!(p.claim_count(), 0);
}

#[test]
fn absent_fingerprint_is_rejected() {
    let mut p = Pallet::new();
    assert_eq!(p.revoke_claim(ALICE, b"missing".to_vec()), Err(Error::ClaimNotExist));
    assert_eq!(
        p.transfer_claim(ALICE, b"missing".to_vec(), BOB, 7),
        Err(Error::NoSuchProof)
    );
    assert_eq!(p.claim_count(), 0);
    assert_eq!(p.get_claim(&b"missing".to_vec()), None);
}

#[test]
fn transfer_by_owner_and_by_stranger() {
    let mut p = Pallet::new();
    let _ = p.create_claim(ALICE, b"f".to_vec(), 5);

    let denied = p.transfer_claim(CAROL, b"f".to_vec(), BOB, 6);
    assert_eq!(denied, Err(Error::NotProofOwner));
    assert_eq!(p.get_claim(&b"f".to_vec()), Some(Record { owner: ALICE, last_modified: 5 }));

    let r = p.transfer_claim(ALICE, b"f".to_vec(), BOB, 6);
    assert_eq!(r, Ok(Event::ClaimedTransferred(ALICE, BOB, b"f".to_vec())));
    assert_eq!(p.get_claim(&b"f".to_vec()), Some(Record { owner: BOB, last_modified: 6 }));
}

#[test]
fn reregistration_after_revocation() {
    let mut p = Pallet::new();
    let _ = p.create_claim(ALICE, b"f".to_vec(), 1);
    let _ = p.revoke_claim(ALICE, b"f".to_vec());
    let r = p.create_claim(BOB, b"f".to_vec(), 2);
    assert_eq!(r, Ok(Event::ClaimCreated(BOB, b"f".to_vec())));
    assert_eq!(p.get_claim(&b"f".to_vec()), Some(Record { owner: BOB, last_modified: 2 }));
}

#[test]
fn self_transfer_keeps_owner_and_advances_time() {
    let mut p = Pallet::new();
    let _ = p.create_claim(ALICE, b"f".to_vec(), 5);
    let r = p.transfer_claim(ALICE, b"f".to_vec(), ALICE, 9);
    assert_eq!(r, Ok(Event::ClaimedTransferred(ALICE, ALICE, b"f".to_vec())));
    assert_eq!(p.get_claim(&b"f".to_vec()), Some(Record { owner: ALICE, last_modified: 9 }));
    assert_eq!(p.claim_count(), 1);
}

#[test]
fn full_claim_lifecycle() {
    let mut p = Pallet::new();
    assert_eq!(p.claim_count(), 0);

    let created = p.create_claim(ALICE, b"doc1".to_vec(), 100);
    assert_eq!(created, Ok(Event::ClaimCreated(ALICE, b"doc1".to_vec())));
    assert_eq!(
        p.get_claim(&b"doc1".to_vec()),
        Some(Record { owner: ALICE, last_modified: 100 })
    );
    assert_eq!(p.claim_count(), 1);

    let transferred = p.transfer_claim(ALICE, b"doc1".to_vec(), BOB, 101);
    assert_eq!(
        transferred,
        Ok(Event::ClaimedTransferred(ALICE, BOB, b"doc1".to_vec()))
    );
    assert_eq!(
        p.get_claim(&b"doc1".to_vec()),
        Some(Record { owner: BOB, last_modified: 101 })
    );
    assert_eq!(p.claim_count(), 1);

    let stale_revoke = p.revoke_claim(ALICE, b"doc1".to_vec());
    assert_eq!(stale_revoke, Err(Error::NotClaimOwner));
    assert_eq!(
        p.get_claim(&b"doc1".to_vec()),
        Some(Record { owner: BOB, last_modified: 101 })
    );

    let revoked = p.revoke_claim(BOB, b"doc1".to_vec());
    assert_eq!(revoked, Ok(Event::ClaimRevoked(BOB, b"doc1".to_vec())));
    assert_eq!(p.get_claim(&b"doc1".to_vec()), None);
    assert_eq!(p.claim_count(), 0);
}

#[test]
fn empty_fingerprint_is_permitted() {
    let mut p = Pallet::new();
    let r = p.create_claim(ALICE, Vec::new(), 3);
    assert_eq!(r, Ok(Event::ClaimCreated(ALICE, Vec::new())));
    assert_eq!(p.get_claim(&Vec::new()), Some(Record { owner: ALICE, last_modified: 3 }));
    let revoked = p.revoke_claim(ALICE, Vec::new());
    assert_eq!(revoked, Ok(Event::ClaimRevoked(ALICE, Vec::new())));
    assert_eq!(p.claim_count(), 0);
}

#[test]
fn distinct_fingerprints_are_independent() {
    let mut p = Pallet::new();
    let _ = p.create_claim(ALICE, b"one".to_vec(), 1);
    let _ = p.create_claim(BOB, b"two".to_vec(), 2);
    assert_eq!(p.claim_count(), 2);

    let r = p.revoke_claim(ALICE, b"one".to_vec());
    assert_eq!(r, Ok(Event::ClaimRevoked(ALICE, b"one".to_vec())));
    assert_eq!(p.get_claim(&b"one".to_vec()), None);
    assert_eq!(p.get_claim(&b"two".to_vec()), Some(Record { owner: BOB, last_modified: 2 }));
    assert_eq!(p.claim_count(), 1);
}

#[test]
fn prefix_fingerprints_are_distinct_keys() {
    let mut p = Pallet::new();
    let _ = p.create_claim(ALICE, b"ab".to_vec(), 1);
    let r = p.create_claim(BOB, b"abc".to_vec(), 2);
    assert_eq!(r, Ok(Event::ClaimCreated(BOB, b"abc".to_vec())));
    assert_eq!(p.get_claim(&b"ab".to_vec()), Some(Record { owner: ALICE, last_modified: 1 }));
    assert_eq!(p.get_claim(&b"abc".to_vec()), Some(Record { owner: BOB, last_modified: 2 }));
}

#[test]
fn unsigned_request_is_rejected() {
    assert_eq!(ensure_signed(None), Err(Error::Unauthenticated));
    assert_eq!(ensure_signed(Some(ALICE)), Ok(ALICE));
}
