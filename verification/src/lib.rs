//! A proof-of-existence registry.
//!
//! Fingerprints (opaque byte sequences) are mapped to a record of their
//! current owner and the logical time at which ownership was last set.
//! An actor may register a fingerprint nobody holds, revoke its own
//! registration, and transfer ownership to another actor.  Every successful
//! operation reports an event; every rejected one reports a typed error and
//! leaves the table unchanged.

pub mod laws;
pub mod model;
pub mod registry;
pub mod types;
