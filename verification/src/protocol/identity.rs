//! Peer identity.
use vstd::prelude::*;

verus! {

/// A peer's identity, derived from its PGP public key.
#[derive(Debug, Clone, PartialEq, Eq, Hash)]
pub struct PeerIdentity {
    /// PGP key fingerprint in hexadecimal.
    pub fingerprint: String,
    /// Display name, if known from the key's user id.
    pub display_name: Option<String>,
}

} // verus!
