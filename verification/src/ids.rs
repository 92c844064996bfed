//! Identifiers and key material carried through the control plane.
//!
//! The manager never inspects the inside of a key or an identity: it moves
//! them, compares them, and stores them.  So each one is held here as a
//! fixed group of machine words.

use vstd::prelude::*;

verus! {

/// A 256-bit value, as four little-endian 64-bit words.
///
/// Stands for an Ed25519 or x25519 key (or its public half), a blinded
/// identity, or an RSA identity fingerprint (padded).
#[derive(Clone, Copy, PartialEq, Eq, Structural, Hash, Debug)]
pub struct U256 {
    /// Words 0 (least significant) through 3.
    pub w0: u64,
    /// Second word.
    pub w1: u64,
    /// Third word.
    pub w2: u64,
    /// Fourth word.
    pub w3: u64,
}

/// Persistent local identifier for an introduction point.
///
/// A 32-byte random value, stable across restart; changes when the IPT
/// relay or the IPT key material changes.
#[derive(Clone, Copy, PartialEq, Eq, Structural, Hash, Debug)]
pub struct IptLocalId {
    /// Words 0 (least significant) through 3 of the 32-byte identifier.
    pub w0: u64,
    /// Second word.
    pub w1: u64,
    /// Third word.
    pub w2: u64,
    /// Fourth word.
    pub w3: u64,
}

/// The stable identities of one relay.
///
/// A relay may be known by an Ed25519 identity, an RSA identity, or both.
#[derive(Clone, Copy, Debug)]
pub struct RelayIds {
    /// The relay's Ed25519 identity, if known.
    pub ed: Option<U256>,
    /// The relay's RSA identity fingerprint, if known.
    pub rsa: Option<U256>,
}

/// One link specifier: an address or identity by which a relay is reached.
#[derive(Clone, Copy, PartialEq, Eq, Structural, Debug)]
pub struct LinkSpecifier {
    /// The kind of specifier (address family or key kind).
    pub kind: u8,
    /// First data words of the specifier body.
    pub a: u64,
    /// Second data word of the specifier body.
    pub b: u64,
}

/// A key pair, as the control plane sees it: two opaque halves.
#[derive(Clone, Copy, Debug)]
pub struct KeyPairValue {
    /// The public half.
    pub public: U256,
    /// The secret half.
    pub secret: U256,
}

/// Whether `a` and `b` share at least one identity.
pub open spec fn spec_shares_any_id(a: RelayIds, b: RelayIds) -> bool {
    (a.ed is Some && a.ed == b.ed) || (a.rsa is Some && a.rsa == b.rsa)
}

impl RelayIds {
    /// A relay identity record with no identities at all.
    pub fn empty() -> (r: RelayIds)
        ensures
            r.ed is None,
            r.rsa is None,
    {
        RelayIds { ed: None, rsa: None }
    }

    /// Whether both records list exactly the same identities.
    pub fn same_as(&self, other: &RelayIds) -> (r: bool)
        ensures
            r == (self.ed == other.ed && self.rsa == other.rsa),
    {
        let ed_eq = match (&self.ed, &other.ed) {
            (Some(a), Some(b)) => *a == *b,
            (None, None) => true,
            _ => false,
        };
        let rsa_eq = match (&self.rsa, &other.rsa) {
            (Some(a), Some(b)) => *a == *b,
            (None, None) => true,
            _ => false,
        };
        ed_eq && rsa_eq
    }

    /// Whether the two records share at least one identity.
    ///
    /// This is how the manager refuses to select a relay twice: a candidate
    /// is excluded if any of its identities is already in use.
    pub fn shares_any_id_with(&self, other: &RelayIds) -> (r: bool)
        ensures
            r == spec_shares_any_id(*self, *other),
    {
        let ed_shared = match (&self.ed, &other.ed) {
            (Some(a), Some(b)) => *a == *b,
            _ => false,
        };
        let rsa_shared = match (&self.rsa, &other.rsa) {
            (Some(a), Some(b)) => *a == *b,
            _ => false,
        };
        ed_shared || rsa_shared
    }
}

} // verus!
