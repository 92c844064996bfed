//! The manager's record of the keystore contents that matter to it: the
//! two key pairs of each introduction point, and whether the service's
//! long-term identity key is present.
//!
//! The real keystore lives on disk and is driven from outside; this
//! structure is the control plane's authoritative model of it, updated in
//! step with it.  The manager's invariant that every known IPT has both
//! its key pairs is stated against this model.

use vstd::prelude::*;
use crate::errors::FatalError;
use crate::ids::{IptLocalId, KeyPairValue};
use crate::seqx::{lemma_first_where_is, lemma_first_where_none, lemma_first_where_push, seq_first_where};

verus! {

/// The role of one IPT key pair in the keystore.
#[derive(Clone, Copy, PartialEq, Eq, Structural, Debug)]
pub enum IptKeyRole {
    /// `K_hs_ipt_sid`: the session-id key pair.
    KSid,
    /// `K_hss_ntor`: the service ntor key pair.
    KHssNtor,
}

/// One keystore entry: a key pair filed under `(role, lid)`.
pub type KeyEntry = (IptKeyRole, IptLocalId, KeyPairValue);

/// Whether `e` is filed under `(role, lid)`.
pub open spec fn key_entry_matches(e: KeyEntry, role: IptKeyRole, lid: IptLocalId) -> bool {
    e.0 == role && e.1 == lid
}

/// The first entry filed under `(role, lid)`, if any.
pub open spec fn ks_first(s: Seq<KeyEntry>, role: IptKeyRole, lid: IptLocalId) -> Option<int> {
    seq_first_where(s, |e: KeyEntry| key_entry_matches(e, role, lid))
}

/// The keystore contents, as the control plane tracks them.
#[derive(Debug)]
pub struct Keystore {
    /// Whether the service's long-term identity key pair is present.
    pub has_identity: bool,
    /// The IPT key pairs, in insertion order.
    pub entries: Vec<KeyEntry>,
}

impl Keystore {
    /// The key pair filed under `(role, lid)`, if any.
    pub open spec fn spec_lookup(&self, role: IptKeyRole, lid: IptLocalId) -> Option<
        KeyPairValue,
    > {
        match ks_first(self.entries@, role, lid) {
            None => None,
            Some(i) => Some(self.entries@[i].2),
        }
    }

    /// Whether a key pair is filed under `(role, lid)`.
    pub open spec fn spec_contains(&self, role: IptKeyRole, lid: IptLocalId) -> bool {
        self.spec_lookup(role, lid) is Some
    }

    /// An empty keystore record.
    pub fn new(has_identity: bool) -> (r: Keystore)
        ensures
            r.has_identity == has_identity,
            r.entries@.len() == 0,
            forall|role: IptKeyRole, lid: IptLocalId| !r.spec_contains(role, lid),
    {
        let r = Keystore { has_identity, entries: Vec::new() };
        proof {
            assert forall|role: IptKeyRole, lid: IptLocalId| !r.spec_contains(role, lid) by {
                lemma_first_where_none(
                    r.entries@,
                    |e: KeyEntry| key_entry_matches(e, role, lid),
                );
            }
        }
        r
    }

    /// Look up the key pair filed under `(role, lid)`.
    pub fn get(&self, role: IptKeyRole, lid: IptLocalId) -> (r: Option<KeyPairValue>)
        ensures
            r == self.spec_lookup(role, lid),
    {
        let ghost p = |e: KeyEntry| key_entry_matches(e, role, lid);
        let mut i: usize = 0;
        while i < self.entries.len()
            invariant
                i <= self.entries.len(),
                p == (|e: KeyEntry| key_entry_matches(e, role, lid)),
                forall|j: int| 0 <= j < i ==> !p(#[trigger] self.entries@[j]),
            decreases self.entries.len() - i,
        {
            let e = self.entries[i];
            if e.0 == role && e.1 == lid {
                proof {
                    lemma_first_where_is(self.entries@, p, i as int);
                }
                return Some(e.2);
            }
            i += 1;
        }
        proof {
            lemma_first_where_none(self.entries@, p);
        }
        None
    }

    /// File `kp` under `(role, lid)`.
    ///
    /// Looking that pair up afterwards finds `kp`; every other pair is
    /// unaffected.
    pub fn insert(&mut self, role: IptKeyRole, lid: IptLocalId, kp: KeyPairValue)
        requires
            !old(self).spec_contains(role, lid),
        ensures
            final(self).has_identity == old(self).has_identity,
            final(self).spec_lookup(role, lid) == Some(kp),
            forall|r2: IptKeyRole, l2: IptLocalId|
                !(r2 == role && l2 == lid) ==> final(self).spec_lookup(r2, l2) == old(
                    self,
                ).spec_lookup(r2, l2),
    {
        let ghost s0 = self.entries@;
        self.entries.push((role, lid, kp));
        proof {
            lemma_first_where_push(s0, |e: KeyEntry| key_entry_matches(e, role, lid), (role, lid, kp));
            assert(self.spec_lookup(role, lid) == Some(kp));
            assert forall|r2: IptKeyRole, l2: IptLocalId|
                !(r2 == role && l2 == lid) implies self.spec_lookup(r2, l2) == old(
                self,
            ).spec_lookup(r2, l2) by {
                let p2 = |e: KeyEntry| key_entry_matches(e, r2, l2);
                lemma_first_where_push(s0, p2, (role, lid, kp));
                crate::seqx::lemma_first_where_sound(s0, p2);
                assert(!p2((role, lid, kp)));
            }
        }
    }

    /// Load the key pair filed under `(role, lid)`, or file `fresh` there.
    ///
    /// This is the single generic key loader: `expect_existing` is the
    /// policy token.
    ///
    /// * Not expecting existing keys and finding none: `fresh` is filed
    ///   and returned.
    /// * Expecting existing keys and finding them: they are returned.
    /// * Not expecting existing keys but finding some: the state is badly
    ///   confused (the identifier was supposed to be new), so this is the
    ///   fatal error `IptKeysFoundUnexpectedly`.
    /// * Expecting existing keys and finding none: recover by filing
    ///   `fresh`; the caller reports the loss.
    pub fn get_or_generate(
        &mut self,
        role: IptKeyRole,
        lid: IptLocalId,
        fresh: KeyPairValue,
        expect_existing: bool,
    ) -> (r: Result<KeyPairValue, FatalError>)
        ensures
            final(self).has_identity == old(self).has_identity,
            ({
                match old(self).spec_lookup(role, lid) {
                    Some(k) => if expect_existing {
                        &&& r == Ok::<KeyPairValue, FatalError>(k)
                        &&& *final(self) == *old(self)
                    } else {
                        &&& r == Err::<KeyPairValue, FatalError>(
                            FatalError::IptKeysFoundUnexpectedly { lid },
                        )
                        &&& *final(self) == *old(self)
                    },
                    None => {
                        &&& r == Ok::<KeyPairValue, FatalError>(fresh)
                        &&& final(self).spec_lookup(role, lid) == Some(fresh)
                        &&& forall|r2: IptKeyRole, l2: IptLocalId|
                            !(r2 == role && l2 == lid) ==> final(self).spec_lookup(r2, l2) == old(
                                self,
                            ).spec_lookup(r2, l2)
                    },
                }
            }),
    {
        match self.get(role, lid) {
            Some(k) => {
                if expect_existing {
                    Ok(k)
                } else {
                    Err(FatalError::IptKeysFoundUnexpectedly { lid })
                }
            },
            None => {
                self.insert(role, lid, fresh);
                Ok(fresh)
            },
        }
    }
}

/// One cached per-period key pair, filed under its time period.
pub type PeriodKeyEntry = (crate::revision::TimePeriod, KeyPairValue);

/// Whether `e` is filed under period `p`.
pub open spec fn period_entry_matches(e: PeriodKeyEntry, p: crate::revision::TimePeriod) -> bool {
    e.0 == p
}

/// The first entry filed under `p`, if any.
pub open spec fn pk_first(s: Seq<PeriodKeyEntry>, p: crate::revision::TimePeriod) -> Option<int> {
    seq_first_where(s, |e: PeriodKeyEntry| period_entry_matches(e, p))
}

/// The keystore's cache of per-period key pairs: the blinded identity
/// key pair of each active time period (and, by the same pattern, its
/// descriptor-signing key pair), derived once and then reused.
///
/// The derivation itself is outside work; the caller hands the derived
/// candidate in, and the cache keeps whichever pair was filed first.
#[derive(Debug)]
pub struct PeriodKeyCache {
    /// The cached key pairs, in insertion order.
    pub entries: Vec<PeriodKeyEntry>,
}

impl PeriodKeyCache {
    /// The key pair filed under `p`, if any.
    pub open spec fn spec_lookup(&self, p: crate::revision::TimePeriod) -> Option<KeyPairValue> {
        match pk_first(self.entries@, p) {
            None => None,
            Some(i) => Some(self.entries@[i].1),
        }
    }

    /// Whether a key pair is filed under `p`.
    pub open spec fn spec_contains(&self, p: crate::revision::TimePeriod) -> bool {
        self.spec_lookup(p) is Some
    }

    /// An empty cache.
    pub fn new() -> (r: PeriodKeyCache)
        ensures
            r.entries@.len() == 0,
            forall|p: crate::revision::TimePeriod| !r.spec_contains(p),
    {
        let r = PeriodKeyCache { entries: Vec::new() };
        proof {
            assert forall|p: crate::revision::TimePeriod| !r.spec_contains(p) by {
                lemma_first_where_none(
                    r.entries@,
                    |e: PeriodKeyEntry| period_entry_matches(e, p),
                );
            }
        }
        r
    }

    /// Look up the key pair filed under `p`.
    pub fn get(&self, p: crate::revision::TimePeriod) -> (r: Option<KeyPairValue>)
        ensures
            r == self.spec_lookup(p),
    {
        let ghost pr = |e: PeriodKeyEntry| period_entry_matches(e, p);
        let n = self.entries.len();
        let mut i: usize = 0;
        while i < n
            invariant
                i <= n,
                n == self.entries@.len(),
                pr == (|e: PeriodKeyEntry| period_entry_matches(e, p)),
                forall|j: int| 0 <= j < i ==> !pr(#[trigger] self.entries@[j]),
            decreases n - i,
        {
            let e = self.entries[i];
            if e.0 == p {
                proof {
                    lemma_first_where_is(self.entries@, pr, i as int);
                }
                return Some(e.1);
            }
            i += 1;
        }
        proof {
            lemma_first_where_none(self.entries@, pr);
        }
        None
    }

    /// Load the key pair cached under `p`, or file `derived` there.
    ///
    /// This is the per-period get-or-insert: with an entry already cached
    /// the derived candidate is discarded and every instance keeps using
    /// the pair filed first; otherwise `derived` is filed and returned.
    /// Every other period's entry is unaffected.
    pub fn get_or_insert(
        &mut self,
        p: crate::revision::TimePeriod,
        derived: KeyPairValue,
    ) -> (r: KeyPairValue)
        ensures
            ({
                match old(self).spec_lookup(p) {
                    Some(k) => r == k && *final(self) == *old(self),
                    None => {
                        &&& r == derived
                        &&& final(self).spec_lookup(p) == Some(derived)
                        &&& forall|p2: crate::revision::TimePeriod|
                            p2 != p ==> final(self).spec_lookup(p2) == old(self).spec_lookup(p2)
                    },
                }
            }),
    {
        match self.get(p) {
            Some(k) => k,
            None => {
                let ghost s0 = self.entries@;
                self.entries.push((p, derived));
                proof {
                    lemma_first_where_push(
                        s0,
                        |e: PeriodKeyEntry| period_entry_matches(e, p),
                        (p, derived),
                    );
                    assert forall|p2: crate::revision::TimePeriod|
                        p2 != p implies self.spec_lookup(p2) == old(self).spec_lookup(p2) by {
                        let pr2 = |e: PeriodKeyEntry| period_entry_matches(e, p2);
                        lemma_first_where_push(s0, pr2, (p, derived));
                        crate::seqx::lemma_first_where_sound(s0, pr2);
                        assert(!pr2((p, derived)));
                    }
                }
                derived
            },
        }
    }
}

} // verus!
