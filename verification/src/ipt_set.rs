//! The structure shared between the IPT manager and the publisher.
//!
//! It carries, in one direction, the manager's current idea of what to
//! publish (an ordered list of introduction points and a proposed
//! descriptor lifetime); and, in the other, the publisher's record of how
//! long each published IPT's descriptors stay valid.

use vstd::prelude::*;
use crate::ids::{IptLocalId, LinkSpecifier, U256};
use crate::seqx::{lemma_first_where_is, lemma_first_where_none, lemma_first_where_push, seq_first_where};

verus! {

/// Everything the publisher needs to name one introduction point in a
/// descriptor.
#[derive(Debug)]
pub struct PublishIpt {
    /// The link specifiers by which clients reach the relay.
    pub link_specifiers: Vec<LinkSpecifier>,
    /// The relay's own ntor key for the introduction protocol.
    pub ipt_kp_ntor: U256,
    /// The public half of the IPT's session-id key pair.
    pub kp_hs_ipt_sid: U256,
    /// The public half of the service's ntor key pair for this IPT.
    pub kp_hss_ntor: U256,
}

/// View of [`PublishIpt`].
#[verifier::ext_equal]
pub struct PublishIptView {
    /// The link specifiers.
    pub link_specifiers: Seq<LinkSpecifier>,
    /// The relay's ntor key.
    pub ipt_kp_ntor: U256,
    /// The session-id public key.
    pub kp_hs_ipt_sid: U256,
    /// The service ntor public key.
    pub kp_hss_ntor: U256,
}

impl View for PublishIpt {
    type V = PublishIptView;

    open spec fn view(&self) -> PublishIptView {
        PublishIptView {
            link_specifiers: self.link_specifiers@,
            ipt_kp_ntor: self.ipt_kp_ntor,
            kp_hs_ipt_sid: self.kp_hs_ipt_sid,
            kp_hss_ntor: self.kp_hss_ntor,
        }
    }
}

/// One introduction point in the set offered for publication.
#[derive(Debug)]
pub struct IptInSet {
    /// The publication record.
    pub ipt: PublishIpt,
    /// The IPT's persistent local identifier.
    pub lid: IptLocalId,
}

/// View of [`IptInSet`].
#[verifier::ext_equal]
pub struct IptInSetView {
    /// The publication record.
    pub ipt: PublishIptView,
    /// The local identifier.
    pub lid: IptLocalId,
}

impl View for IptInSet {
    type V = IptInSetView;

    open spec fn view(&self) -> IptInSetView {
        IptInSetView { ipt: self.ipt@, lid: self.lid }
    }
}

/// The set of introduction points the manager wants published, with the
/// proposed lifetime (milliseconds) for descriptors naming them.
#[derive(Debug)]
pub struct IptSet {
    /// The introduction points, in the manager's stable order.
    pub ipts: Vec<IptInSet>,
    /// The proposed descriptor lifetime.
    pub lifetime: u64,
}

/// View of [`IptSet`].
#[verifier::ext_equal]
pub struct IptSetView {
    /// The introduction points.
    pub ipts: Seq<IptInSetView>,
    /// The proposed descriptor lifetime.
    pub lifetime: u64,
}

impl View for IptSet {
    type V = IptSetView;

    open spec fn view(&self) -> IptSetView {
        IptSetView {
            ipts: Seq::new(self.ipts@.len(), |i: int| self.ipts@[i]@),
            lifetime: self.lifetime,
        }
    }
}

/// One entry of the expiry map: the latest time (wall-clock milliseconds,
/// slop included) a published descriptor naming this IPT stays valid.
pub type ExpiryEntry = (IptLocalId, u64);

/// Whether `e` records the expiry of `lid`.
pub open spec fn expiry_entry_matches(e: ExpiryEntry, lid: IptLocalId) -> bool {
    e.0 == lid
}

/// The first entry for `lid`, if any.
pub open spec fn em_first(s: Seq<ExpiryEntry>, lid: IptLocalId) -> Option<int> {
    seq_first_where(s, |e: ExpiryEntry| expiry_entry_matches(e, lid))
}

/// The recorded expiry for `lid`, if any.
pub open spec fn em_lookup(s: Seq<ExpiryEntry>, lid: IptLocalId) -> Option<u64> {
    match em_first(s, lid) {
        None => None,
        Some(i) => Some(s[i].1),
    }
}

/// The structure shared between manager and publisher.
#[derive(Debug)]
pub struct PublishIptSet {
    /// What the manager wants published; `None` means publish nothing.
    pub ipts: Option<IptSet>,
    /// For each IPT the publisher has named in a descriptor, the latest
    /// time such a descriptor stays valid (slop included).
    pub last_descriptor_expiry_including_slop: Vec<ExpiryEntry>,
}

impl PublishIptSet {
    /// The expiry map's entries.
    pub open spec fn expiries(&self) -> Seq<ExpiryEntry> {
        self.last_descriptor_expiry_including_slop@
    }

    /// Whether the expiry map holds each identifier at most once.
    pub open spec fn expiries_wf(&self) -> bool {
        forall|i: int, j: int|
            0 <= i < j < self.expiries().len() ==> #[trigger] self.expiries()[i].0 != #[trigger] self.expiries()[j].0
    }

    /// An empty shared set: nothing to publish, nothing recorded.
    pub fn new() -> (r: PublishIptSet)
        ensures
            r.ipts is None,
            r.expiries().len() == 0,
            r.expiries_wf(),
    {
        PublishIptSet { ipts: None, last_descriptor_expiry_including_slop: Vec::new() }
    }

    /// The recorded expiry for `lid`, if any.
    pub fn expiry_of(&self, lid: IptLocalId) -> (r: Option<u64>)
        ensures
            r == em_lookup(self.expiries(), lid),
    {
        let ghost p = |e: ExpiryEntry| expiry_entry_matches(e, lid);
        let n = self.last_descriptor_expiry_including_slop.len();
        let mut i: usize = 0;
        while i < n
            invariant
                i <= n,
                n == self.expiries().len(),
                p == (|e: ExpiryEntry| expiry_entry_matches(e, lid)),
                forall|j: int| 0 <= j < i ==> !p(#[trigger] self.expiries()[j]),
            decreases n - i,
        {
            let e = self.last_descriptor_expiry_including_slop[i];
            if e.0 == lid {
                proof {
                    lemma_first_where_is(self.expiries(), p, i as int);
                }
                return Some(e.1);
            }
            i += 1;
        }
        proof {
            lemma_first_where_none(self.expiries(), p);
        }
        None
    }

    /// Record `expiry` for `lid`, replacing any earlier record.
    ///
    /// Afterwards `lid` maps to `expiry` and every other identifier maps
    /// as before.
    pub fn set_expiry(&mut self, lid: IptLocalId, expiry: u64)
        requires
            old(self).expiries_wf(),
        ensures
            final(self).ipts == old(self).ipts,
            final(self).expiries_wf(),
            em_lookup(final(self).expiries(), lid) == Some(expiry),
            forall|l2: IptLocalId|
                l2 != lid ==> em_lookup(final(self).expiries(), l2) == em_lookup(
                    old(self).expiries(),
                    l2,
                ),
    {
        let ghost p = |e: ExpiryEntry| expiry_entry_matches(e, lid);
        let ghost s0 = self.expiries();
        let n = self.last_descriptor_expiry_including_slop.len();
        let mut i: usize = 0;
        while i < n
            invariant
                i <= n,
                n == self.expiries().len(),
                p == (|e: ExpiryEntry| expiry_entry_matches(e, lid)),
                self == old(self),
                s0 == self.expiries(),
                s0 == old(self).expiries(),
                old(self).expiries_wf(),
                forall|j: int| 0 <= j < i ==> !p(#[trigger] self.expiries()[j]),
            decreases n - i,
        {
            let e = self.last_descriptor_expiry_including_slop[i];
            if e.0 == lid {
                proof {
                    lemma_first_where_is(self.expiries(), p, i as int);
                }
                self.last_descriptor_expiry_including_slop.set(i, (lid, expiry));
                proof {
                    let s1 = self.expiries();
                    assert(s1 == s0.update(i as int, (lid, expiry)));
                    assert(s0[i as int].0 == lid);
                    assert forall|a: int, b: int| 0 <= a < b < s1.len() implies #[trigger] s1[a].0
                        != #[trigger] s1[b].0 by {
                        assert(s1[a].0 == s0[a].0 && s1[b].0 == s0[b].0);
                        assert(old(self).expiries()[a].0 != old(self).expiries()[b].0);
                    }
                    lemma_first_where_is(s1, p, i as int);
                    assert forall|l2: IptLocalId| l2 != lid implies em_lookup(s1, l2) == em_lookup(
                        s0,
                        l2,
                    ) by {
                        let p2 = |e: ExpiryEntry| expiry_entry_matches(e, l2);
                        crate::seqx::lemma_first_where_sound(s0, p2);
                        match seq_first_where(s0, p2) {
                            Some(k) => {
                                assert(s1[k] == s0[k]);
                                lemma_first_where_is(s1, p2, k);
                            },
                            None => {
                                lemma_first_where_none(s1, p2);
                            },
                        }
                    }
                }
                return ;
            }
            i += 1;
        }
        proof {
            lemma_first_where_none(self.expiries(), p);
        }
        self.last_descriptor_expiry_including_slop.push((lid, expiry));
        proof {
            let s1 = self.expiries();
            lemma_first_where_push(s0, p, (lid, expiry));
            assert(em_lookup(s1, lid) == Some(expiry));
            assert forall|a: int, b: int| 0 <= a < b < s1.len() implies #[trigger] s1[a].0
                != #[trigger] s1[b].0 by {
                if b == s1.len() - 1 {
                    assert(s1[a] == s0[a] && !p(s0[a]));
                }
            }
            assert forall|l2: IptLocalId| l2 != lid implies em_lookup(s1, l2) == em_lookup(
                s0,
                l2,
            ) by {
                let p2 = |e: ExpiryEntry| expiry_entry_matches(e, l2);
                lemma_first_where_push(s0, p2, (lid, expiry));
                crate::seqx::lemma_first_where_sound(s0, p2);
            }
        }
    }

    /// Drop every record whose validity has ended: keep exactly the
    /// entries with `expiry > now`.
    ///
    /// A record may be dropped even for an IPT the manager still
    /// maintains: this map only says what was published.
    pub fn expire_old_expiry_times(&mut self, now: u64)
        requires
            old(self).expiries_wf(),
        ensures
            final(self).ipts == old(self).ipts,
            final(self).expiries() == old(self).expiries().filter(|e: ExpiryEntry| e.1 > now),
            final(self).expiries_wf(),
    {
        let ghost s0 = self.expiries();
        let ghost keep = |e: ExpiryEntry| e.1 > now;
        let ghost mut idxs: Seq<int> = Seq::empty();
        let n = self.last_descriptor_expiry_including_slop.len();
        let mut out: Vec<ExpiryEntry> = Vec::new();
        let mut i: usize = 0;
        while i < n
            invariant
                i <= n,
                n == s0.len(),
                keep == (|e: ExpiryEntry| e.1 > now),
                self == old(self),
                s0 == self.expiries(),
                out@ == s0.take(i as int).filter(keep),
                idxs.len() == out@.len(),
                forall|k: int|
                    0 <= k < idxs.len() ==> 0 <= #[trigger] idxs[k] < i && out@[k] == s0[idxs[k]],
                forall|a: int, b: int| 0 <= a < b < idxs.len() ==> idxs[a] < idxs[b],
            decreases n - i,
        {
            let e = self.last_descriptor_expiry_including_slop[i];
            proof {
                assert(s0.take(i + 1).drop_last() =~= s0.take(i as int));
                reveal_with_fuel(Seq::filter, 2);
                assert(s0.take(i + 1) == s0.take(i as int).push(s0[i as int]));
            }
            if e.1 > now {
                out.push(e);
                proof {
                    idxs = idxs.push(i as int);
                }
            }
            proof {
                assert(out@ =~= s0.take(i + 1).filter(keep));
            }
            i += 1;
        }
        proof {
            assert(s0.take(n as int) =~= s0);
        }
        self.last_descriptor_expiry_including_slop = out;
        proof {
            let s1 = self.expiries();
            assert forall|i2: int, j2: int| 0 <= i2 < j2 < s1.len() implies #[trigger] s1[i2].0
                != #[trigger] s1[j2].0 by {
                assert(s1[i2] == s0[idxs[i2]] && s1[j2] == s0[idxs[j2]]);
                assert(idxs[i2] < idxs[j2]);
            }
        }
    }
}

} // verus!
