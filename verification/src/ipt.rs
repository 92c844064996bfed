//! In-memory representation of one introduction point and of one selected
//! relay, together with their mathematical views.

use vstd::prelude::*;
use crate::ids::{IptLocalId, LinkSpecifier, RelayIds, U256, KeyPairValue};

verus! {

/// What the establisher reported about a working introduction point.
#[derive(Debug)]
pub struct GoodIptDetails {
    /// The link specifiers by which clients are told to reach the relay.
    pub link_specifiers: Vec<LinkSpecifier>,
    /// The relay's ntor key for the introduction protocol.
    pub ipt_kp_ntor: U256,
}

/// View of [`GoodIptDetails`].
#[verifier::ext_equal]
pub struct GoodIptDetailsView {
    /// The link specifiers.
    pub link_specifiers: Seq<LinkSpecifier>,
    /// The relay's ntor key.
    pub ipt_kp_ntor: U256,
}

impl View for GoodIptDetails {
    type V = GoodIptDetailsView;

    open spec fn view(&self) -> GoodIptDetailsView {
        GoodIptDetailsView {
            link_specifiers: self.link_specifiers@,
            ipt_kp_ntor: self.ipt_kp_ntor,
        }
    }
}

impl GoodIptDetails {
    /// A copy of these details.
    pub fn duplicate(&self) -> (r: GoodIptDetails)
        ensures
            r@ == self@,
    {
        let mut ls: Vec<LinkSpecifier> = Vec::new();
        let mut i: usize = 0;
        while i < self.link_specifiers.len()
            invariant
                i <= self.link_specifiers.len(),
                ls@ == self.link_specifiers@.subrange(0, i as int),
            decreases self.link_specifiers.len() - i,
        {
            ls.push(self.link_specifiers[i]);
            i += 1;
        }
        assert(ls@ == self.link_specifiers@);
        let r = GoodIptDetails { link_specifiers: ls, ipt_kp_ntor: self.ipt_kp_ntor };
        assert(r@ =~= self@);
        r
    }
}

/// Status of one IPT, as reported by its establisher.
#[derive(Debug)]
pub enum IptStatusStatus {
    /// The establisher is still building the introduction point.
    Establishing,
    /// The introduction point works; details enclosed.
    Good(GoodIptDetails),
    /// The introduction point is broken.
    Faulty,
}

/// View of [`IptStatusStatus`].
#[verifier::ext_equal]
pub enum IptStatusStatusView {
    /// Still building.
    Establishing,
    /// Working.
    Good(GoodIptDetailsView),
    /// Broken.
    Faulty,
}

impl View for IptStatusStatus {
    type V = IptStatusStatusView;

    open spec fn view(&self) -> IptStatusStatusView {
        match self {
            IptStatusStatus::Establishing => IptStatusStatusView::Establishing,
            IptStatusStatus::Good(d) => IptStatusStatusView::Good(d@),
            IptStatusStatus::Faulty => IptStatusStatusView::Faulty,
        }
    }
}

/// One update from an establisher's status stream.
#[derive(Debug)]
pub struct IptStatus {
    /// The health of the introduction point.
    pub status: IptStatusStatus,
    /// Whether the establisher asks that this IPT be retired.
    pub wants_to_retire: bool,
    /// How many faults the establisher has seen so far.
    pub n_faults: u32,
}

/// View of [`IptStatus`].
#[verifier::ext_equal]
pub struct IptStatusView {
    /// The health of the introduction point.
    pub status: IptStatusStatusView,
    /// Whether the establisher asks for retirement.
    pub wants_to_retire: bool,
    /// Fault count.
    pub n_faults: u32,
}

impl View for IptStatus {
    type V = IptStatusView;

    open spec fn view(&self) -> IptStatusView {
        IptStatusView {
            status: self.status@,
            wants_to_retire: self.wants_to_retire,
            n_faults: self.n_faults,
        }
    }
}

/// The last reported status of an IPT, with the timing the manager added.
///
/// All instants are monotonic milliseconds.
#[derive(Debug)]
pub enum TrackedStatus {
    /// Broken; `started` is when establishment first began, if known.
    Faulty {
        /// When establishment first began, if known.
        started: Option<u64>,
    },
    /// Being built since `started`.
    Establishing {
        /// When establishment began.
        started: u64,
    },
    /// Working.
    Good {
        /// How long establishment took, when that could be determined.
        time_to_establish: Option<u64>,
        /// What the establisher reported.
        details: GoodIptDetails,
    },
}

/// View of [`TrackedStatus`].
#[verifier::ext_equal]
pub enum TrackedStatusView {
    /// Broken.
    Faulty {
        /// When establishment first began, if known.
        started: Option<u64>,
    },
    /// Being built.
    Establishing {
        /// When establishment began.
        started: u64,
    },
    /// Working.
    Good {
        /// How long establishment took, if known.
        time_to_establish: Option<u64>,
        /// What the establisher reported.
        details: GoodIptDetailsView,
    },
}

impl View for TrackedStatus {
    type V = TrackedStatusView;

    open spec fn view(&self) -> TrackedStatusView {
        match self {
            TrackedStatus::Faulty { started } => TrackedStatusView::Faulty { started: *started },
            TrackedStatus::Establishing { started } => TrackedStatusView::Establishing {
                started: *started,
            },
            TrackedStatus::Good { time_to_establish, details } => TrackedStatusView::Good {
                time_to_establish: *time_to_establish,
                details: details@,
            },
        }
    }
}

/// One introduction point, as the manager holds it in memory.
#[derive(Debug)]
pub struct Ipt {
    /// Persistent local identifier.
    pub lid: IptLocalId,
    /// The session-id key pair (`K_hs_ipt_sid`).
    pub k_sid: KeyPairValue,
    /// The service ntor key pair (`K_hss_ntor`).
    pub k_hss_ntor: KeyPairValue,
    /// Last status, with timing.
    pub status_last: TrackedStatus,
    /// Until when (wall-clock milliseconds, plus slop) some published
    /// descriptor naming this IPT stays valid; `None` if never published.
    pub last_descriptor_expiry_including_slop: Option<u64>,
    /// Whether this IPT should be offered for publication.
    pub is_current: bool,
}

/// View of [`Ipt`].
#[verifier::ext_equal]
pub struct IptView {
    /// Persistent local identifier.
    pub lid: IptLocalId,
    /// The session-id key pair.
    pub k_sid: KeyPairValue,
    /// The service ntor key pair.
    pub k_hss_ntor: KeyPairValue,
    /// Last status, with timing.
    pub status_last: TrackedStatusView,
    /// Latest descriptor validity, with slop.
    pub last_descriptor_expiry_including_slop: Option<u64>,
    /// Whether this IPT is current.
    pub is_current: bool,
}

impl View for Ipt {
    type V = IptView;

    open spec fn view(&self) -> IptView {
        IptView {
            lid: self.lid,
            k_sid: self.k_sid,
            k_hss_ntor: self.k_hss_ntor,
            status_last: self.status_last@,
            last_descriptor_expiry_including_slop: self.last_descriptor_expiry_including_slop,
            is_current: self.is_current,
        }
    }
}

/// One selected relay, with the IPTs living at it, in chronological order
/// of selection.
#[derive(Debug)]
pub struct IptRelay {
    /// The relay's identities.
    pub relay: RelayIds,
    /// The monotonic instant (milliseconds) past which this relay should
    /// stop hosting new IPTs.
    pub planned_retirement: u64,
    /// The IPTs at this relay; at most one is current.
    pub ipts: Vec<Ipt>,
}

/// View of [`IptRelay`].
#[verifier::ext_equal]
pub struct IptRelayView {
    /// The relay's identities.
    pub relay: RelayIds,
    /// The planned retirement instant.
    pub planned_retirement: u64,
    /// The IPTs at this relay.
    pub ipts: Seq<IptView>,
}

impl View for IptRelay {
    type V = IptRelayView;

    open spec fn view(&self) -> IptRelayView {
        IptRelayView {
            relay: self.relay,
            planned_retirement: self.planned_retirement,
            ipts: Seq::new(self.ipts@.len(), |i: int| self.ipts@[i]@),
        }
    }
}

/// Whether this IPT is in `Good` state (and may perhaps be published).
pub open spec fn ipt_is_good(i: IptView) -> bool {
    i.status_last is Good
}

/// Whether this IPT counts as "good-ish": `Good` or still `Establishing`.
///
/// Used when deciding whether to select more relays.
pub open spec fn ipt_is_goodish(i: IptView) -> bool {
    i.status_last is Good || i.status_last is Establishing
}

/// Whether an IPT is current.
pub open spec fn ipt_current(i: IptView) -> bool {
    i.is_current
}

/// The index of this relay's current IPT, if it has one.
pub open spec fn relay_current_idx(r: IptRelayView) -> Option<int> {
    crate::seqx::seq_first_where(r.ipts, |i: IptView| ipt_current(i))
}

/// Whether this relay has a current IPT.
pub open spec fn relay_has_current(r: IptRelayView) -> bool {
    relay_current_idx(r) is Some
}

/// This relay's current IPT (meaningful only when it has one).
pub open spec fn relay_current(r: IptRelayView) -> IptView {
    r.ipts[relay_current_idx(r)->Some_0]
}

/// Whether this relay has a current IPT in `Good` state.
pub open spec fn relay_good_current(r: IptRelayView) -> bool {
    relay_has_current(r) && ipt_is_good(relay_current(r))
}

/// Whether this relay has a current IPT that is `Good` or `Establishing`.
pub open spec fn relay_goodish_current(r: IptRelayView) -> bool {
    relay_has_current(r) && ipt_is_goodish(relay_current(r))
}

/// Whether this relay is past its planned retirement.
pub open spec fn relay_should_retire(r: IptRelayView, now: u64) -> bool {
    now > r.planned_retirement
}

impl Ipt {
    /// Whether this IPT has status `Good` (and should perhaps be
    /// published).
    pub fn is_good(&self) -> (r: bool)
        ensures
            r == ipt_is_good(self@),
    {
        match &self.status_last {
            TrackedStatus::Good { .. } => true,
            TrackedStatus::Establishing { .. } | TrackedStatus::Faulty { .. } => false,
        }
    }

    /// Whether this IPT is `Good` or still `Establishing`.
    pub fn is_goodish(&self) -> (r: bool)
        ensures
            r == ipt_is_goodish(self@),
    {
        match &self.status_last {
            TrackedStatus::Good { .. } | TrackedStatus::Establishing { .. } => true,
            TrackedStatus::Faulty { .. } => false,
        }
    }
}

impl IptRelay {
    /// Whether this relay has a current IPT in `Good` state.
    pub fn good_current(&self) -> (r: bool)
        ensures
            r == relay_good_current(self@),
    {
        match self.current_ipt_index() {
            Some(j) => {
                proof {
                    crate::seqx::lemma_first_where_sound(self@.ipts, |x: IptView| ipt_current(x));
                }
                self.ipts[j].is_good()
            },
            None => false,
        }
    }

    /// Whether this relay has a current IPT that is `Good` or
    /// `Establishing`.
    pub fn goodish_current(&self) -> (r: bool)
        ensures
            r == relay_goodish_current(self@),
    {
        match self.current_ipt_index() {
            Some(j) => {
                proof {
                    crate::seqx::lemma_first_where_sound(self@.ipts, |x: IptView| ipt_current(x));
                }
                self.ipts[j].is_goodish()
            },
            None => false,
        }
    }

    /// Whether this relay is past its planned retirement.
    pub fn should_retire(&self, now: u64) -> (r: bool)
        ensures
            r == relay_should_retire(self@, now),
    {
        now > self.planned_retirement
    }

    /// The index of this relay's current IPT, if it has one.
    pub fn current_ipt_index(&self) -> (r: Option<usize>)
        ensures
            match r {
                Some(i) => relay_current_idx(self@) == Some(i as int),
                None => relay_current_idx(self@) is None,
            },
    {
        let mut i: usize = 0;
        while i < self.ipts.len()
            invariant
                i <= self.ipts.len(),
                forall|j: int| 0 <= j < i ==> !ipt_current(#[trigger] self@.ipts[j]),
            decreases self.ipts.len() - i,
        {
            if self.ipts[i].is_current {
                proof {
                    crate::seqx::lemma_first_where_is(
                        self@.ipts,
                        |x: IptView| ipt_current(x),
                        i as int,
                    );
                }
                return Some(i);
            }
            i += 1;
        }
        proof {
            crate::seqx::lemma_first_where_none(self@.ipts, |x: IptView| ipt_current(x));
        }
        None
    }
}

} // verus!
