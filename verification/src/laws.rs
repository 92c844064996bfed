//! The manager's global invariants, proved against the state-machine
//! transitions.
//!
//! Each transition of [`crate::ipt_mgr`] is a spec function of the old
//! state; the lemmas here show that the key-storage invariant and the
//! relay-count cap survive every one of them, that an IPT named by a
//! live published descriptor survives a whole import-and-collect cycle,
//! and that the computed publish set never exceeds the target and names
//! only current, good introduction points.

use vstd::prelude::*;
use crate::ids::{IptLocalId, RelayIds};
use crate::ipt::{ipt_is_good, relay_current, IptRelayView, IptView};
use crate::ipt_mgr::{find_lid, first_rotatable, gc_ipts, gc_relay, gc_relays, good_current_ipts, imported_all, imported_ipt, ipt_has_lid, ipt_keep, ipt_keys_stored, keys_invariant, publish_view, relay_has_lid, relay_keep, relay_rotatable, rotate_result, selected_ipts, status_update_result};
use crate::ipt_set::{em_lookup, ExpiryEntry};
use crate::keystore::Keystore;
use crate::seqx::{lemma_filter_members, lemma_first_where_sound, seq_first_where};

verus! {

// ---------- keys stored for every known IPT ----------

/// Rotating an aged IPT out keeps every IPT's keys stored: it only clears
/// a current mark.
pub proof fn lemma_rotate_preserves_keys(rs: Seq<IptRelayView>, now: u64, ks: Keystore)
    requires
        keys_invariant(rs, ks),
        first_rotatable(rs, now) is Some,
    ensures
        keys_invariant(rotate_result(rs, now), ks),
{
    let k = first_rotatable(rs, now)->Some_0;
    lemma_first_where_sound(rs, |r: IptRelayView| relay_rotatable(r, now));
    lemma_first_where_sound(rs[k].ipts, |x: IptView| crate::ipt::ipt_current(x));
    let new = rotate_result(rs, now);
    assert forall|a: int, b: int|
        0 <= a < new.len() && 0 <= b < new[a].ipts.len() implies ipt_keys_stored(
        ks,
        #[trigger] new[a].ipts[b],
    ) by {
        assert(ipt_keys_stored(ks, rs[a].ipts[b]));
        assert(new[a].ipts[b].lid == rs[a].ipts[b].lid);
        assert(new[a].ipts[b].k_sid == rs[a].ipts[b].k_sid);
        assert(new[a].ipts[b].k_hss_ntor == rs[a].ipts[b].k_hss_ntor);
    }
}

/// Garbage collection keeps every surviving IPT's keys stored: it only
/// drops records.
pub proof fn lemma_gc_preserves_keys(rs: Seq<IptRelayView>, now: u64, ks: Keystore)
    requires
        keys_invariant(rs, ks),
    ensures
        keys_invariant(gc_relays(gc_ipts(rs, now), now), ks),
{
    let mid = gc_ipts(rs, now);
    let new = gc_relays(mid, now);
    lemma_filter_members(mid, |r: IptRelayView| relay_keep(r, now));
    assert forall|a: int, b: int|
        0 <= a < new.len() && 0 <= b < new[a].ipts.len() implies ipt_keys_stored(
        ks,
        #[trigger] new[a].ipts[b],
    ) by {
        let a0 = choose|j: int| 0 <= j < mid.len() && new[a] == mid[j];
        assert(mid[a0] == gc_relay(rs[a0], now));
        lemma_filter_members(rs[a0].ipts, |x: IptView| ipt_keep(x, now));
        let b0 = choose|j: int| 0 <= j < rs[a0].ipts.len() && new[a].ipts[b] == rs[a0].ipts[j];
        assert(ipt_keys_stored(ks, rs[a0].ipts[b0]));
    }
}

/// A status report keeps every IPT's keys stored: it only rewrites status
/// fields.
pub proof fn lemma_status_update_preserves_keys(
    rs: Seq<IptRelayView>,
    lid: IptLocalId,
    st: crate::ipt::IptStatusView,
    now: u64,
    ks: Keystore,
)
    requires
        keys_invariant(rs, ks),
    ensures
        keys_invariant(status_update_result(rs, lid, st, now), ks),
{
    let new = status_update_result(rs, lid, st, now);
    match find_lid(rs, lid) {
        None => {},
        Some((k, j)) => {
            lemma_first_where_sound(rs, |r: IptRelayView| relay_has_lid(r, lid));
            lemma_first_where_sound(rs[k].ipts, |x: IptView| ipt_has_lid(x, lid));
            assert forall|a: int, b: int|
                0 <= a < new.len() && 0 <= b < new[a].ipts.len() implies ipt_keys_stored(
                ks,
                #[trigger] new[a].ipts[b],
            ) by {
                assert(ipt_keys_stored(ks, rs[a].ipts[b]));
                assert(new[a].ipts[b].lid == rs[a].ipts[b].lid);
                assert(new[a].ipts[b].k_sid == rs[a].ipts[b].k_sid);
                assert(new[a].ipts[b].k_hss_ntor == rs[a].ipts[b].k_hss_ntor);
            }
        },
    }
}

/// Importing the publisher's expiry knowledge keeps every IPT's keys
/// stored: it only rewrites expiry fields.
pub proof fn lemma_import_preserves_keys(
    rs: Seq<IptRelayView>,
    m: Seq<ExpiryEntry>,
    ks: Keystore,
)
    requires
        keys_invariant(rs, ks),
    ensures
        keys_invariant(imported_all(rs, m), ks),
{
    let new = imported_all(rs, m);
    assert forall|a: int, b: int|
        0 <= a < new.len() && 0 <= b < new[a].ipts.len() implies ipt_keys_stored(
        ks,
        #[trigger] new[a].ipts[b],
    ) by {
        assert(ipt_keys_stored(ks, rs[a].ipts[b]));
        assert(new[a].ipts[b].lid == rs[a].ipts[b].lid);
        assert(new[a].ipts[b].k_sid == rs[a].ipts[b].k_sid);
        assert(new[a].ipts[b].k_hss_ntor == rs[a].ipts[b].k_hss_ntor);
    }
}

/// Accepting a new relay keeps every IPT's keys stored: the new relay has
/// no IPTs yet.
pub proof fn lemma_add_relay_preserves_keys(
    rs: Seq<IptRelayView>,
    relay: RelayIds,
    planned_retirement: u64,
    ks: Keystore,
)
    requires
        keys_invariant(rs, ks),
    ensures
        keys_invariant(
            rs.push(IptRelayView { relay, planned_retirement, ipts: Seq::empty() }),
            ks,
        ),
{
    let new = rs.push(IptRelayView { relay, planned_retirement, ipts: Seq::empty() });
    assert forall|a: int, b: int|
        0 <= a < new.len() && 0 <= b < new[a].ipts.len() implies ipt_keys_stored(
        ks,
        #[trigger] new[a].ipts[b],
    ) by {
        assert(a < rs.len());
        assert(ipt_keys_stored(ks, rs[a].ipts[b]));
    }
}

// ---------- live published IPTs are retained ----------

/// An IPT named in the shared expiry map with a still-valid descriptor
/// survives a whole manager cycle: importing the map gives it that expiry,
/// and garbage collection keeps anything whose descriptors have not
/// expired.
pub proof fn lemma_published_ipt_retained(
    rs: Seq<IptRelayView>,
    m: Seq<ExpiryEntry>,
    lid: IptLocalId,
    expiry: u64,
    now: u64,
    k: int,
    j: int,
)
    requires
        em_lookup(m, lid) == Some(expiry),
        expiry > now,
        0 <= k < rs.len(),
        0 <= j < rs[k].ipts.len(),
        rs[k].ipts[j].lid == lid,
    ensures
        exists|k2: int, j2: int|
            {
                &&& 0 <= k2 < gc_relays(gc_ipts(imported_all(rs, m), now), now).len()
                &&& 0 <= j2 < gc_relays(gc_ipts(imported_all(rs, m), now), now)[k2].ipts.len()
                &&& (#[trigger] gc_relays(gc_ipts(imported_all(rs, m), now), now)[k2].ipts[j2]).lid
                    == lid
            },
{
    let imp = imported_all(rs, m);
    let ip = imp[k].ipts[j];
    assert(ip == imported_ipt(rs[k].ipts[j], m));
    assert(ip.last_descriptor_expiry_including_slop == Some(expiry));
    assert(ipt_keep(ip, now));
    let mid = gc_ipts(imp, now);
    // The IPT survives the per-relay filter.
    imp[k].ipts.lemma_filter_contains(|x: IptView| ipt_keep(x, now), j);
    let jf = choose|jf: int|
        0 <= jf < mid[k].ipts.len() && mid[k].ipts[jf] == ip;
    // Its relay is nonempty, so it survives the relay filter.
    assert(relay_keep(mid[k], now));
    mid.lemma_filter_contains(|r: IptRelayView| relay_keep(r, now), k);
    let new = gc_relays(mid, now);
    let kf = choose|kf: int| 0 <= kf < new.len() && new[kf] == mid[k];
    assert(new[kf].ipts[jf].lid == lid);
}

// ---------- the publish set is small and names current good IPTs ----------

/// Whether one publish-set entry names the current, good IPT of one of
/// the manager's relays.
pub open spec fn published_entry_sound(
    rs: Seq<IptRelayView>,
    e: crate::ipt_set::IptInSetView,
) -> bool {
    exists|k: int|
        {
            &&& 0 <= k < rs.len()
            &&& crate::ipt::relay_good_current(#[trigger] rs[k])
            &&& relay_current(rs[k]).lid == e.lid
            &&& relay_current(rs[k]).is_current
            &&& ipt_is_good(relay_current(rs[k]))
        }
}

/// Every IPT in the computed publish set is the current IPT of one of the
/// manager's relays and is in `Good` state; and the set holds at most the
/// target number of entries.
pub proof fn lemma_publish_set_sound(rs: Seq<IptRelayView>, now: u64, target: nat)
    ensures
        ({
            match publish_view(rs, now, target) {
                None => true,
                Some(sv) => {
                    &&& sv.ipts.len() <= target || target == 0
                    &&& forall|x: int|
                        0 <= x < sv.ipts.len() ==> #[trigger] published_entry_sound(
                            rs,
                            sv.ipts[x],
                        )
                },
            }
        }),
{
    let pgood = |r: IptRelayView| crate::ipt::relay_good_current(r);
    let g = good_current_ipts(rs);
    match publish_view(rs, now, target) {
        None => {},
        Some(sv) => {
            let sel = selected_ipts(rs, target);
            if target != 0 {
                assert(sel.len() <= target);
            }
            lemma_filter_members(rs, pgood);
            assert forall|x: int|
                0 <= x < sv.ipts.len() implies #[trigger] published_entry_sound(
                rs,
                sv.ipts[x],
            ) by {
                let gi = if g.len() <= target {
                    x
                } else {
                    g.len() - target + x
                };
                assert(sel[x] == g[gi]);
                assert(g[gi] == relay_current(rs.filter(pgood)[gi]));
                let k = choose|k: int|
                    0 <= k < rs.len() && rs.filter(pgood)[gi] == rs[k];
                rs.lemma_filter_pred(pgood, gi);
                assert(crate::ipt::relay_good_current(rs[k]));
                lemma_first_where_sound(rs[k].ipts, |i: IptView| crate::ipt::ipt_current(i));
                assert(sv.ipts[x].lid == sel[x].lid);
            }
        },
    }
}

// ---------- the relay count stays capped ----------

/// Every transition of the relay list keeps its length within the cap of
/// twice the target: rotation and the bookkeeping transitions keep the
/// length, garbage collection can only shrink it, and a relay is accepted
/// only below the cap.
pub proof fn lemma_relay_cap_preserved(
    rs: Seq<IptRelayView>,
    now: u64,
    target: nat,
    lid: IptLocalId,
    st: crate::ipt::IptStatusView,
    m: Seq<ExpiryEntry>,
)
    requires
        rs.len() <= 2 * target,
    ensures
        first_rotatable(rs, now) is Some ==> rotate_result(rs, now).len() <= 2 * target,
        gc_relays(gc_ipts(rs, now), now).len() <= 2 * target,
        status_update_result(rs, lid, st, now).len() <= 2 * target,
        imported_all(rs, m).len() <= 2 * target,
{
    gc_ipts(rs, now).lemma_filter_len(|r: IptRelayView| relay_keep(r, now));
    if first_rotatable(rs, now) is Some {
        lemma_first_where_sound(rs, |r: IptRelayView| relay_rotatable(r, now));
    }
    if find_lid(rs, lid) is Some {
        lemma_first_where_sound(rs, |r: IptRelayView| relay_has_lid(r, lid));
    }
}

} // verus!
